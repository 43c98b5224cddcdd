# mobisca

Supply-chain risk analysis for the third-party SDKs of an Android app, as a
library whose behaviour is specified and proved with Verus.

- `src/` is the verified library:
  - `models` — risk weights, SDK and app profiles, the capped risk score and
    the app score (the highest SDK score);
  - `diff` — drift between a baseline and a current scan;
  - `network` — URLs and IPs found in binary data, screening against a blocklist;
  - `permissions` — sensitive permissions in a binary manifest, scope creep by SDK category;
  - `elf_triage` — suspicious imports, high-entropy sections and endpoints of native libraries;
  - `osv` — OSV answers read into vulnerability signals, and the answer cache;
  - `github` — maintenance status from a repository's last push time (parsed with chrono) judged at a given instant;
  - `text` — character sequences, substring search, de-duplication.
- `app/` is the command-line program: argument parsing, file and network I/O,
  JSON output, and the floating-point entropy measure.
- `tests/` runs the library on concrete inputs.
