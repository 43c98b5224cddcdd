//! Triage of native ELF libraries: suspicious dynamic imports, sections that
//! look packed or encrypted, and embedded network endpoints.
use vstd::prelude::*;

use crate::network::{dedup_without_prefixes, matches_of, pattern_matches, IP_PATTERN};
use crate::text::{
    decode_utf8_lossy, dedup, dedup_strings, lemma_dedup, lemma_filter_no_duplicates, no_duplicates, starts_with,
    str_eq, utf8_lossy,
};

verus! {

/// A section header of an ELF file: its name as resolved in the section-name
/// string table (if it resolves), its type, and its file offset and size.
#[derive(Debug)]
pub struct ElfSection {
    pub name: Option<String>,
    pub sh_type: u32,
    pub offset: u64,
    pub size: u64,
}

/// What the triage reads of an ELF file: the names of its dynamic symbols as
/// resolved in the dynamic string table, and its section headers.
#[derive(Debug)]
pub struct ElfImage {
    pub dynamic_symbol_names: Vec<Option<String>>,
    pub sections: Vec<ElfSection>,
}

/// An ELF section header as plain values.
pub struct ElfSectionView {
    pub name: Option<Seq<char>>,
    pub sh_type: u32,
    pub offset: u64,
    pub size: u64,
}

/// An ELF file as plain values.
pub struct ElfImageView {
    pub dynamic_symbol_names: Seq<Option<Seq<char>>>,
    pub sections: Seq<ElfSectionView>,
}

/// The text of an optional string.
pub open spec fn opt_view(o: Option<String>) -> Option<Seq<char>> {
    match o {
        Some(s) => Some(s@),
        None => None,
    }
}

impl View for ElfSection {
    type V = ElfSectionView;

    open spec fn view(&self) -> ElfSectionView {
        ElfSectionView {
            name: opt_view(self.name),
            sh_type: self.sh_type,
            offset: self.offset,
            size: self.size,
        }
    }
}

impl View for ElfImage {
    type V = ElfImageView;

    open spec fn view(&self) -> ElfImageView {
        ElfImageView {
            dynamic_symbol_names: self.dynamic_symbol_names@.map_values(|o: Option<String>| opt_view(o)),
            sections: self.sections@.map_values(|s: ElfSection| s@),
        }
    }
}

/// What `goblin::Object::parse` yields for a file, read as an `ElfImage`:
/// `None` when the bytes are no ELF object (or fail to parse).
pub uninterp spec fn elf_image_of(bytes: Seq<u8>) -> Option<ElfImageView>;

/// Parses `bytes` with `goblin::Object::parse`; for an ELF object, reads the
/// dynamic symbol names through the dynamic string table and the section
/// headers with their names through the section-name string table. Claimed:
/// the result is a function of the bytes alone.
#[verifier::external_body]
fn read_elf(bytes: &[u8]) -> (r: Option<ElfImage>)
    ensures
        match r {
            Some(img) => elf_image_of(bytes@) == Some(img@),
            None => elf_image_of(bytes@) is None,
        },
{
    match goblin::Object::parse(bytes) {
        Ok(goblin::Object::Elf(elf)) => Some(ElfImage {
            dynamic_symbol_names: elf.dynsyms.iter().map(|s| elf.dynstrtab.get_at(s.st_name).map(String::from)).collect(),
            sections: elf.section_headers.iter().map(|h| ElfSection {
                name: elf.shdr_strtab.get_at(h.sh_name).map(String::from),
                sh_type: h.sh_type,
                offset: h.sh_offset,
                size: h.sh_size,
            }).collect(),
        }),
        _ => None,
    }
}

/// The ELF section type of program-defined contents (`SHT_PROGBITS`).
pub const SHT_PROGBITS: u32 = 1;

/// URLs, as the triage looks for them.
pub const ELF_URL_PATTERN: &'static str = "https?://[a-zA-Z0-9.-]+\\.[a-zA-Z]{2,}(/[a-zA-Z0-9.-]*)*";

/// The result of triaging one native library.
#[derive(Debug)]
pub struct ElfTriageResult {
    pub file_name: String,
    pub suspicious_imports: Vec<String>,
    pub high_entropy_sections: Vec<String>,
    pub extracted_urls: Vec<String>,
    pub extracted_ips: Vec<String>,
}

/// Imports that hint at dynamic loading, debugging, shell or socket use, or
/// JNI entry points, in the order they are reported.
pub open spec fn suspicious_import_names() -> Seq<Seq<char>> {
    seq![
        "dlopen"@,
        "ptrace"@,
        "system"@,
        "socket"@,
        "connect"@,
        "execve"@,
        "JNI_OnLoad"@,
        "FindClass"@,
        "GetMethodID"@,
    ]
}

/// The suspicious imports as string slices.
fn suspicious_import_list() -> (v: Vec<&'static str>)
    ensures
        v@.map_values(|s: &str| s@) == suspicious_import_names(),
{
    let v: Vec<&'static str> = vec![
        "dlopen",
        "ptrace",
        "system",
        "socket",
        "connect",
        "execve",
        "JNI_OnLoad",
        "FindClass",
        "GetMethodID",
    ];
    assert(v@.map_values(|s: &str| s@) =~= suspicious_import_names());
    v
}

/// Some dynamic symbol of the image is named `name`.
pub open spec fn imports(img: ElfImageView, name: Seq<char>) -> bool {
    img.dynamic_symbol_names.contains(Some(name))
}

/// The suspicious names among the image's dynamic symbols, in list order.
pub open spec fn suspicious_imports_of(img: ElfImageView) -> Seq<Seq<char>> {
    suspicious_import_names().filter(|n: Seq<char>| imports(img, n))
}

/// A section whose entropy is measured: program data with a resolvable name,
/// lying within the file, and larger than 1 KiB.
pub open spec fn is_entropy_candidate(s: ElfSectionView, file_len: nat) -> bool {
    &&& s.sh_type == SHT_PROGBITS
    &&& s.name is Some
    &&& s.offset + s.size <= file_len
    &&& s.size > 1024
}

/// The bytes of a section within the file.
pub open spec fn section_bytes(file: Seq<u8>, s: ElfSectionView) -> Seq<u8> {
    file.subrange(s.offset as int, s.offset + s.size)
}

/// `verdict` is a possible answer of `is_high_entropy` for the bytes of section `s`.
pub open spec fn entropy_verdict<F: Fn(&[u8]) -> bool>(
    is_high_entropy: F,
    file: Seq<u8>,
    s: ElfSectionView,
    verdict: bool,
) -> bool {
    exists|data: &[u8]|
        data@ == section_bytes(file, s) && #[trigger] call_ensures(is_high_entropy, (data,), verdict)
}

/// The names of the candidate sections, in order, whose verdict is `true`.
pub open spec fn high_entropy_names(
    sections: Seq<ElfSectionView>,
    file_len: nat,
    verdicts: Seq<bool>,
) -> Seq<Seq<char>>
    decreases sections.len(),
{
    if sections.len() == 0 {
        Seq::empty()
    } else {
        let rest = high_entropy_names(sections.drop_last(), file_len, verdicts);
        let s = sections.last();
        if is_entropy_candidate(s, file_len) && verdicts[sections.len() - 1] {
            rest.push(s.name->0)
        } else {
            rest
        }
    }
}

/// The routable dotted quads (neither `0.` nor `255.`) among `ips`.
pub open spec fn non_placeholder_ips(ips: Seq<Seq<char>>) -> Seq<Seq<char>> {
    ips.filter(|ip: Seq<char>| !starts_with(ip, "0."@) && !starts_with(ip, "255."@))
}

/// Whether some dynamic symbol is named `name`.
fn has_import(img: &ElfImage, name: &str) -> (b: bool)
    ensures
        b == imports(img@, name@),
{
    let ghost names = img@.dynamic_symbol_names;
    let mut i: usize = 0;
    while i < img.dynamic_symbol_names.len()
        invariant
            i <= img.dynamic_symbol_names@.len(),
            names == img@.dynamic_symbol_names,
            forall|k: int| 0 <= k < i ==> names[k] != Some(name@),
        decreases img.dynamic_symbol_names@.len() - i,
    {
        match &img.dynamic_symbol_names[i] {
            Some(s) => {
                if str_eq(s.as_str(), name) {
                    assert(names[i as int] == Some(name@));
                    return true;
                }
            },
            None => {},
        }
        i = i + 1;
    }
    false
}

/// The suspicious imports of an image, in list order.
fn find_suspicious_imports(img: &ElfImage) -> (r: Vec<String>)
    ensures
        r.deep_view() == suspicious_imports_of(img@),
{
    let list = suspicious_import_list();
    let ghost all = suspicious_import_names();
    let ghost pred = |n: Seq<char>| imports(img@, n);
    let mut r: Vec<String> = Vec::new();
    let mut i: usize = 0;
    while i < list.len()
        invariant
            i <= list@.len(),
            list@.map_values(|s: &str| s@) == all,
            all == suspicious_import_names(),
            pred == (|n: Seq<char>| imports(img@, n)),
            r.deep_view() =~= all.take(i as int).filter(pred),
        decreases list@.len() - i,
    {
        proof {
            reveal_with_fuel(Seq::<_>::filter, 1);
            assert(all.take(i + 1).drop_last() =~= all.take(i as int));
            assert(all[i as int] == list@[i as int]@);
        }
        if has_import(img, list[i]) {
            let s = String::from_str(list[i]);
            let ghost prev = r.deep_view();
            r.push(s);
            assert(r.deep_view() =~= prev.push(all[i as int]));
        }
        i = i + 1;
    }
    assert(all.take(all.len() as int) =~= all);
    r
}


/// The names of the candidate sections that `is_high_entropy` flags, with the
/// verdicts given, one per section (`false` for sections not measured).
fn find_high_entropy_sections<F: Fn(&[u8]) -> bool>(
    img: &ElfImage,
    bytes: &[u8],
    is_high_entropy: &F,
) -> (r: (Vec<String>, Ghost<Seq<bool>>))
    requires
        forall|data: &[u8]| #[trigger] call_requires(*is_high_entropy, (data,)),
    ensures
        r.1@.len() == img@.sections.len(),
        forall|k: int|
            0 <= k < img@.sections.len() && is_entropy_candidate(
                #[trigger] img@.sections[k],
                bytes@.len(),
            ) ==> entropy_verdict(*is_high_entropy, bytes@, img@.sections[k], r.1@[k]),
        r.0.deep_view() == high_entropy_names(img@.sections, bytes@.len(), r.1@),
{
    let ghost secs = img@.sections;
    let ghost mut verdicts: Seq<bool> = Seq::empty();
    let mut names: Vec<String> = Vec::new();
    let mut i: usize = 0;
    while i < img.sections.len()
        invariant
            i <= img.sections@.len(),
            secs == img@.sections,
            forall|data: &[u8]| #[trigger] call_requires(*is_high_entropy, (data,)),
            verdicts.len() == i,
            forall|k: int|
                0 <= k < i && is_entropy_candidate(#[trigger] secs[k], bytes@.len())
                    ==> entropy_verdict(*is_high_entropy, bytes@, secs[k], verdicts[k]),
            names.deep_view() == high_entropy_names(secs.take(i as int), bytes@.len(), verdicts),
        decreases img.sections@.len() - i,
    {
        let sec = &img.sections[i];
        let ghost sv = secs[i as int];
        proof {
            assert(sv == sec@);
            assert(secs.take(i + 1).drop_last() =~= secs.take(i as int));
            assert(secs.take(i + 1).last() == sv);
        }
        let in_file = (sec.offset as u128) + (sec.size as u128) <= (bytes.len() as u128);
        let mut verdict = false;
        if sec.sh_type == SHT_PROGBITS && sec.name.is_some() && in_file && sec.size > 1024 {
            let start: usize = sec.offset as usize;
            let end: usize = (sec.offset + sec.size) as usize;
            let data = vstd::slice::slice_subrange(bytes, start, end);
            verdict = is_high_entropy(data);
            proof {
                assert(data@ == section_bytes(bytes@, sv));
                assert(entropy_verdict(*is_high_entropy, bytes@, sv, verdict));
            }
            if verdict {
                match &sec.name {
                    Some(n) => {
                        names.push(n.clone());
                    },
                    None => {},
                }
            }
        }
        proof {
            let nv = verdicts.push(verdict);
            assert forall|k: int|
                0 <= k < i + 1 && is_entropy_candidate(#[trigger] secs[k], bytes@.len())
                    implies entropy_verdict(*is_high_entropy, bytes@, secs[k], nv[k]) by {
                if k < i {
                    assert(nv[k] == verdicts[k]);
                }
            }
            lemma_high_entropy_names_prefix(secs.take(i as int), bytes@.len(), verdicts, nv);
            verdicts = nv;
        }
        i = i + 1;
    }
    assert(secs.take(secs.len() as int) =~= secs);
    (names, Ghost(verdicts))
}

/// Extending the verdicts past the sections considered changes nothing.
proof fn lemma_high_entropy_names_prefix(
    sections: Seq<ElfSectionView>,
    file_len: nat,
    v1: Seq<bool>,
    v2: Seq<bool>,
)
    requires
        sections.len() <= v1.len(),
        v1.len() <= v2.len(),
        forall|k: int| 0 <= k < v1.len() ==> v1[k] == v2[k],
    ensures
        high_entropy_names(sections, file_len, v1) == high_entropy_names(sections, file_len, v2),
    decreases sections.len(),
{
    if sections.len() > 0 {
        lemma_high_entropy_names_prefix(sections.drop_last(), file_len, v1, v2);
    }
}

/// Triages a native library: the suspicious symbols it imports, the names of
/// its program-data sections over 1 KiB that `is_high_entropy` judges packed
/// or encrypted, and the URLs and IPs (other than `0.` and `255.` ones) in
/// its bytes, each once. `None` when the bytes are no ELF object.
///
/// `is_high_entropy` decides on a section's bytes (their Shannon entropy
/// above 7.5 bits per byte, in the scanner).
pub fn triage_elf<F: Fn(&[u8]) -> bool>(
    file_name: String,
    bytes: &[u8],
    is_high_entropy: F,
) -> (r: Option<ElfTriageResult>)
    requires
        forall|data: &[u8]| #[trigger] call_requires(is_high_entropy, (data,)),
    ensures
        r is Some <==> elf_image_of(bytes@) is Some,
        r matches Some(res) ==> {
            let img = elf_image_of(bytes@)->0;
            let text = utf8_lossy(bytes@);
            &&& res.file_name == file_name
            &&& res.suspicious_imports.deep_view() == suspicious_imports_of(img)
            &&& exists|verdicts: Seq<bool>| {
                &&& verdicts.len() == img.sections.len()
                &&& forall|k: int|
                    0 <= k < img.sections.len() && is_entropy_candidate(
                        #[trigger] img.sections[k],
                        bytes@.len(),
                    ) ==> entropy_verdict(is_high_entropy, bytes@, img.sections[k], verdicts[k])
                &&& res.high_entropy_sections.deep_view() == high_entropy_names(
                    img.sections,
                    bytes@.len(),
                    verdicts,
                )
            }
            &&& res.extracted_urls.deep_view() == dedup(pattern_matches(ELF_URL_PATTERN@, text))
            &&& res.extracted_ips.deep_view() == dedup(
                non_placeholder_ips(pattern_matches(IP_PATTERN@, text)),
            )
        },
{
    let img = match read_elf(bytes) {
        Some(img) => img,
        None => {
            return None;
        },
    };
    let suspicious_imports = find_suspicious_imports(&img);
    let (high_entropy_sections, verdicts) = find_high_entropy_sections(&img, bytes, &is_high_entropy);

    let text = decode_utf8_lossy(bytes);
    let urls = dedup_strings(matches_of(ELF_URL_PATTERN, text.as_str()));
    let excluded: Vec<&str> = vec!["0.", "255."];
    let ips = dedup_without_prefixes(&matches_of(IP_PATTERN, text.as_str()), &excluded);
    proof {
        let p1 = |x: Seq<char>|
            forall|k: int| 0 <= k < excluded@.len() ==> !starts_with(x, #[trigger] excluded@[k]@);
        let p2 = |ip: Seq<char>| !starts_with(ip, "0."@) && !starts_with(ip, "255."@);
        assert forall|x: Seq<char>| #[trigger] p1(x) == p2(x) by {
            assert(excluded@[0]@ == "0."@);
            assert(excluded@[1]@ == "255."@);
        }
        assert(p1 =~= p2);
        let v = verdicts@;
        assert(v.len() == img@.sections.len());
    }
    Some(
        ElfTriageResult {
            file_name,
            suspicious_imports,
            high_entropy_sections,
            extracted_urls: urls,
            extracted_ips: ips,
        },
    )
}


/// The endpoints a triage reports are each listed once, and no reported IP
/// starts with `0.` or `255.`.
pub proof fn law_triage_endpoints_once(text: Seq<char>)
    ensures
        no_duplicates(dedup(pattern_matches(ELF_URL_PATTERN@, text))),
        no_duplicates(dedup(non_placeholder_ips(pattern_matches(IP_PATTERN@, text)))),
        forall|ip: Seq<char>| #[trigger]
            dedup(non_placeholder_ips(pattern_matches(IP_PATTERN@, text))).contains(ip) ==> !starts_with(
                ip,
                "0."@,
            ) && !starts_with(ip, "255."@),
{
    let ips = pattern_matches(IP_PATTERN@, text);
    let pred = |ip: Seq<char>| !starts_with(ip, "0."@) && !starts_with(ip, "255."@);
    let f = ips.filter(pred);
    lemma_dedup(pattern_matches(ELF_URL_PATTERN@, text));
    lemma_dedup(f);
    assert forall|ip: Seq<char>| #[trigger] dedup(f).contains(ip) implies !starts_with(ip, "0."@)
        && !starts_with(ip, "255."@) by {
        assert(f.contains(ip));
        let k = choose|k: int| 0 <= k < f.len() && f[k] == ip;
        ips.lemma_filter_pred(pred, k);
    }
}

/// No suspicious import is listed twice.
proof fn lemma_suspicious_import_names_distinct()
    ensures
        no_duplicates(suspicious_import_names()),
{
    reveal_strlit("dlopen");
    reveal_strlit("ptrace");
    reveal_strlit("system");
    reveal_strlit("socket");
    reveal_strlit("connect");
    reveal_strlit("execve");
    reveal_strlit("JNI_OnLoad");
    reveal_strlit("FindClass");
    reveal_strlit("GetMethodID");
    let s = suspicious_import_names();
    assert(s[0][0] == 'd' && s[1][0] == 'p' && s[2][0] == 's' && s[3][0] == 's');
    assert(s[4][0] == 'c' && s[5][0] == 'e' && s[6][0] == 'J' && s[7][0] == 'F');
    assert(s[8][0] == 'G' && s[2][1] == 'y' && s[3][1] == 'o');
    assert forall|i: int, j: int| 0 <= i < s.len() && 0 <= j < s.len() && i != j implies s[i]
        != s[j] by {
        assert(i == 0 || i == 1 || i == 2 || i == 3 || i == 4 || i == 5 || i == 6 || i == 7 || i
            == 8);
        assert(j == 0 || j == 1 || j == 2 || j == 3 || j == 4 || j == 5 || j == 6 || j == 7 || j
            == 8);
    }
}

/// The suspicious imports of a library are reported once each, and each is
/// a listed suspicious name that the library imports.
pub proof fn law_suspicious_imports_are_listed_once(img: ElfImageView)
    ensures
        no_duplicates(suspicious_imports_of(img)),
        forall|n: Seq<char>| #[trigger]
            suspicious_imports_of(img).contains(n) ==> suspicious_import_names().contains(n)
                && imports(img, n),
{
    let pred = |n: Seq<char>| imports(img, n);
    lemma_suspicious_import_names_distinct();
    lemma_filter_no_duplicates(suspicious_import_names(), pred);
    let f = suspicious_import_names().filter(pred);
    assert forall|n: Seq<char>| #[trigger] f.contains(n) implies suspicious_import_names().contains(n)
        && imports(img, n) by {
        suspicious_import_names().lemma_filter_contains_rev(pred, n);
        let k = choose|k: int| 0 <= k < f.len() && f[k] == n;
        suspicious_import_names().lemma_filter_pred(pred, k);
    }
}

/// The name is one of the imports the triage treats as suspicious:
/// `dlopen`, `ptrace`, `system`, `socket`, `connect`, `execve`,
/// `JNI_OnLoad`, `FindClass` or `GetMethodID`.
pub open spec fn is_suspicious_name(name: Seq<char>) -> bool {
    ||| name == "dlopen"@
    ||| name == "ptrace"@
    ||| name == "system"@
    ||| name == "socket"@
    ||| name == "connect"@
    ||| name == "execve"@
    ||| name == "JNI_OnLoad"@
    ||| name == "FindClass"@
    ||| name == "GetMethodID"@
}

/// A library that imports `dlopen`, `ptrace`, `system`, `socket`,
/// `connect`, `execve`, `JNI_OnLoad`, `FindClass` or `GetMethodID` has that
/// name among its suspicious imports; and every suspicious import reported
/// is one of these names and is imported by the library.
pub proof fn law_suspicious_imports_are_exactly_the_listed_names(img: ElfImageView, name: Seq<char>)
    ensures
        is_suspicious_name(name) && img.dynamic_symbol_names.contains(Some(name))
            ==> suspicious_imports_of(img).contains(name),
        suspicious_imports_of(img).contains(name) ==> is_suspicious_name(name)
            && img.dynamic_symbol_names.contains(Some(name)),
{
    let s = suspicious_import_names();
    let pred = |n: Seq<char>| imports(img, n);
    law_suspicious_imports_are_listed_once(img);
    assert forall|k: int| 0 <= k < s.len() implies is_suspicious_name(#[trigger] s[k]) by {
        assert(k == 0 || k == 1 || k == 2 || k == 3 || k == 4 || k == 5 || k == 6 || k == 7 || k
            == 8);
    }
    if suspicious_imports_of(img).contains(name) {
        let k = choose|k: int| 0 <= k < s.len() && s[k] == name;
        assert(is_suspicious_name(s[k]));
    }
    if is_suspicious_name(name) && img.dynamic_symbol_names.contains(Some(name)) {
        let k: int = if name == "dlopen"@ {
            0
        } else if name == "ptrace"@ {
            1
        } else if name == "system"@ {
            2
        } else if name == "socket"@ {
            3
        } else if name == "connect"@ {
            4
        } else if name == "execve"@ {
            5
        } else if name == "JNI_OnLoad"@ {
            6
        } else if name == "FindClass"@ {
            7
        } else {
            8
        };
        assert(s[k] == name);
        s.lemma_filter_contains(pred, k);
    }
}

/// A dotted quad found in a library's text is reported exactly when it
/// starts with neither `0.` nor `255.`.
pub proof fn law_triage_ips_are_the_non_placeholder_ones(text: Seq<char>, ip: Seq<char>)
    ensures
        pattern_matches(IP_PATTERN@, text).contains(ip) ==> (dedup(
            non_placeholder_ips(pattern_matches(IP_PATTERN@, text)),
        ).contains(ip) <==> !starts_with(ip, "0."@) && !starts_with(ip, "255."@)),
{
    let c = pattern_matches(IP_PATTERN@, text);
    let pred = |x: Seq<char>| !starts_with(x, "0."@) && !starts_with(x, "255."@);
    let f = c.filter(pred);
    lemma_dedup(f);
    if f.contains(ip) {
        let k = choose|k: int| 0 <= k < f.len() && f[k] == ip;
        c.lemma_filter_pred(pred, k);
    }
    if c.contains(ip) && pred(ip) {
        let k = choose|k: int| 0 <= k < c.len() && c[k] == ip;
        c.lemma_filter_contains(pred, k);
    }
}

/// A section's entropy is measured exactly when it holds program data
/// (section type 1), its name resolves, it lies within the file and it is
/// larger than 1024 bytes.
pub proof fn law_entropy_candidates(s: ElfSectionView, file_len: nat)
    ensures
        is_entropy_candidate(s, file_len) <==> s.sh_type == 1 && s.name is Some && s.offset + s.size
            <= file_len && s.size > 1024,
{
}

} // verus!
