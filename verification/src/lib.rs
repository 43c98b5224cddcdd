//! Supply-chain risk analysis for the third-party SDKs of an Android app:
//! risk scoring, permission scope creep, network endpoint screening,
//! ELF triage of native libraries and drift reports between two scans.
pub mod text;
pub mod models;
pub mod diff;
pub mod network;
pub mod permissions;
pub mod elf_triage;
pub mod osv;
pub mod github;
