use mobisca::elf_triage::triage_elf;

/// A minimal little-endian ELF64 header with no program or section headers.
fn bare_elf64() -> Vec<u8> {
    let mut h = vec![0u8; 64];
    h[0..4].copy_from_slice(b"\x7fELF");
    h[4] = 2; // 64-bit
    h[5] = 1; // little endian
    h[6] = 1; // version
    h[16] = 3; // ET_DYN
    h[18] = 0xb7; // AArch64
    h[20] = 1; // version
    h[52] = 64; // e_ehsize
    h[54] = 56; // e_phentsize
    h[58] = 64; // e_shentsize
    h
}

#[test]
fn non_elf_bytes_are_not_triaged() {
    let r = triage_elf("libfoo.so".to_string(), b"not an elf at all", |_d: &[u8]| false);
    assert!(r.is_none());
}

#[test]
fn bare_elf_yields_endpoints_and_no_imports() {
    let mut bytes = bare_elf64();
    bytes.extend_from_slice(b" https://c2.badhost.xyz/beacon 0.0.0.1 255.1.1.1 127.0.0.1 45.33.2.1 45.33.2.1 ");
    let r = triage_elf("libnative.so".to_string(), &bytes, |_d: &[u8]| true).expect("an ELF object");
    assert_eq!(r.file_name, "libnative.so");
    assert!(r.suspicious_imports.is_empty());
    assert!(r.high_entropy_sections.is_empty());
    assert_eq!(r.extracted_urls, vec!["https://c2.badhost.xyz/beacon".to_string()]);
    // Only placeholder and broadcast prefixes are dropped here; loopback stays.
    let mut ips = r.extracted_ips.clone();
    ips.sort();
    assert_eq!(ips, vec!["127.0.0.1".to_string(), "45.33.2.1".to_string()]);
}
