use mobisca::permissions::{check_scope_creep, get_sensitive_permissions_in_app};

fn strings(v: &[&str]) -> Vec<String> {
    v.iter().map(|s| s.to_string()).collect()
}

fn utf16le(s: &str) -> Vec<u8> {
    s.encode_utf16().flat_map(|u| u.to_le_bytes()).collect()
}

#[test]
fn permissions_found_in_utf8_text() {
    let manifest = b"\x03\x00junk android.permission.CAMERA more android.permission.INTERNET android.permission.ACCESS_FINE_LOCATION";
    let found = get_sensitive_permissions_in_app(manifest);
    assert_eq!(
        found,
        strings(&["android.permission.CAMERA", "android.permission.ACCESS_FINE_LOCATION"])
    );
}

#[test]
fn permissions_found_in_utf16_text() {
    let mut manifest = vec![0x03u8, 0x00, 0x08, 0x00];
    manifest.extend(utf16le("android.permission.READ_SMS"));
    manifest.extend(utf16le("android.permission.SYSTEM_ALERT_WINDOW"));
    let found = get_sensitive_permissions_in_app(&manifest);
    assert_eq!(
        found,
        strings(&["android.permission.READ_SMS", "android.permission.SYSTEM_ALERT_WINDOW"])
    );
}

#[test]
fn manifest_without_sensitive_permissions() {
    let found = get_sensitive_permissions_in_app(b"android.permission.INTERNET");
    assert!(found.is_empty());
}

#[test]
fn ads_may_use_location_only() {
    let perms = strings(&[
        "android.permission.ACCESS_FINE_LOCATION",
        "android.permission.CAMERA",
        "android.permission.ACCESS_COARSE_LOCATION",
    ]);
    let flags = check_scope_creep("Ads", &perms);
    assert_eq!(
        flags,
        strings(&["App requests android.permission.CAMERA which is unjustified for an SDK in 'Ads' category"])
    );
}

#[test]
fn platform_may_use_phone_state() {
    let perms = strings(&["android.permission.READ_PHONE_STATE", "android.permission.READ_CONTACTS"]);
    let flags = check_scope_creep("Platform", &perms);
    assert_eq!(
        flags,
        strings(&["App requests android.permission.READ_CONTACTS which is unjustified for an SDK in 'Platform' category"])
    );
}

#[test]
fn analytics_justifies_nothing() {
    let perms = strings(&["android.permission.ACCESS_FINE_LOCATION", "android.permission.READ_PHONE_STATE"]);
    let flags = check_scope_creep("Analytics", &perms);
    assert_eq!(flags.len(), 2);
    assert_eq!(
        flags[0],
        "App requests android.permission.ACCESS_FINE_LOCATION which is unjustified for an SDK in 'Analytics' category"
    );
}

#[test]
fn no_permissions_no_flags() {
    assert!(check_scope_creep("Networking", &vec![]).is_empty());
}

#[test]
fn lone_surrogates_do_not_hide_permissions() {
    // A lone high surrogate right before the text, and one at the very end.
    let mut manifest = vec![0x00u8, 0xd8];
    manifest.extend(utf16le("android.permission.RECORD_AUDIO"));
    manifest.extend([0x00u8, 0xd8]);
    let found = get_sensitive_permissions_in_app(&manifest);
    assert_eq!(found, strings(&["android.permission.RECORD_AUDIO"]));
}

#[test]
fn appending_bytes_keeps_found_permissions() {
    let a = b"xx android.permission.READ_CALL_LOG \xe2\x82".to_vec();
    let mut b = a.clone();
    b.extend_from_slice(b"\xac android.permission.WRITE_CALL_LOG");
    let fa = get_sensitive_permissions_in_app(&a);
    let fb = get_sensitive_permissions_in_app(&b);
    assert_eq!(fa, strings(&["android.permission.READ_CALL_LOG"]));
    for p in &fa {
        assert!(fb.contains(p));
    }
    assert_eq!(fb.len(), 2);
}
