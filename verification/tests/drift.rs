use mobisca::diff::build_diff_report;
use mobisca::models::{AppRiskProfile, SdkRiskProfile};

fn sdk(name: &str, score: u32) -> SdkRiskProfile {
    let mut p = SdkRiskProfile::new(name.to_string(), String::new(), String::new());
    p.risk_score = score;
    p
}

fn strings(v: &[&str]) -> Vec<String> {
    v.iter().map(|s| s.to_string()).collect()
}

fn app(path: &str, sdks: Vec<SdkRiskProfile>, perms: &[&str]) -> AppRiskProfile {
    AppRiskProfile::new(path.to_string(), sdks, strings(perms), vec![])
}

#[test]
fn report_lists_added_removed_and_changed_sdks() {
    let baseline = app(
        "old.apk",
        vec![sdk("firebase", 20), sdk("adsdk", 50), sdk("okhttp", 0)],
        &["android.permission.CAMERA"],
    );
    let current = app(
        "new.apk",
        vec![sdk("firebase", 45), sdk("okhttp", 0), sdk("tracker", 70)],
        &["android.permission.CAMERA", "android.permission.READ_SMS"],
    );
    let r = build_diff_report(&baseline, &current);
    assert_eq!(r.baseline_apk, "old.apk");
    assert_eq!(r.current_apk, "new.apk");
    assert_eq!(r.added_sdks, strings(&["tracker"]));
    assert_eq!(r.removed_sdks, strings(&["adsdk"]));
    assert_eq!(r.risk_score_changes.len(), 1);
    assert_eq!(r.risk_score_changes[0].sdk_name, "firebase");
    assert_eq!(r.risk_score_changes[0].baseline_score, 20);
    assert_eq!(r.risk_score_changes[0].current_score, 45);
    assert_eq!(r.added_sensitive_permissions, strings(&["android.permission.READ_SMS"]));
}

#[test]
fn scan_against_itself_has_no_drift() {
    let a = app("same.apk", vec![sdk("x", 10), sdk("y", 90)], &["android.permission.CAMERA"]);
    let r = build_diff_report(&a, &a);
    assert!(r.added_sdks.is_empty());
    assert!(r.removed_sdks.is_empty());
    assert!(r.risk_score_changes.is_empty());
    assert!(r.added_sensitive_permissions.is_empty());
}

#[test]
fn swapping_scans_swaps_added_and_removed() {
    let a = app("a.apk", vec![sdk("x", 1), sdk("y", 2)], &[]);
    let b = app("b.apk", vec![sdk("y", 2), sdk("z", 3)], &[]);
    let ab = build_diff_report(&a, &b);
    let ba = build_diff_report(&b, &a);
    assert_eq!(ab.added_sdks, ba.removed_sdks);
    assert_eq!(ab.removed_sdks, ba.added_sdks);
    assert_eq!(ab.added_sdks, strings(&["z"]));
}

#[test]
fn repeated_names_are_reported_once() {
    let a = app("a.apk", vec![], &[]);
    let b = app("b.apk", vec![sdk("dup", 1), sdk("dup", 1)], &["p", "p"]);
    let r = build_diff_report(&a, &b);
    assert_eq!(r.added_sdks, strings(&["dup"]));
    assert_eq!(r.added_sensitive_permissions, strings(&["p"]));
}

#[test]
fn decreases_are_reported_too() {
    let a = app("a.apk", vec![sdk("lib", 80)], &[]);
    let b = app("b.apk", vec![sdk("lib", 30)], &[]);
    let r = build_diff_report(&a, &b);
    assert_eq!(r.risk_score_changes.len(), 1);
    assert_eq!(r.risk_score_changes[0].baseline_score, 80);
    assert_eq!(r.risk_score_changes[0].current_score, 30);
}
