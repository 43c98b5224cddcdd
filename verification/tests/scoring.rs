use mobisca::models::{
    AppRiskProfile, CveSignal, MaintenanceStatus, RiskConfig, RiskWeights, SdkRiskProfile,
};

fn cve(id: &str, severity: &str) -> CveSignal {
    CveSignal { id: id.to_string(), severity: severity.to_string() }
}

fn profile(name: &str) -> SdkRiskProfile {
    SdkRiskProfile::new(name.to_string(), "vendor".to_string(), "com.example".to_string())
}

#[test]
fn default_config_has_documented_weights() {
    let c = RiskConfig::default();
    let w = c.weights;
    assert_eq!(w.cve_critical_weight, 40);
    assert_eq!(w.cve_high_weight, 20);
    assert_eq!(w.cve_medium_weight, 10);
    assert_eq!(w.cve_low_weight, 5);
    assert_eq!(w.abandoned_sdk_weight, 30);
    assert_eq!(w.stale_sdk_weight, 15);
    assert_eq!(w.permission_creep_weight, 25);
    assert_eq!(w.suspicious_binary_import_weight, 20);
    assert_eq!(w.packed_binary_weight, 20);
    assert_eq!(w.malicious_network_endpoint_weight, 50);
}

#[test]
fn default_weights_are_zero() {
    let w = RiskWeights::default();
    assert_eq!(w.cve_critical_weight, 0);
    assert_eq!(w.malicious_network_endpoint_weight, 0);
}

#[test]
fn new_profile_is_empty() {
    let p = profile("okhttp");
    assert_eq!(p.name, "okhttp");
    assert_eq!(p.vendor, "vendor");
    assert_eq!(p.namespace, "com.example");
    assert!(p.cves.is_empty());
    assert_eq!(p.maintenance_status, MaintenanceStatus::Unknown);
    assert!(p.permission_creep_flags.is_empty());
    assert_eq!(p.risk_score, 0);
}

#[test]
fn profile_without_signals_scores_zero() {
    let mut p = profile("clean");
    p.calculate_score(&RiskConfig::default());
    assert_eq!(p.risk_score, 0);
}

#[test]
fn severity_labels_are_case_insensitive() {
    // critical 40 + high 20 = 60
    let mut p = profile("a");
    p.cves.push(cve("CVE-1", "CRITICAL"));
    p.cves.push(cve("CVE-2", "High"));
    p.calculate_score(&RiskConfig::default());
    assert_eq!(p.risk_score, 60);
}

#[test]
fn moderate_and_unknown_labels_count_as_medium() {
    // moderate 10 + unknown 10 + low 5 + medium 10 = 35
    let mut p = profile("b");
    p.cves.push(cve("CVE-1", "MODERATE"));
    p.cves.push(cve("CVE-2", "whatever"));
    p.cves.push(cve("CVE-3", "low"));
    p.cves.push(cve("CVE-4", "Medium"));
    p.calculate_score(&RiskConfig::default());
    assert_eq!(p.risk_score, 35);
}

#[test]
fn maintenance_and_flags_add_their_weights() {
    // stale 15 + 1 creep flag 25 + 1 packed binary 20 = 60
    let mut p = profile("c");
    p.maintenance_status = MaintenanceStatus::Stale;
    p.permission_creep_flags.push("flag".to_string());
    p.packed_binaries.push("libx.so".to_string());
    p.calculate_score(&RiskConfig::default());
    assert_eq!(p.risk_score, 60);

    // abandoned 30 + 2 suspicious imports 40 = 70
    let mut q = profile("d");
    q.maintenance_status = MaintenanceStatus::Abandoned;
    q.suspicious_binary_imports.push("dlopen".to_string());
    q.suspicious_binary_imports.push("ptrace".to_string());
    q.calculate_score(&RiskConfig::default());
    assert_eq!(q.risk_score, 70);
}

#[test]
fn score_is_capped_at_100() {
    // two malicious endpoints 100 + critical 40 = 140, capped to 100
    let mut p = profile("e");
    p.malicious_endpoints.push("https://evil.example".to_string());
    p.malicious_endpoints.push("10.1.2.3".to_string());
    p.cves.push(cve("CVE-9", "critical"));
    p.calculate_score(&RiskConfig::default());
    assert_eq!(p.risk_score, 100);
    assert_eq!(p.name, "e");
    assert_eq!(p.cves.len(), 1);
}

#[test]
fn custom_weights_are_used() {
    let mut config = RiskConfig::default();
    config.weights.cve_low_weight = 7;
    config.weights.permission_creep_weight = 3;
    let mut p = profile("f");
    p.cves.push(cve("CVE-1", "LOW"));
    p.permission_creep_flags.push("a".to_string());
    p.permission_creep_flags.push("b".to_string());
    p.calculate_score(&config);
    assert_eq!(p.risk_score, 13);
}

#[test]
fn app_score_is_the_highest_sdk_score() {
    let mut a = profile("a");
    a.risk_score = 30;
    let mut b = profile("b");
    b.risk_score = 85;
    let mut c = profile("c");
    c.risk_score = 10;
    let app = AppRiskProfile::new(
        "app.apk".to_string(),
        vec![a, b, c],
        vec!["android.permission.CAMERA".to_string()],
        vec![],
    );
    assert_eq!(app.total_risk_score, 85);
    assert_eq!(app.app_path, "app.apk");
    assert_eq!(app.sdks.len(), 3);
    assert_eq!(app.global_permissions, vec!["android.permission.CAMERA".to_string()]);
}

#[test]
fn app_without_sdks_scores_zero() {
    let app = AppRiskProfile::new("empty.apk".to_string(), vec![], vec![], vec![]);
    assert_eq!(app.total_risk_score, 0);
}
