use mobisca::github::status_from_pushed_at;
use mobisca::models::{CveSignal, MaintenanceStatus};
use mobisca::osv::{
    begin_lookup, cve_signals_from_vulns, record_query_outcome, LookupStep, OsvCache, OsvVulnerability,
};

fn signal(id: &str, sev: &str) -> CveSignal {
    CveSignal { id: id.to_string(), severity: sev.to_string() }
}

#[test]
fn osv_entries_become_signals() {
    let vulns = vec![
        OsvVulnerability { id: Some("GHSA-1".to_string()), database_severity: Some("high".to_string()) },
        OsvVulnerability { id: None, database_severity: None },
        OsvVulnerability { id: Some("CVE-2".to_string()), database_severity: Some("Moderate".to_string()) },
    ];
    let s = cve_signals_from_vulns(&vulns);
    assert_eq!(s.len(), 3);
    assert_eq!((s[0].id.as_str(), s[0].severity.as_str()), ("GHSA-1", "HIGH"));
    assert_eq!((s[1].id.as_str(), s[1].severity.as_str()), ("UNKNOWN", "MEDIUM"));
    assert_eq!((s[2].id.as_str(), s[2].severity.as_str()), ("CVE-2", "MODERATE"));
}

#[test]
fn cache_gives_back_what_was_recorded() {
    let mut cache = OsvCache::new();
    assert!(cache.get("com.squareup:okhttp").is_none());
    cache.insert("com.squareup:okhttp", vec![signal("CVE-1", "HIGH")]);
    cache.insert("com.google:gson", vec![]);
    let got = cache.get("com.squareup:okhttp").unwrap();
    assert_eq!(got.len(), 1);
    assert_eq!(got[0].id, "CVE-1");
    assert!(cache.get("com.google:gson").unwrap().is_empty());
    cache.insert("com.squareup:okhttp", vec![]);
    assert!(cache.get("com.squareup:okhttp").unwrap().is_empty());
    assert_eq!(cache.entries().len(), 2);
}

#[test]
fn failed_query_is_recorded_as_no_vulnerabilities() {
    let mut cache = OsvCache::new();
    let r = record_query_outcome(&mut cache, "pkg", None);
    assert!(r.is_empty());
    assert!(cache.get("pkg").unwrap().is_empty());
    let r2 = record_query_outcome(&mut cache, "other", Some(vec![signal("CVE-7", "LOW")]));
    assert_eq!(r2.len(), 1);
    assert_eq!(cache.get("other").unwrap()[0].severity, "LOW");
}

// 2024-01-01T00:00:00Z is 1_704_067_200 seconds after the epoch.
const JAN_1_2024: i64 = 1_704_067_200;
const DAY: i64 = 86_400;

#[test]
fn push_time_is_parsed_and_aged() {
    let pushed = Some("2024-01-01T00:00:00Z");
    assert_eq!(status_from_pushed_at(pushed, (JAN_1_2024, 0)), Ok(MaintenanceStatus::Active));
    assert_eq!(status_from_pushed_at(pushed, (JAN_1_2024 + 180 * DAY, 0)), Ok(MaintenanceStatus::Active));
    assert_eq!(status_from_pushed_at(pushed, (JAN_1_2024 + 181 * DAY, 0)), Ok(MaintenanceStatus::Stale));
    assert_eq!(status_from_pushed_at(pushed, (JAN_1_2024 + 365 * DAY, 0)), Ok(MaintenanceStatus::Stale));
    assert_eq!(status_from_pushed_at(pushed, (JAN_1_2024 + 366 * DAY, 0)), Ok(MaintenanceStatus::Abandoned));
}

#[test]
fn partial_days_are_not_counted() {
    // One nanosecond short of 181 days is still 180 whole days.
    let pushed = Some("2024-01-01T00:00:00.000000001Z");
    assert_eq!(status_from_pushed_at(pushed, (JAN_1_2024 + 181 * DAY, 0)), Ok(MaintenanceStatus::Active));
    assert_eq!(status_from_pushed_at(pushed, (JAN_1_2024 + 181 * DAY, 1)), Ok(MaintenanceStatus::Stale));
}

#[test]
fn offsets_are_converted_to_utc() {
    // 02:00 at +02:00 is midnight UTC.
    let pushed = Some("2024-01-01T02:00:00+02:00");
    assert_eq!(status_from_pushed_at(pushed, (JAN_1_2024 + 366 * DAY, 0)), Ok(MaintenanceStatus::Abandoned));
    assert_eq!(status_from_pushed_at(pushed, (JAN_1_2024 + 365 * DAY, 0)), Ok(MaintenanceStatus::Stale));
}

#[test]
fn push_in_the_future_counts_as_active() {
    let pushed = Some("2030-01-01T00:00:00Z");
    assert_eq!(status_from_pushed_at(pushed, (JAN_1_2024, 0)), Ok(MaintenanceStatus::Active));
}

#[test]
fn missing_or_unreadable_push_time() {
    assert_eq!(status_from_pushed_at(None, (JAN_1_2024, 0)), Ok(MaintenanceStatus::Unknown));
    assert_eq!(status_from_pushed_at(Some("last tuesday"), (JAN_1_2024, 0)), Err(()));
    assert_eq!(
        status_from_pushed_at(Some("2000-01-01T00:00:00Z"), (JAN_1_2024, 0)),
        Ok(MaintenanceStatus::Abandoned)
    );
}

#[test]
fn lookup_steps() {
    let mut cache = OsvCache::new();
    assert!(matches!(begin_lookup(&cache, "pkg"), LookupStep::Query));
    record_query_outcome(&mut cache, "pkg", Some(vec![signal("CVE-3", "CRITICAL")]));
    match begin_lookup(&cache, "pkg") {
        LookupStep::Cached(v) => assert_eq!(v[0].id, "CVE-3"),
        LookupStep::Query => panic!("expected a cached answer"),
    }
}

#[test]
fn leap_second_push_time() {
    // 2017-01-01T00:00:00Z is 1_483_228_800; the push is half a second before it.
    let pushed = Some("2016-12-31T23:59:60.5Z");
    let midnight: i64 = 1_483_228_800;
    assert_eq!(status_from_pushed_at(pushed, (midnight + 181 * DAY, 0)), Ok(MaintenanceStatus::Active));
    assert_eq!(status_from_pushed_at(pushed, (midnight + 181 * DAY + 1, 0)), Ok(MaintenanceStatus::Stale));
}
