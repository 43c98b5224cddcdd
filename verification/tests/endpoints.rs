use mobisca::network::{check_against_blocklist, extract_network_strings};
use mobisca::text::dedup_strings;

fn strings(v: &[&str]) -> Vec<String> {
    v.iter().map(|s| s.to_string()).collect()
}

#[test]
fn urls_and_ips_are_extracted_once_each() {
    let data = b"GET https://api.tracker.io/v1/collect then http://cdn.example.com and again https://api.tracker.io/v1/collect from 10.2.3.4 or 10.2.3.4";
    let (urls, ips) = extract_network_strings(data);
    assert_eq!(urls, strings(&["https://api.tracker.io/v1/collect", "http://cdn.example.com"]));
    assert_eq!(ips, strings(&["10.2.3.4"]));
}

#[test]
fn placeholder_broadcast_and_loopback_ips_are_dropped() {
    let data = b"0.0.0.0 255.255.255.255 127.0.0.1 192.168.1.20";
    let (urls, ips) = extract_network_strings(data);
    assert!(urls.is_empty());
    assert_eq!(ips, strings(&["192.168.1.20"]));
}

#[test]
fn invalid_utf8_between_endpoints_is_tolerated() {
    let mut data: Vec<u8> = vec![0xff, 0xfe, 0x00];
    data.extend_from_slice(b"https://evil.example.net/x");
    data.extend_from_slice(&[0xc3, 0x28]);
    data.extend_from_slice(b" 8.8.8.8");
    let (urls, ips) = extract_network_strings(&data);
    assert_eq!(urls, strings(&["https://evil.example.net/x"]));
    assert_eq!(ips, strings(&["8.8.8.8"]));
}

#[test]
fn blocklist_flags_urls_containing_a_domain_and_listed_ips() {
    let urls = strings(&["https://ads.badcorp.com/track", "https://good.org/"]);
    let ips = strings(&["6.6.6.6", "1.2.3.4"]);
    let blocklist = strings(&["badcorp.com", "6.6.6.6"]);
    let flagged = check_against_blocklist(&urls, &ips, &blocklist);
    assert_eq!(flagged, strings(&["https://ads.badcorp.com/track", "6.6.6.6"]));
}

#[test]
fn url_matching_two_domains_is_flagged_once() {
    let urls = strings(&["https://x.evil.com/y.bad.net"]);
    let flagged = check_against_blocklist(&urls, &vec![], &strings(&["evil.com", "bad.net"]));
    assert_eq!(flagged, strings(&["https://x.evil.com/y.bad.net"]));
}

#[test]
fn empty_blocklist_flags_nothing() {
    let flagged = check_against_blocklist(&strings(&["https://a.com"]), &strings(&["1.1.1.1"]), &vec![]);
    assert!(flagged.is_empty());
}

#[test]
fn ip_must_match_a_blocklist_entry_exactly() {
    let flagged = check_against_blocklist(&vec![], &strings(&["6.6.6.60"]), &strings(&["6.6.6.6"]));
    assert!(flagged.is_empty());
}

#[test]
fn blocklist_domains_are_deduplicated() {
    let d = dedup_strings(strings(&["a.com", "b.com", "a.com"]));
    assert_eq!(d, strings(&["a.com", "b.com"]));
}
