//! Network endpoints embedded in binary data, and their screening against a
//! blocklist of known bad domains and addresses.
use vstd::prelude::*;

use crate::text::{
    contains_seq, contains_string, decode_utf8_lossy, dedup, dedup_strings, lemma_dedup,
    lemma_filter_no_duplicates, no_duplicates, push_unique, starts_with, str_contains, str_starts_with, utf8_lossy,
};

verus! {

/// URLs: `http` or `https`, a host with a dot and an alphabetic top-level
/// label, then an optional path.
pub const URL_PATTERN: &'static str = "https?://([a-zA-Z0-9.-]+\\.[a-zA-Z]{2,})(/[a-zA-Z0-9.-]*)*";

/// Dotted IPv4-like quads.
pub const IP_PATTERN: &'static str = "\\b(?:[0-9]{1,3}\\.){3}[0-9]{1,3}\\b";

/// Whether `regex::Regex::new` accepts a pattern.
pub uninterp spec fn regex_compiles(pattern: Seq<char>) -> bool;

/// The texts of the successive matches that `regex::Regex::captures_iter`
/// yields for a compiled pattern over a text (whole match of each).
pub uninterp spec fn regex_match_texts(pattern: Seq<char>, text: Seq<char>) -> Seq<Seq<char>>;

/// Compiles `pattern` with `regex::Regex::new` and, when it compiles, collects
/// the whole-match text of each item of `regex::Regex::captures_iter` over
/// `text`. Claimed: `Some` exactly when the pattern compiles, and the matches
/// are a function of the pattern and the text alone.
#[verifier::external_body]
fn find_matches(pattern: &str, text: &str) -> (r: Option<Vec<String>>)
    ensures
        r is Some <==> regex_compiles(pattern@),
        r matches Some(v) ==> v.deep_view() == regex_match_texts(pattern@, text@),
{
    match regex::Regex::new(pattern) {
        Ok(re) => Some(re.captures_iter(text).map(|c| c[0].to_string()).collect()),
        Err(_) => None,
    }
}

/// The match texts of `pattern` over `text`; none when it does not compile.
pub open spec fn pattern_matches(pattern: Seq<char>, text: Seq<char>) -> Seq<Seq<char>> {
    if regex_compiles(pattern) {
        regex_match_texts(pattern, text)
    } else {
        Seq::empty()
    }
}

/// The match texts of `pattern` over `text`.
pub fn matches_of(pattern: &str, text: &str) -> (r: Vec<String>)
    ensures
        r.deep_view() == pattern_matches(pattern@, text@),
{
    match find_matches(pattern, text) {
        Some(v) => v,
        None => Vec::new(),
    }
}

/// The URLs found in the lossy UTF-8 reading of `data`.
pub open spec fn url_candidates(data: Seq<u8>) -> Seq<Seq<char>> {
    pattern_matches(URL_PATTERN@, utf8_lossy(data))
}

/// The dotted quads found in the lossy UTF-8 reading of `data`.
pub open spec fn ip_candidates(data: Seq<u8>) -> Seq<Seq<char>> {
    pattern_matches(IP_PATTERN@, utf8_lossy(data))
}

/// A dotted quad that is no placeholder (`0.`), broadcast (`255.`) or
/// loopback (`127.`) address.
pub open spec fn is_routable_ip(ip: Seq<char>) -> bool {
    !starts_with(ip, "0."@) && !starts_with(ip, "255."@) && !starts_with(ip, "127."@)
}

/// The texts of `v` that start with none of `excluded_prefixes`, in order of first occurrence, each once.
pub(crate) fn dedup_without_prefixes(v: &Vec<String>, excluded_prefixes: &Vec<&str>) -> (r: Vec<String>)
    ensures
        r.deep_view() == dedup(
            v.deep_view().filter(
                |x: Seq<char>|
                    forall|k: int|
                        0 <= k < excluded_prefixes@.len() ==> !starts_with(x, #[trigger] excluded_prefixes@[k]@),
            ),
        ),
{
    let ghost pred = |x: Seq<char>|
        forall|k: int| 0 <= k < excluded_prefixes@.len() ==> !starts_with(x, #[trigger] excluded_prefixes@[k]@);
    let mut r: Vec<String> = Vec::new();
    let mut i: usize = 0;
    while i < v.len()
        invariant
            i <= v.len(),
            pred == (|x: Seq<char>|
                forall|k: int|
                    0 <= k < excluded_prefixes@.len() ==> !starts_with(x, #[trigger] excluded_prefixes@[k]@)),
            r.deep_view() == dedup(v.deep_view().take(i as int).filter(pred)),
        decreases v.len() - i,
    {
        proof {
            reveal_with_fuel(Seq::<_>::filter, 1);
            assert(v.deep_view().take(i + 1).drop_last() =~= v.deep_view().take(i as int));
        }
        let ghost x = v.deep_view()[i as int];
        let ghost before = v.deep_view().take(i as int).filter(pred);
        let mut keep = true;
        let mut j: usize = 0;
        while j < excluded_prefixes.len()
            invariant
                j <= excluded_prefixes@.len(),
                i < v@.len(),
                x == v.deep_view()[i as int],
                keep == (forall|k: int| 0 <= k < j ==> !starts_with(x, #[trigger] excluded_prefixes@[k]@)),
            decreases excluded_prefixes@.len() - j,
        {
            if str_starts_with(v[i].as_str(), excluded_prefixes[j]) {
                keep = false;
            }
            j = j + 1;
        }
        if keep {
            assert(pred(x));
            assert(v.deep_view().take(i + 1).filter(pred) == before.push(x));
            assert(before.push(x).drop_last() =~= before);
            push_unique(&mut r, v[i].clone());
        } else {
            assert(!pred(x));
            assert(v.deep_view().take(i + 1).filter(pred) == before);
        }
        i = i + 1;
    }
    assert(v.deep_view().take(v.len() as int) =~= v.deep_view());
    r
}


/// The URLs and the routable dotted quads found in the lossy UTF-8 reading of
/// `data`, each in order of first occurrence and each once.
pub fn extract_network_strings(data: &[u8]) -> (r: (Vec<String>, Vec<String>))
    ensures
        r.0.deep_view() == dedup(url_candidates(data@)),
        r.1.deep_view() == dedup(ip_candidates(data@).filter(|ip: Seq<char>| is_routable_ip(ip))),
        no_duplicates(r.0.deep_view()),
        no_duplicates(r.1.deep_view()),
        forall|i: int| 0 <= i < r.1.deep_view().len() ==> is_routable_ip(#[trigger] r.1.deep_view()[i]),
{
    let text = decode_utf8_lossy(data);
    let all_urls = matches_of(URL_PATTERN, text.as_str());
    let all_ips = matches_of(IP_PATTERN, text.as_str());
    let urls = dedup_strings(all_urls);
    let excluded: Vec<&str> = vec!["0.", "255.", "127."];
    let ips = dedup_without_prefixes(&all_ips, &excluded);
    proof {
        let p1 = |x: Seq<char>|
            forall|k: int| 0 <= k < excluded@.len() ==> !starts_with(x, #[trigger] excluded@[k]@);
        let p2 = |ip: Seq<char>| is_routable_ip(ip);
        assert forall|x: Seq<char>| #[trigger] p1(x) == p2(x) by {
            assert(excluded@[0]@ == "0."@);
            assert(excluded@[1]@ == "255."@);
            assert(excluded@[2]@ == "127."@);
        }
        assert(p1 =~= p2);
        let f = ip_candidates(data@).filter(p2);
        lemma_dedup(url_candidates(data@));
        lemma_dedup(f);
        assert forall|i: int| 0 <= i < ips.deep_view().len() implies is_routable_ip(
            #[trigger] ips.deep_view()[i],
        ) by {
            let y = ips.deep_view()[i];
            assert(dedup(f)[i] == y);
            assert(dedup(f).contains(y));
            assert(f.contains(y));
            let k = choose|k: int| 0 <= k < f.len() && f[k] == ips.deep_view()[i];
            ip_candidates(data@).lemma_filter_pred(p2, k);
        }
    }
    (urls, ips)
}

/// A URL is flagged when some blocklist entry occurs in it.
pub open spec fn url_flagged(url: Seq<char>, blocklist: Seq<Seq<char>>) -> bool {
    exists|k: int| 0 <= k < blocklist.len() && contains_seq(url, #[trigger] blocklist[k])
}

/// The endpoints to flag: each URL that contains some blocklist entry, in
/// order, then each IP that is itself a blocklist entry, in order.
pub open spec fn flagged_endpoints(
    urls: Seq<Seq<char>>,
    ips: Seq<Seq<char>>,
    blocklist: Seq<Seq<char>>,
) -> Seq<Seq<char>> {
    urls.filter(|u: Seq<char>| url_flagged(u, blocklist)) + ips.filter(
        |ip: Seq<char>| blocklist.contains(ip),
    )
}

/// Whether some blocklist entry occurs in `url`.
fn url_matches_blocklist(url: &String, blocklist: &Vec<String>) -> (b: bool)
    ensures
        b == url_flagged(url@, blocklist.deep_view()),
{
    let mut k: usize = 0;
    while k < blocklist.len()
        invariant
            k <= blocklist.len(),
            forall|j: int| 0 <= j < k ==> !contains_seq(url@, #[trigger] blocklist.deep_view()[j]),
        decreases blocklist.len() - k,
    {
        if str_contains(url.as_str(), blocklist[k].as_str()) {
            assert(contains_seq(url@, blocklist.deep_view()[k as int]));
            return true;
        }
        k = k + 1;
    }
    false
}

/// The URLs and IPs that the blocklist flags: a URL when some blocklisted
/// domain occurs in it, an IP when it is itself blocklisted. The URLs, the
/// IPs and the blocklist are sets: none holds a text twice.
pub fn check_against_blocklist(
    urls: &Vec<String>,
    ips: &Vec<String>,
    blocklist: &Vec<String>,
) -> (flagged: Vec<String>)
    requires
        no_duplicates(urls.deep_view()),
        no_duplicates(ips.deep_view()),
        no_duplicates(blocklist.deep_view()),
    ensures
        flagged.deep_view() == flagged_endpoints(
            urls.deep_view(),
            ips.deep_view(),
            blocklist.deep_view(),
        ),
        (forall|x: Seq<char>| !(urls.deep_view().contains(x) && ips.deep_view().contains(x)))
            ==> no_duplicates(flagged.deep_view()),
{
    proof {
        law_flagged_endpoints_distinct(urls.deep_view(), ips.deep_view(), blocklist.deep_view());
    }
    let ghost bl = blocklist.deep_view();
    let ghost pu = |u: Seq<char>| url_flagged(u, bl);
    let ghost pi = |ip: Seq<char>| bl.contains(ip);
    let mut flagged: Vec<String> = Vec::new();
    let mut i: usize = 0;
    while i < urls.len()
        invariant
            i <= urls.len(),
            bl == blocklist.deep_view(),
            pu == (|u: Seq<char>| url_flagged(u, bl)),
            flagged.deep_view() =~= urls.deep_view().take(i as int).filter(pu),
        decreases urls.len() - i,
    {
        proof {
            reveal_with_fuel(Seq::<_>::filter, 1);
            assert(urls.deep_view().take(i + 1).drop_last() =~= urls.deep_view().take(i as int));
        }
        if url_matches_blocklist(&urls[i], blocklist) {
            flagged.push(urls[i].clone());
        }
        i = i + 1;
    }
    assert(urls.deep_view().take(urls.len() as int) =~= urls.deep_view());
    let ghost first = flagged.deep_view();
    let mut j: usize = 0;
    while j < ips.len()
        invariant
            j <= ips.len(),
            bl == blocklist.deep_view(),
            pi == (|ip: Seq<char>| bl.contains(ip)),
            flagged.deep_view() =~= first + ips.deep_view().take(j as int).filter(pi),
        decreases ips.len() - j,
    {
        proof {
            reveal_with_fuel(Seq::<_>::filter, 1);
            assert(ips.deep_view().take(j + 1).drop_last() =~= ips.deep_view().take(j as int));
        }
        let ghost x = ips.deep_view()[j as int];
        let ghost before = ips.deep_view().take(j as int).filter(pi);
        if contains_string(blocklist, &ips[j]) {
            assert(pi(x));
            assert(ips.deep_view().take(j + 1).filter(pi) == before.push(x));
            let ghost prev = flagged.deep_view();
            let ip = ips[j].clone();
            assert(ip@ == x);
            flagged.push(ip);
            assert(flagged.deep_view() =~= prev.push(x));
            assert(prev =~= first + before);
            assert(flagged.deep_view() =~= first + before.push(x));
        } else {
            assert(!pi(x));
            assert(ips.deep_view().take(j + 1).filter(pi) == before);
        }
        j = j + 1;
    }
    assert(ips.deep_view().take(ips.len() as int) =~= ips.deep_view());
    flagged
}


/// Distinct URLs and distinct IPs, no text being both, are flagged at most once each.
pub proof fn law_flagged_endpoints_distinct(
    urls: Seq<Seq<char>>,
    ips: Seq<Seq<char>>,
    blocklist: Seq<Seq<char>>,
)
    requires
        no_duplicates(urls),
        no_duplicates(ips),
    ensures
        (forall|x: Seq<char>| !(urls.contains(x) && ips.contains(x))) ==> no_duplicates(
            flagged_endpoints(urls, ips, blocklist),
        ),
{
    let pu = |u: Seq<char>| url_flagged(u, blocklist);
    let pi = |ip: Seq<char>| blocklist.contains(ip);
    let a = urls.filter(pu);
    let b = ips.filter(pi);
    lemma_filter_no_duplicates(urls, pu);
    lemma_filter_no_duplicates(ips, pi);
    if forall|x: Seq<char>| !(urls.contains(x) && ips.contains(x)) {
        let all = a + b;
        assert forall|i: int, j: int| 0 <= i < all.len() && 0 <= j < all.len() && i != j implies all[i]
            != all[j] by {
            if i < a.len() && j >= a.len() {
                assert(a.contains(all[i]));
                assert(b.contains(all[j]));
                urls.lemma_filter_contains_rev(pu, all[i]);
                ips.lemma_filter_contains_rev(pi, all[j]);
            } else if j < a.len() && i >= a.len() {
                assert(a.contains(all[j]));
                assert(b.contains(all[i]));
                urls.lemma_filter_contains_rev(pu, all[j]);
                ips.lemma_filter_contains_rev(pi, all[i]);
            } else if i < a.len() {
                assert(all[i] == a[i] && all[j] == a[j]);
            } else {
                assert(all[i] == b[i - a.len()] && all[j] == b[j - a.len()]);
            }
        }
    }
}

/// A larger blocklist flags at least as much: every endpoint flagged by a
/// blocklist is flagged by any blocklist that includes its entries.
pub proof fn law_larger_blocklist_flags_more(
    urls: Seq<Seq<char>>,
    ips: Seq<Seq<char>>,
    blocklist: Seq<Seq<char>>,
    larger: Seq<Seq<char>>,
)
    requires
        forall|x: Seq<char>| blocklist.contains(x) ==> #[trigger] larger.contains(x),
    ensures
        forall|x: Seq<char>| #[trigger]
            flagged_endpoints(urls, ips, blocklist).contains(x) ==> flagged_endpoints(
                urls,
                ips,
                larger,
            ).contains(x),
{
    let pu = |u: Seq<char>| url_flagged(u, blocklist);
    let pi = |ip: Seq<char>| blocklist.contains(ip);
    let qu = |u: Seq<char>| url_flagged(u, larger);
    let qi = |ip: Seq<char>| larger.contains(ip);
    let a = urls.filter(pu);
    let b = ips.filter(pi);
    let c = urls.filter(qu);
    let d = ips.filter(qi);
    assert forall|x: Seq<char>| #[trigger] flagged_endpoints(urls, ips, blocklist).contains(
        x,
    ) implies flagged_endpoints(urls, ips, larger).contains(x) by {
        let all = a + b;
        let k = choose|k: int| 0 <= k < all.len() && all[k] == x;
        if k < a.len() {
            assert(a[k] == x);
            urls.lemma_filter_pred(pu, k);
            assert(a.contains(x));
            urls.lemma_filter_contains_rev(pu, x);
            let m = choose|m: int| 0 <= m < blocklist.len() && contains_seq(x, #[trigger] blocklist[m]);
            assert(blocklist.contains(blocklist[m]));
            assert(larger.contains(blocklist[m]));
            let n = choose|n: int| 0 <= n < larger.len() && larger[n] == blocklist[m];
            assert(url_flagged(x, larger));
            let j = choose|j: int| 0 <= j < urls.len() && urls[j] == x;
            urls.lemma_filter_contains(qu, j);
            let t = choose|t: int| 0 <= t < c.len() && c[t] == x;
            assert((c + d)[t] == x);
        } else {
            assert(b[k - a.len()] == x);
            ips.lemma_filter_pred(pi, k - a.len());
            assert(b.contains(x));
            ips.lemma_filter_contains_rev(pi, x);
            assert(larger.contains(x));
            let j = choose|j: int| 0 <= j < ips.len() && ips[j] == x;
            ips.lemma_filter_contains(qi, j);
            let t = choose|t: int| 0 <= t < d.len() && d[t] == x;
            assert((c + d)[c.len() + t] == x);
        }
    }
}

/// An empty blocklist flags nothing.
pub proof fn law_empty_blocklist_flags_nothing(urls: Seq<Seq<char>>, ips: Seq<Seq<char>>)
    ensures
        flagged_endpoints(urls, ips, Seq::empty()).len() == 0,
{
    let bl: Seq<Seq<char>> = Seq::empty();
    let pu = |u: Seq<char>| url_flagged(u, bl);
    let pi = |ip: Seq<char>| bl.contains(ip);
    urls.lemma_all_neg_filter_empty(pu);
    ips.lemma_all_neg_filter_empty(pi);
}

/// Only given endpoints are flagged: each flagged URL is one of the URLs and
/// contains a blocklist entry, each other flagged item is a blocklisted IP.
pub proof fn law_flagged_endpoints_are_listed(
    urls: Seq<Seq<char>>,
    ips: Seq<Seq<char>>,
    blocklist: Seq<Seq<char>>,
)
    ensures
        forall|x: Seq<char>| #[trigger]
            flagged_endpoints(urls, ips, blocklist).contains(x) ==> (urls.contains(x) && url_flagged(
                x,
                blocklist,
            )) || (ips.contains(x) && blocklist.contains(x)),
{
    let pu = |u: Seq<char>| url_flagged(u, blocklist);
    let pi = |ip: Seq<char>| blocklist.contains(ip);
    let a = urls.filter(pu);
    let b = ips.filter(pi);
    assert forall|x: Seq<char>| #[trigger]
        flagged_endpoints(urls, ips, blocklist).contains(x) implies (urls.contains(x)
        && url_flagged(x, blocklist)) || (ips.contains(x) && blocklist.contains(x)) by {
        let all = a + b;
        let k = choose|k: int| 0 <= k < all.len() && all[k] == x;
        if k < a.len() {
            assert(a[k] == x);
            assert(a.contains(x));
            urls.lemma_filter_contains_rev(pu, x);
            urls.lemma_filter_pred(pu, k);
        } else {
            assert(b[k - a.len()] == x);
            assert(b.contains(x));
            ips.lemma_filter_contains_rev(pi, x);
            ips.lemma_filter_pred(pi, k - a.len());
        }
    }
}

/// A dotted quad found in the data is reported exactly when it starts with
/// none of `0.`, `255.` and `127.`.
pub proof fn law_reported_ips_are_the_routable_ones(data: Seq<u8>, ip: Seq<char>)
    ensures
        ip_candidates(data).contains(ip) ==> (dedup(
            ip_candidates(data).filter(|x: Seq<char>| is_routable_ip(x)),
        ).contains(ip) <==> !starts_with(ip, "0."@) && !starts_with(ip, "255."@) && !starts_with(
            ip,
            "127."@,
        )),
        dedup(ip_candidates(data).filter(|x: Seq<char>| is_routable_ip(x))).contains(ip)
            ==> ip_candidates(data).contains(ip),
{
    let c = ip_candidates(data);
    let pred = |x: Seq<char>| is_routable_ip(x);
    let f = c.filter(pred);
    lemma_dedup(f);
    if f.contains(ip) {
        c.lemma_filter_contains_rev(pred, ip);
        let k = choose|k: int| 0 <= k < f.len() && f[k] == ip;
        c.lemma_filter_pred(pred, k);
    }
    if c.contains(ip) && is_routable_ip(ip) {
        let k = choose|k: int| 0 <= k < c.len() && c[k] == ip;
        c.lemma_filter_contains(pred, k);
    }
}

/// Every URL that contains a blocklist entry is flagged, and every IP that
/// is itself a blocklist entry is flagged.
pub proof fn law_blocklisted_endpoints_are_flagged(
    urls: Seq<Seq<char>>,
    ips: Seq<Seq<char>>,
    blocklist: Seq<Seq<char>>,
    x: Seq<char>,
    entry: Seq<char>,
)
    ensures
        urls.contains(x) && blocklist.contains(entry) && contains_seq(x, entry) ==> flagged_endpoints(
            urls,
            ips,
            blocklist,
        ).contains(x),
        ips.contains(x) && blocklist.contains(x) ==> flagged_endpoints(urls, ips, blocklist).contains(x),
{
    let pu = |u: Seq<char>| url_flagged(u, blocklist);
    let pi = |ip: Seq<char>| blocklist.contains(ip);
    let a = urls.filter(pu);
    let b = ips.filter(pi);
    if urls.contains(x) && blocklist.contains(entry) && contains_seq(x, entry) {
        let m = choose|m: int| 0 <= m < blocklist.len() && blocklist[m] == entry;
        assert(contains_seq(x, blocklist[m]));
        assert(url_flagged(x, blocklist));
        let j = choose|j: int| 0 <= j < urls.len() && urls[j] == x;
        urls.lemma_filter_contains(pu, j);
        let t = choose|t: int| 0 <= t < a.len() && a[t] == x;
        assert((a + b)[t] == x);
    }
    if ips.contains(x) && blocklist.contains(x) {
        let j = choose|j: int| 0 <= j < ips.len() && ips[j] == x;
        ips.lemma_filter_contains(pi, j);
        let t = choose|t: int| 0 <= t < b.len() && b[t] == x;
        assert((a + b)[a.len() + t] == x);
    }
}

} // verus!
