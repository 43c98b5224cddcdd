//! Supply-chain drift between a baseline scan and a current scan of an app.
use vstd::prelude::*;

use crate::models::{AppRiskProfile, DiffReport, RiskDrift, SdkRiskProfile};
use crate::text::{contains_string, dedup, lemma_dedup, no_duplicates, push_unique};

verus! {

/// The texts of `a` that do not occur in `b`, in order of first occurrence, each once.
pub open spec fn missing_from(a: Seq<Seq<char>>, b: Seq<Seq<char>>) -> Seq<Seq<char>> {
    dedup(a.filter(|x: Seq<char>| !b.contains(x)))
}

/// The names of a list of SDK profiles.
pub open spec fn sdk_names(sdks: Seq<SdkRiskProfile>) -> Seq<Seq<char>> {
    sdks.map_values(|s: SdkRiskProfile| s.name@)
}

/// The score of the first SDK in `sdks` named `name`, if any.
pub open spec fn first_score_named(sdks: Seq<SdkRiskProfile>, name: Seq<char>) -> Option<u32>
    decreases sdks.len(),
{
    if sdks.len() == 0 {
        None
    } else if sdks[0].name@ == name {
        Some(sdks[0].risk_score)
    } else {
        first_score_named(sdks.drop_first(), name)
    }
}

/// A score change as plain values: SDK name, baseline score, current score.
pub open spec fn drift_view(d: RiskDrift) -> (Seq<char>, u32, u32) {
    (d.sdk_name@, d.baseline_score, d.current_score)
}

/// For each SDK of `current`, in order, whose name is found in `baseline` with
/// a different score (the first SDK of that name in `baseline` counts), the change.
pub open spec fn score_changes(baseline: Seq<SdkRiskProfile>, current: Seq<SdkRiskProfile>) -> Seq<
    (Seq<char>, u32, u32),
>
    decreases current.len(),
{
    if current.len() == 0 {
        Seq::empty()
    } else {
        let rest = score_changes(baseline, current.drop_last());
        let c = current.last();
        match first_score_named(baseline, c.name@) {
            Some(b) => if b != c.risk_score {
                rest.push((c.name@, b, c.risk_score))
            } else {
                rest
            },
            None => rest,
        }
    }
}

/// The texts of `v` that do not occur in `other`, in order of first occurrence, each once.
fn difference(v: &Vec<String>, other: &Vec<String>) -> (r: Vec<String>)
    ensures
        r.deep_view() == missing_from(v.deep_view(), other.deep_view()),
{
    let ghost pred = |x: Seq<char>| !other.deep_view().contains(x);
    let mut r: Vec<String> = Vec::new();
    let mut i: usize = 0;
    while i < v.len()
        invariant
            i <= v.len(),
            pred == (|x: Seq<char>| !other.deep_view().contains(x)),
            r.deep_view() == dedup(v.deep_view().take(i as int).filter(pred)),
        decreases v.len() - i,
    {
        proof {
            let t = v.deep_view().take(i + 1);
            assert(t.drop_last() =~= v.deep_view().take(i as int));
            assert(t.last() == v.deep_view()[i as int]);
        }
        proof {
            reveal_with_fuel(Seq::<_>::filter, 1);
        }
        let ghost x = v.deep_view()[i as int];
        let ghost before = v.deep_view().take(i as int).filter(pred);
        if !contains_string(other, &v[i]) {
            assert(pred(x));
            assert(v.deep_view().take(i + 1).filter(pred) == before.push(x));
            assert(before.push(x).drop_last() =~= before);
            assert(v[i as int]@ == x);
            push_unique(&mut r, v[i].clone());
        } else {
            assert(!pred(x));
            assert(v.deep_view().take(i + 1).filter(pred) == before);
        }
        i = i + 1;
    }
    assert(v.deep_view().take(v.len() as int) =~= v.deep_view());
    r
}

/// The names of a list of SDK profiles, as strings.
fn names_of(sdks: &Vec<SdkRiskProfile>) -> (r: Vec<String>)
    ensures
        r.deep_view() == sdk_names(sdks@),
{
    let mut r: Vec<String> = Vec::new();
    let mut i: usize = 0;
    while i < sdks.len()
        invariant
            i <= sdks.len(),
            r.deep_view() =~= sdk_names(sdks@).take(i as int),
        decreases sdks.len() - i,
    {
        let n = sdks[i].name.clone();
        proof {
            assert(sdk_names(sdks@)[i as int] == n@);
            assert(sdk_names(sdks@).take(i + 1) =~= sdk_names(sdks@).take(i as int).push(n@));
        }
        r.push(n);
        assert(r.deep_view() =~= sdk_names(sdks@).take(i + 1));
        i = i + 1;
    }
    r
}

/// The score of the first SDK in `sdks` named `name`, if any.
fn find_score(sdks: &Vec<SdkRiskProfile>, name: &String) -> (r: Option<u32>)
    ensures
        r == first_score_named(sdks@, name@),
{
    let mut i: usize = 0;
    assert(sdks@.skip(0) =~= sdks@);
    while i < sdks.len()
        invariant
            i <= sdks.len(),
            first_score_named(sdks@, name@) == first_score_named(sdks@.skip(i as int), name@),
        decreases sdks.len() - i,
    {
        assert(sdks@.skip(i as int)[0] == sdks@[i as int]);
        if sdks[i].name == *name {
            return Some(sdks[i].risk_score);
        }
        assert(sdks@.skip(i as int).drop_first() =~= sdks@.skip(i + 1));
        i = i + 1;
    }
    None
}

/// Compares a baseline scan with a current one: the SDKs added and removed
/// (by name), the score changes of SDKs present in both, and the sensitive
/// permissions requested now but not before.
pub fn build_diff_report(baseline: &AppRiskProfile, current: &AppRiskProfile) -> (r: DiffReport)
    ensures
        r.baseline_apk == baseline.app_path,
        r.current_apk == current.app_path,
        r.added_sdks.deep_view() == missing_from(sdk_names(current.sdks@), sdk_names(baseline.sdks@)),
        r.removed_sdks.deep_view() == missing_from(sdk_names(baseline.sdks@), sdk_names(current.sdks@)),
        r.risk_score_changes@.map_values(|d: RiskDrift| drift_view(d)) == score_changes(
            baseline.sdks@,
            current.sdks@,
        ),
        r.added_sensitive_permissions.deep_view() == missing_from(
            current.global_permissions.deep_view(),
            baseline.global_permissions.deep_view(),
        ),
{
    let b_names = names_of(&baseline.sdks);
    let c_names = names_of(&current.sdks);
    let added_sdks = difference(&c_names, &b_names);
    let removed_sdks = difference(&b_names, &c_names);

    let mut changes: Vec<RiskDrift> = Vec::new();
    let mut i: usize = 0;
    while i < current.sdks.len()
        invariant
            i <= current.sdks.len(),
            changes@.map_values(|d: RiskDrift| drift_view(d)) =~= score_changes(
                baseline.sdks@,
                current.sdks@.take(i as int),
            ),
        decreases current.sdks.len() - i,
    {
        proof {
            assert(current.sdks@.take(i + 1).drop_last() =~= current.sdks@.take(i as int));
            assert(current.sdks@.take(i + 1).last() == current.sdks@[i as int]);
        }
        let c = &current.sdks[i];
        match find_score(&baseline.sdks, &c.name) {
            Some(b) => {
                if b != c.risk_score {
                    changes.push(
                        RiskDrift {
                            sdk_name: c.name.clone(),
                            baseline_score: b,
                            current_score: c.risk_score,
                        },
                    );
                }
            },
            None => {},
        }
        i = i + 1;
    }
    assert(current.sdks@.take(current.sdks.len() as int) =~= current.sdks@);

    let added_perms = difference(&current.global_permissions, &baseline.global_permissions);
    DiffReport {
        baseline_apk: baseline.app_path.clone(),
        current_apk: current.app_path.clone(),
        added_sdks,
        removed_sdks,
        risk_score_changes: changes,
        added_sensitive_permissions: added_perms,
    }
}


/// A text is missing from `b` exactly when `a` holds it and `b` does not;
/// the result holds no text twice.
pub proof fn lemma_missing_from(a: Seq<Seq<char>>, b: Seq<Seq<char>>)
    ensures
        no_duplicates(missing_from(a, b)),
        forall|x: Seq<char>| #[trigger]
            missing_from(a, b).contains(x) <==> (a.contains(x) && !b.contains(x)),
{
    let pred = |x: Seq<char>| !b.contains(x);
    let f = a.filter(pred);
    lemma_dedup(f);
    assert forall|x: Seq<char>| #[trigger]
        missing_from(a, b).contains(x) <==> (a.contains(x) && !b.contains(x)) by {
        if f.contains(x) {
            a.lemma_filter_contains_rev(pred, x);
            let k = choose|k: int| 0 <= k < f.len() && f[k] == x;
            a.lemma_filter_pred(pred, k);
        }
        if a.contains(x) && !b.contains(x) {
            let k = choose|k: int| 0 <= k < a.len() && a[k] == x;
            a.lemma_filter_contains(pred, k);
        }
    }
}

/// Nothing is missing from a list compared with itself.
proof fn lemma_missing_from_self(a: Seq<Seq<char>>)
    ensures
        missing_from(a, a).len() == 0,
{
    lemma_missing_from(a, a);
    if missing_from(a, a).len() > 0 {
        assert(missing_from(a, a).contains(missing_from(a, a)[0]));
    }
}

/// In a list of SDKs with distinct names, the first SDK named like the
/// `k`-th one is the `k`-th one.
proof fn lemma_first_score_named_distinct(sdks: Seq<SdkRiskProfile>, k: int)
    requires
        no_duplicates(sdk_names(sdks)),
        0 <= k < sdks.len(),
    ensures
        first_score_named(sdks, sdks[k].name@) == Some(sdks[k].risk_score),
    decreases sdks.len(),
{
    if k > 0 {
        let rest = sdks.drop_first();
        assert(sdk_names(sdks)[0] == sdks[0].name@);
        assert(sdk_names(sdks)[k] == sdks[k].name@);
        assert(sdk_names(rest) =~= sdk_names(sdks).drop_first());
        assert(rest[k - 1] == sdks[k]);
        lemma_first_score_named_distinct(rest, k - 1);
    }
}

/// Comparing SDKs (with distinct names) against themselves finds no change.
proof fn lemma_no_score_changes_with_self(sdks: Seq<SdkRiskProfile>, n: int)
    requires
        no_duplicates(sdk_names(sdks)),
        0 <= n <= sdks.len(),
    ensures
        score_changes(sdks, sdks.take(n)).len() == 0,
    decreases n,
{
    if n > 0 {
        let t = sdks.take(n);
        assert(t.drop_last() =~= sdks.take(n - 1));
        lemma_no_score_changes_with_self(sdks, n - 1);
        lemma_first_score_named_distinct(sdks, n - 1);
    }
}

/// A scan compared with itself shows no drift: no SDK added or removed, no
/// score change and no new permission. This needs the SDK names of the scan
/// to be distinct: with two SDKs of one name and different scores, the later
/// one is compared with the first one and reported as changed.
pub proof fn law_no_drift_against_itself(p: AppRiskProfile)
    requires
        no_duplicates(sdk_names(p.sdks@)),
    ensures
        missing_from(sdk_names(p.sdks@), sdk_names(p.sdks@)).len() == 0,
        score_changes(p.sdks@, p.sdks@).len() == 0,
        missing_from(p.global_permissions.deep_view(), p.global_permissions.deep_view()).len() == 0,
{
    lemma_missing_from_self(sdk_names(p.sdks@));
    lemma_missing_from_self(p.global_permissions.deep_view());
    lemma_no_score_changes_with_self(p.sdks@, p.sdks@.len() as int);
    assert(p.sdks@.take(p.sdks@.len() as int) =~= p.sdks@);
}

/// The SDKs a report lists as added are exactly those named in the current
/// scan and not in the baseline, each once; those it lists as removed are
/// exactly those named in the baseline and not in the current scan. So
/// swapping the two scans swaps the added and the removed SDKs.
pub proof fn law_added_and_removed_sdks(baseline: AppRiskProfile, current: AppRiskProfile)
    ensures
        forall|x: Seq<char>| #[trigger]
            missing_from(sdk_names(current.sdks@), sdk_names(baseline.sdks@)).contains(x) <==> (
            sdk_names(current.sdks@).contains(x) && !sdk_names(baseline.sdks@).contains(x)),
        forall|x: Seq<char>| #[trigger]
            missing_from(sdk_names(baseline.sdks@), sdk_names(current.sdks@)).contains(x) <==> (
            sdk_names(baseline.sdks@).contains(x) && !sdk_names(current.sdks@).contains(x)),
        no_duplicates(missing_from(sdk_names(current.sdks@), sdk_names(baseline.sdks@))),
        no_duplicates(missing_from(sdk_names(baseline.sdks@), sdk_names(current.sdks@))),
{
    lemma_missing_from(sdk_names(current.sdks@), sdk_names(baseline.sdks@));
    lemma_missing_from(sdk_names(baseline.sdks@), sdk_names(current.sdks@));
}

/// The first SDK named `name` decides the lookup.
proof fn lemma_first_score_named_at(sdks: Seq<SdkRiskProfile>, name: Seq<char>, j: int)
    requires
        0 <= j < sdks.len(),
        sdks[j].name@ == name,
        forall|i: int| 0 <= i < j ==> sdks[i].name@ != name,
    ensures
        first_score_named(sdks, name) == Some(sdks[j].risk_score),
    decreases sdks.len(),
{
    if j > 0 {
        let rest = sdks.drop_first();
        assert forall|i: int| 0 <= i < j - 1 implies rest[i].name@ != name by {
            assert(rest[i] == sdks[i + 1]);
        }
        lemma_first_score_named_at(rest, name, j - 1);
    }
}

/// `j` is the first SDK of `sdks` named `name`.
pub open spec fn is_first_named(sdks: Seq<SdkRiskProfile>, j: int, name: Seq<char>) -> bool {
    &&& 0 <= j < sdks.len()
    &&& sdks[j].name@ == name
    &&& forall|i: int| 0 <= i < j ==> sdks[i].name@ != name
}

/// One SDK of the current scan with a changed score is reported.
proof fn lemma_change_reported(
    baseline: Seq<SdkRiskProfile>,
    current: Seq<SdkRiskProfile>,
    k: int,
    j: int,
)
    requires
        0 <= k < current.len(),
        is_first_named(baseline, j, current[k].name@),
        baseline[j].risk_score != current[k].risk_score,
    ensures
        score_changes(baseline, current).contains(
            (current[k].name@, baseline[j].risk_score, current[k].risk_score),
        ),
    decreases current.len(),
{
    let e = (current[k].name@, baseline[j].risk_score, current[k].risk_score);
    let rest = current.drop_last();
    let r = score_changes(baseline, rest);
    let all = score_changes(baseline, current);
    lemma_first_score_named_at(baseline, current[k].name@, j);
    if k < current.len() - 1 {
        assert(rest[k] == current[k]);
        lemma_change_reported(baseline, rest, k, j);
        let m = choose|m: int| 0 <= m < r.len() && r[m] == e;
        assert(all[m] == e);
    } else {
        assert(all[all.len() - 1] == e);
    }
}

/// Every SDK of the current scan whose name is found in the baseline with
/// a different score, whatever the scores, is reported with the score of
/// the first baseline SDK of that name and its current score.
pub proof fn law_every_score_change_is_reported(
    baseline: Seq<SdkRiskProfile>,
    current: Seq<SdkRiskProfile>,
)
    ensures
        forall|k: int, j: int|
            0 <= k < current.len() && #[trigger] is_first_named(baseline, j, current[k].name@)
                && baseline[j].risk_score != current[k].risk_score ==> score_changes(
                baseline,
                current,
            ).contains((current[k].name@, baseline[j].risk_score, current[k].risk_score)),
{
    assert forall|k: int, j: int|
        0 <= k < current.len() && #[trigger] is_first_named(baseline, j, current[k].name@)
            && baseline[j].risk_score != current[k].risk_score implies score_changes(
        baseline,
        current,
    ).contains((current[k].name@, baseline[j].risk_score, current[k].risk_score)) by {
        lemma_change_reported(baseline, current, k, j);
    }
}

/// Every reported score change names an SDK of the current scan, carries
/// its current score, and differs from the baseline score.
pub proof fn law_score_changes_differ(baseline: Seq<SdkRiskProfile>, current: Seq<SdkRiskProfile>)
    ensures
        forall|i: int| 0 <= i < score_changes(baseline, current).len() ==> {
            let d = #[trigger] score_changes(baseline, current)[i];
            &&& d.1 != d.2
            &&& first_score_named(baseline, d.0) == Some(d.1)
            &&& exists|k: int| 0 <= k < current.len() && current[k].name@ == d.0
                && current[k].risk_score == d.2
        },
    decreases current.len(),
{
    if current.len() > 0 {
        let rest = current.drop_last();
        law_score_changes_differ(baseline, rest);
        let r = score_changes(baseline, rest);
        assert forall|i: int| 0 <= i < score_changes(baseline, current).len() implies {
            let d = #[trigger] score_changes(baseline, current)[i];
            &&& d.1 != d.2
            &&& first_score_named(baseline, d.0) == Some(d.1)
            &&& exists|k: int| 0 <= k < current.len() && current[k].name@ == d.0
                && current[k].risk_score == d.2
        } by {
            let d = score_changes(baseline, current)[i];
            if i < r.len() {
                assert(d == r[i]);
                let k = choose|k: int| 0 <= k < rest.len() && rest[k].name@ == d.0
                    && rest[k].risk_score == d.2;
                assert(current[k] == rest[k]);
            } else {
                assert(current[current.len() - 1] == current.last());
            }
        }
    }
}

} // verus!
