//! The risk model: weights, SDK and app profiles, and the scores derived
//! from the signals collected for each SDK.
use vstd::prelude::*;

use crate::text::{str_eq, to_lowercase, unicode_lowercase};

verus! {

/// Points that each kind of risk signal adds to an SDK's score.
#[derive(Debug, Clone, Copy, PartialEq, Eq, Structural)]
pub struct RiskWeights {
    pub cve_critical_weight: u32,
    pub cve_high_weight: u32,
    pub cve_medium_weight: u32,
    pub cve_low_weight: u32,
    pub abandoned_sdk_weight: u32,
    pub stale_sdk_weight: u32,
    pub permission_creep_weight: u32,
    pub suspicious_binary_import_weight: u32,
    pub packed_binary_weight: u32,
    pub malicious_network_endpoint_weight: u32,
}

impl Default for RiskWeights {
    /// All weights zero.
    fn default() -> (w: Self)
        ensures
            w == (RiskWeights {
                cve_critical_weight: 0,
                cve_high_weight: 0,
                cve_medium_weight: 0,
                cve_low_weight: 0,
                abandoned_sdk_weight: 0,
                stale_sdk_weight: 0,
                permission_creep_weight: 0,
                suspicious_binary_import_weight: 0,
                packed_binary_weight: 0,
                malicious_network_endpoint_weight: 0,
            }),
    {
        RiskWeights {
            cve_critical_weight: 0,
            cve_high_weight: 0,
            cve_medium_weight: 0,
            cve_low_weight: 0,
            abandoned_sdk_weight: 0,
            stale_sdk_weight: 0,
            permission_creep_weight: 0,
            suspicious_binary_import_weight: 0,
            packed_binary_weight: 0,
            malicious_network_endpoint_weight: 0,
        }
    }
}

/// The scoring configuration.
#[derive(Debug, Clone, Copy, PartialEq, Eq, Structural)]
pub struct RiskConfig {
    pub weights: RiskWeights,
}

/// The weights used when no configuration is given.
pub open spec fn default_weights() -> RiskWeights {
    RiskWeights {
        cve_critical_weight: 40,
        cve_high_weight: 20,
        cve_medium_weight: 10,
        cve_low_weight: 5,
        abandoned_sdk_weight: 30,
        stale_sdk_weight: 15,
        permission_creep_weight: 25,
        suspicious_binary_import_weight: 20,
        packed_binary_weight: 20,
        malicious_network_endpoint_weight: 50,
    }
}

impl Default for RiskConfig {
    fn default() -> (c: Self)
        ensures
            c.weights == default_weights(),
    {
        RiskConfig {
            weights: RiskWeights {
                cve_critical_weight: 40,
                cve_high_weight: 20,
                cve_medium_weight: 10,
                cve_low_weight: 5,
                abandoned_sdk_weight: 30,
                stale_sdk_weight: 15,
                permission_creep_weight: 25,
                suspicious_binary_import_weight: 20,
                packed_binary_weight: 20,
                malicious_network_endpoint_weight: 50,
            },
        }
    }
}

/// A known vulnerability of an SDK and its severity label.
#[derive(Debug)]
pub struct CveSignal {
    pub id: String,
    pub severity: String,
}

impl Clone for CveSignal {
    fn clone(&self) -> (res: Self)
        ensures
            res == *self,
    {
        CveSignal { id: self.id.clone(), severity: self.severity.clone() }
    }
}

/// How recently an SDK's source repository saw activity.
#[derive(Debug, Clone, Copy, PartialEq, Eq, Structural)]
pub enum MaintenanceStatus {
    Active,
    /// No push in the last 6 to 12 months.
    Stale,
    /// No push in over 12 months.
    Abandoned,
    Unknown,
}

/// The risk signals found for one SDK and the score computed from them.
#[derive(Debug)]
pub struct SdkRiskProfile {
    pub name: String,
    pub vendor: String,
    pub namespace: String,
    pub cves: Vec<CveSignal>,
    pub maintenance_status: MaintenanceStatus,
    pub permission_creep_flags: Vec<String>,
    pub suspicious_binary_imports: Vec<String>,
    pub packed_binaries: Vec<String>,
    pub malicious_endpoints: Vec<String>,
    /// Composite score, 0 to 100.
    pub risk_score: u32,
}

/// Points for a CVE whose severity label, lowercased, is `lowered`:
/// unrecognised labels count as medium.
pub open spec fn severity_points(lowered: Seq<char>, w: RiskWeights) -> u32 {
    if lowered == "critical"@ {
        w.cve_critical_weight
    } else if lowered == "high"@ {
        w.cve_high_weight
    } else if lowered == "medium"@ || lowered == "moderate"@ {
        w.cve_medium_weight
    } else if lowered == "low"@ {
        w.cve_low_weight
    } else {
        w.cve_medium_weight
    }
}

/// Sum of the points of a list of CVE severity labels.
pub open spec fn cve_points(severities: Seq<Seq<char>>, w: RiskWeights) -> int
    decreases severities.len(),
{
    if severities.len() == 0 {
        0
    } else {
        cve_points(severities.drop_last(), w) + severity_points(
            unicode_lowercase(severities.last()),
            w,
        ) as int
    }
}

/// Points for the maintenance status.
pub open spec fn maintenance_points(m: MaintenanceStatus, w: RiskWeights) -> int {
    match m {
        MaintenanceStatus::Abandoned => w.abandoned_sdk_weight as int,
        MaintenanceStatus::Stale => w.stale_sdk_weight as int,
        _ => 0,
    }
}

/// The severity labels of a list of CVEs.
pub open spec fn severities(cves: Seq<CveSignal>) -> Seq<Seq<char>> {
    cves.map_values(|c: CveSignal| c.severity@)
}

/// The uncapped score: the sum of the points of all signals.
pub open spec fn raw_score(p: SdkRiskProfile, w: RiskWeights) -> int {
    cve_points(severities(p.cves@), w) + maintenance_points(p.maintenance_status, w)
        + p.permission_creep_flags@.len() * w.permission_creep_weight
        + p.suspicious_binary_imports@.len() * w.suspicious_binary_import_weight
        + p.packed_binaries@.len() * w.packed_binary_weight
        + p.malicious_endpoints@.len() * w.malicious_network_endpoint_weight
}

/// The score capped at 100.
pub open spec fn capped(x: int) -> int {
    if x < 100 { x } else { 100 }
}

/// Every prefix of a severity list scores at most the whole list.
proof fn lemma_cve_points_prefix(s: Seq<Seq<char>>, w: RiskWeights, i: int)
    requires
        0 <= i <= s.len(),
    ensures
        0 <= cve_points(s.take(i), w) <= cve_points(s, w),
    decreases s.len(),
{
    if i == s.len() {
        assert(s.take(i) =~= s);
        lemma_cve_points_nonneg(s, w);
    } else {
        assert(s.take(i) =~= s.drop_last().take(i));
        lemma_cve_points_prefix(s.drop_last(), w, i);
    }
}

proof fn lemma_cve_points_nonneg(s: Seq<Seq<char>>, w: RiskWeights)
    ensures
        0 <= cve_points(s, w),
    decreases s.len(),
{
    if s.len() > 0 {
        lemma_cve_points_nonneg(s.drop_last(), w);
    }
}

/// Points for a list of `len` signals of one kind, computed in `u32` with
/// the count converted by `as u32`.
fn count_points(len: usize, weight: u32, bound: Ghost<int>) -> (p: u32)
    requires
        len * weight <= bound@,
        bound@ <= u32::MAX,
    ensures
        p == len * weight,
{
    if weight == 0 {
        assert(len * weight == 0) by (nonlinear_arith)
            requires
                weight == 0,
        ;
        0
    } else {
        assert(len <= len * weight) by (nonlinear_arith)
            requires
                weight >= 1,
        ;
        (len as u32) * weight
    }
}

impl SdkRiskProfile {
    /// A profile with no signals, status `Unknown` and score 0.
    pub fn new(name: String, vendor: String, namespace: String) -> (p: Self)
        ensures
            p.name == name,
            p.vendor == vendor,
            p.namespace == namespace,
            p.cves@.len() == 0,
            p.maintenance_status == MaintenanceStatus::Unknown,
            p.permission_creep_flags@.len() == 0,
            p.suspicious_binary_imports@.len() == 0,
            p.packed_binaries@.len() == 0,
            p.malicious_endpoints@.len() == 0,
            p.risk_score == 0,
    {
        SdkRiskProfile {
            name,
            vendor,
            namespace,
            cves: Vec::new(),
            maintenance_status: MaintenanceStatus::Unknown,
            permission_creep_flags: Vec::new(),
            suspicious_binary_imports: Vec::new(),
            packed_binaries: Vec::new(),
            malicious_endpoints: Vec::new(),
            risk_score: 0,
        }
    }

    /// This profile with its score replaced.
    pub open spec fn with_risk_score(self, score: u32) -> Self {
        SdkRiskProfile { risk_score: score, ..self }
    }

    /// Calculates and applies the risk score: the sum of the points of all
    /// signals under `config`, capped at 100. Only the score changes. The
    /// uncapped sum is computed in `u32` and must fit there.
    pub fn calculate_score(&mut self, config: &RiskConfig)
        requires
            raw_score(*old(self), config.weights) <= u32::MAX,
        ensures
            final(self).risk_score == capped(raw_score(*old(self), config.weights)),
            final(self).risk_score <= 100,
            raw_score(*old(self), config.weights) <= 100 ==> final(self).risk_score == raw_score(
                *old(self),
                config.weights,
            ),
            raw_score(*old(self), config.weights) > 100 ==> final(self).risk_score == 100,
            *final(self) == old(self).with_risk_score(final(self).risk_score),
    {
        let ghost w = config.weights;
        let ghost total = raw_score(*self, w);
        let ghost sevs = severities(self.cves@);
        proof {
            lemma_cve_points_prefix(sevs, w, sevs.len() as int);
            assert(sevs.take(sevs.len() as int) =~= sevs);
        }
        let mut score: u32 = 0;
        let mut i: usize = 0;
        while i < self.cves.len()
            invariant
                sevs == severities(self.cves@),
                total == raw_score(*self, w),
                w == config.weights,
                total <= u32::MAX,
                0 <= cve_points(sevs, w) <= total,
                i <= self.cves@.len(),
                score == cve_points(sevs.take(i as int), w),
            decreases self.cves@.len() - i,
        {
            let lowered = to_lowercase(self.cves[i].severity.as_str());
            let points: u32 = severity_weight(lowered.as_str(), &config.weights);
            proof {
                assert(sevs.take(i + 1).drop_last() =~= sevs.take(i as int));
                assert(sevs.take(i + 1).last() == self.cves@[i as int].severity@);
                lemma_cve_points_prefix(sevs, w, i + 1);
            }
            score = score + points;
            i = i + 1;
        }
        proof {
            assert(sevs.take(sevs.len() as int) =~= sevs);
        }
        match self.maintenance_status {
            MaintenanceStatus::Abandoned => score = score + config.weights.abandoned_sdk_weight,
            MaintenanceStatus::Stale => score = score + config.weights.stale_sdk_weight,
            _ => {},
        }
        let g: Ghost<int> = Ghost(total);
        score = score + count_points(self.permission_creep_flags.len(), config.weights.permission_creep_weight, g);
        score = score + count_points(self.suspicious_binary_imports.len(), config.weights.suspicious_binary_import_weight, g);
        score = score + count_points(self.packed_binaries.len(), config.weights.packed_binary_weight, g);
        score = score + count_points(self.malicious_endpoints.len(), config.weights.malicious_network_endpoint_weight, g);
        self.risk_score = if score < 100 { score } else { 100 };
    }
}

/// Points for one CVE whose severity label has already been lowercased.
pub fn severity_weight(lowered: &str, weights: &RiskWeights) -> (p: u32)
    ensures
        p == severity_points(lowered@, *weights),
{
    if str_eq(lowered, "critical") {
        weights.cve_critical_weight
    } else if str_eq(lowered, "high") {
        weights.cve_high_weight
    } else if str_eq(lowered, "medium") || str_eq(lowered, "moderate") {
        weights.cve_medium_weight
    } else if str_eq(lowered, "low") {
        weights.cve_low_weight
    } else {
        weights.cve_medium_weight
    }
}


/// A profile without any signal scores 0, whatever the weights.
pub proof fn law_no_signals_no_risk(p: SdkRiskProfile, w: RiskWeights)
    requires
        p.cves@.len() == 0,
        p.maintenance_status == MaintenanceStatus::Unknown || p.maintenance_status
            == MaintenanceStatus::Active,
        p.permission_creep_flags@.len() == 0,
        p.suspicious_binary_imports@.len() == 0,
        p.packed_binaries@.len() == 0,
        p.malicious_endpoints@.len() == 0,
    ensures
        capped(raw_score(p, w)) == 0,
{
    assert(severities(p.cves@).len() == 0);
}

/// Each signal adds its weight: a profile's uncapped score never falls when a
/// CVE is added to it, and grows by exactly the points of that CVE.
pub proof fn law_cve_adds_its_points(p: SdkRiskProfile, q: SdkRiskProfile, c: CveSignal, w: RiskWeights)
    requires
        q.cves@ == p.cves@.push(c),
        q.maintenance_status == p.maintenance_status,
        q.permission_creep_flags@.len() == p.permission_creep_flags@.len(),
        q.suspicious_binary_imports@.len() == p.suspicious_binary_imports@.len(),
        q.packed_binaries@.len() == p.packed_binaries@.len(),
        q.malicious_endpoints@.len() == p.malicious_endpoints@.len(),
    ensures
        raw_score(q, w) == raw_score(p, w) + severity_points(unicode_lowercase(c.severity@), w),
        capped(raw_score(p, w)) <= capped(raw_score(q, w)),
{
    assert(severities(q.cves@).drop_last() =~= severities(p.cves@));
    assert(severities(q.cves@).last() == c.severity@);
}

/// More signals never lower the score: a profile whose CVEs extend another's,
/// whose maintenance status weighs at least as much, and whose lists are at
/// least as long, scores at least as high.
pub proof fn law_more_signals_never_lower_score(p: SdkRiskProfile, q: SdkRiskProfile, w: RiskWeights)
    requires
        p.cves@.len() <= q.cves@.len(),
        q.cves@.take(p.cves@.len() as int) == p.cves@,
        maintenance_points(p.maintenance_status, w) <= maintenance_points(q.maintenance_status, w),
        p.permission_creep_flags@.len() <= q.permission_creep_flags@.len(),
        p.suspicious_binary_imports@.len() <= q.suspicious_binary_imports@.len(),
        p.packed_binaries@.len() <= q.packed_binaries@.len(),
        p.malicious_endpoints@.len() <= q.malicious_endpoints@.len(),
    ensures
        raw_score(p, w) <= raw_score(q, w),
        capped(raw_score(p, w)) <= capped(raw_score(q, w)),
{
    let sq = severities(q.cves@);
    lemma_cve_points_prefix(sq, w, p.cves@.len() as int);
    assert(sq.take(p.cves@.len() as int) =~= severities(p.cves@));
    let a = p.permission_creep_flags@.len();
    let b = q.permission_creep_flags@.len();
    assert(a * w.permission_creep_weight <= b * w.permission_creep_weight) by (nonlinear_arith)
        requires
            a <= b,
    ;
    let a = p.suspicious_binary_imports@.len();
    let b = q.suspicious_binary_imports@.len();
    assert(a * w.suspicious_binary_import_weight <= b * w.suspicious_binary_import_weight)
        by (nonlinear_arith)
        requires
            a <= b,
    ;
    let a = p.packed_binaries@.len();
    let b = q.packed_binaries@.len();
    assert(a * w.packed_binary_weight <= b * w.packed_binary_weight) by (nonlinear_arith)
        requires
            a <= b,
    ;
    let a = p.malicious_endpoints@.len();
    let b = q.malicious_endpoints@.len();
    assert(a * w.malicious_network_endpoint_weight <= b * w.malicious_network_endpoint_weight)
        by (nonlinear_arith)
        requires
            a <= b,
    ;
}

/// Each further packed binary, permission-creep flag, suspicious import or
/// malicious endpoint adds exactly its weight to the uncapped score.
pub proof fn law_each_listed_signal_adds_its_weight(
    p: SdkRiskProfile,
    q: SdkRiskProfile,
    w: RiskWeights,
)
    requires
        q.cves@ == p.cves@,
        q.maintenance_status == p.maintenance_status,
    ensures
        (q.packed_binaries@.len() == p.packed_binaries@.len() + 1
            && q.permission_creep_flags@.len() == p.permission_creep_flags@.len()
            && q.suspicious_binary_imports@.len() == p.suspicious_binary_imports@.len()
            && q.malicious_endpoints@.len() == p.malicious_endpoints@.len()) ==> raw_score(q, w)
            == raw_score(p, w) + w.packed_binary_weight,
        (q.permission_creep_flags@.len() == p.permission_creep_flags@.len() + 1
            && q.packed_binaries@.len() == p.packed_binaries@.len()
            && q.suspicious_binary_imports@.len() == p.suspicious_binary_imports@.len()
            && q.malicious_endpoints@.len() == p.malicious_endpoints@.len()) ==> raw_score(q, w)
            == raw_score(p, w) + w.permission_creep_weight,
        (q.suspicious_binary_imports@.len() == p.suspicious_binary_imports@.len() + 1
            && q.packed_binaries@.len() == p.packed_binaries@.len()
            && q.permission_creep_flags@.len() == p.permission_creep_flags@.len()
            && q.malicious_endpoints@.len() == p.malicious_endpoints@.len()) ==> raw_score(q, w)
            == raw_score(p, w) + w.suspicious_binary_import_weight,
        (q.malicious_endpoints@.len() == p.malicious_endpoints@.len() + 1
            && q.packed_binaries@.len() == p.packed_binaries@.len()
            && q.permission_creep_flags@.len() == p.permission_creep_flags@.len()
            && q.suspicious_binary_imports@.len() == p.suspicious_binary_imports@.len())
            ==> raw_score(q, w) == raw_score(p, w) + w.malicious_network_endpoint_weight,
{
    let a = p.packed_binaries@.len();
    assert((a + 1) * w.packed_binary_weight == a * w.packed_binary_weight + w.packed_binary_weight)
        by (nonlinear_arith);
    let b = p.permission_creep_flags@.len();
    assert((b + 1) * w.permission_creep_weight == b * w.permission_creep_weight
        + w.permission_creep_weight) by (nonlinear_arith);
    let c = p.suspicious_binary_imports@.len();
    assert((c + 1) * w.suspicious_binary_import_weight == c * w.suspicious_binary_import_weight
        + w.suspicious_binary_import_weight) by (nonlinear_arith);
    let d = p.malicious_endpoints@.len();
    assert((d + 1) * w.malicious_network_endpoint_weight == d * w.malicious_network_endpoint_weight
        + w.malicious_network_endpoint_weight) by (nonlinear_arith);
}

/// The maintenance status adds the abandoned weight when abandoned, the
/// stale weight when stale, and nothing when active or unknown.
pub proof fn law_maintenance_adds_its_weight(p: SdkRiskProfile, q: SdkRiskProfile, w: RiskWeights)
    requires
        q.cves@ == p.cves@,
        q.packed_binaries@.len() == p.packed_binaries@.len(),
        q.permission_creep_flags@.len() == p.permission_creep_flags@.len(),
        q.suspicious_binary_imports@.len() == p.suspicious_binary_imports@.len(),
        q.malicious_endpoints@.len() == p.malicious_endpoints@.len(),
        p.maintenance_status == MaintenanceStatus::Active,
    ensures
        q.maintenance_status == MaintenanceStatus::Abandoned ==> raw_score(q, w) == raw_score(p, w)
            + w.abandoned_sdk_weight,
        q.maintenance_status == MaintenanceStatus::Stale ==> raw_score(q, w) == raw_score(p, w)
            + w.stale_sdk_weight,
        q.maintenance_status == MaintenanceStatus::Unknown ==> raw_score(q, w) == raw_score(p, w),
{
}

/// A CVE adds the weight of its lowercased severity label: critical, high,
/// medium or moderate, low; any other label counts as medium.
pub proof fn law_severity_weights(lowered: Seq<char>, w: RiskWeights)
    ensures
        lowered == "critical"@ ==> severity_points(lowered, w) == w.cve_critical_weight,
        lowered == "high"@ ==> severity_points(lowered, w) == w.cve_high_weight,
        lowered == "medium"@ ==> severity_points(lowered, w) == w.cve_medium_weight,
        lowered == "moderate"@ ==> severity_points(lowered, w) == w.cve_medium_weight,
        lowered == "low"@ ==> severity_points(lowered, w) == w.cve_low_weight,
        (lowered != "critical"@ && lowered != "high"@ && lowered != "low"@) ==> severity_points(
            lowered,
            w,
        ) == w.cve_medium_weight,
{
    reveal_strlit("critical");
    reveal_strlit("high");
    reveal_strlit("medium");
    reveal_strlit("moderate");
    reveal_strlit("low");
    assert("critical"@.len() == 8 && "high"@.len() == 4 && "medium"@.len() == 6);
    assert("moderate"@.len() == 8 && "low"@.len() == 3);
    assert("critical"@[0] != "moderate"@[0]);
}

/// The weights used without a configuration: CVEs 40 (critical), 20 (high),
/// 10 (medium), 5 (low); abandoned 30, stale 15; each permission-creep flag
/// 25, suspicious import 20, packed binary 20, malicious endpoint 50.
pub proof fn law_default_weights()
    ensures
        default_weights().cve_critical_weight == 40,
        default_weights().cve_high_weight == 20,
        default_weights().cve_medium_weight == 10,
        default_weights().cve_low_weight == 5,
        default_weights().abandoned_sdk_weight == 30,
        default_weights().stale_sdk_weight == 15,
        default_weights().permission_creep_weight == 25,
        default_weights().suspicious_binary_import_weight == 20,
        default_weights().packed_binary_weight == 20,
        default_weights().malicious_network_endpoint_weight == 50,
{
}

/// The SDKs found in one app and the app-wide signals.
#[derive(Debug)]
pub struct AppRiskProfile {
    pub app_path: String,
    pub sdks: Vec<SdkRiskProfile>,
    /// The highest score among the SDKs, 0 when there are none.
    pub total_risk_score: u32,
    pub global_permissions: Vec<String>,
    pub global_malicious_endpoints: Vec<String>,
}

/// A change of one SDK's score between two scans.
#[derive(Debug)]
pub struct RiskDrift {
    pub sdk_name: String,
    pub baseline_score: u32,
    pub current_score: u32,
}

impl Clone for RiskDrift {
    fn clone(&self) -> (res: Self)
        ensures
            res == *self,
    {
        RiskDrift {
            sdk_name: self.sdk_name.clone(),
            baseline_score: self.baseline_score,
            current_score: self.current_score,
        }
    }
}

/// The supply-chain drift between a baseline scan and a current scan.
#[derive(Debug)]
pub struct DiffReport {
    pub baseline_apk: String,
    pub current_apk: String,
    pub added_sdks: Vec<String>,
    pub removed_sdks: Vec<String>,
    pub risk_score_changes: Vec<RiskDrift>,
    pub added_sensitive_permissions: Vec<String>,
}

/// The scores of a list of SDK profiles.
pub open spec fn scores(sdks: Seq<SdkRiskProfile>) -> Seq<u32> {
    sdks.map_values(|s: SdkRiskProfile| s.risk_score)
}

/// The largest element of `s`, or 0 for the empty sequence.
pub open spec fn max_or_zero(s: Seq<u32>) -> u32
    decreases s.len(),
{
    if s.len() == 0 {
        0
    } else {
        let m = max_or_zero(s.drop_last());
        if s.last() > m {
            s.last()
        } else {
            m
        }
    }
}

/// The maximum bounds every element and, for a non-empty sequence, is one of them.
pub proof fn lemma_max_or_zero(s: Seq<u32>)
    ensures
        forall|i: int| 0 <= i < s.len() ==> s[i] <= max_or_zero(s),
        s.len() > 0 ==> s.contains(max_or_zero(s)),
        s.len() == 0 ==> max_or_zero(s) == 0,
    decreases s.len(),
{
    if s.len() > 0 {
        let t = s.drop_last();
        lemma_max_or_zero(t);
        assert forall|i: int| 0 <= i < s.len() implies s[i] <= max_or_zero(s) by {
            if i < s.len() - 1 {
                assert(s[i] == t[i]);
            }
        }
        if s.last() > max_or_zero(t) || t.len() == 0 {
            assert(s[s.len() - 1] == s.last());
        } else {
            let k = choose|k: int| 0 <= k < t.len() && t[k] == max_or_zero(t);
            assert(s[k] == t[k]);
        }
    }
}

impl AppRiskProfile {
    /// The app's score is the highest SDK score, so the riskiest SDK sets it.
    pub fn new(
        app_path: String,
        sdks: Vec<SdkRiskProfile>,
        global_permissions: Vec<String>,
        global_malicious_endpoints: Vec<String>,
    ) -> (p: Self)
        ensures
            p.app_path == app_path,
            p.sdks == sdks,
            p.global_permissions == global_permissions,
            p.global_malicious_endpoints == global_malicious_endpoints,
            p.total_risk_score == max_or_zero(scores(sdks@)),
            forall|i: int| 0 <= i < sdks@.len() ==> sdks@[i].risk_score <= p.total_risk_score,
            sdks@.len() > 0 ==> exists|i: int|
                0 <= i < sdks@.len() && sdks@[i].risk_score == p.total_risk_score,
            sdks@.len() == 0 ==> p.total_risk_score == 0,
    {
        let mut total: u32 = 0;
        let mut i: usize = 0;
        while i < sdks.len()
            invariant
                i <= sdks@.len(),
                total == max_or_zero(scores(sdks@).take(i as int)),
            decreases sdks@.len() - i,
        {
            proof {
                let t = scores(sdks@).take(i + 1);
                assert(t.drop_last() =~= scores(sdks@).take(i as int));
                assert(t.last() == sdks@[i as int].risk_score);
            }
            if sdks[i].risk_score > total {
                total = sdks[i].risk_score;
            }
            i = i + 1;
        }
        proof {
            let s = scores(sdks@);
            assert(s.take(sdks@.len() as int) =~= s);
            lemma_max_or_zero(s);
            assert forall|i: int| 0 <= i < sdks@.len() implies sdks@[i].risk_score <= total by {
                assert(s[i] == sdks@[i].risk_score);
            }
            if sdks@.len() > 0 {
                let k = choose|k: int| 0 <= k < s.len() && s[k] == total;
                assert(sdks@[k].risk_score == total);
            }
        }
        AppRiskProfile { app_path, sdks, total_risk_score: total, global_permissions, global_malicious_endpoints }
    }
}

} // verus!
