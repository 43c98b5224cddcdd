//! Known vulnerabilities of SDK packages from the OSV database: reading the
//! query response into signals, and the cache of earlier answers.
use vstd::prelude::*;

use crate::models::CveSignal;
use crate::text::{str_eq, to_uppercase, unicode_uppercase};

verus! {

/// One entry of the `vulns` list of an OSV query response, as plain values:
/// its `id` and its `database_specific.severity`, where these are strings.
#[derive(Debug)]
pub struct OsvVulnerability {
    pub id: Option<String>,
    pub database_severity: Option<String>,
}

/// The signal for one OSV entry: a missing id reads `UNKNOWN`, a missing
/// severity `MEDIUM`, a given severity is uppercased.
pub open spec fn signal_matches(v: OsvVulnerability, s: CveSignal) -> bool {
    &&& s.id@ == match v.id {
        Some(id) => id@,
        None => "UNKNOWN"@,
    }
    &&& s.severity@ == match v.database_severity {
        Some(sev) => unicode_uppercase(sev@),
        None => "MEDIUM"@,
    }
}

/// The signals for the entries of an OSV response, one per entry, in order.
pub fn cve_signals_from_vulns(vulns: &Vec<OsvVulnerability>) -> (r: Vec<CveSignal>)
    ensures
        r@.len() == vulns@.len(),
        forall|i: int| 0 <= i < vulns@.len() ==> signal_matches(#[trigger] vulns@[i], r@[i]),
{
    let mut r: Vec<CveSignal> = Vec::new();
    let mut i: usize = 0;
    while i < vulns.len()
        invariant
            i <= vulns@.len(),
            r@.len() == i,
            forall|k: int| 0 <= k < i ==> signal_matches(#[trigger] vulns@[k], r@[k]),
        decreases vulns@.len() - i,
    {
        let v = &vulns[i];
        let id = match &v.id {
            Some(id) => id.clone(),
            None => String::from_str("UNKNOWN"),
        };
        let severity = match &v.database_severity {
            Some(sev) => to_uppercase(sev.as_str()),
            None => String::from_str("MEDIUM"),
        };
        r.push(CveSignal { id, severity });
        i = i + 1;
    }
    r
}

/// A cached answer: the signals found for one package.
#[derive(Debug)]
pub struct OsvCacheEntry {
    pub package: String,
    pub cves: Vec<CveSignal>,
}

/// The answers of earlier OSV queries, by package name.
#[derive(Debug)]
pub struct OsvCache {
    entries: Vec<OsvCacheEntry>,
}

/// A cache as plain values: package names with their signals.
pub open spec fn entries_view(entries: Seq<OsvCacheEntry>) -> Seq<(Seq<char>, Seq<CveSignal>)> {
    entries.map_values(|e: OsvCacheEntry| (e.package@, e.cves@))
}

/// The signals cached for `package` (its first entry), if any.
pub open spec fn lookup(entries: Seq<(Seq<char>, Seq<CveSignal>)>, package: Seq<char>) -> Option<
    Seq<CveSignal>,
>
    decreases entries.len(),
{
    if entries.len() == 0 {
        None
    } else if entries[0].0 == package {
        Some(entries[0].1)
    } else {
        lookup(entries.drop_first(), package)
    }
}

/// The entries after recording `cves` for `package`: its first entry is
/// replaced, or a new entry is appended.
pub open spec fn inserted(
    entries: Seq<(Seq<char>, Seq<CveSignal>)>,
    package: Seq<char>,
    cves: Seq<CveSignal>,
) -> Seq<(Seq<char>, Seq<CveSignal>)>
    decreases entries.len(),
{
    if entries.len() == 0 {
        seq![(package, cves)]
    } else if entries[0].0 == package {
        entries.update(0, (package, cves))
    } else {
        seq![entries[0]] + inserted(entries.drop_first(), package, cves)
    }
}

/// Where no entry before `i` is for `package`, recording it there replaces
/// entry `i` (when it is for `package`) or appends (when `i` is the end).
proof fn lemma_inserted_at(
    entries: Seq<(Seq<char>, Seq<CveSignal>)>,
    package: Seq<char>,
    cves: Seq<CveSignal>,
    i: int,
)
    requires
        0 <= i <= entries.len(),
        forall|k: int| 0 <= k < i ==> entries[k].0 != package,
        i < entries.len() ==> entries[i].0 == package,
    ensures
        inserted(entries, package, cves) == if i < entries.len() {
            entries.update(i, (package, cves))
        } else {
            entries.push((package, cves))
        },
    decreases entries.len(),
{
    if entries.len() == 0 {
        assert(seq![(package, cves)] =~= entries.push((package, cves)));
    } else if i > 0 {
        let rest = entries.drop_first();
        lemma_inserted_at(rest, package, cves, i - 1);
        if i < entries.len() {
            assert(seq![entries[0]] + rest.update(i - 1, (package, cves)) =~= entries.update(
                i,
                (package, cves),
            ));
        } else {
            assert(seq![entries[0]] + rest.push((package, cves)) =~= entries.push((package, cves)));
        }
    }
}

/// Where no entry before `i` is for `package`, the lookup is decided at `i`.
proof fn lemma_lookup_at(entries: Seq<(Seq<char>, Seq<CveSignal>)>, package: Seq<char>, i: int)
    requires
        0 <= i <= entries.len(),
        forall|k: int| 0 <= k < i ==> entries[k].0 != package,
        i < entries.len() ==> entries[i].0 == package,
    ensures
        lookup(entries, package) == if i < entries.len() {
            Some(entries[i].1)
        } else {
            None::<Seq<CveSignal>>
        },
    decreases entries.len(),
{
    if entries.len() > 0 && i > 0 {
        lemma_lookup_at(entries.drop_first(), package, i - 1);
    }
}

/// A copy of a list of signals.
fn copy_signals(v: &Vec<CveSignal>) -> (r: Vec<CveSignal>)
    ensures
        r@ == v@,
{
    let mut r: Vec<CveSignal> = Vec::new();
    let mut i: usize = 0;
    while i < v.len()
        invariant
            i <= v@.len(),
            r@ =~= v@.take(i as int),
        decreases v@.len() - i,
    {
        r.push(v[i].clone());
        i = i + 1;
    }
    assert(v@.take(v@.len() as int) =~= v@);
    r
}

/// No package has two entries.
pub open spec fn keys_unique(entries: Seq<(Seq<char>, Seq<CveSignal>)>) -> bool {
    forall|i: int, j: int|
        0 <= i < entries.len() && 0 <= j < entries.len() && i != j ==> entries[i].0 != entries[j].0
}

/// Recording an answer keeps every package to one entry.
proof fn lemma_inserted_keys_unique(
    entries: Seq<(Seq<char>, Seq<CveSignal>)>,
    package: Seq<char>,
    cves: Seq<CveSignal>,
    i: int,
)
    requires
        keys_unique(entries),
        0 <= i <= entries.len(),
        forall|k: int| 0 <= k < i ==> entries[k].0 != package,
        i < entries.len() ==> entries[i].0 == package,
        i == entries.len() ==> forall|k: int| 0 <= k < entries.len() ==> entries[k].0 != package,
    ensures
        keys_unique(inserted(entries, package, cves)),
{
    lemma_inserted_at(entries, package, cves, i);
}

impl OsvCache {
    /// Each package has at most one entry.
    #[verifier::type_invariant]
    spec fn one_entry_per_package(self) -> bool {
        keys_unique(entries_view(self.entries@))
    }

    /// The cache as package names with their signals, in entry order.
    pub closed spec fn view_entries(&self) -> Seq<(Seq<char>, Seq<CveSignal>)> {
        entries_view(self.entries@)
    }

    /// An empty cache.
    pub fn new() -> (c: Self)
        ensures
            c.view_entries().len() == 0,
    {
        OsvCache { entries: Vec::new() }
    }

    /// The cached entries, in order; no package has two.
    pub fn entries(&self) -> (r: &Vec<OsvCacheEntry>)
        ensures
            entries_view(r@) == self.view_entries(),
            keys_unique(self.view_entries()),
    {
        proof {
            use_type_invariant(self);
        }
        &self.entries
    }

    /// The index of the first entry for `package`, if any.
    fn position(&self, package: &str) -> (r: Option<usize>)
        ensures
            match r {
                Some(i) => i < self.entries@.len() && self.view_entries()[i as int].0 == package@
                    && forall|k: int| 0 <= k < i ==> self.view_entries()[k].0 != package@,
                None => forall|k: int|
                    0 <= k < self.entries@.len() ==> self.view_entries()[k].0 != package@,
            },
    {
        let mut i: usize = 0;
        while i < self.entries.len()
            invariant
                i <= self.entries@.len(),
                forall|k: int| 0 <= k < i ==> self.view_entries()[k].0 != package@,
            decreases self.entries@.len() - i,
        {
            if str_eq(self.entries[i].package.as_str(), package) {
                return Some(i);
            }
            i = i + 1;
        }
        None
    }

    /// The signals cached for `package`, if any.
    pub fn get(&self, package: &str) -> (r: Option<Vec<CveSignal>>)
        ensures
            match r {
                Some(v) => lookup(self.view_entries(), package@) == Some(v@),
                None => lookup(self.view_entries(), package@) is None,
            },
    {
        match self.position(package) {
            Some(i) => {
                proof {
                    lemma_lookup_at(self.view_entries(), package@, i as int);
                }
                Some(copy_signals(&self.entries[i].cves))
            },
            None => {
                proof {
                    lemma_lookup_at(self.view_entries(), package@, self.entries@.len() as int);
                }
                None
            },
        }
    }

    /// Records `cves` as the answer for `package`.
    pub fn insert(&mut self, package: &str, cves: Vec<CveSignal>)
        ensures
            final(self).view_entries() == inserted(old(self).view_entries(), package@, cves@),
            keys_unique(final(self).view_entries()),
    {
        proof {
            use_type_invariant(&*self);
        }
        let ghost pre = self.view_entries();
        let pos = self.position(package);
        let mut entries: Vec<OsvCacheEntry> = Vec::new();
        std::mem::swap(&mut entries, &mut self.entries);
        assert(entries_view(entries@) == pre);
        let entry = OsvCacheEntry { package: String::from_str(package), cves };
        match pos {
            Some(i) => {
                proof {
                    lemma_inserted_at(pre, package@, cves@, i as int);
                    lemma_inserted_keys_unique(pre, package@, cves@, i as int);
                }
                entries.set(i, entry);
                assert(entries_view(entries@) =~= pre.update(i as int, (package@, cves@)));
            },
            None => {
                proof {
                    lemma_inserted_at(pre, package@, cves@, pre.len() as int);
                    lemma_inserted_keys_unique(pre, package@, cves@, pre.len() as int);
                }
                entries.push(entry);
                assert(entries_view(entries@) =~= pre.push((package@, cves@)));
            },
        }
        self.entries = entries;
    }
}

/// What a lookup does next: give back cached signals, or query OSV.
pub enum LookupStep {
    Cached(Vec<CveSignal>),
    Query,
}

/// The first step of a vulnerability lookup: the cached signals when the
/// package has an entry, otherwise a query (whose outcome goes to
/// `record_query_outcome`).
pub fn begin_lookup(cache: &OsvCache, package: &str) -> (s: LookupStep)
    ensures
        match s {
            LookupStep::Cached(v) => lookup(cache.view_entries(), package@) == Some(v@),
            LookupStep::Query => lookup(cache.view_entries(), package@) is None,
        },
{
    match cache.get(package) {
        Some(v) => LookupStep::Cached(v),
        None => LookupStep::Query,
    }
}

/// Records the outcome of querying OSV for a package that was not cached:
/// the signals found, or none when the query failed. Returns the signals
/// recorded.
pub fn record_query_outcome(
    cache: &mut OsvCache,
    package: &str,
    outcome: Option<Vec<CveSignal>>,
) -> (r: Vec<CveSignal>)
    ensures
        r@ == match outcome {
            Some(v) => v@,
            None => Seq::<CveSignal>::empty(),
        },
        final(cache).view_entries() == inserted(old(cache).view_entries(), package@, r@),
{
    let cves = match outcome {
        Some(v) => v,
        None => Vec::new(),
    };
    let stored = copy_signals(&cves);
    cache.insert(package, stored);
    cves
}

/// What a lookup gives back after an insert: the signals just recorded.
pub proof fn law_lookup_after_insert(
    entries: Seq<(Seq<char>, Seq<CveSignal>)>,
    package: Seq<char>,
    cves: Seq<CveSignal>,
)
    ensures
        lookup(inserted(entries, package, cves), package) == Some(cves),
    decreases entries.len(),
{
    if entries.len() > 0 && entries[0].0 != package {
        law_lookup_after_insert(entries.drop_first(), package, cves);
        let ins = inserted(entries, package, cves);
        assert(ins.drop_first() =~= inserted(entries.drop_first(), package, cves));
        assert(ins[0] == entries[0]);
    }
}

/// Recording an answer for one package leaves the answers for all others.
pub proof fn law_insert_keeps_other_packages(
    entries: Seq<(Seq<char>, Seq<CveSignal>)>,
    package: Seq<char>,
    cves: Seq<CveSignal>,
    other: Seq<char>,
)
    requires
        other != package,
    ensures
        lookup(inserted(entries, package, cves), other) == lookup(entries, other),
    decreases entries.len(),
{
    let ins = inserted(entries, package, cves);
    if entries.len() == 0 {
        assert(ins.drop_first() =~= Seq::<(Seq<char>, Seq<CveSignal>)>::empty());
        assert(ins[0].0 == package);
        assert(lookup(ins, other) == lookup(ins.drop_first(), other));
    } else if entries[0].0 == package {
        assert(ins.drop_first() =~= entries.drop_first());
        assert(ins[0].0 == package);
    } else {
        law_insert_keeps_other_packages(entries.drop_first(), package, cves, other);
        assert(ins.drop_first() =~= inserted(entries.drop_first(), package, cves));
        assert(ins[0] == entries[0]);
    }
}

/// An OSV entry without an id gives the id `UNKNOWN`, one without a
/// severity the severity `MEDIUM`; given values are kept (the severity
/// uppercased).
pub proof fn law_signal_defaults(v: OsvVulnerability, s: CveSignal)
    requires
        signal_matches(v, s),
    ensures
        v.id is None ==> s.id@ == "UNKNOWN"@,
        v.database_severity is None ==> s.severity@ == "MEDIUM"@,
        v.id matches Some(id) ==> s.id@ == id@,
        v.database_severity matches Some(sev) ==> s.severity@ == unicode_uppercase(sev@),
{
}

} // verus!
