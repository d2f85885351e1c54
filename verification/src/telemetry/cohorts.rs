//! Label sets of per-cohort ad market gauges, and the labels that go stale
//! when the set of cohorts changes.

use vstd::prelude::*;
use crate::text::{concat, str_eq};

verus! {

/// The views of a list of strings.
pub open spec fn strings(v: Seq<String>) -> Seq<Seq<char>> {
    Seq::new(v.len(), |i: int| v[i]@)
}

/// Badges joined by `|`.
pub open spec fn joined(b: Seq<Seq<char>>) -> Seq<char>
    decreases b.len(),
{
    if b.len() == 0 {
        Seq::empty()
    } else if b.len() == 1 {
        b[0]
    } else {
        joined(b.drop_last()) + "|"@ + b.last()
    }
}

/// The badge label of a cohort: `none` without badges, else the badges
/// joined by `|`.
pub open spec fn spec_badges_label(b: Seq<Seq<char>>) -> Seq<char> {
    if b.len() == 0 {
        "none"@
    } else {
        joined(b)
    }
}

/// The badge label of a cohort.
pub fn badges_label(badges: &[String]) -> (s: String)
    ensures
        s@ == spec_badges_label(strings(badges@)),
{
    if badges.len() == 0 {
        return "none".to_owned();
    }
    let mut s = badges[0].clone();
    let mut i: usize = 1;
    while i < badges.len()
        invariant
            1 <= i <= badges@.len(),
            s@ == joined(strings(badges@).take(i as int)),
        decreases badges@.len() - i,
    {
        let t = concat(s.as_str(), "|");
        s = concat(t.as_str(), badges[i].as_str());
        proof {
            let v = strings(badges@);
            assert(v.take(i + 1).drop_last() =~= v.take(i as int));
            assert(v.take(i + 1).last() == badges@[i as int]@);
        }
        i = i + 1;
    }
    proof {
        assert(strings(badges@).take(badges@.len() as int) =~= strings(badges@));
        if badges@.len() == 1 {
            assert(strings(badges@).take(1) =~= seq![badges@[0]@]);
        }
    }
    s
}

/// The labels of a cohort: its domain, its provider (or `missing_provider`)
/// and its badge label.
pub fn cohort_labels(domain: &str, provider: Option<&str>, badges: &[String], missing_provider: &str) -> (r: (String, String, String))
    ensures
        r.0@ == domain@,
        r.1@ == (match provider {
            Some(p) => p@,
            None => missing_provider@,
        }),
        r.2@ == spec_badges_label(strings(badges@)),
{
    let p = match provider {
        Some(p) => p.to_owned(),
        None => missing_provider.to_owned(),
    };
    (domain.to_owned(), p, badges_label(badges))
}

/// The labels of `previous` that are not among `current`, in order.
pub open spec fn spec_stale(previous: Seq<Seq<char>>, current: Seq<Seq<char>>) -> Seq<Seq<char>> {
    previous.filter(|l: Seq<char>| !current.contains(l))
}

fn listed(list: &[String], s: &str) -> (b: bool)
    ensures
        b == strings(list@).contains(s@),
{
    let mut i: usize = 0;
    while i < list.len()
        invariant
            i <= list@.len(),
            forall|j: int| 0 <= j < i ==> list@[j]@ != s@,
        decreases list@.len() - i,
    {
        if str_eq(list[i].as_str(), s) {
            assert(strings(list@)[i as int] == s@);
            return true;
        }
        i = i + 1;
    }
    assert(!strings(list@).contains(s@)) by {
        if strings(list@).contains(s@) {
            let k = choose|k: int| 0 <= k < strings(list@).len() && strings(list@)[k] == s@;
            assert(list@[k]@ == s@);
        }
    }
    false
}

/// The labels to remove from the exporter: those of `previous` that no
/// current cohort uses.
pub fn stale_labels(previous: &[String], current: &[String]) -> (out: Vec<String>)
    ensures
        strings(out@) == spec_stale(strings(previous@), strings(current@)),
{
    let ghost p = strings(previous@);
    let ghost c = strings(current@);
    let mut out: Vec<String> = Vec::new();
    let mut i: usize = 0;
    while i < previous.len()
        invariant
            i <= previous@.len(),
            p == strings(previous@),
            c == strings(current@),
            strings(out@) == p.take(i as int).filter(|l: Seq<char>| !c.contains(l)),
        decreases previous@.len() - i,
    {
        proof {
            reveal(Seq::filter);
            assert(p.take(i + 1).drop_last() =~= p.take(i as int));
            assert(p.take(i + 1).last() == previous@[i as int]@);
        }
        if !listed(current, previous[i].as_str()) {
            let ghost before = strings(out@);
            let s = previous[i].clone();
            let ghost sv = s@;
            out.push(s);
            assert(strings(out@) =~= before.push(sv));
        }
        i = i + 1;
    }
    assert(p.take(previous@.len() as int) =~= p);
    out
}

} // verus!

verus! {

/// The utilization of one ad market cohort.
#[derive(Debug)]
pub struct CohortUtilization {
    pub domain: String,
    pub provider: Option<String>,
    pub badges: Vec<String>,
    pub observed_utilization_ppm: u32,
    pub target_utilization_ppm: u32,
    pub delta_ppm: i64,
}

/// The label key of a cohort: domain, provider (`none` when absent) and
/// badge label.
pub open spec fn cohort_key(c: CohortUtilization) -> Seq<char> {
    crate::telemetry::spec_label_key(
        seq![
            c.domain@,
            match c.provider {
                Some(p) => p@,
                None => "none"@,
            },
            spec_badges_label(strings(c.badges@)),
        ],
    )
}

/// The label keys of cohorts.
pub open spec fn cohort_keys(cs: Seq<CohortUtilization>) -> Seq<Seq<char>> {
    Seq::new(cs.len(), |i: int| cohort_key(cs[i]))
}

/// The gauge value under `key` after setting each cohort's value in order
/// (the last cohort with the key wins), starting from nothing.
pub open spec fn last_value(cs: Seq<CohortUtilization>, key: Seq<char>, f: spec_fn(CohortUtilization) -> u64) -> u64
    decreases cs.len(),
{
    if cs.len() == 0 {
        0
    } else if cohort_key(cs.last()) == key {
        f(cs.last())
    } else {
        last_value(cs.drop_last(), key, f)
    }
}

/// The ad market utilization gauges, keyed by cohort labels; the delta is
/// kept as the bits of the signed value.
pub struct AdUtilizationMetrics {
    pub observed: crate::telemetry::counters::LabelCounters,
    pub target: crate::telemetry::counters::LabelCounters,
    pub delta_bits: crate::telemetry::counters::LabelCounters,
    pub active: Vec<String>,
}

pub open spec fn observed_of(c: CohortUtilization) -> u64 {
    c.observed_utilization_ppm as u64
}

pub open spec fn target_of(c: CohortUtilization) -> u64 {
    c.target_utilization_ppm as u64
}

pub open spec fn delta_bits_of(c: CohortUtilization) -> u64 {
    c.delta_ppm as u64
}

impl AdUtilizationMetrics {
    pub open spec fn wf(&self) -> bool {
        self.observed.wf() && self.target.wf() && self.delta_bits.wf()
    }

    pub fn new() -> (m: Self)
        ensures
            m.wf(),
            m.active@.len() == 0,
            forall|l: Seq<char>|
                m.observed.spec_value(l) == 0 && m.target.spec_value(l) == 0 && m.delta_bits.spec_value(l) == 0,
            forall|l: Seq<char>|
                !m.observed.spec_contains(l) && !m.target.spec_contains(l) && !m.delta_bits.spec_contains(l),
    {
        AdUtilizationMetrics {
            observed: crate::telemetry::counters::LabelCounters::new(),
            target: crate::telemetry::counters::LabelCounters::new(),
            delta_bits: crate::telemetry::counters::LabelCounters::new(),
            active: Vec::new(),
        }
    }
}

fn cohort_label_key(c: &CohortUtilization) -> (k: String)
    ensures
        k@ == cohort_key(*c),
{
    let provider: &str = match &c.provider {
        Some(p) => p.as_str(),
        None => "none",
    };
    let badges = badges_label(c.badges.as_slice());
    let labels = [c.domain.as_str(), provider, badges.as_str()];
    let k = crate::telemetry::label_key(&labels);
    assert(crate::telemetry::labels_view(labels@) =~= seq![
        c.domain@,
        match c.provider {
            Some(p) => p@,
            None => "none"@,
        },
        spec_badges_label(strings(c.badges@)),
    ]);
    k
}

/// Replaces the utilization gauges by those of `cohorts` (the last cohort
/// with a label set wins) and returns the label keys that went stale: those
/// of the previous cohorts that no current cohort has.
pub fn update_ad_market_utilization_metrics(m: &mut AdUtilizationMetrics, cohorts: &[CohortUtilization]) -> (stale: Vec<String>)
    ensures
        final(m).wf(),
        strings(final(m).active@) == cohort_keys(cohorts@),
        forall|k: Seq<char>|
            final(m).observed.spec_value(k) == last_value(cohorts@, k, |c: CohortUtilization| observed_of(c))
                && final(m).target.spec_value(k) == last_value(cohorts@, k, |c: CohortUtilization| target_of(c))
                && final(m).delta_bits.spec_value(k) == last_value(cohorts@, k, |c: CohortUtilization| delta_bits_of(c)),
        strings(stale@) == spec_stale(strings(old(m).active@), cohort_keys(cohorts@)),
{
    let mut observed = crate::telemetry::counters::LabelCounters::new();
    let mut target = crate::telemetry::counters::LabelCounters::new();
    let mut delta = crate::telemetry::counters::LabelCounters::new();
    let mut active: Vec<String> = Vec::new();
    let mut i: usize = 0;
    while i < cohorts.len()
        invariant
            i <= cohorts@.len(),
            observed.wf() && target.wf() && delta.wf(),
            strings(active@) == cohort_keys(cohorts@.take(i as int)),
            forall|k: Seq<char>|
                observed.spec_value(k) == last_value(cohorts@.take(i as int), k, |c: CohortUtilization| observed_of(c))
                    && target.spec_value(k) == last_value(cohorts@.take(i as int), k, |c: CohortUtilization| target_of(c))
                    && delta.spec_value(k) == last_value(cohorts@.take(i as int), k, |c: CohortUtilization| delta_bits_of(c)),
        decreases cohorts@.len() - i,
    {
        let c = &cohorts[i];
        let key = cohort_label_key(c);
        observed.set(key.as_str(), c.observed_utilization_ppm as u64);
        target.set(key.as_str(), c.target_utilization_ppm as u64);
        delta.set(key.as_str(), c.delta_ppm as u64);
        let ghost before = strings(active@);
        let ghost kv = key@;
        active.push(key);
        proof {
            let t = cohorts@.take(i + 1);
            assert(t.drop_last() =~= cohorts@.take(i as int));
            assert(t.last() == cohorts@[i as int]);
            assert(strings(active@) =~= before.push(kv));
            assert(cohort_keys(t) =~= cohort_keys(cohorts@.take(i as int)).push(cohort_key(cohorts@[i as int])));
        }
        i = i + 1;
    }
    proof {
        assert(cohorts@.take(cohorts@.len() as int) =~= cohorts@);
    }
    let stale = stale_labels(m.active.as_slice(), active.as_slice());
    proof {
        assert(strings(active@) == cohort_keys(cohorts@));
    }
    m.observed = observed;
    m.target = target;
    m.delta_bits = delta;
    m.active = active;
    stale
}

} // verus!
