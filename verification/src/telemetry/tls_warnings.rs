//! TLS environment warnings: per prefix and code, how often a warning was
//! seen, its latest detail and variables, and whether they changed.  The
//! fingerprints and their bucket labels are computed by the caller.

use vstd::prelude::*;
use crate::telemetry::counters::LabelCounters;

verus! {

/// What is kept of one warning (one prefix and code).
pub struct TlsWarningEntry {
    pub total: u64,
    pub last_delta: u64,
    pub last_seen: u64,
    pub origin: String,
    pub detail: Option<String>,
    pub variables: Vec<String>,
    pub detail_fingerprint: Option<i64>,
    pub variables_fingerprint: Option<i64>,
    pub detail_fingerprint_counts: LabelCounters,
    pub variables_fingerprint_counts: LabelCounters,
}

impl TlsWarningEntry {
    pub open spec fn wf(&self) -> bool {
        self.detail_fingerprint_counts.wf() && self.variables_fingerprint_counts.wf()
    }

    /// A warning not seen yet.
    pub fn new() -> (e: Self)
        ensures
            e.wf(),
            e.total == 0 && e.last_delta == 0 && e.last_seen == 0,
            e.detail is None && e.variables@.len() == 0,
            e.detail_fingerprint is None && e.variables_fingerprint is None,
            e.origin@ == Seq::<char>::empty(),
            forall|l: Seq<char>|
                e.detail_fingerprint_counts.spec_value(l) == 0 && !e.detail_fingerprint_counts.spec_contains(l),
            forall|l: Seq<char>|
                e.variables_fingerprint_counts.spec_value(l) == 0
                    && !e.variables_fingerprint_counts.spec_contains(l),
    {
        TlsWarningEntry {
            total: 0,
            last_delta: 0,
            last_seen: 0,
            origin: String::new(),
            detail: None,
            variables: Vec::new(),
            detail_fingerprint: None,
            variables_fingerprint: None,
            detail_fingerprint_counts: LabelCounters::new(),
            variables_fingerprint_counts: LabelCounters::new(),
        }
    }
}

/// The event published for one recorded warning.
#[derive(Debug)]
pub struct TlsEnvWarningTelemetryEvent {
    pub prefix: String,
    pub code: String,
    pub origin: String,
    pub total: u64,
    pub last_delta: u64,
    pub last_seen: u64,
    pub detail: Option<String>,
    pub detail_fingerprint: Option<i64>,
    pub detail_bucket: String,
    pub detail_changed: bool,
    pub variables: Vec<String>,
    pub variables_fingerprint: Option<i64>,
    pub variables_bucket: String,
    pub variables_changed: bool,
}

/// The views of a list of strings.
pub open spec fn strings(v: Seq<String>) -> Seq<Seq<char>> {
    Seq::new(v.len(), |i: int| v[i]@)
}

fn copy_strings(v: &[String]) -> (r: Vec<String>)
    ensures
        strings(r@) == strings(v@),
{
    let mut r: Vec<String> = Vec::new();
    let mut i: usize = 0;
    while i < v.len()
        invariant
            i <= v@.len(),
            r@.len() == i,
            strings(r@) =~= strings(v@).take(i as int),
        decreases v@.len() - i,
    {
        let s = v[i].clone();
        let ghost before = r@;
        let ghost sv = s@;
        assert(sv == v@[i as int]@);
        r.push(s);
        assert(r@ == before.push(s));
        assert(strings(r@) =~= strings(v@).take(i + 1)) by {
            assert forall|k: int| 0 <= k < i + 1 implies strings(r@)[k] == strings(v@).take(i + 1)[k] by {
                if k < i {
                    assert(r@[k] == before[k]);
                }
            }
        }
        i = i + 1;
    }
    assert(strings(v@).take(v@.len() as int) =~= strings(v@));
    r
}

fn copy_opt(o: &Option<String>) -> (r: Option<String>)
    ensures
        crate::storage::types::opt_string_view(r) == crate::storage::types::opt_string_view(*o),
{
    match o {
        Some(s) => Some(s.clone()),
        None => None,
    }
}

/// Records one occurrence of a warning at `now`.  A non-empty `detail`
/// (with fingerprint `detail_fp`) replaces the stored one, and the event
/// says whether its fingerprint changed; likewise non-empty `variables`
/// (with fingerprint `variables_fp`).  The fingerprint buckets count one
/// more occurrence each.
pub fn record_tls_env_warning(
    entry: &mut TlsWarningEntry,
    prefix: &str,
    code: &str,
    origin: &str,
    detail: Option<&str>,
    detail_fp: i64,
    variables: &[String],
    variables_fp: Option<i64>,
    detail_bucket: &str,
    variables_bucket: &str,
    now: u64,
) -> (ev: TlsEnvWarningTelemetryEvent)
    requires
        old(entry).wf(),
    ensures
        final(entry).wf(),
        final(entry).total == if old(entry).total == u64::MAX { u64::MAX } else { (old(entry).total + 1) as u64 },
        final(entry).last_delta == 1,
        final(entry).last_seen == now,
        final(entry).origin@ == origin@,
        match detail {
            Some(d) if d@.len() > 0 => {
                &&& final(entry).detail matches Some(s) && s@ == d@
                &&& final(entry).detail_fingerprint == Some(detail_fp)
                &&& ev.detail_changed == (old(entry).detail_fingerprint != Some(detail_fp))
            },
            _ => {
                &&& crate::storage::types::opt_string_view(final(entry).detail)
                    == crate::storage::types::opt_string_view(old(entry).detail)
                &&& final(entry).detail_fingerprint == old(entry).detail_fingerprint
                &&& !ev.detail_changed
            },
        },
        variables@.len() > 0 ==> strings(final(entry).variables@) == strings(variables@)
            && final(entry).variables_fingerprint == variables_fp && ev.variables_changed == (
        old(entry).variables_fingerprint != variables_fp),
        variables@.len() == 0 ==> strings(final(entry).variables@) == strings(old(entry).variables@)
            && final(entry).variables_fingerprint == old(entry).variables_fingerprint && !ev.variables_changed,
        final(entry).detail_fingerprint_counts.spec_value(detail_bucket@) == vstd::wrapping::u64_specs::wrapping_add(
            old(entry).detail_fingerprint_counts.spec_value(detail_bucket@),
            1,
        ),
        forall|l: Seq<char>|
            l != detail_bucket@ ==> final(entry).detail_fingerprint_counts.spec_value(l)
                == old(entry).detail_fingerprint_counts.spec_value(l),
        final(entry).variables_fingerprint_counts.spec_value(variables_bucket@)
            == vstd::wrapping::u64_specs::wrapping_add(
            old(entry).variables_fingerprint_counts.spec_value(variables_bucket@),
            1,
        ),
        forall|l: Seq<char>|
            l != variables_bucket@ ==> final(entry).variables_fingerprint_counts.spec_value(l)
                == old(entry).variables_fingerprint_counts.spec_value(l),
        ev.prefix@ == prefix@ && ev.code@ == code@ && ev.origin@ == origin@,
        ev.total == final(entry).total && ev.last_delta == 1 && ev.last_seen == now,
        crate::storage::types::opt_string_view(ev.detail) == crate::storage::types::opt_string_view(
            final(entry).detail,
        ),
        ev.detail_fingerprint == final(entry).detail_fingerprint,
        ev.detail_bucket@ == detail_bucket@,
        strings(ev.variables@) == strings(final(entry).variables@),
        ev.variables_fingerprint == final(entry).variables_fingerprint,
        ev.variables_bucket@ == variables_bucket@,
{
    entry.total = if entry.total == u64::MAX { u64::MAX } else { entry.total + 1 };
    entry.last_delta = 1;
    entry.last_seen = now;
    entry.origin = origin.to_owned();
    let detail_changed = match detail {
        Some(d) => if !d.is_empty() {
            let changed = match entry.detail_fingerprint {
                Some(f) => f != detail_fp,
                None => true,
            };
            entry.detail = Some(d.to_owned());
            entry.detail_fingerprint = Some(detail_fp);
            changed
        } else {
            false
        },
        None => false,
    };
    let variables_changed = if variables.len() > 0 {
        let changed = entry.variables_fingerprint != variables_fp;
        entry.variables = copy_strings(variables);
        entry.variables_fingerprint = variables_fp;
        changed
    } else {
        false
    };
    entry.detail_fingerprint_counts.inc(detail_bucket);
    entry.variables_fingerprint_counts.inc(variables_bucket);
    TlsEnvWarningTelemetryEvent {
        prefix: prefix.to_owned(),
        code: code.to_owned(),
        origin: origin.to_owned(),
        total: entry.total,
        last_delta: entry.last_delta,
        last_seen: entry.last_seen,
        detail: copy_opt(&entry.detail),
        detail_fingerprint: entry.detail_fingerprint,
        detail_bucket: detail_bucket.to_owned(),
        detail_changed,
        variables: copy_strings(entry.variables.as_slice()),
        variables_fingerprint: entry.variables_fingerprint,
        variables_bucket: variables_bucket.to_owned(),
        variables_changed,
    }
}


} // verus!
