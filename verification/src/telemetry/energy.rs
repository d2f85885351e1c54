//! Energy market metrics: oracle readings, disputes, quorum shortfalls and
//! slashing.  Every label comes from a bounded set: reasons and states are
//! mapped to fixed label sets, and a provider is recorded under its own name
//! only when it is among the providers the metrics were set up with, else
//! under "other".

pub mod error_reason;
pub mod dispute_type;
pub mod dispute_outcome;
pub mod dispute_state;
pub mod slash_reason;

use vstd::prelude::*;
use crate::telemetry::counters::LabelCounters;
use crate::telemetry::labels::{contains, label_contains};
use crate::text::str_eq;

verus! {

/// The label of an oracle error reason, by the first keyword group it
/// contains.
pub open spec fn oracle_error_label(r: Seq<char>) -> Seq<char> {
    if contains(r, "invalid"@) || contains(r, "reading"@) {
        error_reason::INVALID_READING@
    } else if contains(r, "stale"@) || contains(r, "timestamp"@) {
        error_reason::STALE_TIMESTAMP@
    } else if contains(r, "authorization"@) || contains(r, "auth"@) {
        error_reason::AUTHORIZATION_FAILED@
    } else if contains(r, "signature"@) || contains(r, "sig"@) {
        error_reason::BAD_SIGNATURE@
    } else {
        "other"@
    }
}

/// The label of a dispute type: itself when known, else `other`.
pub open spec fn dispute_type_label(t: Seq<char>) -> Seq<char> {
    if t == dispute_type::LOW_READING@ || t == dispute_type::OUTLIER_DETECTED@ || t
        == dispute_type::CONSENSUS_GAP@ {
        t
    } else {
        "other"@
    }
}

/// The label of a dispute outcome: itself when known, else `other`.
pub open spec fn dispute_outcome_label(o: Seq<char>) -> Seq<char> {
    if o == dispute_outcome::RESOLVED@ || o == dispute_outcome::ESCALATED@ || o == dispute_outcome::SLASHED@ {
        o
    } else {
        "other"@
    }
}

/// The label of a dispute state: itself when known, else `other`.
pub open spec fn dispute_state_label(s: Seq<char>) -> Seq<char> {
    if s == dispute_state::OPEN@ || s == dispute_state::RESOLVED@ || s == dispute_state::SLASHED@ {
        s
    } else {
        "other"@
    }
}

/// The slash reasons, in label order.
#[derive(Clone, Copy, Debug, PartialEq, Eq, Structural)]
pub enum SlashReason {
    Quorum,
    Expiry,
    Conflict,
    Other,
}

/// The reason class of a slashing event, by the first keyword group that
/// its text contains.
pub open spec fn slash_reason_of(r: Seq<char>) -> SlashReason {
    if contains(r, "quorum"@) {
        SlashReason::Quorum
    } else if contains(r, "expire"@) || contains(r, "expiry"@) {
        SlashReason::Expiry
    } else if contains(r, "conflict"@) || contains(r, "hash"@) {
        SlashReason::Conflict
    } else {
        SlashReason::Other
    }
}

impl SlashReason {
    /// The label text of the reason.
    pub fn as_str(&self) -> (s: &'static str)
        ensures
            s@ == (match self {
                SlashReason::Quorum => slash_reason::QUORUM@,
                SlashReason::Expiry => slash_reason::EXPIRY@,
                SlashReason::Conflict => slash_reason::CONFLICT@,
                SlashReason::Other => slash_reason::OTHER@,
            }),
    {
        match self {
            SlashReason::Quorum => slash_reason::QUORUM,
            SlashReason::Expiry => slash_reason::EXPIRY,
            SlashReason::Conflict => slash_reason::CONFLICT,
            SlashReason::Other => slash_reason::OTHER,
        }
    }
}

fn sanitize_oracle_error_label(reason: &str) -> (l: &'static str)
    ensures
        l@ == oracle_error_label(reason@),
{
    if label_contains(reason, "invalid") || label_contains(reason, "reading") {
        error_reason::INVALID_READING
    } else if label_contains(reason, "stale") || label_contains(reason, "timestamp") {
        error_reason::STALE_TIMESTAMP
    } else if label_contains(reason, "authorization") || label_contains(reason, "auth") {
        error_reason::AUTHORIZATION_FAILED
    } else if label_contains(reason, "signature") || label_contains(reason, "sig") {
        error_reason::BAD_SIGNATURE
    } else {
        "other"
    }
}

fn sanitize_dispute_type_label(dispute_type: &str) -> (l: &'static str)
    ensures
        l@ == dispute_type_label(dispute_type@),
{
    if str_eq(dispute_type, dispute_type::LOW_READING) {
        dispute_type::LOW_READING
    } else if str_eq(dispute_type, dispute_type::OUTLIER_DETECTED) {
        dispute_type::OUTLIER_DETECTED
    } else if str_eq(dispute_type, dispute_type::CONSENSUS_GAP) {
        dispute_type::CONSENSUS_GAP
    } else {
        "other"
    }
}

fn sanitize_dispute_outcome_label(outcome: &str) -> (l: &'static str)
    ensures
        l@ == dispute_outcome_label(outcome@),
{
    if str_eq(outcome, dispute_outcome::RESOLVED) {
        dispute_outcome::RESOLVED
    } else if str_eq(outcome, dispute_outcome::ESCALATED) {
        dispute_outcome::ESCALATED
    } else if str_eq(outcome, dispute_outcome::SLASHED) {
        dispute_outcome::SLASHED
    } else {
        "other"
    }
}

fn sanitize_dispute_state_label(state: &str) -> (l: &'static str)
    ensures
        l@ == dispute_state_label(state@),
{
    if str_eq(state, dispute_state::OPEN) {
        dispute_state::OPEN
    } else if str_eq(state, dispute_state::RESOLVED) {
        dispute_state::RESOLVED
    } else if str_eq(state, dispute_state::SLASHED) {
        dispute_state::SLASHED
    } else {
        "other"
    }
}

fn sanitize_slash_reason(reason: &str) -> (r: SlashReason)
    ensures
        r == slash_reason_of(reason@),
{
    if label_contains(reason, "quorum") {
        SlashReason::Quorum
    } else if label_contains(reason, "expire") || label_contains(reason, "expiry") {
        SlashReason::Expiry
    } else if label_contains(reason, "conflict") || label_contains(reason, "hash") {
        SlashReason::Conflict
    } else {
        SlashReason::Other
    }
}

/// The energy metric values.
pub struct EnergyMetrics {
    /// Energy readings submitted across all oracles.
    pub readings: u64,
    /// Oracle submission failures by reason.
    pub oracle_submission_errors: LabelCounters,
    /// Disputes raised by type.
    pub disputes_raised: LabelCounters,
    /// Disputes concluded by outcome.
    pub disputes_resolved: LabelCounters,
    /// Active oracle operators.
    pub oracle_active_count: u64,
    /// Disputes awaiting resolution.
    pub disputes_pending: u64,
    /// Settlements rejected for want of quorum, by provider.
    pub quorum_shortfall: LabelCounters,
    /// Readings rejected before creating credits, by reason.
    pub reading_rejects: LabelCounters,
    /// Slashing events for quorum, by provider.
    pub slashing_quorum: LabelCounters,
    /// Slashing events for expiry, by provider.
    pub slashing_expiry: LabelCounters,
    /// Slashing events for conflicts, by provider.
    pub slashing_conflict: LabelCounters,
    /// Other slashing events, by provider.
    pub slashing_other: LabelCounters,
    /// Disputes by lifecycle state.
    pub dispute_states: LabelCounters,
    /// The providers recorded under their own names; any other provider is
    /// recorded as "other".
    pub known_providers: Vec<String>,
}

/// The label under which a provider is recorded: its name when it is one
/// of `known`, else "other".
pub open spec fn provider_label(known: Seq<Seq<char>>, provider: Seq<char>) -> Seq<char> {
    if known.contains(provider) {
        provider
    } else {
        "other"@
    }
}

/// Whether every label with an entry in `c` is one of `known` or "other".
pub open spec fn labels_within(c: LabelCounters, known: Seq<Seq<char>>) -> bool {
    forall|l: Seq<char>| c.spec_contains(l) ==> known.contains(l) || l == "other"@
}

/// The label of `provider` among the names in `known`.
fn sanitize_provider_label<'a>(known: &Vec<String>, provider: &'a str) -> (l: &'a str)
    ensures
        l@ == provider_label(Seq::new(known@.len(), |i: int| known@[i]@), provider@),
{
    let ghost kv = Seq::new(known@.len(), |i: int| known@[i]@);
    let mut i: usize = 0;
    while i < known.len()
        invariant
            i <= known@.len(),
            kv == Seq::new(known@.len(), |i: int| known@[i]@),
            forall|j: int| 0 <= j < i ==> kv[j] != provider@,
        decreases known@.len() - i,
    {
        if str_eq(known[i].as_str(), provider) {
            assert(kv[i as int] == provider@);
            return provider;
        }
        i = i + 1;
    }
    proof {
        reveal_strlit("other");
    }
    "other"
}

impl EnergyMetrics {
    pub open spec fn wf(&self) -> bool {
        self.oracle_submission_errors.wf() && self.disputes_raised.wf() && self.disputes_resolved.wf()
            && self.quorum_shortfall.wf() && self.reading_rejects.wf() && self.slashing_quorum.wf()
            && self.slashing_expiry.wf() && self.slashing_conflict.wf() && self.slashing_other.wf()
            && self.dispute_states.wf()
    }

    /// The provider names recorded as themselves.
    pub open spec fn known_view(&self) -> Seq<Seq<char>> {
        Seq::new(self.known_providers@.len(), |i: int| self.known_providers@[i]@)
    }

    /// The slashing counters of one reason class.
    pub open spec fn slashing(&self, r: SlashReason) -> LabelCounters {
        match r {
            SlashReason::Quorum => self.slashing_quorum,
            SlashReason::Expiry => self.slashing_expiry,
            SlashReason::Conflict => self.slashing_conflict,
            SlashReason::Other => self.slashing_other,
        }
    }

    /// All counters and gauges at zero.
    pub fn new() -> (m: Self)
        ensures
            m.wf(),
            m.readings == 0 && m.oracle_active_count == 0 && m.disputes_pending == 0,
            forall|l: Seq<char>|
                m.oracle_submission_errors.spec_value(l) == 0 && m.disputes_raised.spec_value(l) == 0
                    && m.disputes_resolved.spec_value(l) == 0 && m.quorum_shortfall.spec_value(l) == 0
                    && m.reading_rejects.spec_value(l) == 0 && m.dispute_states.spec_value(l) == 0,
            forall|r: SlashReason, l: Seq<char>| m.slashing(r).spec_value(l) == 0,
            forall|l: Seq<char>| !m.quorum_shortfall.spec_contains(l),
            forall|r: SlashReason, l: Seq<char>| !m.slashing(r).spec_contains(l),
            labels_within(m.quorum_shortfall, m.known_view()),
            forall|r: SlashReason| labels_within(#[trigger] m.slashing(r), m.known_view()),
    {
        EnergyMetrics {
            readings: 0,
            oracle_submission_errors: LabelCounters::new(),
            disputes_raised: LabelCounters::new(),
            disputes_resolved: LabelCounters::new(),
            oracle_active_count: 0,
            disputes_pending: 0,
            quorum_shortfall: LabelCounters::new(),
            reading_rejects: LabelCounters::new(),
            slashing_quorum: LabelCounters::new(),
            slashing_expiry: LabelCounters::new(),
            slashing_conflict: LabelCounters::new(),
            slashing_other: LabelCounters::new(),
            dispute_states: LabelCounters::new(),
            known_providers: Vec::new(),
        }
    }

    /// Metrics at zero that record the given providers under their own
    /// names (and every other provider as "other").
    pub fn with_known_providers(providers: Vec<String>) -> (m: Self)
        ensures
            m.wf(),
            m.readings == 0 && m.oracle_active_count == 0 && m.disputes_pending == 0,
            forall|l: Seq<char>|
                m.oracle_submission_errors.spec_value(l) == 0 && m.disputes_raised.spec_value(l) == 0
                    && m.disputes_resolved.spec_value(l) == 0 && m.quorum_shortfall.spec_value(l) == 0
                    && m.reading_rejects.spec_value(l) == 0 && m.dispute_states.spec_value(l) == 0,
            forall|r: SlashReason, l: Seq<char>| m.slashing(r).spec_value(l) == 0,
            forall|l: Seq<char>| !m.quorum_shortfall.spec_contains(l),
            forall|r: SlashReason, l: Seq<char>| !m.slashing(r).spec_contains(l),
            labels_within(m.quorum_shortfall, m.known_view()),
            forall|r: SlashReason| labels_within(#[trigger] m.slashing(r), m.known_view()),
            m.known_providers == providers,
    {
        let m0 = EnergyMetrics::new();
        let m = EnergyMetrics { known_providers: providers, ..m0 };
        assert forall|r: SlashReason, l: Seq<char>| m.slashing(r).spec_value(l) == 0 && !m.slashing(r).spec_contains(l) by {
            assert(m.slashing(r) == m0.slashing(r));
        }
        m
    }
}

/// `c` is `before` with `label` counted once more.
pub open spec fn bumped(c: LabelCounters, before: LabelCounters, label: Seq<char>) -> bool {
    c.wf() && c.spec_value(label) == vstd::wrapping::u64_specs::wrapping_add(before.spec_value(label), 1)
        && forall|l: Seq<char>| l != label ==> c.spec_value(l) == before.spec_value(l)
}

/// Counts one energy reading.
pub fn increment_energy_readings(m: &mut EnergyMetrics)
    ensures
        final(m).readings == vstd::wrapping::u64_specs::wrapping_add(old(m).readings, 1),
        *final(m) == (EnergyMetrics { readings: final(m).readings, ..*old(m) }),
{
    m.readings = m.readings.wrapping_add(1);
}

/// Counts an oracle submission error under its sanitized reason.
pub fn increment_oracle_submission_error(m: &mut EnergyMetrics, reason: &str)
    requires
        old(m).wf(),
    ensures
        final(m).wf(),
        bumped(final(m).oracle_submission_errors, old(m).oracle_submission_errors, oracle_error_label(reason@)),
        *final(m) == (EnergyMetrics { oracle_submission_errors: final(m).oracle_submission_errors, ..*old(m) }),
{
    let label = sanitize_oracle_error_label(reason);
    m.oracle_submission_errors.inc(label);
}

/// Counts a raised dispute under its sanitized type.
pub fn increment_disputes_raised(m: &mut EnergyMetrics, dispute_type: &str)
    requires
        old(m).wf(),
    ensures
        final(m).wf(),
        bumped(final(m).disputes_raised, old(m).disputes_raised, dispute_type_label(dispute_type@)),
        *final(m) == (EnergyMetrics { disputes_raised: final(m).disputes_raised, ..*old(m) }),
{
    let label = sanitize_dispute_type_label(dispute_type);
    m.disputes_raised.inc(label);
}

/// Counts a concluded dispute under its sanitized outcome.
pub fn increment_disputes_resolved(m: &mut EnergyMetrics, outcome: &str)
    requires
        old(m).wf(),
    ensures
        final(m).wf(),
        bumped(final(m).disputes_resolved, old(m).disputes_resolved, dispute_outcome_label(outcome@)),
        *final(m) == (EnergyMetrics { disputes_resolved: final(m).disputes_resolved, ..*old(m) }),
{
    let label = sanitize_dispute_outcome_label(outcome);
    m.disputes_resolved.inc(label);
}

/// Sets the oracle health gauges.
pub fn set_oracle_health(m: &mut EnergyMetrics, active_count: usize, pending_disputes: usize)
    ensures
        *final(m) == (EnergyMetrics {
            oracle_active_count: active_count as u64,
            disputes_pending: pending_disputes as u64,
            ..*old(m)
        }),
{
    m.oracle_active_count = active_count as u64;
    m.disputes_pending = pending_disputes as u64;
}

/// Counts a rejected reading under its sanitized reason.
pub fn increment_reading_reject(m: &mut EnergyMetrics, reason: &str)
    requires
        old(m).wf(),
    ensures
        final(m).wf(),
        bumped(final(m).reading_rejects, old(m).reading_rejects, oracle_error_label(reason@)),
        *final(m) == (EnergyMetrics { reading_rejects: final(m).reading_rejects, ..*old(m) }),
{
    let label = sanitize_oracle_error_label(reason);
    m.reading_rejects.inc(label);
}

/// Counts a quorum shortfall under the provider's label: its name when it
/// is a known provider, else "other".  No other label gains an entry.
pub fn increment_quorum_shortfall(m: &mut EnergyMetrics, provider: &str)
    requires
        old(m).wf(),
    ensures
        final(m).wf(),
        bumped(final(m).quorum_shortfall, old(m).quorum_shortfall, provider_label(old(m).known_view(), provider@)),
        labels_within(old(m).quorum_shortfall, old(m).known_view()) ==> labels_within(
            final(m).quorum_shortfall,
            final(m).known_view(),
        ),
        *final(m) == (EnergyMetrics { quorum_shortfall: final(m).quorum_shortfall, ..*old(m) }),
{
    let label = sanitize_provider_label(&m.known_providers, provider);
    m.quorum_shortfall.inc(label);
}

/// Counts a dispute under its sanitized lifecycle state.
pub fn increment_dispute_state(m: &mut EnergyMetrics, state: &str)
    requires
        old(m).wf(),
    ensures
        final(m).wf(),
        bumped(final(m).dispute_states, old(m).dispute_states, dispute_state_label(state@)),
        *final(m) == (EnergyMetrics { dispute_states: final(m).dispute_states, ..*old(m) }),
{
    let label = sanitize_dispute_state_label(state);
    m.dispute_states.inc(label);
}

/// Counts a slashing event under the provider's label (its name when it is
/// a known provider, else "other") in its reason class; the
/// counters of the other classes are unchanged.
pub fn increment_slashing(m: &mut EnergyMetrics, provider: &str, reason: &str)
    requires
        old(m).wf(),
    ensures
        final(m).wf(),
        bumped(
            final(m).slashing(slash_reason_of(reason@)),
            old(m).slashing(slash_reason_of(reason@)),
            provider_label(old(m).known_view(), provider@),
        ),
        labels_within(old(m).slashing(slash_reason_of(reason@)), old(m).known_view()) ==> labels_within(
            final(m).slashing(slash_reason_of(reason@)),
            final(m).known_view(),
        ),
        forall|r: SlashReason| r != slash_reason_of(reason@) ==> final(m).slashing(r) == old(m).slashing(r),
        *final(m) == (EnergyMetrics {
            slashing_quorum: final(m).slashing_quorum,
            slashing_expiry: final(m).slashing_expiry,
            slashing_conflict: final(m).slashing_conflict,
            slashing_other: final(m).slashing_other,
            ..*old(m)
        }),
{
    let label = sanitize_provider_label(&m.known_providers, provider);
    match sanitize_slash_reason(reason) {
        SlashReason::Quorum => m.slashing_quorum.inc(label),
        SlashReason::Expiry => m.slashing_expiry.inc(label),
        SlashReason::Conflict => m.slashing_conflict.inc(label),
        SlashReason::Other => m.slashing_other.inc(label),
    }
}

} // verus!

verus! {

/// Every oracle error, dispute type, outcome and state label that energy
/// metrics record is one of a fixed few, and a provider label is one of the
/// known providers or "other".
pub proof fn lemma_energy_labels_bounded(s: Seq<char>, known: Seq<Seq<char>>)
    ensures
        ({
            let l = provider_label(known, s);
            known.contains(l) || l == "other"@
        }),
        ({
            let l = oracle_error_label(s);
            l == error_reason::INVALID_READING@ || l == error_reason::STALE_TIMESTAMP@ || l
                == error_reason::AUTHORIZATION_FAILED@ || l == error_reason::BAD_SIGNATURE@ || l == "other"@
        }),
        ({
            let l = dispute_type_label(s);
            l == dispute_type::LOW_READING@ || l == dispute_type::OUTLIER_DETECTED@ || l
                == dispute_type::CONSENSUS_GAP@ || l == "other"@
        }),
        ({
            let l = dispute_outcome_label(s);
            l == dispute_outcome::RESOLVED@ || l == dispute_outcome::ESCALATED@ || l == dispute_outcome::SLASHED@
                || l == "other"@
        }),
        ({
            let l = dispute_state_label(s);
            l == dispute_state::OPEN@ || l == dispute_state::RESOLVED@ || l == dispute_state::SLASHED@ || l
                == "other"@
        }),
{
}

} // verus!
