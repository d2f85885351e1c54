//! Treasury metrics: disbursement lifecycle, execution errors, balances,
//! backlog and the executor's circuit breaker.  Every label is mapped to a
//! fixed set so that user-provided text cannot grow the label space.

pub mod status;
pub mod error_reason;
pub mod dependency_failure;

use vstd::prelude::*;
use crate::telemetry::counters::LabelCounters;
use crate::telemetry::labels::{contains, label_contains};
use crate::text::str_eq;

verus! {

/// The label recorded for a disbursement status: itself when known, else
/// `other`.
pub open spec fn status_label(s: Seq<char>) -> Seq<char> {
    if s == status::DRAFT@ || s == status::VOTING@ || s == status::QUEUED@ || s == status::TIMELOCKED@
        || s == status::EXECUTED@ || s == status::FINALIZED@ || s == status::ROLLED_BACK@ {
        s
    } else {
        "other"@
    }
}

/// The label recorded for an execution error reason, by the first keyword
/// group that the reason contains.
pub open spec fn error_reason_label(r: Seq<char>) -> Seq<char> {
    if contains(r, "insufficient"@) || contains(r, "balance"@) {
        error_reason::INSUFFICIENT_FUNDS@
    } else if contains(r, "target"@) || contains(r, "destination"@) {
        error_reason::INVALID_TARGET@
    } else if contains(r, "stale"@) || contains(r, "dependency"@) {
        error_reason::STALE_DEPENDENCY@
    } else if contains(r, "circular"@) {
        error_reason::CIRCULAR_DEPENDENCY@
    } else if contains(r, "execution"@) || contains(r, "failed"@) {
        error_reason::EXECUTION_FAILED@
    } else if contains(r, "quorum"@) {
        error_reason::QUORUM_NOT_REACHED@
    } else if contains(r, "epoch"@) || contains(r, "expired"@) {
        error_reason::EPOCH_EXPIRED@
    } else {
        "other"@
    }
}

/// The label recorded for a dependency failure type: itself when known,
/// else `other`.
pub open spec fn dependency_failure_label(f: Seq<char>) -> Seq<char> {
    if f == dependency_failure::CIRCULAR@ || f == dependency_failure::MISSING@ || f
        == dependency_failure::STALE@ || f == dependency_failure::ROLLED_BACK@ {
        f
    } else {
        "other"@
    }
}

fn sanitize_status_label(status: &str) -> (l: &'static str)
    ensures
        l@ == status_label(status@),
{
    if str_eq(status, status::DRAFT) {
        status::DRAFT
    } else if str_eq(status, status::VOTING) {
        status::VOTING
    } else if str_eq(status, status::QUEUED) {
        status::QUEUED
    } else if str_eq(status, status::TIMELOCKED) {
        status::TIMELOCKED
    } else if str_eq(status, status::EXECUTED) {
        status::EXECUTED
    } else if str_eq(status, status::FINALIZED) {
        status::FINALIZED
    } else if str_eq(status, status::ROLLED_BACK) {
        status::ROLLED_BACK
    } else {
        "other"
    }
}

fn sanitize_error_reason_label(reason: &str) -> (l: &'static str)
    ensures
        l@ == error_reason_label(reason@),
{
    if label_contains(reason, "insufficient") || label_contains(reason, "balance") {
        error_reason::INSUFFICIENT_FUNDS
    } else if label_contains(reason, "target") || label_contains(reason, "destination") {
        error_reason::INVALID_TARGET
    } else if label_contains(reason, "stale") || label_contains(reason, "dependency") {
        error_reason::STALE_DEPENDENCY
    } else if label_contains(reason, "circular") {
        error_reason::CIRCULAR_DEPENDENCY
    } else if label_contains(reason, "execution") || label_contains(reason, "failed") {
        error_reason::EXECUTION_FAILED
    } else if label_contains(reason, "quorum") {
        error_reason::QUORUM_NOT_REACHED
    } else if label_contains(reason, "epoch") || label_contains(reason, "expired") {
        error_reason::EPOCH_EXPIRED
    } else {
        "other"
    }
}

fn sanitize_dependency_failure_label(failure_type: &str) -> (l: &'static str)
    ensures
        l@ == dependency_failure_label(failure_type@),
{
    if str_eq(failure_type, dependency_failure::CIRCULAR) {
        dependency_failure::CIRCULAR
    } else if str_eq(failure_type, dependency_failure::MISSING) {
        dependency_failure::MISSING
    } else if str_eq(failure_type, dependency_failure::STALE) {
        dependency_failure::STALE
    } else if str_eq(failure_type, dependency_failure::ROLLED_BACK) {
        dependency_failure::ROLLED_BACK
    } else {
        "other"
    }
}

/// The treasury metric values.
pub struct TreasuryMetrics {
    /// Disbursements by final status.
    pub disbursements: LabelCounters,
    /// Execution errors by reason.
    pub execution_errors: LabelCounters,
    /// Dependency validation failures by type.
    pub dependency_failures: LabelCounters,
    /// Treasury balance in consumer tokens.
    pub balance_ct: u64,
    /// Treasury balance in industrial tokens.
    pub balance_it: u64,
    /// Pending disbursements by status.
    pub disbursement_backlog: LabelCounters,
    /// Circuit breaker state: 0 closed, 1 open, 2 half-open.
    pub circuit_breaker_state: u8,
    /// Failures in the current breaker window.
    pub circuit_breaker_failures: u64,
    /// Consecutive successes while half-open.
    pub circuit_breaker_successes: u64,
}

impl TreasuryMetrics {
    pub open spec fn wf(&self) -> bool {
        self.disbursements.wf() && self.execution_errors.wf() && self.dependency_failures.wf()
            && self.disbursement_backlog.wf()
    }

    /// All counters and gauges at zero.
    pub fn new() -> (m: Self)
        ensures
            m.wf(),
            forall|l: Seq<char>| m.disbursements.spec_value(l) == 0,
            forall|l: Seq<char>| m.execution_errors.spec_value(l) == 0,
            forall|l: Seq<char>| m.dependency_failures.spec_value(l) == 0,
            forall|l: Seq<char>| m.disbursement_backlog.spec_value(l) == 0,
            m.balance_ct == 0 && m.balance_it == 0,
            m.circuit_breaker_state == 0 && m.circuit_breaker_failures == 0
                && m.circuit_breaker_successes == 0,
            forall|l: Seq<char>|
                !m.disbursements.spec_contains(l) && !m.execution_errors.spec_contains(l)
                    && !m.dependency_failures.spec_contains(l) && !m.disbursement_backlog.spec_contains(l),
    {
        TreasuryMetrics {
            disbursements: LabelCounters::new(),
            execution_errors: LabelCounters::new(),
            dependency_failures: LabelCounters::new(),
            balance_ct: 0,
            balance_it: 0,
            disbursement_backlog: LabelCounters::new(),
            circuit_breaker_state: 0,
            circuit_breaker_failures: 0,
            circuit_breaker_successes: 0,
        }
    }
}

/// Counts a disbursement under its sanitized status.
pub fn increment_disbursements(m: &mut TreasuryMetrics, status: &str)
    requires
        old(m).wf(),
    ensures
        final(m).wf(),
        final(m).disbursements.spec_value(status_label(status@)) == vstd::wrapping::u64_specs::wrapping_add(
            old(m).disbursements.spec_value(status_label(status@)),
            1,
        ),
        forall|l: Seq<char>|
            l != status_label(status@) ==> final(m).disbursements.spec_value(l) == old(m).disbursements.spec_value(l),
        final(m).execution_errors == old(m).execution_errors,
        final(m).dependency_failures == old(m).dependency_failures,
        final(m).disbursement_backlog == old(m).disbursement_backlog,
        final(m).balance_ct == old(m).balance_ct && final(m).balance_it == old(m).balance_it,
        final(m).circuit_breaker_state == old(m).circuit_breaker_state,
        final(m).circuit_breaker_failures == old(m).circuit_breaker_failures,
        final(m).circuit_breaker_successes == old(m).circuit_breaker_successes,
{
    let label = sanitize_status_label(status);
    m.disbursements.inc(label);
}

/// Counts an execution error under its sanitized reason.
pub fn increment_execution_error(m: &mut TreasuryMetrics, reason: &str)
    requires
        old(m).wf(),
    ensures
        final(m).wf(),
        final(m).execution_errors.spec_value(error_reason_label(reason@)) == vstd::wrapping::u64_specs::wrapping_add(
            old(m).execution_errors.spec_value(error_reason_label(reason@)),
            1,
        ),
        forall|l: Seq<char>|
            l != error_reason_label(reason@) ==> final(m).execution_errors.spec_value(l)
                == old(m).execution_errors.spec_value(l),
        final(m).disbursements == old(m).disbursements,
        final(m).dependency_failures == old(m).dependency_failures,
        final(m).disbursement_backlog == old(m).disbursement_backlog,
        final(m).balance_ct == old(m).balance_ct && final(m).balance_it == old(m).balance_it,
        final(m).circuit_breaker_state == old(m).circuit_breaker_state,
        final(m).circuit_breaker_failures == old(m).circuit_breaker_failures,
        final(m).circuit_breaker_successes == old(m).circuit_breaker_successes,
{
    let label = sanitize_error_reason_label(reason);
    m.execution_errors.inc(label);
}

/// Counts a dependency failure under its sanitized type.
pub fn increment_dependency_failure(m: &mut TreasuryMetrics, failure_type: &str)
    requires
        old(m).wf(),
    ensures
        final(m).wf(),
        final(m).dependency_failures.spec_value(dependency_failure_label(failure_type@))
            == vstd::wrapping::u64_specs::wrapping_add(
            old(m).dependency_failures.spec_value(dependency_failure_label(failure_type@)),
            1,
        ),
        forall|l: Seq<char>|
            l != dependency_failure_label(failure_type@) ==> final(m).dependency_failures.spec_value(l)
                == old(m).dependency_failures.spec_value(l),
        final(m).disbursements == old(m).disbursements,
        final(m).execution_errors == old(m).execution_errors,
        final(m).disbursement_backlog == old(m).disbursement_backlog,
        final(m).balance_ct == old(m).balance_ct && final(m).balance_it == old(m).balance_it,
        final(m).circuit_breaker_state == old(m).circuit_breaker_state,
        final(m).circuit_breaker_failures == old(m).circuit_breaker_failures,
        final(m).circuit_breaker_successes == old(m).circuit_breaker_successes,
{
    let label = sanitize_dependency_failure_label(failure_type);
    m.dependency_failures.inc(label);
}

/// Sets both treasury balance gauges.
pub fn set_treasury_balance(m: &mut TreasuryMetrics, ct: u64, it: u64)
    ensures
        final(m).balance_ct == ct,
        final(m).balance_it == it,
        final(m).disbursements == old(m).disbursements,
        final(m).execution_errors == old(m).execution_errors,
        final(m).dependency_failures == old(m).dependency_failures,
        final(m).disbursement_backlog == old(m).disbursement_backlog,
        final(m).circuit_breaker_state == old(m).circuit_breaker_state,
        final(m).circuit_breaker_failures == old(m).circuit_breaker_failures,
        final(m).circuit_breaker_successes == old(m).circuit_breaker_successes,
{
    m.balance_ct = ct;
    m.balance_it = it;
}

/// Sets the backlog gauge of a sanitized status.
pub fn set_disbursement_backlog(m: &mut TreasuryMetrics, status: &str, count: usize)
    requires
        old(m).wf(),
    ensures
        final(m).wf(),
        final(m).disbursement_backlog.spec_value(status_label(status@)) == count as u64,
        forall|l: Seq<char>|
            l != status_label(status@) ==> final(m).disbursement_backlog.spec_value(l)
                == old(m).disbursement_backlog.spec_value(l),
        final(m).disbursements == old(m).disbursements,
        final(m).execution_errors == old(m).execution_errors,
        final(m).dependency_failures == old(m).dependency_failures,
        final(m).balance_ct == old(m).balance_ct && final(m).balance_it == old(m).balance_it,
        final(m).circuit_breaker_state == old(m).circuit_breaker_state,
        final(m).circuit_breaker_failures == old(m).circuit_breaker_failures,
        final(m).circuit_breaker_successes == old(m).circuit_breaker_successes,
{
    let label = sanitize_status_label(status);
    m.disbursement_backlog.set(label, count as u64);
}

/// Sets the circuit breaker gauges.
pub fn set_circuit_breaker_state(m: &mut TreasuryMetrics, state: u8, failures: u64, successes: u64)
    ensures
        final(m).circuit_breaker_state == state,
        final(m).circuit_breaker_failures == failures,
        final(m).circuit_breaker_successes == successes,
        final(m).disbursements == old(m).disbursements,
        final(m).execution_errors == old(m).execution_errors,
        final(m).dependency_failures == old(m).dependency_failures,
        final(m).disbursement_backlog == old(m).disbursement_backlog,
        final(m).balance_ct == old(m).balance_ct && final(m).balance_it == old(m).balance_it,
{
    m.circuit_breaker_state = state;
    m.circuit_breaker_failures = failures;
    m.circuit_breaker_successes = successes;
}

} // verus!

verus! {

/// The labels that treasury metrics can carry under each label name: every
/// recorded status, reason and failure type is one of a fixed few.
pub proof fn lemma_treasury_labels_bounded(s: Seq<char>)
    ensures
        ({
            let l = status_label(s);
            l == status::DRAFT@ || l == status::VOTING@ || l == status::QUEUED@ || l == status::TIMELOCKED@
                || l == status::EXECUTED@ || l == status::FINALIZED@ || l == status::ROLLED_BACK@ || l
                == "other"@
        }),
        ({
            let l = error_reason_label(s);
            l == error_reason::INSUFFICIENT_FUNDS@ || l == error_reason::INVALID_TARGET@ || l
                == error_reason::STALE_DEPENDENCY@ || l == error_reason::CIRCULAR_DEPENDENCY@ || l
                == error_reason::EXECUTION_FAILED@ || l == error_reason::QUORUM_NOT_REACHED@ || l
                == error_reason::EPOCH_EXPIRED@ || l == "other"@
        }),
        ({
            let l = dependency_failure_label(s);
            l == dependency_failure::CIRCULAR@ || l == dependency_failure::MISSING@ || l
                == dependency_failure::STALE@ || l == dependency_failure::ROLLED_BACK@ || l == "other"@
        }),
{
}

} // verus!
