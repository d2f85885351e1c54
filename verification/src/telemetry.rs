//! Node telemetry as explicit metric state: counters, gauges and label
//! sanitizers, updated by verified functions.

pub mod counters;
pub mod consensus_metrics;
pub mod consensus_integration;
pub mod consensus_instrumentation;
pub mod labels;
pub mod treasury;
pub mod energy;
pub mod receipts;
pub mod codec_metrics;
pub mod cohorts;
pub mod routing;
pub mod summary;
pub mod tls_warnings;

use vstd::prelude::*;
use crate::telemetry::counters::LabelCounters;
use crate::text::str_eq;

verus! {

/// The separator between the label values of a multi-label metric key.
pub const LABEL_SEPARATOR: &'static str = "\u{1f}";

/// The key of a metric with several label values: the values joined by the
/// separator.
pub open spec fn spec_label_key(labels: Seq<Seq<char>>) -> Seq<char>
    decreases labels.len(),
{
    if labels.len() == 0 {
        Seq::empty()
    } else if labels.len() == 1 {
        labels[0]
    } else {
        spec_label_key(labels.drop_last()) + LABEL_SEPARATOR@ + labels.last()
    }
}

/// The views of label values.
pub open spec fn labels_view(labels: Seq<&str>) -> Seq<Seq<char>> {
    Seq::new(labels.len(), |i: int| labels[i]@)
}

/// The key of a metric with several label values.
pub fn label_key(labels: &[&str]) -> (k: String)
    ensures
        k@ == spec_label_key(labels_view(labels@)),
{
    if labels.len() == 0 {
        return String::new();
    }
    let mut k = labels[0].to_owned();
    let mut i: usize = 1;
    while i < labels.len()
        invariant
            1 <= i <= labels@.len(),
            k@ == spec_label_key(labels_view(labels@).take(i as int)),
        decreases labels@.len() - i,
    {
        let next = crate::text::concat(k.as_str(), LABEL_SEPARATOR);
        k = crate::text::concat(next.as_str(), labels[i]);
        proof {
            let lv = labels_view(labels@);
            assert(lv.take(i + 1).drop_last() =~= lv.take(i as int));
            assert(lv.take(i + 1).last() == labels@[i as int]@);
        }
        i = i + 1;
    }
    proof {
        assert(labels_view(labels@).take(labels@.len() as int) =~= labels_view(labels@));
    }
    k
}

/// Parts of the node whose memory use is tracked.
#[derive(Clone, Copy, Debug, PartialEq, Eq, Hash, Structural)]
pub enum MemoryComponent {
    Mempool,
    Storage,
    Compute,
}

impl MemoryComponent {
    pub fn as_str(&self) -> (s: &'static str)
        ensures
            s@ == (match self {
                MemoryComponent::Mempool => "mempool"@,
                MemoryComponent::Storage => "storage"@,
                MemoryComponent::Compute => "compute"@,
            }),
    {
        match self {
            MemoryComponent::Mempool => "mempool",
            MemoryComponent::Storage => "storage",
            MemoryComponent::Compute => "compute",
        }
    }
}

/// Latest value and percentiles of a memory histogram.
#[derive(Clone, Copy, Debug, PartialEq, Eq, Structural)]
pub struct MemorySnapshot {
    pub latest: u64,
    pub p50: u64,
    pub p90: u64,
    pub p99: u64,
}

impl Default for MemorySnapshot {
    fn default() -> (s: Self)
        ensures
            s == (MemorySnapshot { latest: 0, p50: 0, p90: 0, p99: 0 }),
    {
        MemorySnapshot { latest: 0, p50: 0, p90: 0, p99: 0 }
    }
}

/// Maximum log events per second before sampling kicks in.
pub const LOG_LIMIT: u64 = 100;

/// Past the limit, one event in every `LOG_SAMPLE_STRIDE` is emitted.
pub const LOG_SAMPLE_STRIDE: u64 = 100;

/// Subsystems whose log counters are reset together.
pub const LOG_SUBSYSTEMS: [&'static str; 4] = ["mempool", "storage", "p2p", "compute"];

/// Log rate limiting and per-subsystem switches.
pub struct LogLimiter {
    /// The second the current count belongs to.
    pub sec: u64,
    /// Events seen in that second.
    pub count: u64,
    /// Subsystem switches: 1 enabled, 2 disabled, 0 never set.
    pub toggles: LabelCounters,
    /// Events emitted, by subsystem.
    pub emitted: LabelCounters,
    /// Events dropped, by subsystem.
    pub dropped: LabelCounters,
    /// Serialized log events observed.
    pub size_observations: u64,
    /// Their total size in bytes.
    pub size_total: u128,
}

impl LogLimiter {
    pub open spec fn wf(&self) -> bool {
        self.toggles.wf() && self.emitted.wf() && self.dropped.wf()
    }

    /// Whether logging of `subsystem` was switched off.
    pub open spec fn disabled(&self, subsystem: Seq<char>) -> bool {
        self.toggles.spec_value(subsystem) == 2
    }

    /// No event seen, every subsystem enabled.
    pub fn new() -> (l: Self)
        ensures
            l.wf(),
            l.sec == 0 && l.count == 0,
            forall|s: Seq<char>|
                l.toggles.spec_value(s) == 0 && l.emitted.spec_value(s) == 0 && l.dropped.spec_value(s) == 0,
            forall|s: Seq<char>|
                !l.toggles.spec_contains(s) && !l.emitted.spec_contains(s) && !l.dropped.spec_contains(s),
            forall|s: Seq<char>| !l.disabled(s),
            l.size_observations == 0 && l.size_total == 0,
    {
        LogLimiter {
            sec: 0,
            count: 0,
            toggles: LabelCounters::new(),
            emitted: LabelCounters::new(),
            dropped: LabelCounters::new(),
            size_observations: 0,
            size_total: 0,
        }
    }
}

/// The count of events in second `now` after one more, starting from
/// `(sec, count)`.
pub open spec fn next_log_count(sec: u64, count: u64, now: u64) -> u64 {
    vstd::wrapping::u64_specs::wrapping_add(if now != sec { 0 } else { count }, 1)
}

/// Whether the `count`-th event of a second is emitted: the first
/// `LOG_LIMIT`, then every `LOG_SAMPLE_STRIDE`-th.
pub open spec fn log_emitted(count: u64) -> bool {
    count <= LOG_LIMIT || count % LOG_SAMPLE_STRIDE == 0
}

/// Decides whether an event of `subsystem` at second `now` is logged, and
/// counts it as emitted or dropped.  A disabled subsystem drops the event
/// without touching the rate count.
pub fn should_log(l: &mut LogLimiter, subsystem: &str, now: u64) -> (emit: bool)
    requires
        old(l).wf(),
    ensures
        final(l).wf(),
        final(l).toggles == old(l).toggles,
        final(l).size_observations == old(l).size_observations,
        final(l).size_total == old(l).size_total,
        old(l).disabled(subsystem@) ==> !emit && final(l).sec == old(l).sec && final(l).count == old(l).count,
        !old(l).disabled(subsystem@) ==> {
            &&& final(l).sec == now
            &&& final(l).count == next_log_count(old(l).sec, old(l).count, now)
            &&& emit == log_emitted(final(l).count)
        },
        emit ==> final(l).emitted.spec_value(subsystem@) == vstd::wrapping::u64_specs::wrapping_add(
            old(l).emitted.spec_value(subsystem@),
            1,
        ) && final(l).dropped == old(l).dropped,
        !emit ==> final(l).dropped.spec_value(subsystem@) == vstd::wrapping::u64_specs::wrapping_add(
            old(l).dropped.spec_value(subsystem@),
            1,
        ) && final(l).emitted == old(l).emitted,
        forall|s: Seq<char>|
            s != subsystem@ ==> final(l).emitted.spec_value(s) == old(l).emitted.spec_value(s)
                && final(l).dropped.spec_value(s) == old(l).dropped.spec_value(s),
{
    if l.toggles.get(subsystem) == 2 {
        l.dropped.inc(subsystem);
        return false;
    }
    if now != l.sec {
        l.sec = now;
        l.count = 0;
    }
    l.count = l.count.wrapping_add(1);
    let count = l.count;
    if count <= LOG_LIMIT || count % LOG_SAMPLE_STRIDE == 0 {
        l.emitted.inc(subsystem);
        true
    } else {
        l.dropped.inc(subsystem);
        false
    }
}

/// Switches logging of a subsystem on or off.
pub fn set_log_enabled(l: &mut LogLimiter, subsystem: &str, enabled: bool)
    requires
        old(l).wf(),
    ensures
        final(l).wf(),
        final(l).disabled(subsystem@) == !enabled,
        forall|s: Seq<char>| s != subsystem@ ==> final(l).disabled(s) == old(l).disabled(s),
        final(l).sec == old(l).sec && final(l).count == old(l).count,
        final(l).emitted == old(l).emitted && final(l).dropped == old(l).dropped,
        final(l).size_observations == old(l).size_observations && final(l).size_total == old(l).size_total,
{
    l.toggles.set(subsystem, if enabled { 1 } else { 2 });
}

/// Observes the size of one serialized log event.
pub fn observe_log_size(l: &mut LogLimiter, bytes: usize)
    ensures
        final(l).size_observations == vstd::wrapping::u64_specs::wrapping_add(old(l).size_observations, 1),
        final(l).size_total == vstd::wrapping::u128_specs::wrapping_add(old(l).size_total, bytes as u128),
        final(l).sec == old(l).sec && final(l).count == old(l).count,
        final(l).toggles == old(l).toggles,
        final(l).emitted == old(l).emitted && final(l).dropped == old(l).dropped,
{
    l.size_observations = l.size_observations.wrapping_add(1);
    l.size_total = l.size_total.wrapping_add(bytes as u128);
}

/// Resets the rate count and the emitted and dropped counts of the
/// standard subsystems.
pub fn reset_log_counters(l: &mut LogLimiter)
    requires
        old(l).wf(),
    ensures
        final(l).wf(),
        final(l).sec == 0 && final(l).count == 0,
        final(l).toggles == old(l).toggles,
        forall|i: int|
            0 <= i < 4 ==> final(l).emitted.spec_value(#[trigger] LOG_SUBSYSTEMS@[i]@) == 0
                && final(l).dropped.spec_value(LOG_SUBSYSTEMS@[i]@) == 0,
        forall|s: Seq<char>|
            (forall|i: int| 0 <= i < 4 ==> s != #[trigger] LOG_SUBSYSTEMS@[i]@) ==> final(l).emitted.spec_value(s)
                == old(l).emitted.spec_value(s) && final(l).dropped.spec_value(s) == old(l).dropped.spec_value(
                s,
            ),
{
    l.sec = 0;
    l.count = 0;
    let subs = LOG_SUBSYSTEMS;
    let mut i: usize = 0;
    while i < 4
        invariant
            i <= 4,
            subs@ == LOG_SUBSYSTEMS@,
            l.wf(),
            l.sec == 0 && l.count == 0,
            l.toggles == old(l).toggles,
            forall|j: int|
                0 <= j < i ==> l.emitted.spec_value(#[trigger] LOG_SUBSYSTEMS@[j]@) == 0
                    && l.dropped.spec_value(LOG_SUBSYSTEMS@[j]@) == 0,
            forall|s: Seq<char>|
                (forall|j: int| 0 <= j < i ==> s != #[trigger] LOG_SUBSYSTEMS@[j]@) ==> l.emitted.spec_value(s)
                    == old(l).emitted.spec_value(s) && l.dropped.spec_value(s) == old(l).dropped.spec_value(s),
        decreases 4 - i,
    {
        let sub = subs[i];
        l.emitted.set(sub, 0);
        l.dropped.set(sub, 0);
        i = i + 1;
    }
}

} // verus!

verus! {

/// Transaction and block counters of the node.
pub struct Recorder {
    pub tx_submitted: u64,
    pub tx_rejected: LabelCounters,
    pub blocks_mined: u64,
    pub tx_jurisdiction: LabelCounters,
}

impl Recorder {
    pub open spec fn wf(&self) -> bool {
        self.tx_rejected.wf() && self.tx_jurisdiction.wf()
    }

    pub fn new() -> (r: Self)
        ensures
            r.wf(),
            r.tx_submitted == 0 && r.blocks_mined == 0,
            forall|l: Seq<char>| r.tx_rejected.spec_value(l) == 0 && r.tx_jurisdiction.spec_value(l) == 0,
    {
        Recorder { tx_submitted: 0, tx_rejected: LabelCounters::new(), blocks_mined: 0, tx_jurisdiction: LabelCounters::new() }
    }

    /// Counts a submitted transaction.
    pub fn tx_submitted(&mut self)
        ensures
            final(self).tx_submitted == vstd::wrapping::u64_specs::wrapping_add(old(self).tx_submitted, 1),
            final(self).tx_rejected == old(self).tx_rejected,
            final(self).blocks_mined == old(self).blocks_mined,
            final(self).tx_jurisdiction == old(self).tx_jurisdiction,
    {
        self.tx_submitted = self.tx_submitted.wrapping_add(1);
    }

    /// Counts a rejected transaction under its reason.
    pub fn tx_rejected(&mut self, reason: &str)
        requires
            old(self).wf(),
        ensures
            final(self).wf(),
            final(self).tx_rejected.spec_value(reason@) == vstd::wrapping::u64_specs::wrapping_add(
                old(self).tx_rejected.spec_value(reason@),
                1,
            ),
            forall|l: Seq<char>| l != reason@ ==> final(self).tx_rejected.spec_value(l) == old(self).tx_rejected.spec_value(l),
            final(self).tx_submitted == old(self).tx_submitted,
            final(self).blocks_mined == old(self).blocks_mined,
            final(self).tx_jurisdiction == old(self).tx_jurisdiction,
    {
        self.tx_rejected.inc(reason);
    }

    /// Counts a mined block.
    pub fn block_mined(&mut self)
        ensures
            final(self).blocks_mined == vstd::wrapping::u64_specs::wrapping_add(old(self).blocks_mined, 1),
            final(self).tx_submitted == old(self).tx_submitted,
            final(self).tx_rejected == old(self).tx_rejected,
            final(self).tx_jurisdiction == old(self).tx_jurisdiction,
    {
        self.blocks_mined = self.blocks_mined.wrapping_add(1);
    }

    /// Counts a transaction under its jurisdiction.
    pub fn tx_jurisdiction(&mut self, j: &str)
        requires
            old(self).wf(),
        ensures
            final(self).wf(),
            final(self).tx_jurisdiction.spec_value(j@) == vstd::wrapping::u64_specs::wrapping_add(
                old(self).tx_jurisdiction.spec_value(j@),
                1,
            ),
            forall|l: Seq<char>| l != j@ ==> final(self).tx_jurisdiction.spec_value(l) == old(self).tx_jurisdiction.spec_value(l),
            final(self).tx_submitted == old(self).tx_submitted,
            final(self).blocks_mined == old(self).blocks_mined,
            final(self).tx_rejected == old(self).tx_rejected,
    {
        self.tx_jurisdiction.inc(j);
    }
}

/// Sampling and compaction settings.
pub struct TelemetryConfig {
    /// Events sampled per million.
    pub sample_rate_ppm: u64,
    /// Seconds between histogram compactions.
    pub compaction_secs: u64,
}

/// The current sample rate, per million.
pub fn sample_rate_ppm(c: &TelemetryConfig) -> (r: u64)
    ensures
        r == c.sample_rate_ppm,
{
    c.sample_rate_ppm
}

/// Seconds between histogram compactions.
pub fn compaction_interval_secs(c: &TelemetryConfig) -> (r: u64)
    ensures
        r == c.compaction_secs,
{
    c.compaction_secs
}

/// Sets the compaction interval, at least one second.
pub fn set_compaction_interval(c: &mut TelemetryConfig, secs: u64)
    ensures
        final(c).compaction_secs == if secs < 1 { 1 } else { secs },
        final(c).sample_rate_ppm == old(c).sample_rate_ppm,
{
    c.compaction_secs = if secs < 1 { 1 } else { secs };
}

/// Whether an event is sampled at `rate` per million, given a uniform
/// draw from `0..1_000_000`.
pub open spec fn spec_sampled(rate: u64, draw: u64) -> bool {
    rate >= 1_000_000 || draw < rate
}

/// What a sampled event counts for: one million over the rate, rounded to
/// the nearest integer (halves away from zero); nothing at rate 0.
pub open spec fn spec_sample_weight(rate: u64) -> u64 {
    if rate == 0 {
        0
    } else {
        ((2_000_000 + rate as int) / (2 * rate as int)) as u64
    }
}

/// The weight of a sampled event at `rate` per million.
pub fn sample_weight(rate: u64) -> (w: u64)
    ensures
        w == spec_sample_weight(rate),
{
    if rate == 0 {
        return 0;
    }
    let num: u128 = 2_000_000u128 + rate as u128;
    let den: u128 = 2 * rate as u128;
    (num / den) as u64
}

/// Counts an event into `counter` when it is sampled: by the sample weight
/// (wrapping, like a counter).
pub fn sampled_inc(counter: &mut u64, rate: u64, draw: u64)
    ensures
        *final(counter) == if spec_sampled(rate, draw) {
            vstd::wrapping::u64_specs::wrapping_add(*old(counter), spec_sample_weight(rate))
        } else {
            *old(counter)
        },
{
    if rate >= 1_000_000 || draw < rate {
        *counter = counter.wrapping_add(sample_weight(rate));
    }
}

/// Counts an event into the counter of `labels` when it is sampled.
pub fn sampled_inc_vec(counters: &mut LabelCounters, labels: &[&str], rate: u64, draw: u64)
    requires
        old(counters).wf(),
    ensures
        final(counters).wf(),
        spec_sampled(rate, draw) ==> final(counters).spec_value(spec_label_key(labels_view(labels@)))
            == vstd::wrapping::u64_specs::wrapping_add(
            old(counters).spec_value(spec_label_key(labels_view(labels@))),
            spec_sample_weight(rate),
        ),
        !spec_sampled(rate, draw) ==> *final(counters) == *old(counters),
        forall|l: Seq<char>|
            l != spec_label_key(labels_view(labels@)) ==> final(counters).spec_value(l) == old(counters).spec_value(l),
{
    if rate >= 1_000_000 || draw < rate {
        let key = label_key(labels);
        counters.inc_by(key.as_str(), sample_weight(rate));
    }
}

/// Counts one coding operation under its stage, algorithm and result.
pub fn record_coding_result(counters: &mut LabelCounters, stage: &str, algorithm: &str, result: &str)
    requires
        old(counters).wf(),
    ensures
        final(counters).wf(),
        final(counters).spec_value(spec_label_key(seq![stage@, algorithm@, result@]))
            == vstd::wrapping::u64_specs::wrapping_add(
            old(counters).spec_value(spec_label_key(seq![stage@, algorithm@, result@])),
            1,
        ),
        forall|l: Seq<char>|
            l != spec_label_key(seq![stage@, algorithm@, result@]) ==> final(counters).spec_value(l)
                == old(counters).spec_value(l),
{
    let labels = [stage, algorithm, result];
    let key = label_key(&labels);
    assert(labels_view(labels@) =~= seq![stage@, algorithm@, result@]);
    counters.inc(key.as_str());
}

/// Counts one RPC latency observation of a module.
pub fn record_rpc_latency(counts: &mut LabelCounters, module: &str)
    requires
        old(counts).wf(),
    ensures
        final(counts).wf(),
        final(counts).spec_value(module@) == vstd::wrapping::u64_specs::wrapping_add(
            old(counts).spec_value(module@),
            1,
        ),
        forall|l: Seq<char>| l != module@ ==> final(counts).spec_value(l) == old(counts).spec_value(l),
{
    counts.inc(module);
}

/// RPC latency observations of a module.
pub fn rpc_latency_count(counts: &LabelCounters, module: &str) -> (n: u64)
    requires
        counts.wf(),
    ensures
        n == counts.spec_value(module@),
{
    counts.get(module)
}

} // verus!

verus! {

/// The coding metrics of one component: a gauge per algorithm and mode
/// (`active`, `fallback`, `emergency`), and the algorithm last recorded.
pub struct ComponentCodingInfo {
    pub gauges: LabelCounters,
    pub previous: Option<String>,
}

/// The key of an algorithm's gauge in a mode.
pub open spec fn mode_key(algorithm: Seq<char>, mode: Seq<char>) -> Seq<char> {
    spec_label_key(seq![algorithm, mode])
}

impl ComponentCodingInfo {
    pub fn new() -> (c: Self)
        ensures
            c.gauges.wf(),
            c.previous is None,
            forall|l: Seq<char>| c.gauges.spec_value(l) == 0,
    {
        ComponentCodingInfo { gauges: LabelCounters::new(), previous: None }
    }
}

fn set_mode(gauges: &mut LabelCounters, algorithm: &str, mode: &str, value: u64)
    requires
        old(gauges).wf(),
    ensures
        final(gauges).wf(),
        final(gauges).spec_value(mode_key(algorithm@, mode@)) == value,
        forall|l: Seq<char>| l != mode_key(algorithm@, mode@) ==> final(gauges).spec_value(l) == old(gauges).spec_value(l),
{
    let labels = [algorithm, mode];
    let key = label_key(&labels);
    assert(labels_view(labels@) =~= seq![algorithm@, mode@]);
    gauges.set(key.as_str(), value);
}

proof fn lemma_mode_keys_distinct(a: Seq<char>)
    ensures
        mode_key(a, "active"@) != mode_key(a, "fallback"@),
        mode_key(a, "active"@) != mode_key(a, "emergency"@),
        mode_key(a, "fallback"@) != mode_key(a, "emergency"@),
{
    reveal_strlit("active");
    reveal_strlit("fallback");
    reveal_strlit("emergency");
    let s = seq![a, "active"@];
    let t = seq![a, "fallback"@];
    let u = seq![a, "emergency"@];
    assert(s.drop_last() =~= seq![a]);
    assert(t.drop_last() =~= seq![a]);
    assert(u.drop_last() =~= seq![a]);
    assert(spec_label_key(seq![a]) == a);
    assert(mode_key(a, "active"@).len() == a.len() + LABEL_SEPARATOR@.len() + 6);
    assert(mode_key(a, "fallback"@).len() == a.len() + LABEL_SEPARATOR@.len() + 8);
    assert(mode_key(a, "emergency"@).len() == a.len() + LABEL_SEPARATOR@.len() + 9);
}

/// The shape of a mode key: algorithm, separator, mode.
proof fn lemma_mode_key_shape(a: Seq<char>, m: Seq<char>)
    ensures
        mode_key(a, m) == a + LABEL_SEPARATOR@ + m,
{
    let s = seq![a, m];
    assert(s.drop_last() =~= seq![a]);
    assert(spec_label_key(seq![a]) == a);
}

/// An algorithm's `active` key is the key of no other algorithm, and of no
/// other mode.
proof fn lemma_active_key_unique(a: Seq<char>, b: Seq<char>, m: Seq<char>)
    requires
        m == "active"@ || m == "fallback"@ || m == "emergency"@,
        mode_key(a, "active"@) == mode_key(b, m),
    ensures
        a == b,
        m == "active"@,
{
    reveal_strlit("active");
    reveal_strlit("fallback");
    reveal_strlit("emergency");
    lemma_mode_key_shape(a, "active"@);
    lemma_mode_key_shape(b, m);
    let x = a + LABEL_SEPARATOR@ + "active"@;
    let y = b + LABEL_SEPARATOR@ + m;
    assert(x.last() == 'e');
    if m == "fallback"@ {
        assert(y.last() == 'k');
    } else if m == "emergency"@ {
        assert(y.last() == 'y');
    }
    assert(m == "active"@);
    assert(a.len() == b.len());
    assert(a =~= x.subrange(0, a.len() as int));
    assert(b =~= y.subrange(0, b.len() as int));
}

/// At most one algorithm of a component is active: every algorithm but
/// the one last recorded has its `active` gauge at 0.
pub open spec fn one_active(c: ComponentCodingInfo) -> bool {
    forall|a: Seq<char>|
        (match c.previous {
            Some(p) => a != p@,
            None => true,
        }) ==> c.gauges.spec_value(#[trigger] mode_key(a, "active"@)) == 0
}

/// Recording an algorithm keeps at most one algorithm of the component
/// active: the one just recorded.
pub proof fn law_one_active_algorithm(
    before: ComponentCodingInfo,
    after: ComponentCodingInfo,
    algorithm: Seq<char>,
    fallback: u64,
    emergency: u64,
)
    requires
        one_active(before),
        component_recorded(before, after, algorithm, fallback, emergency),
    ensures
        one_active(after),
{
    reveal_strlit("active");
    reveal_strlit("fallback");
    reveal_strlit("emergency");
    assert forall|a: Seq<char>|
        (match after.previous {
            Some(p) => a != p@,
            None => true,
        }) implies after.gauges.spec_value(#[trigger] mode_key(a, "active"@)) == 0 by {
        let l = mode_key(a, "active"@);
        assert(a != algorithm);
        if l == mode_key(algorithm, "active"@) {
            lemma_active_key_unique(a, algorithm, "active"@);
        }
        if l == mode_key(algorithm, "fallback"@) {
            lemma_active_key_unique(a, algorithm, "fallback"@);
        }
        if l == mode_key(algorithm, "emergency"@) {
            lemma_active_key_unique(a, algorithm, "emergency"@);
        }
        match before.previous {
            Some(p) => {
                if l == mode_key(p@, "active"@) || l == mode_key(p@, "fallback"@) || l == mode_key(p@, "emergency"@) {
                } else {
                    assert(a != p@);
                }
            },
            None => {},
        }
    }
}

/// `new` is `old` after recording that the component runs `algorithm`
/// with the given fallback and emergency values: the previous algorithm's
/// gauges are 0 (unless they are the new algorithm's), the new algorithm is
/// active (1) with those values, every other gauge is unchanged, and the
/// new algorithm is remembered.
pub open spec fn component_recorded(
    old: ComponentCodingInfo,
    new: ComponentCodingInfo,
    algorithm: Seq<char>,
    fallback: u64,
    emergency: u64,
) -> bool {
    &&& new.previous matches Some(p) && p@ == algorithm
    &&& new.gauges.spec_value(mode_key(algorithm, "active"@)) == 1
    &&& new.gauges.spec_value(mode_key(algorithm, "fallback"@)) == fallback
    &&& new.gauges.spec_value(mode_key(algorithm, "emergency"@)) == emergency
    &&& forall|l: Seq<char>|
        l != mode_key(algorithm, "active"@) && l != mode_key(algorithm, "fallback"@) && l != mode_key(
            algorithm,
            "emergency"@,
        ) ==> new.gauges.spec_value(l) == match old.previous {
            Some(p) => if l == mode_key(p@, "active"@) || l == mode_key(p@, "fallback"@) || l == mode_key(
                p@,
                "emergency"@,
            ) {
                0
            } else {
                old.gauges.spec_value(l)
            },
            None => old.gauges.spec_value(l),
        }
}

/// Records that a component now runs `algorithm`: the gauges of the
/// previous algorithm go to 0, then the new algorithm is active (1) with the
/// given fallback and emergency values.
pub fn record_component(c: &mut ComponentCodingInfo, algorithm: &str, fallback: u64, emergency: u64)
    requires
        old(c).gauges.wf(),
    ensures
        final(c).gauges.wf(),
        component_recorded(*old(c), *final(c), algorithm@, fallback, emergency),
{
    proof {
        lemma_mode_keys_distinct(algorithm@);
    }
    if let Some(prev) = &c.previous {
        let p = prev.clone();
        set_mode(&mut c.gauges, p.as_str(), "active", 0);
        set_mode(&mut c.gauges, p.as_str(), "fallback", 0);
        set_mode(&mut c.gauges, p.as_str(), "emergency", 0);
    }
    set_mode(&mut c.gauges, algorithm, "active", 1);
    set_mode(&mut c.gauges, algorithm, "fallback", fallback);
    set_mode(&mut c.gauges, algorithm, "emergency", emergency);
    c.previous = Some(algorithm.to_owned());
}

/// The coding metrics of the four coding components.
pub struct CodingInfo {
    pub encryptor: ComponentCodingInfo,
    pub fountain: ComponentCodingInfo,
    pub erasure: ComponentCodingInfo,
    pub compression: ComponentCodingInfo,
}

impl CodingInfo {
    pub open spec fn wf(&self) -> bool {
        self.encryptor.gauges.wf() && self.fountain.gauges.wf() && self.erasure.gauges.wf()
            && self.compression.gauges.wf()
    }

    /// Each component has at most one active algorithm.
    pub open spec fn one_active_each(&self) -> bool {
        one_active(self.encryptor) && one_active(self.fountain) && one_active(self.erasure) && one_active(
            self.compression,
        )
    }

    pub fn new() -> (c: Self)
        ensures
            c.wf(),
            c.encryptor.previous is None && c.fountain.previous is None && c.erasure.previous is None
                && c.compression.previous is None,
            forall|l: Seq<char>|
                c.encryptor.gauges.spec_value(l) == 0 && c.fountain.gauges.spec_value(l) == 0
                    && c.erasure.gauges.spec_value(l) == 0 && c.compression.gauges.spec_value(l) == 0,
            c.one_active_each(),
    {
        CodingInfo {
            encryptor: ComponentCodingInfo::new(),
            fountain: ComponentCodingInfo::new(),
            erasure: ComponentCodingInfo::new(),
            compression: ComponentCodingInfo::new(),
        }
    }
}

/// Records the active coding algorithms: the encryptor and fountain coder
/// are never fallbacks; the erasure coder and compressor report whether
/// they are, and whether the emergency switch forced them.
pub fn record_coding_algorithms(info: &mut CodingInfo, algorithms: &crate::storage::settings::Algorithms)
    requires
        old(info).wf(),
    ensures
        final(info).wf(),
        component_recorded(old(info).encryptor, final(info).encryptor, algorithms@.encryptor, 0, 0),
        component_recorded(old(info).fountain, final(info).fountain, algorithms@.fountain, 0, 0),
        component_recorded(
            old(info).erasure,
            final(info).erasure,
            algorithms@.erasure,
            if algorithms@.erasure_is_fallback { 1u64 } else { 0u64 },
            if algorithms@.erasure_emergency { 1u64 } else { 0u64 },
        ),
        component_recorded(
            old(info).compression,
            final(info).compression,
            algorithms@.compression,
            if algorithms@.compression_is_fallback { 1u64 } else { 0u64 },
            if algorithms@.compression_emergency { 1u64 } else { 0u64 },
        ),
        old(info).one_active_each() ==> final(info).one_active_each(),
{
    record_component(&mut info.encryptor, algorithms.encryptor(), 0, 0);
    record_component(&mut info.fountain, algorithms.fountain(), 0, 0);
    record_component(
        &mut info.erasure,
        algorithms.erasure(),
        if algorithms.erasure_fallback() { 1 } else { 0 },
        if algorithms.erasure_emergency() { 1 } else { 0 },
    );
    record_component(
        &mut info.compression,
        algorithms.compression(),
        if algorithms.compression_fallback() { 1 } else { 0 },
        if algorithms.compression_emergency() { 1 } else { 0 },
    );
    proof {
        if old(info).one_active_each() {
            law_one_active_algorithm(old(info).encryptor, info.encryptor, algorithms@.encryptor, 0, 0);
            law_one_active_algorithm(old(info).fountain, info.fountain, algorithms@.fountain, 0, 0);
            law_one_active_algorithm(
                old(info).erasure,
                info.erasure,
                algorithms@.erasure,
                if algorithms@.erasure_is_fallback { 1u64 } else { 0u64 },
                if algorithms@.erasure_emergency { 1u64 } else { 0u64 },
            );
            law_one_active_algorithm(
                old(info).compression,
                info.compression,
                algorithms@.compression,
                if algorithms@.compression_is_fallback { 1u64 } else { 0u64 },
                if algorithms@.compression_emergency { 1u64 } else { 0u64 },
            );
        }
    }
}

} // verus!

verus! {

/// The value of gauge `l` after setting each `(key, value)` of `ops` in
/// order, starting from `v`.
pub open spec fn apply_sets(ops: Seq<(Seq<char>, u64)>, l: Seq<char>, v: u64) -> u64
    decreases ops.len(),
{
    if ops.len() == 0 {
        v
    } else if ops.last().0 == l {
        ops.last().1
    } else {
        apply_sets(ops.drop_last(), l, v)
    }
}

/// The views of gauge settings.
pub open spec fn ops_view(ops: Seq<(String, u64)>) -> Seq<(Seq<char>, u64)> {
    Seq::new(ops.len(), |i: int| (ops[i].0@, ops[i].1))
}

/// Sets each gauge of `ops` in order.
pub fn set_all(gauges: &mut LabelCounters, ops: &Vec<(String, u64)>)
    requires
        old(gauges).wf(),
    ensures
        final(gauges).wf(),
        forall|l: Seq<char>| final(gauges).spec_value(l) == apply_sets(ops_view(ops@), l, old(gauges).spec_value(l)),
{
    let mut i: usize = 0;
    while i < ops.len()
        invariant
            i <= ops@.len(),
            gauges.wf(),
            forall|l: Seq<char>|
                gauges.spec_value(l) == apply_sets(ops_view(ops@).take(i as int), l, old(gauges).spec_value(l)),
        decreases ops@.len() - i,
    {
        gauges.set(ops[i].0.as_str(), ops[i].1);
        proof {
            let t = ops_view(ops@).take(i + 1);
            assert(t.drop_last() =~= ops_view(ops@).take(i as int));
        }
        i = i + 1;
    }
    proof {
        assert(ops_view(ops@).take(ops@.len() as int) =~= ops_view(ops@));
    }
}

/// Whether `s` is among `list`.
pub open spec fn listed(list: Seq<&str>, s: Seq<char>) -> bool {
    exists|i: int| 0 <= i < list.len() && (#[trigger] list[i])@ == s
}

fn contains_str(list: &[&str], s: &str) -> (b: bool)
    ensures
        b == listed(list@, s@),
{
    let mut i: usize = 0;
    while i < list.len()
        invariant
            i <= list@.len(),
            forall|j: int| 0 <= j < i ==> (#[trigger] list@[j])@ != s@,
        decreases list@.len() - i,
    {
        if str_eq(list[i], s) {
            return true;
        }
        i = i + 1;
    }
    false
}

/// The `true`/`false` label of a flag.
pub open spec fn flag_label(b: bool) -> Seq<char> {
    if b {
        "true"@
    } else {
        "false"@
    }
}

/// The gauge settings of a backend report: for each known backend, its
/// gauge under whether it was compiled in is 1 when it is the active one and
/// 0 otherwise; an unknown active backend gets a compiled gauge of 1.
pub open spec fn backend_ops(known: Seq<&str>, compiled: Seq<&str>, active: Seq<char>) -> Seq<(Seq<char>, u64)> {
    Seq::new(
        known.len(),
        |i: int|
            (
                spec_label_key(seq![known[i]@, flag_label(listed(compiled, known[i]@))]),
                if known[i]@ == active { 1u64 } else { 0u64 },
            ),
    ) + if listed(known, active) {
        Seq::empty()
    } else {
        seq![(spec_label_key(seq![active, "true"@]), 1u64)]
    }
}

fn key2(a: &str, b: &str) -> (k: String)
    ensures
        k@ == spec_label_key(seq![a@, b@]),
{
    let labels = [a, b];
    let k = label_key(&labels);
    assert(labels_view(labels@) =~= seq![a@, b@]);
    k
}

/// Records which backend of a kind is active and which were compiled in.
pub fn record_backend_info(gauges: &mut LabelCounters, known: &[&str], compiled: &[&str], active: &str)
    requires
        old(gauges).wf(),
    ensures
        final(gauges).wf(),
        forall|l: Seq<char>|
            final(gauges).spec_value(l) == apply_sets(backend_ops(known@, compiled@, active@), l, old(gauges).spec_value(l)),
{
    let mut ops: Vec<(String, u64)> = Vec::new();
    let ghost target = backend_ops(known@, compiled@, active@);
    let mut i: usize = 0;
    while i < known.len()
        invariant
            i <= known@.len(),
            target == backend_ops(known@, compiled@, active@),
            ops_view(ops@) =~= target.take(i as int),
        decreases known@.len() - i,
    {
        let backend = known[i];
        let flag = if contains_str(compiled, backend) { "true" } else { "false" };
        let value: u64 = if str_eq(backend, active) { 1 } else { 0 };
        let key = key2(backend, flag);
        let ghost prev = ops_view(ops@);
        let ghost kv = key@;
        ops.push((key, value));
        proof {
            assert(flag@ == flag_label(listed(compiled@, known@[i as int]@)));
            assert(target[i as int] == (kv, value));
            assert(ops_view(ops@) =~= prev.push((kv, value)));
            assert(target.take(i + 1) =~= target.take(i as int).push(target[i as int]));
        }
        i = i + 1;
    }
    assert(target.take(known@.len() as int) =~= Seq::new(
        known@.len(),
        |i: int|
            (
                spec_label_key(seq![known@[i]@, flag_label(listed(compiled@, known@[i]@))]),
                if known@[i]@ == active@ { 1u64 } else { 0u64 },
            ),
    ));
    if !contains_str(known, active) {
        let key = key2(active, "true");
        let ghost prev = ops_view(ops@);
        let ghost kv = key@;
        ops.push((key, 1));
        assert(ops_view(ops@) =~= prev.push((kv, 1u64)));
    }
    assert(ops_view(ops@) =~= target);
    set_all(gauges, &ops);
}

/// Runtime backends the node knows of.
pub const KNOWN_RUNTIME_BACKENDS: [&'static str; 2] = ["inhouse", "stub"];

/// Transport providers the node knows of.
pub const KNOWN_TRANSPORT_PROVIDERS: [&'static str; 2] = ["quinn", "s2n-quic"];

/// Storage engines the node knows of.
pub const KNOWN_STORAGE_ENGINES: [&'static str; 4] = ["memory", "inhouse", "rocksdb", "rocksdb-compat"];

/// Records the active runtime backend among those compiled in.
pub fn record_runtime_backend(gauges: &mut LabelCounters, compiled: &[&str], active: &str)
    requires
        old(gauges).wf(),
    ensures
        final(gauges).wf(),
        forall|l: Seq<char>|
            final(gauges).spec_value(l) == apply_sets(
                backend_ops(KNOWN_RUNTIME_BACKENDS@, compiled@, active@),
                l,
                old(gauges).spec_value(l),
            ),
{
    let known = KNOWN_RUNTIME_BACKENDS;
    record_backend_info(gauges, &known, compiled, active);
}

/// Records the active transport provider among those compiled in.
pub fn record_transport_backend(gauges: &mut LabelCounters, compiled: &[&str], active: &str)
    requires
        old(gauges).wf(),
    ensures
        final(gauges).wf(),
        forall|l: Seq<char>|
            final(gauges).spec_value(l) == apply_sets(
                backend_ops(KNOWN_TRANSPORT_PROVIDERS@, compiled@, active@),
                l,
                old(gauges).spec_value(l),
            ),
{
    let known = KNOWN_TRANSPORT_PROVIDERS;
    record_backend_info(gauges, &known, compiled, active);
}

/// The known labels of a dependency kind, if it is one.
pub open spec fn policy_known(kind: Seq<char>) -> Option<Seq<&'static str>> {
    if kind == "runtime"@ {
        Some(KNOWN_RUNTIME_BACKENDS@)
    } else if kind == "transport"@ {
        Some(KNOWN_TRANSPORT_PROVIDERS@)
    } else if kind == "storage"@ {
        Some(KNOWN_STORAGE_ENGINES@)
    } else {
        None
    }
}

/// Whether some allowed entry names `label`, ignoring ASCII case.
pub open spec fn allowed_by(allowed: Seq<String>, label: Seq<char>) -> bool {
    exists|i: int|
        0 <= i < allowed.len() && crate::storage::settings::eq_ignoring_ascii_case(
            vstd::utf8::encode_utf8((#[trigger] allowed[i])@),
            vstd::utf8::encode_utf8(label),
        )
}

/// The gauge settings of a dependency policy: for each known label of the
/// kind, 1 if the policy allows it and 0 otherwise.
pub open spec fn policy_ops(kind: Seq<char>, known: Seq<&str>, allowed: Seq<String>) -> Seq<(Seq<char>, u64)> {
    Seq::new(
        known.len(),
        |i: int| (spec_label_key(seq![kind, known[i]@]), if allowed_by(allowed, known[i]@) { 1u64 } else { 0u64 }),
    )
}

fn any_allows(allowed: &[String], label: &str) -> (b: bool)
    ensures
        b == allowed_by(allowed@, label@),
{
    let mut i: usize = 0;
    while i < allowed.len()
        invariant
            i <= allowed@.len(),
            forall|j: int|
                0 <= j < i ==> !crate::storage::settings::eq_ignoring_ascii_case(
                    vstd::utf8::encode_utf8((#[trigger] allowed@[j])@),
                    vstd::utf8::encode_utf8(label@),
                ),
        decreases allowed@.len() - i,
    {
        if crate::text::eq_ignore_ascii_case(allowed[i].as_str(), label) {
            return true;
        }
        i = i + 1;
    }
    false
}

/// Records a governance dependency policy: which known labels of the kind
/// the policy allows.  An unknown kind records nothing.
pub fn record_dependency_policy(gauges: &mut LabelCounters, kind: &str, allowed: &[String])
    requires
        old(gauges).wf(),
    ensures
        final(gauges).wf(),
        match policy_known(kind@) {
            None => *final(gauges) == *old(gauges),
            Some(known) => forall|l: Seq<char>|
                final(gauges).spec_value(l) == apply_sets(policy_ops(kind@, known, allowed@), l, old(gauges).spec_value(l)),
        },
{
    let runtime = KNOWN_RUNTIME_BACKENDS;
    let transport = KNOWN_TRANSPORT_PROVIDERS;
    let storage = KNOWN_STORAGE_ENGINES;
    let known: &[&str] = if str_eq(kind, "runtime") {
        &runtime
    } else if str_eq(kind, "transport") {
        &transport
    } else if str_eq(kind, "storage") {
        &storage
    } else {
        return;
    };
    let ghost target = policy_ops(kind@, known@, allowed@);
    let mut ops: Vec<(String, u64)> = Vec::new();
    let mut i: usize = 0;
    while i < known.len()
        invariant
            i <= known@.len(),
            target == policy_ops(kind@, known@, allowed@),
            ops_view(ops@) =~= target.take(i as int),
        decreases known@.len() - i,
    {
        let label = known[i];
        let value: u64 = if any_allows(allowed, label) { 1 } else { 0 };
        let key = key2(kind, label);
        let ghost prev = ops_view(ops@);
        let ghost kv = key@;
        ops.push((key, value));
        proof {
            assert(target[i as int] == (kv, value));
            assert(ops_view(ops@) =~= prev.push((kv, value)));
            assert(target.take(i + 1) =~= target.take(i as int).push(target[i as int]));
        }
        i = i + 1;
    }
    assert(ops_view(ops@) =~= target);
    set_all(gauges, &ops);
}

} // verus!

verus! {

/// Reads and bytes read, by domain.
pub struct ReadStats {
    pub reads: LabelCounters,
    pub bytes: LabelCounters,
}

impl ReadStats {
    pub open spec fn wf(&self) -> bool {
        self.reads.wf() && self.bytes.wf()
    }

    /// Nothing read yet.
    pub fn new() -> (s: Self)
        ensures
            s.wf(),
            forall|d: Seq<char>| s.reads.spec_value(d) == 0 && s.bytes.spec_value(d) == 0,
    {
        ReadStats { reads: LabelCounters::new(), bytes: LabelCounters::new() }
    }

    /// Counts one read of `bytes` bytes in `domain` (wrapping, like the
    /// atomic counters).
    pub fn record(&mut self, domain: &str, bytes: u64)
        requires
            old(self).wf(),
        ensures
            final(self).wf(),
            final(self).reads.spec_value(domain@) == vstd::wrapping::u64_specs::wrapping_add(
                old(self).reads.spec_value(domain@),
                1,
            ),
            final(self).bytes.spec_value(domain@) == vstd::wrapping::u64_specs::wrapping_add(
                old(self).bytes.spec_value(domain@),
                bytes,
            ),
            forall|d: Seq<char>|
                d != domain@ ==> final(self).reads.spec_value(d) == old(self).reads.spec_value(d)
                    && final(self).bytes.spec_value(d) == old(self).bytes.spec_value(d),
    {
        self.reads.inc(domain);
        self.bytes.inc_by(domain, bytes);
    }

    /// Reads and bytes read in `domain`.
    pub fn snapshot(&self, domain: &str) -> (r: (u64, u64))
        requires
            self.wf(),
        ensures
            r == (self.reads.spec_value(domain@), self.bytes.spec_value(domain@)),
    {
        (self.reads.get(domain), self.bytes.get(domain))
    }
}

} // verus!

verus! {

/// How many of the first `n` events of a second are emitted.
pub open spec fn emitted_in_second(n: nat) -> nat
    decreases n,
{
    if n == 0 {
        0
    } else {
        emitted_in_second((n - 1) as nat) + if log_emitted(n as u64) { 1nat } else { 0nat }
    }
}

/// Of the first `n` events within one second, all of the first
/// `LOG_LIMIT` are emitted and, after them, one in every
/// `LOG_SAMPLE_STRIDE`.
pub proof fn lemma_log_rate(n: nat)
    requires
        n <= u64::MAX,
    ensures
        emitted_in_second(n) == if n <= 100 { n } else { (100 + n / 100 - 1) as nat },
    decreases n,
{
    if n > 0 {
        lemma_log_rate((n - 1) as nat);
        if n > 100 {
            assert(n / 100 == (n - 1) / 100 + if n % 100 == 0 { 1int } else { 0int }) by (nonlinear_arith)
                requires
                    n > 0,
            ;
            if n == 101 {
                assert((n - 1) / 100 == 1) by (nonlinear_arith)
                    requires
                        n == 101,
                ;
            }
        }
    }
}

} // verus!

verus! {

/// Clears every ad verifier committee rejection count.
pub fn reset_ad_verifier_committee_rejections(c: &mut LabelCounters)
    ensures
        final(c).wf(),
        forall|l: Seq<char>| final(c).spec_value(l) == 0,
{
    *c = LabelCounters::new();
}

/// Makes sure a committee and reason have a rejection counter, without
/// changing any count.
pub fn ensure_ad_verifier_committee_label(c: &mut LabelCounters, committee: &str, reason: &str)
    requires
        old(c).wf(),
    ensures
        final(c).wf(),
        forall|l: Seq<char>| final(c).spec_value(l) == old(c).spec_value(l),
        final(c).spec_contains(spec_label_key(seq![committee@, reason@])),
        forall|l: Seq<char>| l != spec_label_key(seq![committee@, reason@])
            ==> final(c).spec_contains(l) == old(c).spec_contains(l),
{
    let labels = [committee, reason];
    let key = label_key(&labels);
    assert(labels_view(labels@) =~= seq![committee@, reason@]);
    let v = c.get(key.as_str());
    c.set(key.as_str(), v);
}

/// Counts an anomaly alarm.
pub fn trigger_anomaly(alarms: &mut u64)
    ensures
        *final(alarms) == vstd::wrapping::u64_specs::wrapping_add(*old(alarms), 1),
{
    *alarms = alarms.wrapping_add(1);
}

/// Counts a failed log correlation lookup, which also counts as a failure
/// event for the adaptive sampler.
pub fn record_log_correlation_fail(failures: &mut u64, sample_fail_events: &mut u64)
    ensures
        *final(failures) == vstd::wrapping::u64_specs::wrapping_add(*old(failures), 1),
        *final(sample_fail_events) == vstd::wrapping::u64_specs::wrapping_add(*old(sample_fail_events), 1),
{
    *failures = failures.wrapping_add(1);
    *sample_fail_events = sample_fail_events.wrapping_add(1);
}

} // verus!

verus! {

/// Whether verbose telemetry was compiled in; this build has none.
pub fn verbose() -> (v: bool)
    ensures
        !v,
{
    false
}

} // verus!
