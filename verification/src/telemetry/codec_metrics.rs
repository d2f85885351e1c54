//! Metrics of the serialization codecs: payload sizes and failures by
//! codec, profile, direction and codec version.

use vstd::prelude::*;
use crate::telemetry::counters::LabelCounters;
use crate::telemetry::{label_key, labels_view, spec_label_key};

verus! {

/// Profiles of the binary codec.
#[derive(Clone, Copy, Debug, PartialEq, Eq, Structural)]
pub enum BinaryProfile {
    Canonical,
    Transaction,
    Gossip,
    StorageManifest,
}

/// Profiles of the JSON codec.
#[derive(Clone, Copy, Debug, PartialEq, Eq, Structural)]
pub enum JsonProfile {
    Canonical,
}

/// A codec and its profile.
#[derive(Clone, Copy, Debug, PartialEq, Eq, Structural)]
pub enum Codec {
    Binary(BinaryProfile),
    Json(JsonProfile),
}

/// Whether a value was being written or read.
#[derive(Clone, Copy, Debug, PartialEq, Eq, Structural)]
pub enum Direction {
    Serialize,
    Deserialize,
}

/// The codec and profile labels of a codec.
pub open spec fn spec_codec_labels(codec: Codec) -> (Seq<char>, Seq<char>) {
    match codec {
        Codec::Binary(p) => (
            "binary"@,
            match p {
                BinaryProfile::Canonical => "canonical"@,
                BinaryProfile::Transaction => "transaction"@,
                BinaryProfile::Gossip => "gossip"@,
                BinaryProfile::StorageManifest => "storage_manifest"@,
            },
        ),
        Codec::Json(_) => ("json"@, "none"@),
    }
}

/// The codec and profile labels of a codec.
pub fn codec_labels(codec: Codec) -> (r: (&'static str, &'static str))
    ensures
        (r.0@, r.1@) == spec_codec_labels(codec),
{
    match codec {
        Codec::Binary(p) => (
            "binary",
            match p {
                BinaryProfile::Canonical => "canonical",
                BinaryProfile::Transaction => "transaction",
                BinaryProfile::Gossip => "gossip",
                BinaryProfile::StorageManifest => "storage_manifest",
            },
        ),
        Codec::Json(_) => ("json", "none"),
    }
}

/// The direction label.
pub fn direction_label(direction: Direction) -> (s: &'static str)
    ensures
        s@ == (match direction {
            Direction::Serialize => "serialize"@,
            Direction::Deserialize => "deserialize"@,
        }),
{
    match direction {
        Direction::Serialize => "serialize",
        Direction::Deserialize => "deserialize",
    }
}

/// Codec metric values.
pub struct CodecMetrics {
    /// Payloads observed, by codec, direction, profile and version.
    pub payload_count: LabelCounters,
    /// Their total size in bytes.
    pub payload_bytes: LabelCounters,
    /// Serialization failures, by codec, profile and version.
    pub serialize_fail: LabelCounters,
    /// Deserialization failures, by codec, profile and version.
    pub deserialize_fail: LabelCounters,
}

impl CodecMetrics {
    pub open spec fn wf(&self) -> bool {
        self.payload_count.wf() && self.payload_bytes.wf() && self.serialize_fail.wf() && self.deserialize_fail.wf()
    }

    pub fn new() -> (m: Self)
        ensures
            m.wf(),
            forall|l: Seq<char>|
                m.payload_count.spec_value(l) == 0 && m.payload_bytes.spec_value(l) == 0
                    && m.serialize_fail.spec_value(l) == 0 && m.deserialize_fail.spec_value(l) == 0,
            forall|l: Seq<char>|
                !m.payload_count.spec_contains(l) && !m.payload_bytes.spec_contains(l)
                    && !m.serialize_fail.spec_contains(l) && !m.deserialize_fail.spec_contains(l),
    {
        CodecMetrics {
            payload_count: LabelCounters::new(),
            payload_bytes: LabelCounters::new(),
            serialize_fail: LabelCounters::new(),
            deserialize_fail: LabelCounters::new(),
        }
    }
}

/// Records a codec operation: a payload of `size` bytes, or a failure when
/// there is no size.
pub fn codec_metrics_hook(m: &mut CodecMetrics, codec: Codec, direction: Direction, size: Option<usize>, version: &str)
    requires
        old(m).wf(),
    ensures
        final(m).wf(),
        ({
            let (c, p) = spec_codec_labels(codec);
            let d = match direction {
                Direction::Serialize => "serialize"@,
                Direction::Deserialize => "deserialize"@,
            };
            match size {
                Some(len) => {
                    let k = spec_label_key(seq![c, d, p, version@]);
                    &&& final(m).payload_count.spec_value(k) == vstd::wrapping::u64_specs::wrapping_add(
                        old(m).payload_count.spec_value(k),
                        1,
                    )
                    &&& final(m).payload_bytes.spec_value(k) == vstd::wrapping::u64_specs::wrapping_add(
                        old(m).payload_bytes.spec_value(k),
                        len as u64,
                    )
                    &&& forall|l: Seq<char>|
                        l != k ==> final(m).payload_count.spec_value(l) == old(m).payload_count.spec_value(l)
                            && final(m).payload_bytes.spec_value(l) == old(m).payload_bytes.spec_value(l)
                    &&& final(m).serialize_fail == old(m).serialize_fail
                    &&& final(m).deserialize_fail == old(m).deserialize_fail
                },
                None => {
                    let k = spec_label_key(seq![c, p, version@]);
                    &&& final(m).payload_count == old(m).payload_count
                    &&& final(m).payload_bytes == old(m).payload_bytes
                    &&& match direction {
                        Direction::Serialize => final(m).serialize_fail.spec_value(k)
                            == vstd::wrapping::u64_specs::wrapping_add(old(m).serialize_fail.spec_value(k), 1)
                            && (forall|l: Seq<char>|
                            l != k ==> final(m).serialize_fail.spec_value(l) == old(m).serialize_fail.spec_value(l))
                            && final(m).deserialize_fail == old(m).deserialize_fail,
                        Direction::Deserialize => final(m).deserialize_fail.spec_value(k)
                            == vstd::wrapping::u64_specs::wrapping_add(old(m).deserialize_fail.spec_value(k), 1)
                            && (forall|l: Seq<char>|
                            l != k ==> final(m).deserialize_fail.spec_value(l) == old(m).deserialize_fail.spec_value(l))
                            && final(m).serialize_fail == old(m).serialize_fail,
                    }
                },
            }
        }),
{
    let (c, p) = codec_labels(codec);
    let d = direction_label(direction);
    match size {
        Some(len) => {
            let labels = [c, d, p, version];
            let key = label_key(&labels);
            assert(labels_view(labels@) =~= seq![c@, d@, p@, version@]);
            m.payload_count.inc(key.as_str());
            m.payload_bytes.inc_by(key.as_str(), len as u64);
        },
        None => {
            let labels = [c, p, version];
            let key = label_key(&labels);
            assert(labels_view(labels@) =~= seq![c@, p@, version@]);
            match direction {
                Direction::Serialize => m.serialize_fail.inc(key.as_str()),
                Direction::Deserialize => m.deserialize_fail.inc(key.as_str()),
            }
        },
    }
}


/// Counts one signature operation by algorithm, backend, backend version,
/// operation and result (`ok` or `error`).
pub fn crypto_metrics_hook(
    counters: &mut LabelCounters,
    algorithm: &str,
    operation: &str,
    backend: &str,
    backend_version: &str,
    success: bool,
)
    requires
        old(counters).wf(),
    ensures
        final(counters).wf(),
        ({
            let k = spec_label_key(
                seq![algorithm@, backend@, backend_version@, operation@, if success { "ok"@ } else { "error"@ }],
            );
            &&& final(counters).spec_value(k) == vstd::wrapping::u64_specs::wrapping_add(old(counters).spec_value(k), 1)
            &&& forall|l: Seq<char>| l != k ==> final(counters).spec_value(l) == old(counters).spec_value(l)
        }),
{
    let result = if success { "ok" } else { "error" };
    let labels = [algorithm, backend, backend_version, operation, result];
    let key = label_key(&labels);
    assert(labels_view(labels@) =~= seq![algorithm@, backend@, backend_version@, operation@, result@]);
    counters.inc(key.as_str());
}

/// Marks the signature backend in use.
pub fn record_crypto_backend(gauges: &mut LabelCounters, algorithm: &str, backend: &str, backend_version: &str)
    requires
        old(gauges).wf(),
    ensures
        final(gauges).wf(),
        final(gauges).spec_value(spec_label_key(seq![algorithm@, backend@, backend_version@])) == 1,
        forall|l: Seq<char>|
            l != spec_label_key(seq![algorithm@, backend@, backend_version@]) ==> final(gauges).spec_value(l)
                == old(gauges).spec_value(l),
{
    let labels = [algorithm, backend, backend_version];
    let key = label_key(&labels);
    assert(labels_view(labels@) =~= seq![algorithm@, backend@, backend_version@]);
    gauges.set(key.as_str(), 1);
}

} // verus!
