//! Routing of counter increments reported by name and labels to the node's
//! own counters.

use vstd::prelude::*;
use crate::text::str_eq;

verus! {

/// Labels as pairs of views.
pub open spec fn pairs_view(labels: Seq<(String, String)>) -> Seq<(Seq<char>, Seq<char>)> {
    Seq::new(labels.len(), |i: int| (labels[i].0@, labels[i].1@))
}

/// The value of the first label named `key`.
pub open spec fn first_label(labels: Seq<(Seq<char>, Seq<char>)>, key: Seq<char>) -> Option<Seq<char>>
    decreases labels.len(),
{
    if labels.len() == 0 {
        None
    } else if labels[0].0 == key {
        Some(labels[0].1)
    } else {
        first_label(labels.drop_first(), key)
    }
}

/// The value of the first label named `key`.
pub fn label_value<'a>(labels: &'a [(String, String)], key: &str) -> (r: Option<&'a str>)
    ensures
        match r {
            Some(v) => first_label(pairs_view(labels@), key@) == Some(v@),
            None => first_label(pairs_view(labels@), key@) is None,
        },
{
    let mut i: usize = 0;
    assert(pairs_view(labels@).skip(0) =~= pairs_view(labels@));
    while i < labels.len()
        invariant
            i <= labels@.len(),
            first_label(pairs_view(labels@), key@) == first_label(pairs_view(labels@).skip(i as int), key@),
        decreases labels@.len() - i,
    {
        proof {
            let rest = pairs_view(labels@).skip(i as int);
            assert(rest.drop_first() =~= pairs_view(labels@).skip(i + 1));
            assert(rest[0] == (labels@[i as int].0@, labels@[i as int].1@));
        }
        if str_eq(labels[i].0.as_str(), key) {
            return Some(labels[i].1.as_str());
        }
        i = i + 1;
    }
    proof {
        assert(pairs_view(labels@).skip(i as int).len() == 0);
    }
    None
}

/// Where a counter increment goes.
#[derive(Debug)]
pub enum CounterRoute {
    /// Not a counter of the node, or nothing to add.
    Ignored,
    /// Codec failures by codec and profile, serializing or deserializing.
    CodecFailure { serialize: bool, codec: String, profile: String, delta: u64 },
    /// Ad verifier committee rejections by committee and reason.
    CommitteeRejection { committee: String, reason: String, delta: u64 },
    RemoteSignerRequest { delta: u64 },
    RemoteSignerSuccess { delta: u64 },
    RemoteSignerKeyRotation { delta: u64 },
    SnapshotRestoreFailure { delta: u64 },
}

/// A route as a mathematical value.
pub enum CounterRouteView {
    Ignored,
    CodecFailure { serialize: bool, codec: Seq<char>, profile: Seq<char>, delta: u64 },
    CommitteeRejection { committee: Seq<char>, reason: Seq<char>, delta: u64 },
    RemoteSignerRequest { delta: u64 },
    RemoteSignerSuccess { delta: u64 },
    RemoteSignerKeyRotation { delta: u64 },
    SnapshotRestoreFailure { delta: u64 },
}

impl View for CounterRoute {
    type V = CounterRouteView;

    open spec fn view(&self) -> CounterRouteView {
        match self {
            CounterRoute::Ignored => CounterRouteView::Ignored,
            CounterRoute::CodecFailure { serialize, codec, profile, delta } => CounterRouteView::CodecFailure {
                serialize: *serialize,
                codec: codec@,
                profile: profile@,
                delta: *delta,
            },
            CounterRoute::CommitteeRejection { committee, reason, delta } => CounterRouteView::CommitteeRejection {
                committee: committee@,
                reason: reason@,
                delta: *delta,
            },
            CounterRoute::RemoteSignerRequest { delta } => CounterRouteView::RemoteSignerRequest { delta: *delta },
            CounterRoute::RemoteSignerSuccess { delta } => CounterRouteView::RemoteSignerSuccess { delta: *delta },
            CounterRoute::RemoteSignerKeyRotation { delta } => CounterRouteView::RemoteSignerKeyRotation {
                delta: *delta,
            },
            CounterRoute::SnapshotRestoreFailure { delta } => CounterRouteView::SnapshotRestoreFailure {
                delta: *delta,
            },
        }
    }
}

/// The route of an increment of `delta` to the counter `name`: codec
/// failures need a codec and a serialize or deserialize direction (the
/// profile defaults to `none`); committee rejections need a committee and a
/// reason; the remote signer and snapshot counters take the increment as
/// is.  An increment of 0 and any other name go nowhere.
pub open spec fn spec_route(name: Seq<char>, labels: Seq<(Seq<char>, Seq<char>)>, delta: u64) -> CounterRouteView {
    if delta == 0 {
        CounterRouteView::Ignored
    } else if name == "codec_operation_fail_total"@ {
        match (first_label(labels, "codec"@), first_label(labels, "direction"@)) {
            (Some(codec), Some(direction)) => {
                let profile = match first_label(labels, "profile"@) {
                    Some(p) => p,
                    None => "none"@,
                };
                if direction == "serialize"@ {
                    CounterRouteView::CodecFailure { serialize: true, codec, profile, delta }
                } else if direction == "deserialize"@ {
                    CounterRouteView::CodecFailure { serialize: false, codec, profile, delta }
                } else {
                    CounterRouteView::Ignored
                }
            },
            _ => CounterRouteView::Ignored,
        }
    } else if name == "ad_verifier_committee_rejection_total"@ {
        match (first_label(labels, "committee"@), first_label(labels, "reason"@)) {
            (Some(committee), Some(reason)) => CounterRouteView::CommitteeRejection { committee, reason, delta },
            _ => CounterRouteView::Ignored,
        }
    } else if name == "remote_signer_request_total"@ {
        CounterRouteView::RemoteSignerRequest { delta }
    } else if name == "remote_signer_success_total"@ {
        CounterRouteView::RemoteSignerSuccess { delta }
    } else if name == "remote_signer_key_rotation_total"@ {
        CounterRouteView::RemoteSignerKeyRotation { delta }
    } else if name == "snapshot_restore_fail_total"@ {
        CounterRouteView::SnapshotRestoreFailure { delta }
    } else {
        CounterRouteView::Ignored
    }
}

/// Routes an increment of `delta` reported for the counter `name`.
pub fn route_counter(name: &str, labels: &[(String, String)], delta: u64) -> (r: CounterRoute)
    ensures
        r@ == spec_route(name@, pairs_view(labels@), delta),
{
    if delta == 0 {
        return CounterRoute::Ignored;
    }
    if str_eq(name, "codec_operation_fail_total") {
        let codec = match label_value(labels, "codec") {
            Some(c) => c,
            None => return CounterRoute::Ignored,
        };
        let direction = match label_value(labels, "direction") {
            Some(d) => d,
            None => return CounterRoute::Ignored,
        };
        let profile = match label_value(labels, "profile") {
            Some(p) => p,
            None => "none",
        };
        if str_eq(direction, "serialize") {
            CounterRoute::CodecFailure { serialize: true, codec: codec.to_owned(), profile: profile.to_owned(), delta }
        } else if str_eq(direction, "deserialize") {
            CounterRoute::CodecFailure { serialize: false, codec: codec.to_owned(), profile: profile.to_owned(), delta }
        } else {
            CounterRoute::Ignored
        }
    } else if str_eq(name, "ad_verifier_committee_rejection_total") {
        let committee = match label_value(labels, "committee") {
            Some(c) => c,
            None => return CounterRoute::Ignored,
        };
        let reason = match label_value(labels, "reason") {
            Some(r) => r,
            None => return CounterRoute::Ignored,
        };
        CounterRoute::CommitteeRejection { committee: committee.to_owned(), reason: reason.to_owned(), delta }
    } else if str_eq(name, "remote_signer_request_total") {
        CounterRoute::RemoteSignerRequest { delta }
    } else if str_eq(name, "remote_signer_success_total") {
        CounterRoute::RemoteSignerSuccess { delta }
    } else if str_eq(name, "remote_signer_key_rotation_total") {
        CounterRoute::RemoteSignerKeyRotation { delta }
    } else if str_eq(name, "snapshot_restore_fail_total") {
        CounterRoute::SnapshotRestoreFailure { delta }
    } else {
        CounterRoute::Ignored
    }
}

} // verus!
