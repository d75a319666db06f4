//! What cluster messages mean: functions on the view of a cluster.

use vstd::prelude::*;

use crate::cluster::{ClusterIdView, ClusterView, ConsumerView, GrantView};
use crate::cluster_pb::{Assignment, Change, ClusterMessage, ClusterMsg, GrantInfo, Snapshot};
use crate::error::ErrorView;
use crate::ids::{GrantState, InstanceView, QualifiedKeyView, ShardView};
use crate::pb;
use crate::text::text_lt;
use crate::uuids::parsed_uuid;
use crate::wrap::{grant_state_of, instance_of, peer_of, shard_of, time_of};

verus! {

/// The cluster before anything was heard of it.
pub open spec fn empty_cluster() -> ClusterView {
    ClusterView {
        id: ClusterIdView { version: 0, origin: None, timestamp: 0 },
        consumers: Map::empty(),
        grants: Map::empty(),
        shards: Seq::empty(),
    }
}

/// What a list of shards on the wire stands for; the first bad one decides the error.
pub open spec fn shards_of(raw: Seq<pb::Shard>) -> Result<Seq<ShardView>, ErrorView>
    decreases raw.len(),
{
    if raw.len() == 0 {
        Ok(Seq::empty())
    } else {
        match shards_of(raw.drop_last()) {
            Err(e) => Err(e),
            Ok(front) => match shard_of(raw.last()) {
                Err(e) => Err(e),
                Ok(s) => Ok(front.push(s)),
            },
        }
    }
}

/// A consumer is given one grant. Its id is noted with the consumer, and the grant
/// replaces any of the same id.
pub open spec fn with_grant(m: ClusterView, consumer: u128, g: GrantInfo) -> Result<
    ClusterView,
    ErrorView,
> {
    match g.shard {
        None => Err(ErrorView::InvalidMessage("GrantInfo without shard"@)),
        Some(raw) => match shard_of(raw) {
            Err(e) => Err(e),
            Ok(shard) => {
                let c = m.consumers[consumer];
                let state = grant_state_of(g.state);
                Ok(
                    ClusterView {
                        consumers: m.consumers.insert(
                            consumer,
                            ConsumerView { grants: c.grants.push(g.id@), ..c },
                        ),
                        grants: m.grants.insert(
                            g.id@,
                            GrantView { id: g.id@, shard, state, consumer },
                        ),
                        ..m
                    },
                )
            },
        },
    }
}

/// A consumer is given grants, one after the other.
pub open spec fn with_grants(m: ClusterView, consumer: u128, grants: Seq<GrantInfo>) -> Result<
    ClusterView,
    ErrorView,
>
    decreases grants.len(),
{
    if grants.len() == 0 {
        Ok(m)
    } else {
        match with_grants(m, consumer, grants.drop_last()) {
            Err(e) => Err(e),
            Ok(before) => with_grant(before, consumer, grants.last()),
        }
    }
}

/// A consumer is known. One that was known before stays as it was.
pub open spec fn with_consumer(m: ClusterView, consumer: InstanceView) -> ClusterView {
    if m.consumers.contains_key(consumer.id) {
        m
    } else {
        ClusterView {
            consumers: m.consumers.insert(
                consumer.id,
                ConsumerView { consumer, grants: Seq::empty() },
            ),
            ..m
        }
    }
}

/// A consumer is made known and given grants.
pub open spec fn assigned(m: ClusterView, consumer: InstanceView, grants: Seq<GrantInfo>) -> Result<
    ClusterView,
    ErrorView,
> {
    with_grants(with_consumer(m, consumer), consumer.id, grants)
}

/// What an assignment does.
pub open spec fn with_assignment(m: ClusterView, a: Assignment) -> Result<ClusterView, ErrorView> {
    match a.consumer {
        None => Err(ErrorView::InvalidMessage("Assignment without consumer"@)),
        Some(raw) => match peer_of(raw) {
            Err(e) => Err(e),
            Ok(consumer) => assigned(m, consumer, a.grants@),
        },
    }
}

/// What a list of assignments does.
pub open spec fn with_assignments(m: ClusterView, list: Seq<Assignment>) -> Result<
    ClusterView,
    ErrorView,
>
    decreases list.len(),
{
    if list.len() == 0 {
        Ok(m)
    } else {
        match with_assignments(m, list.drop_last()) {
            Err(e) => Err(e),
            Ok(before) => with_assignment(before, list.last()),
        }
    }
}

/// A known grant has a new state and, where one is given, a new shard.
pub open spec fn with_update(m: ClusterView, g: GrantInfo) -> Result<ClusterView, ErrorView> {
    if !m.grants.contains_key(g.id@) {
        Ok(m)
    } else {
        let old_entry = m.grants[g.id@];
        let state = grant_state_of(g.state);
        match g.shard {
            None => Ok(
                ClusterView {
                    grants: m.grants.insert(g.id@, GrantView { state, ..old_entry }),
                    ..m
                },
            ),
            Some(raw) => match shard_of(raw) {
                Err(e) => Err(e),
                Ok(shard) => Ok(
                    ClusterView {
                        grants: m.grants.insert(g.id@, GrantView { state, shard, ..old_entry }),
                        ..m
                    },
                ),
            },
        }
    }
}

/// What a list of updates does.
pub open spec fn with_updates(m: ClusterView, list: Seq<GrantInfo>) -> Result<
    ClusterView,
    ErrorView,
>
    decreases list.len(),
{
    if list.len() == 0 {
        Ok(m)
    } else {
        match with_updates(m, list.drop_last()) {
            Err(e) => Err(e),
            Ok(before) => with_update(before, list.last()),
        }
    }
}

/// Whether a grant of consumer `c` is among those that go.
pub open spec fn goes_from(m: ClusterView, gone: Set<Seq<char>>, c: u128, gid: Seq<char>) -> bool {
    gone.contains(gid) && m.grants.contains_key(gid) && m.grants[gid].consumer == c
}

/// Grants end: they are forgotten, and their ids with the consumers that held them.
pub open spec fn without_grants(m: ClusterView, gone: Set<Seq<char>>) -> ClusterView {
    ClusterView {
        consumers: Map::new(
            |c: u128| m.consumers.contains_key(c),
            |c: u128|
                ConsumerView {
                    grants: m.consumers[c].grants.filter(
                        |gid: Seq<char>| !goes_from(m, gone, c, gid),
                    ),
                    ..m.consumers[c]
                },
        ),
        grants: m.grants.remove_keys(gone),
        ..m
    }
}

/// The ids of the grants whose shard is not in a list.
pub open spec fn off_shards(m: ClusterView, shards: Seq<ShardView>) -> Set<Seq<char>> {
    m.grants.dom().filter(|gid: Seq<char>| !shards.contains(m.grants[gid].shard))
}

/// The cluster has a new list of shards. Grants on shards that are no longer
/// present end.
pub open spec fn with_shards(m: ClusterView, shards: Seq<ShardView>) -> ClusterView {
    without_grants(ClusterView { shards, ..m }, off_shards(m, shards))
}

/// The texts of a list of strings.
pub open spec fn texts(list: Seq<String>) -> Seq<Seq<char>> {
    list.map_values(|s: String| s@)
}

/// A consumer leaves, and with it the grants that were noted with it.
pub open spec fn without_consumer(m: ClusterView, c: u128) -> ClusterView {
    if m.consumers.contains_key(c) {
        ClusterView {
            consumers: m.consumers.remove(c),
            grants: m.grants.remove_keys(m.consumers[c].grants.to_set()),
            ..m
        }
    } else {
        m
    }
}

/// Consumers leave, one after the other. A text that is no consumer id is passed
/// over.
pub open spec fn without_consumers(m: ClusterView, list: Seq<Seq<char>>) -> ClusterView
    decreases list.len(),
{
    if list.len() == 0 {
        m
    } else {
        let before = without_consumers(m, list.drop_last());
        match parsed_uuid(list.last()) {
            Ok(c) => without_consumer(before, c),
            Err(_) => before,
        }
    }
}

/// The shards of a change take effect.
pub open spec fn shards_step(m: ClusterView, c: Change) -> Result<ClusterView, ErrorView> {
    match c.shards {
        None => Ok(m),
        Some(list) => match shards_of(list.shards@) {
            Err(e) => Err(e),
            Ok(shards) => Ok(with_shards(m, shards)),
        },
    }
}

/// The assignments of a change take effect.
pub open spec fn assign_step(m: ClusterView, c: Change) -> Result<ClusterView, ErrorView> {
    match c.assign {
        None => Ok(m),
        Some(list) => with_assignments(m, list.assignments@),
    }
}

/// The updates of a change take effect.
pub open spec fn update_step(m: ClusterView, c: Change) -> Result<ClusterView, ErrorView> {
    match c.update {
        None => Ok(m),
        Some(list) => with_updates(m, list.grants@),
    }
}

/// The grants that a change ends go.
pub open spec fn unassign_step(m: ClusterView, c: Change) -> ClusterView {
    match c.unassign {
        None => m,
        Some(list) => without_grants(m, texts(list.grants@).to_set()),
    }
}

/// The consumers that a change removes go.
pub open spec fn remove_step(m: ClusterView, c: Change) -> ClusterView {
    match c.remove {
        None => m,
        Some(list) => without_consumers(m, texts(list.consumers@)),
    }
}

/// What a change does: shards, assignments, updates, ended grants and removed
/// consumers, in this order. The first error decides.
pub open spec fn changed(m: ClusterView, c: Change, version: i64, timestamp: int) -> Result<
    ClusterView,
    ErrorView,
> {
    let start = ClusterView {
        id: ClusterIdView { version, origin: m.id.origin, timestamp },
        ..m
    };
    match shards_step(start, c) {
        Err(e) => Err(e),
        Ok(m1) => match assign_step(m1, c) {
            Err(e) => Err(e),
            Ok(m2) => match update_step(m2, c) {
                Err(e) => Err(e),
                Ok(m3) => Ok(remove_step(unassign_step(m3, c), c)),
            },
        },
    }
}

/// The cluster that a snapshot shows.
pub open spec fn snapshot_of(snap: Snapshot, version: i64, timestamp: int) -> Result<
    ClusterView,
    ErrorView,
> {
    match shards_of(snap.shards@) {
        Err(e) => Err(e),
        Ok(shards) => {
            let origin: Result<Option<InstanceView>, ErrorView> = match snap.origin {
                None => Ok(None),
                Some(raw) => match instance_of(raw) {
                    Err(e) => Err(e),
                    Ok(i) => Ok(Some(i)),
                },
            };
            match origin {
                Err(e) => Err(e),
                Ok(origin) => with_assignments(
                    ClusterView {
                        id: ClusterIdView { version, origin, timestamp },
                        consumers: Map::empty(),
                        grants: Map::empty(),
                        shards,
                    },
                    snap.assignments@,
                ),
            }
        },
    }
}

/// What a message makes of the cluster.
pub open spec fn applied(m: ClusterView, msg: ClusterMessage) -> Result<ClusterView, ErrorView> {
    let timestamp = match msg.timestamp {
        Some(ts) => time_of(ts),
        None => 0,
    };
    match msg.msg {
        Some(ClusterMsg::Snapshot(snap)) => snapshot_of(snap, msg.version, timestamp),
        Some(ClusterMsg::Change(change)) => changed(m, change, msg.version, timestamp),
        None => Err(ErrorView::InvalidMessage("ClusterMessage without a variant"@)),
    }
}

/// Whether a shard covers a key: the same domain, the shard's region where it has
/// one, and a key from the lower bound up to, not including, the upper bound. An
/// empty bound is no bound.
pub open spec fn covers(s: ShardView, k: QualifiedKeyView) -> bool {
    &&& s.domain == k.domain
    &&& s.region.len() == 0 || s.region == k.key.region
    &&& s.from.len() == 0 || !text_lt(k.key.key, s.from)
    &&& s.to.len() == 0 || text_lt(k.key.key, s.to)
}

/// The states that a lookup considers where none are named.
pub open spec fn default_states() -> Seq<GrantState> {
    seq![
        GrantState::Active,
        GrantState::Revoked,
        GrantState::AllocatedLoaded,
        GrantState::RevokedUnloaded,
    ]
}

/// The states that a lookup considers, in order of preference.
pub open spec fn wanted_states(states: Seq<GrantState>) -> Seq<GrantState> {
    if states.len() == 0 {
        default_states()
    } else {
        states
    }
}

/// Whether the grant noted under an id is in a state and covers a key.
pub open spec fn serves(m: ClusterView, gid: Seq<char>, k: QualifiedKeyView, state: GrantState) -> bool {
    m.grants.contains_key(gid) && m.grants[gid].state == state && covers(m.grants[gid].shard, k)
}

/// Whether a lookup may find a grant: it serves the key in one of the wanted states,
/// and no grant serves it in a state that is preferred to that one.
pub open spec fn found(
    m: ClusterView,
    k: QualifiedKeyView,
    wanted: Seq<GrantState>,
    gid: Seq<char>,
) -> bool {
    exists|i: int|
        {
            &&& 0 <= i < wanted.len()
            &&& serves(m, gid, k, #[trigger] wanted[i])
            &&& forall|j: int, other: Seq<char>|
                0 <= j < i ==> !#[trigger] serves(m, other, k, wanted[j])
        }
}

/// Whether no grant serves a key in any of the wanted states.
pub open spec fn unserved(m: ClusterView, k: QualifiedKeyView, wanted: Seq<GrantState>) -> bool {
    forall|i: int, gid: Seq<char>|
        0 <= i < wanted.len() ==> !#[trigger] serves(m, gid, k, wanted[i])
}

} // verus!
