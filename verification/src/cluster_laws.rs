//! What holds of a cluster whatever messages it was built from.

use vstd::prelude::*;

use crate::cluster::{ClusterIdView, ClusterView};
use crate::cluster_model::{
    applied, assign_step, assigned, changed, empty_cluster, goes_from, off_shards, remove_step,
    shards_of, shards_step, snapshot_of, texts, unassign_step, update_step, with_assignments,
    with_consumer, with_grants, with_shards, with_update, with_updates, without_consumer,
    without_consumers, without_grants,
};
use crate::cluster_pb::{Assignment, Change, ClusterMessage, ClusterMsg, GrantInfo, Snapshot};
use crate::error::ErrorView;
use crate::ids::{InstanceView, ShardView};
use crate::seqs::{lemma_filter_holds, lemma_filter_same};
use crate::uuids::parsed_uuid;
use crate::wrap::{instance_of, peer_of, time_of};

verus! {

/// Whether the two tables of a cluster agree: consumers and grants are noted under
/// their own ids, and the consumer of each grant is known and has the grant noted
/// with it.
pub open spec fn consistent(m: ClusterView) -> bool {
    &&& forall|c: u128| #[trigger]
        m.consumers.contains_key(c) ==> m.consumers[c].consumer.id == c
    &&& forall|g: Seq<char>| #[trigger]
        m.grants.contains_key(g) ==> {
            &&& m.grants[g].id == g
            &&& m.consumers.contains_key(m.grants[g].consumer)
            &&& m.consumers[m.grants[g].consumer].grants.contains(g)
        }
}

/// The empty cluster is consistent.
pub proof fn law_empty_cluster_is_consistent()
    ensures
        consistent(empty_cluster()),
{
}

proof fn lemma_with_grants_consistent(m: ClusterView, c: u128, grants: Seq<GrantInfo>)
    requires
        consistent(m),
        m.consumers.contains_key(c),
        with_grants(m, c, grants) is Ok,
    ensures
        consistent(with_grants(m, c, grants)->Ok_0),
        with_grants(m, c, grants)->Ok_0.consumers.contains_key(c),
    decreases grants.len(),
{
    if grants.len() > 0 {
        lemma_with_grants_consistent(m, c, grants.drop_last());
        let before = with_grants(m, c, grants.drop_last())->Ok_0;
        let after = with_grants(m, c, grants)->Ok_0;
        let gid = grants.last().id@;
        let ids = before.consumers[c].grants;
        assert(after.consumers[c].grants == ids.push(gid));
        assert(ids.push(gid)[ids.len() as int] == gid);
        assert forall|g: Seq<char>| #[trigger] after.grants.contains_key(g) implies {
            &&& after.grants[g].id == g
            &&& after.consumers.contains_key(after.grants[g].consumer)
            &&& after.consumers[after.grants[g].consumer].grants.contains(g)
        } by {
            if g != gid {
                assert(before.grants.contains_key(g));
                if before.grants[g].consumer == c {
                    let j = choose|j: int| 0 <= j < ids.len() && ids[j] == g;
                    assert(ids.push(gid)[j] == g);
                }
            }
        }
    }
}

proof fn lemma_with_assignments_consistent(m: ClusterView, list: Seq<Assignment>)
    requires
        consistent(m),
        with_assignments(m, list) is Ok,
    ensures
        consistent(with_assignments(m, list)->Ok_0),
    decreases list.len(),
{
    if list.len() > 0 {
        lemma_with_assignments_consistent(m, list.drop_last());
        let before = with_assignments(m, list.drop_last())->Ok_0;
        let a = list.last();
        let consumer = peer_of(a.consumer->Some_0)->Ok_0;
        let known = with_consumer(before, consumer);
        assert(consistent(known));
        lemma_with_grants_consistent(known, consumer.id, a.grants@);
    }
}

proof fn lemma_with_updates_consistent(m: ClusterView, list: Seq<GrantInfo>)
    requires
        consistent(m),
        with_updates(m, list) is Ok,
    ensures
        consistent(with_updates(m, list)->Ok_0),
    decreases list.len(),
{
    if list.len() > 0 {
        lemma_with_updates_consistent(m, list.drop_last());
    }
}

proof fn lemma_without_grants_consistent(m: ClusterView, gone: Set<Seq<char>>)
    requires
        consistent(m),
    ensures
        consistent(without_grants(m, gone)),
{
    let after = without_grants(m, gone);
    assert forall|g: Seq<char>| #[trigger] after.grants.contains_key(g) implies {
        &&& after.grants[g].id == g
        &&& after.consumers.contains_key(after.grants[g].consumer)
        &&& after.consumers[after.grants[g].consumer].grants.contains(g)
    } by {
        assert(m.grants.contains_key(g));
        let c = m.grants[g].consumer;
        lemma_filter_holds(
            m.consumers[c].grants,
            |gid: Seq<char>| !goes_from(m, gone, c, gid),
            g,
        );
    }
    assert forall|c: u128| #[trigger] after.consumers.contains_key(c) implies after.consumers[c].consumer.id
        == c by {
        assert(m.consumers.contains_key(c));
    }
}

proof fn lemma_without_consumers_consistent(m: ClusterView, list: Seq<Seq<char>>)
    requires
        consistent(m),
    ensures
        consistent(without_consumers(m, list)),
    decreases list.len(),
{
    if list.len() > 0 {
        lemma_without_consumers_consistent(m, list.drop_last());
        let before = without_consumers(m, list.drop_last());
        if let Ok(c) = parsed_uuid(list.last()) {
            let after = without_consumer(before, c);
            assert forall|g: Seq<char>| #[trigger] after.grants.contains_key(g) implies {
                &&& after.grants[g].id == g
                &&& after.consumers.contains_key(after.grants[g].consumer)
                &&& after.consumers[after.grants[g].consumer].grants.contains(g)
            } by {
                assert(before.grants.contains_key(g));
            }
        }
    }
}

/// Every message that is taken up leaves a consistent cluster consistent.
pub proof fn law_apply_keeps_the_cluster_consistent(m: ClusterView, msg: ClusterMessage)
    requires
        consistent(m),
        applied(m, msg) is Ok,
    ensures
        consistent(applied(m, msg)->Ok_0),
{
    match msg.msg {
        None => {},
        Some(ClusterMsg::Snapshot(snap)) => {
            let shards = shards_of(snap.shards@)->Ok_0;
            let id = ClusterIdView {
                version: msg.version,
                origin: match snap.origin {
                    None => None,
                    Some(raw) => Some(instance_of(raw)->Ok_0),
                },
                timestamp: match msg.timestamp {
                    Some(ts) => time_of(ts),
                    None => 0,
                },
            };
            let start = ClusterView {
                id,
                consumers: Map::empty(),
                grants: Map::empty(),
                shards,
            };
            assert(consistent(start));
            lemma_with_assignments_consistent(start, snap.assignments@);
        },
        Some(ClusterMsg::Change(change)) => {
            let timestamp = match msg.timestamp {
                Some(ts) => time_of(ts),
                None => 0,
            };
            lemma_changed_consistent(m, change, msg.version, timestamp);
        },
    }
}

proof fn lemma_changed_consistent(m: ClusterView, c: Change, version: i64, timestamp: int)
    requires
        consistent(m),
        changed(m, c, version, timestamp) is Ok,
    ensures
        consistent(changed(m, c, version, timestamp)->Ok_0),
{
    let start = ClusterView {
        id: ClusterIdView { version, origin: m.id.origin, timestamp },
        ..m
    };
    let m1 = shards_step(start, c)->Ok_0;
    if let Some(list) = c.shards {
        let shards = shards_of(list.shards@)->Ok_0;
        lemma_without_grants_consistent(
            ClusterView { shards, ..start },
            off_shards(start, shards),
        );
    }
    assert(consistent(m1));
    let m2 = assign_step(m1, c)->Ok_0;
    if let Some(list) = c.assign {
        lemma_with_assignments_consistent(m1, list.assignments@);
    }
    let m3 = update_step(m2, c)->Ok_0;
    if let Some(list) = c.update {
        lemma_with_updates_consistent(m2, list.grants@);
    }
    let m4 = unassign_step(m3, c);
    if let Some(list) = c.unassign {
        lemma_without_grants_consistent(m3, texts(list.grants@).to_set());
    }
    if let Some(list) = c.remove {
        lemma_without_consumers_consistent(m4, texts(list.consumers@));
    }
}

/// A snapshot says everything: what was known before does not matter.
pub proof fn law_snapshot_replaces_everything(
    m1: ClusterView,
    m2: ClusterView,
    msg: ClusterMessage,
)
    requires
        msg.msg matches Some(ClusterMsg::Snapshot(_)),
    ensures
        applied(m1, msg) == applied(m2, msg),
{
}

proof fn lemma_with_grants_keeps(m: ClusterView, c: u128, grants: Seq<GrantInfo>)
    requires
        with_grants(m, c, grants) is Ok,
    ensures
        with_grants(m, c, grants)->Ok_0.id == m.id,
        with_grants(m, c, grants)->Ok_0.shards == m.shards,
    decreases grants.len(),
{
    if grants.len() > 0 {
        lemma_with_grants_keeps(m, c, grants.drop_last());
    }
}

proof fn lemma_with_assignments_keeps(m: ClusterView, list: Seq<Assignment>)
    requires
        with_assignments(m, list) is Ok,
    ensures
        with_assignments(m, list)->Ok_0.id == m.id,
        with_assignments(m, list)->Ok_0.shards == m.shards,
    decreases list.len(),
{
    if list.len() > 0 {
        lemma_with_assignments_keeps(m, list.drop_last());
        let before = with_assignments(m, list.drop_last())->Ok_0;
        let a = list.last();
        let consumer = peer_of(a.consumer->Some_0)->Ok_0;
        lemma_with_grants_keeps(with_consumer(before, consumer), consumer.id, a.grants@);
    }
}

/// An update of grants neither adds nor ends one, and leaves each with the consumer
/// that holds it.
pub proof fn law_updates_keep_holders(m: ClusterView, list: Seq<GrantInfo>)
    requires
        with_updates(m, list) is Ok,
    ensures
        ({
            let after = with_updates(m, list)->Ok_0;
            &&& after.id == m.id
            &&& after.shards == m.shards
            &&& after.consumers == m.consumers
            &&& after.grants.dom() == m.grants.dom()
            &&& forall|g: Seq<char>| #[trigger]
                m.grants.contains_key(g) ==> after.grants[g].consumer == m.grants[g].consumer
                    && after.grants[g].id == m.grants[g].id
        }),
    decreases list.len(),
{
    if list.len() > 0 {
        law_updates_keep_holders(m, list.drop_last());
        let before = with_updates(m, list.drop_last())->Ok_0;
        let after = with_update(before, list.last())->Ok_0;
        assert(after.grants.dom() =~= before.grants.dom());
        assert forall|g: Seq<char>| #[trigger] m.grants.contains_key(g) implies after.grants[g].consumer
            == m.grants[g].consumer && after.grants[g].id == m.grants[g].id by {
            assert(before.grants.contains_key(g));
        }
    }
}

proof fn lemma_without_consumers_keeps(m: ClusterView, list: Seq<Seq<char>>)
    ensures
        without_consumers(m, list).id == m.id,
        without_consumers(m, list).shards == m.shards,
        without_consumers(m, list).grants.submap_of(m.grants),
        forall|c: u128| #[trigger]
            without_consumers(m, list).consumers.contains_key(c) ==> m.consumers.contains_key(c)
                && without_consumers(m, list).consumers[c] == m.consumers[c],
    decreases list.len(),
{
    if list.len() > 0 {
        lemma_without_consumers_keeps(m, list.drop_last());
    }
}

/// A change keeps the origin of the cluster and brings its own version and time.
pub proof fn law_change_keeps_the_origin(m: ClusterView, c: Change, version: i64, timestamp: int)
    requires
        changed(m, c, version, timestamp) is Ok,
    ensures
        changed(m, c, version, timestamp)->Ok_0.id == (ClusterIdView {
            version,
            origin: m.id.origin,
            timestamp,
        }),
{
    let start = ClusterView {
        id: ClusterIdView { version, origin: m.id.origin, timestamp },
        ..m
    };
    let m1 = shards_step(start, c)->Ok_0;
    assert(m1.id == start.id);
    let m2 = assign_step(m1, c)->Ok_0;
    if let Some(list) = c.assign {
        lemma_with_assignments_keeps(m1, list.assignments@);
    }
    let m3 = update_step(m2, c)->Ok_0;
    if let Some(list) = c.update {
        law_updates_keep_holders(m2, list.grants@);
    }
    let m4 = unassign_step(m3, c);
    if let Some(list) = c.remove {
        lemma_without_consumers_keeps(m4, texts(list.consumers@));
    }
}

/// A change that says nothing changes only the id of the cluster.
pub proof fn law_empty_change_changes_only_the_id(
    m: ClusterView,
    c: Change,
    version: i64,
    timestamp: int,
)
    requires
        c.shards is None,
        c.assign is None,
        c.update is None,
        c.unassign is None,
        c.remove is None,
    ensures
        changed(m, c, version, timestamp) == Ok::<ClusterView, ErrorView>(
            ClusterView {
                id: ClusterIdView { version, origin: m.id.origin, timestamp },
                ..m
            },
        ),
{
}

/// After new shards are set, every grant is on one of them, and each grant that is
/// left is as it was.
pub proof fn law_grants_stay_on_present_shards(
    m: ClusterView,
    shards: Seq<ShardView>,
)
    ensures
        with_shards(m, shards).shards == shards,
        forall|g: Seq<char>| #[trigger]
            with_shards(m, shards).grants.contains_key(g) <==> m.grants.contains_key(g)
                && shards.contains(m.grants[g].shard),
        forall|g: Seq<char>| #[trigger]
            with_shards(m, shards).grants.contains_key(g) ==> with_shards(m, shards).grants[g]
                == m.grants[g],
{
}

/// The grants that a change ends are in the cluster no more.
pub proof fn law_unassigned_grants_are_gone(
    m: ClusterView,
    c: Change,
    version: i64,
    timestamp: int,
    i: int,
)
    requires
        changed(m, c, version, timestamp) is Ok,
        c.unassign is Some,
        0 <= i < c.unassign->Some_0.grants@.len(),
    ensures
        !changed(m, c, version, timestamp)->Ok_0.grants.contains_key(
            c.unassign->Some_0.grants@[i]@,
        ),
{
    let start = ClusterView {
        id: ClusterIdView { version, origin: m.id.origin, timestamp },
        ..m
    };
    let m1 = shards_step(start, c)->Ok_0;
    let m2 = assign_step(m1, c)->Ok_0;
    let m3 = update_step(m2, c)->Ok_0;
    let m4 = unassign_step(m3, c);
    let ids = texts(c.unassign->Some_0.grants@);
    assert(ids[i] == c.unassign->Some_0.grants@[i]@);
    assert(ids.to_set().contains(ids[i]));
    assert(!m4.grants.contains_key(ids[i]));
    if let Some(list) = c.remove {
        lemma_without_consumers_keeps(m4, texts(list.consumers@));
        assert(!remove_step(m4, c).grants.dom().contains(ids[i]));
    }
}

/// A consumer that leaves a consistent cluster is known there no more, and no grant
/// is held by it.
pub proof fn law_removed_consumer_holds_nothing(m: ClusterView, c: u128)
    requires
        consistent(m),
    ensures
        !without_consumer(m, c).consumers.contains_key(c),
        forall|g: Seq<char>| #[trigger]
            without_consumer(m, c).grants.contains_key(g) ==> without_consumer(
                m,
                c,
            ).grants[g].consumer != c,
{
    let after = without_consumer(m, c);
    assert forall|g: Seq<char>| #[trigger] after.grants.contains_key(g) implies after.grants[g].consumer
        != c by {
        assert(m.grants.contains_key(g));
    }
}

/// The consumers that a change removes from a consistent cluster are known there no
/// more, and no grant is held by one of them. A text that is no consumer id removes
/// nobody.
pub proof fn law_removed_consumers_hold_nothing(
    m: ClusterView,
    list: Seq<Seq<char>>,
    i: int,
    c: u128,
)
    requires
        consistent(m),
        0 <= i < list.len(),
        parsed_uuid(list[i]) == Ok::<u128, Seq<char>>(c),
    ensures
        !without_consumers(m, list).consumers.contains_key(c),
        forall|g: Seq<char>| #[trigger]
            without_consumers(m, list).grants.contains_key(g) ==> without_consumers(
                m,
                list,
            ).grants[g].consumer != c,
{
    lemma_without_consumers_consistent(m, list);
    lemma_removed_is_unknown(m, list, i, c);
}

proof fn lemma_removed_is_unknown(m: ClusterView, list: Seq<Seq<char>>, i: int, c: u128)
    requires
        0 <= i < list.len(),
        parsed_uuid(list[i]) == Ok::<u128, Seq<char>>(c),
    ensures
        !without_consumers(m, list).consumers.contains_key(c),
    decreases list.len(),
{
    if i + 1 < list.len() {
        lemma_removed_is_unknown(m, list.drop_last(), i, c);
    }
}

/// A consumer that is assigned grants holds each of them, and every other grant is
/// as it was.
pub proof fn law_assigned_grants_are_held(
    m: ClusterView,
    consumer: InstanceView,
    grants: Seq<GrantInfo>,
)
    requires
        assigned(m, consumer, grants) is Ok,
    ensures
        ({
            let after = assigned(m, consumer, grants)->Ok_0;
            &&& after.consumers.contains_key(consumer.id)
            &&& forall|i: int|
                0 <= i < grants.len() ==> held_by(after, #[trigger] grants[i].id@, consumer.id)
            &&& forall|g: Seq<char>|
                #![trigger after.grants.contains_key(g)]
                (forall|i: int| 0 <= i < grants.len() ==> #[trigger] grants[i].id@ != g) ==> {
                    &&& after.grants.contains_key(g) == m.grants.contains_key(g)
                    &&& after.grants[g] == m.grants[g]
                }
        }),
{
    lemma_grants_held(with_consumer(m, consumer), consumer.id, grants);
}

/// Whether a grant is held by a consumer and noted with it.
pub open spec fn held_by(m: ClusterView, g: Seq<char>, c: u128) -> bool {
    &&& m.grants.contains_key(g)
    &&& m.grants[g].consumer == c
    &&& m.consumers[c].grants.contains(g)
}

proof fn lemma_grants_held(m: ClusterView, c: u128, grants: Seq<GrantInfo>)
    requires
        m.consumers.contains_key(c),
        with_grants(m, c, grants) is Ok,
    ensures
        ({
            let after = with_grants(m, c, grants)->Ok_0;
            &&& after.consumers.contains_key(c)
            &&& forall|i: int|
                0 <= i < grants.len() ==> held_by(after, #[trigger] grants[i].id@, c)
            &&& forall|g: Seq<char>|
                #![trigger after.grants.contains_key(g)]
                (forall|i: int| 0 <= i < grants.len() ==> #[trigger] grants[i].id@ != g) ==> {
                    &&& after.grants.contains_key(g) == m.grants.contains_key(g)
                    &&& after.grants[g] == m.grants[g]
                }
        }),
    decreases grants.len(),
{
    if grants.len() > 0 {
        let front = grants.drop_last();
        lemma_grants_held(m, c, front);
        let before = with_grants(m, c, front)->Ok_0;
        let after = with_grants(m, c, grants)->Ok_0;
        let gid = grants.last().id@;
        let ids = before.consumers[c].grants;
        assert(after.consumers[c].grants == ids.push(gid));
        assert(ids.push(gid)[ids.len() as int] == gid);
        assert forall|i: int| 0 <= i < grants.len() implies held_by(
            after,
            #[trigger] grants[i].id@,
            c,
        ) by {
            if i < front.len() {
                assert(front[i] == grants[i]);
                assert(held_by(before, front[i].id@, c));
                let j = choose|j: int| 0 <= j < ids.len() && ids[j] == front[i].id@;
                assert(ids.push(gid)[j] == front[i].id@);
            }
        }
        assert forall|g: Seq<char>|
            #![trigger after.grants.contains_key(g)]
            (forall|i: int| 0 <= i < grants.len() ==> #[trigger] grants[i].id@ != g) implies {
            &&& after.grants.contains_key(g) == m.grants.contains_key(g)
            &&& after.grants[g] == m.grants[g]
        } by {
            assert forall|i: int| 0 <= i < front.len() implies #[trigger] front[i].id@ != g by {
                assert(front[i] == grants[i]);
            }
            assert(grants[grants.len() - 1].id@ != g);
            assert(before.grants.contains_key(g) == m.grants.contains_key(g));
        }
    }
}

// ---------- Exact lists ----------

/// Whether the two tables of a cluster agree both ways: it is consistent, and each
/// consumer lists only grants that it holds.
pub open spec fn exact(m: ClusterView) -> bool {
    &&& consistent(m)
    &&& forall|c: u128, g: Seq<char>| #[trigger] listed(m, c, g) ==> held(m, c, g)
}

/// Whether a known consumer lists a grant.
pub open spec fn listed(m: ClusterView, c: u128, g: Seq<char>) -> bool {
    m.consumers.contains_key(c) && m.consumers[c].grants.contains(g)
}

/// Whether a grant is known and held by a consumer.
pub open spec fn held(m: ClusterView, c: u128, g: Seq<char>) -> bool {
    m.grants.contains_key(g) && m.grants[g].consumer == c
}

/// The consumer that an assignment gives grants to.
pub open spec fn receiver(a: Assignment) -> u128 {
    peer_of(a.consumer->Some_0)->Ok_0.id
}

/// Whether an assignment gives a grant.
pub open spec fn gives(a: Assignment, g: Seq<char>) -> bool {
    exists|x: int| 0 <= x < a.grants@.len() && (#[trigger] a.grants@[x]).id@ == g
}

/// Whether assignments give no grant to a consumer other than its holder, nor one grant
/// to two consumers.
pub open spec fn moves_no_grant(m: ClusterView, list: Seq<Assignment>) -> bool {
    &&& forall|i: int, g: Seq<char>|
        0 <= i < list.len() && #[trigger] gives(list[i], g) && m.grants.contains_key(g)
            ==> m.grants[g].consumer == receiver(list[i])
    &&& forall|i: int, j: int, g: Seq<char>|
        0 <= i < list.len() && 0 <= j < list.len() && #[trigger] gives(list[i], g)
            && #[trigger] gives(list[j], g) ==> receiver(list[i]) == receiver(list[j])
}

/// The empty cluster is exact.
pub proof fn law_empty_cluster_is_exact()
    ensures
        exact(empty_cluster()),
{
}

proof fn lemma_with_grants_exact(m: ClusterView, c: u128, grants: Seq<GrantInfo>)
    requires
        exact(m),
        m.consumers.contains_key(c),
        with_grants(m, c, grants) is Ok,
        forall|x: int|
            0 <= x < grants.len() && m.grants.contains_key((#[trigger] grants[x]).id@)
                ==> m.grants[grants[x].id@].consumer == c,
    ensures
        exact(with_grants(m, c, grants)->Ok_0),
        forall|g: Seq<char>| #[trigger]
            with_grants(m, c, grants)->Ok_0.grants.contains_key(g) ==> {
                let holder = with_grants(m, c, grants)->Ok_0.grants[g].consumer;
                ||| held(m, holder, g)
                ||| holder == c && exists|x: int|
                    0 <= x < grants.len() && (#[trigger] grants[x]).id@ == g
            },
    decreases grants.len(),
{
    lemma_with_grants_consistent(m, c, grants);
    if grants.len() > 0 {
        let front = grants.drop_last();
        assert forall|x: int|
            0 <= x < front.len() && m.grants.contains_key(
                (#[trigger] front[x]).id@,
            ) implies m.grants[front[x].id@].consumer == c by {
            assert(front[x] == grants[x]);
        }
        lemma_with_grants_exact(m, c, front);
        let before = with_grants(m, c, front)->Ok_0;
        let after = with_grants(m, c, grants)->Ok_0;
        let gid = grants.last().id@;
        let ids = before.consumers[c].grants;
        lemma_with_grants_consistent(m, c, front);
        assert(after.consumers[c].grants == ids.push(gid));
        assert(grants[grants.len() - 1].id@ == gid);
        if before.grants.contains_key(gid) {
            let holder = before.grants[gid].consumer;
            if held(m, holder, gid) {
                assert(holder == c);
            }
        }
        assert forall|d: u128, g: Seq<char>| #[trigger] listed(after, d, g) implies held(
            after,
            d,
            g,
        ) by {
            if d != c {
                assert(listed(before, d, g));
            } else if g != gid {
                let j = choose|j: int| 0 <= j < ids.push(gid).len() && ids.push(gid)[j] == g;
                assert(ids[j] == g);
                assert(listed(before, d, g));
            }
        }
        assert forall|g: Seq<char>| #[trigger] after.grants.contains_key(g) implies {
            let holder = after.grants[g].consumer;
            ||| held(m, holder, g)
            ||| holder == c && exists|x: int|
                0 <= x < grants.len() && (#[trigger] grants[x]).id@ == g
        } by {
            if g != gid {
                assert(before.grants.contains_key(g));
                let holder = before.grants[g].consumer;
                if !held(m, holder, g) {
                    let x = choose|x: int| 0 <= x < front.len() && (#[trigger] front[x]).id@ == g;
                    assert(grants[x].id@ == g);
                }
            }
        }
    }
}

proof fn lemma_with_assignments_exact(m: ClusterView, list: Seq<Assignment>)
    requires
        exact(m),
        with_assignments(m, list) is Ok,
        moves_no_grant(m, list),
    ensures
        exact(with_assignments(m, list)->Ok_0),
        forall|g: Seq<char>| #[trigger]
            with_assignments(m, list)->Ok_0.grants.contains_key(g) ==> {
                let holder = with_assignments(m, list)->Ok_0.grants[g].consumer;
                ||| held(m, holder, g)
                ||| exists|i: int|
                    0 <= i < list.len() && #[trigger] gives(list[i], g) && receiver(list[i])
                        == holder
            },
    decreases list.len(),
{
    if list.len() > 0 {
        let front = list.drop_last();
        assert(moves_no_grant(m, front)) by {
            assert forall|i: int, g: Seq<char>|
                0 <= i < front.len() && #[trigger] gives(front[i], g) && m.grants.contains_key(
                    g,
                ) implies m.grants[g].consumer == receiver(front[i]) by {
                assert(gives(list[i], g));
            }
            assert forall|i: int, j: int, g: Seq<char>|
                0 <= i < front.len() && 0 <= j < front.len() && #[trigger] gives(front[i], g)
                    && #[trigger] gives(front[j], g) implies receiver(front[i]) == receiver(
                front[j],
            ) by {
                assert(gives(list[i], g) && gives(list[j], g));
            }
        }
        lemma_with_assignments_exact(m, front);
        let before = with_assignments(m, front)->Ok_0;
        let after = with_assignments(m, list)->Ok_0;
        let a = list.last();
        let last = list.len() - 1;
        let consumer = peer_of(a.consumer->Some_0)->Ok_0;
        let known = with_consumer(before, consumer);
        assert(exact(known)) by {
            assert forall|c: u128, g: Seq<char>| #[trigger] listed(known, c, g) implies held(
                known,
                c,
                g,
            ) by {
                assert(listed(before, c, g));
            }
        }
        assert forall|x: int|
            0 <= x < a.grants@.len() && known.grants.contains_key(
                (#[trigger] a.grants@[x]).id@,
            ) implies known.grants[a.grants@[x].id@].consumer == consumer.id by {
            let g = a.grants@[x].id@;
            assert(gives(list[last], g));
            assert(before.grants.contains_key(g));
            let holder = before.grants[g].consumer;
            if !held(m, holder, g) {
                let i = choose|i: int|
                    0 <= i < front.len() && #[trigger] gives(front[i], g) && receiver(front[i])
                        == holder;
                assert(gives(list[i], g));
            }
        }
        lemma_with_grants_exact(known, consumer.id, a.grants@);
        assert forall|g: Seq<char>| #[trigger] after.grants.contains_key(g) implies {
            let holder = after.grants[g].consumer;
            ||| held(m, holder, g)
            ||| exists|i: int|
                0 <= i < list.len() && #[trigger] gives(list[i], g) && receiver(list[i]) == holder
        } by {
            let holder = after.grants[g].consumer;
            if held(known, holder, g) {
                assert(before.grants.contains_key(g));
                if !held(m, holder, g) {
                    let i = choose|i: int|
                        0 <= i < front.len() && #[trigger] gives(front[i], g) && receiver(front[i])
                            == holder;
                    assert(gives(list[i], g));
                }
            } else {
                assert(gives(list[last], g));
            }
        }
    }
}

proof fn lemma_without_grants_exact(m: ClusterView, gone: Set<Seq<char>>)
    requires
        exact(m),
    ensures
        exact(without_grants(m, gone)),
{
    lemma_without_grants_consistent(m, gone);
    let after = without_grants(m, gone);
    assert forall|c: u128, g: Seq<char>| #[trigger] listed(after, c, g) implies held(
        after,
        c,
        g,
    ) by {
        lemma_filter_holds(
            m.consumers[c].grants,
            |gid: Seq<char>| !goes_from(m, gone, c, gid),
            g,
        );
        assert(listed(m, c, g));
    }
}

proof fn lemma_with_updates_exact(m: ClusterView, list: Seq<GrantInfo>)
    requires
        exact(m),
        with_updates(m, list) is Ok,
    ensures
        exact(with_updates(m, list)->Ok_0),
{
    lemma_with_updates_consistent(m, list);
    law_updates_keep_holders(m, list);
    let after = with_updates(m, list)->Ok_0;
    assert forall|c: u128, g: Seq<char>| #[trigger] listed(after, c, g) implies held(
        after,
        c,
        g,
    ) by {
        assert(listed(m, c, g));
        assert(after.grants.dom().contains(g));
    }
}

proof fn lemma_without_consumers_exact(m: ClusterView, list: Seq<Seq<char>>)
    requires
        exact(m),
    ensures
        exact(without_consumers(m, list)),
    decreases list.len(),
{
    lemma_without_consumers_consistent(m, list);
    if list.len() > 0 {
        lemma_without_consumers_exact(m, list.drop_last());
        let before = without_consumers(m, list.drop_last());
        if let Ok(c) = parsed_uuid(list.last()) {
            let after = without_consumer(before, c);
            assert forall|d: u128, g: Seq<char>| #[trigger] listed(after, d, g) implies held(
                after,
                d,
                g,
            ) by {
                assert(listed(before, d, g));
                if before.consumers.contains_key(c) && before.consumers[c].grants.contains(g) {
                    assert(listed(before, c, g));
                }
            }
        }
    }
}

/// The cluster after the shards of a change have taken effect, at which its assignments
/// start.
pub open spec fn assigned_from(
    m: ClusterView,
    c: Change,
    version: i64,
    timestamp: int,
) -> ClusterView {
    shards_step(
        ClusterView { id: ClusterIdView { version, origin: m.id.origin, timestamp }, ..m },
        c,
    )->Ok_0
}

/// The assignments of a change.
pub open spec fn assignments_of(c: Change) -> Seq<Assignment> {
    match c.assign {
        Some(list) => list.assignments@,
        None => Seq::empty(),
    }
}

/// A change whose assignments move no grant leaves an exact cluster exact: no grant is
/// held by an absent consumer, and no consumer lists an absent or foreign grant.
pub proof fn law_change_keeps_lists_exact(
    m: ClusterView,
    c: Change,
    version: i64,
    timestamp: int,
)
    requires
        exact(m),
        changed(m, c, version, timestamp) is Ok,
        moves_no_grant(assigned_from(m, c, version, timestamp), assignments_of(c)),
    ensures
        exact(changed(m, c, version, timestamp)->Ok_0),
{
    let m3 = lemma_steps_exact(m, c, version, timestamp);
    let m4 = unassign_step(m3, c);
    if let Some(list) = c.unassign {
        lemma_without_grants_exact(m3, texts(list.grants@).to_set());
    }
    if let Some(list) = c.remove {
        lemma_without_consumers_exact(m4, texts(list.consumers@));
    }
}

/// Up to its updates a change keeps the cluster exact, and each grant is then held as
/// before it or as it assigns it.
proof fn lemma_steps_exact(m: ClusterView, c: Change, version: i64, timestamp: int) -> (m3:
    ClusterView)
    requires
        exact(m),
        changed(m, c, version, timestamp) is Ok,
        moves_no_grant(assigned_from(m, c, version, timestamp), assignments_of(c)),
    ensures
        exact(m3),
        changed(m, c, version, timestamp)->Ok_0 == remove_step(unassign_step(m3, c), c),
        forall|g: Seq<char>| #[trigger]
            m3.grants.contains_key(g) ==> {
                let holder = m3.grants[g].consumer;
                ||| held(m, holder, g)
                ||| exists|i: int|
                    0 <= i < assignments_of(c).len() && #[trigger] gives(assignments_of(c)[i], g)
                        && receiver(assignments_of(c)[i]) == holder
            },
{
    let start = ClusterView {
        id: ClusterIdView { version, origin: m.id.origin, timestamp },
        ..m
    };
    assert(exact(start)) by {
        assert forall|d: u128, g: Seq<char>| #[trigger] listed(start, d, g) implies held(
            start,
            d,
            g,
        ) by {
            assert(listed(m, d, g));
        }
    }
    let m1 = assigned_from(m, c, version, timestamp);
    if let Some(list) = c.shards {
        let shards = shards_of(list.shards@)->Ok_0;
        let with_list = ClusterView { shards, ..start };
        assert(exact(with_list)) by {
            assert forall|d: u128, g: Seq<char>| #[trigger] listed(with_list, d, g) implies held(
                with_list,
                d,
                g,
            ) by {
                assert(listed(m, d, g));
            }
        }
        lemma_without_grants_exact(with_list, off_shards(start, shards));
    }
    let m2 = assign_step(m1, c)->Ok_0;
    lemma_with_assignments_exact(m1, assignments_of(c));
    let m3 = update_step(m2, c)->Ok_0;
    if let Some(list) = c.update {
        lemma_with_updates_exact(m2, list.grants@);
        law_updates_keep_holders(m2, list.grants@);
    }
    assert forall|g: Seq<char>| #[trigger] m3.grants.contains_key(g) implies {
        let holder = m3.grants[g].consumer;
        ||| held(m, holder, g)
        ||| exists|i: int|
            0 <= i < assignments_of(c).len() && #[trigger] gives(assignments_of(c)[i], g)
                && receiver(assignments_of(c)[i]) == holder
    } by {
        assert(m2.grants.dom().contains(g));
        assert(m2.grants.contains_key(g));
        let holder = m2.grants[g].consumer;
        if held(m1, holder, g) {
            assert(held(m, holder, g));
        }
    }
    m3
}

/// After a change whose assignments move no grant, a grant that it ends is in no list
/// of a consumer.
pub proof fn law_unassigned_grants_are_listed_nowhere(
    m: ClusterView,
    c: Change,
    version: i64,
    timestamp: int,
    i: int,
    d: u128,
)
    requires
        exact(m),
        changed(m, c, version, timestamp) is Ok,
        moves_no_grant(assigned_from(m, c, version, timestamp), assignments_of(c)),
        c.unassign is Some,
        0 <= i < c.unassign->Some_0.grants@.len(),
    ensures
        !changed(m, c, version, timestamp)->Ok_0.grants.contains_key(
            c.unassign->Some_0.grants@[i]@,
        ),
        !listed(
            changed(m, c, version, timestamp)->Ok_0,
            d,
            c.unassign->Some_0.grants@[i]@,
        ),
{
    law_change_keeps_lists_exact(m, c, version, timestamp);
    law_unassigned_grants_are_gone(m, c, version, timestamp, i);
}

/// After a change that gives no grant to a consumer other than its holder, a consumer
/// that it removes is not known, and no grant that the consumer held before, or would
/// have been given, is left with anybody or in any list.
pub proof fn law_grants_of_removed_consumers_are_left_nowhere(
    m: ClusterView,
    c: Change,
    version: i64,
    timestamp: int,
    i: int,
    gone: u128,
    g: Seq<char>,
    d: u128,
)
    requires
        exact(m),
        changed(m, c, version, timestamp) is Ok,
        moves_no_grant(m, assignments_of(c)),
        c.remove is Some,
        0 <= i < c.remove->Some_0.consumers@.len(),
        parsed_uuid(c.remove->Some_0.consumers@[i]@) == Ok::<u128, Seq<char>>(gone),
        held(m, gone, g) || exists|j: int|
            0 <= j < assignments_of(c).len() && #[trigger] gives(assignments_of(c)[j], g)
                && receiver(assignments_of(c)[j]) == gone,
    ensures
        !changed(m, c, version, timestamp)->Ok_0.consumers.contains_key(gone),
        !changed(m, c, version, timestamp)->Ok_0.grants.contains_key(g),
        !listed(changed(m, c, version, timestamp)->Ok_0, d, g),
{
    let list = assignments_of(c);
    let m1 = assigned_from(m, c, version, timestamp);
    assert(moves_no_grant(m1, list)) by {
        assert forall|x: int, h: Seq<char>|
            0 <= x < list.len() && #[trigger] gives(list[x], h) && m1.grants.contains_key(
                h,
            ) implies m1.grants[h].consumer == receiver(list[x]) by {
            assert(m.grants.contains_key(h));
        }
    }
    let next = changed(m, c, version, timestamp)->Ok_0;
    law_change_keeps_lists_exact(m, c, version, timestamp);
    let m3 = lemma_steps_exact(m, c, version, timestamp);
    let m4 = unassign_step(m3, c);
    if let Some(ended) = c.unassign {
        lemma_without_grants_exact(m3, texts(ended.grants@).to_set());
    }
    let removed = texts(c.remove->Some_0.consumers@);
    assert(removed[i] == c.remove->Some_0.consumers@[i]@);
    law_removed_consumers_hold_nothing(m4, removed, i, gone);
    lemma_without_consumers_keeps(m4, removed);
    if next.grants.contains_key(g) {
        assert(next.grants.dom().contains(g));
        assert(m4.grants.contains_key(g));
        assert(m3.grants.contains_key(g));
        let holder = m3.grants[g].consumer;
        assert(next.grants[g].consumer == holder);
        assert(holder == gone) by {
            if !held(m, holder, g) {
                let x = choose|x: int|
                    0 <= x < list.len() && #[trigger] gives(list[x], g) && receiver(list[x])
                        == holder;
                assert(gives(list[x], g));
            }
        }
    }
}

/// A snapshot that gives no grant to two consumers shows an exact cluster.
pub proof fn law_snapshot_shows_an_exact_cluster(
    snap: Snapshot,
    version: i64,
    timestamp: int,
)
    requires
        snapshot_of(snap, version, timestamp) is Ok,
        moves_no_grant(empty_cluster(), snap.assignments@),
    ensures
        exact(snapshot_of(snap, version, timestamp)->Ok_0),
{
    let start = ClusterView {
        id: ClusterIdView {
            version,
            origin: match snap.origin {
                None => None,
                Some(raw) => Some(instance_of(raw)->Ok_0),
            },
            timestamp,
        },
        consumers: Map::empty(),
        grants: Map::empty(),
        shards: shards_of(snap.shards@)->Ok_0,
    };
    lemma_with_assignments_exact(start, snap.assignments@);
}

/// A change keeps the shards, unless it lists shards of its own.
pub proof fn law_change_keeps_the_shards(m: ClusterView, c: Change, version: i64, timestamp: int)
    requires
        changed(m, c, version, timestamp) is Ok,
    ensures
        c.shards is None ==> changed(m, c, version, timestamp)->Ok_0.shards == m.shards,
        c.shards matches Some(list) ==> shards_of(list.shards@) == Ok::<Seq<ShardView>, ErrorView>(
            changed(m, c, version, timestamp)->Ok_0.shards,
        ),
{
    let start = ClusterView {
        id: ClusterIdView { version, origin: m.id.origin, timestamp },
        ..m
    };
    let m1 = shards_step(start, c)->Ok_0;
    let m2 = assign_step(m1, c)->Ok_0;
    if let Some(list) = c.assign {
        lemma_with_assignments_keeps(m1, list.assignments@);
    }
    let m3 = update_step(m2, c)->Ok_0;
    if let Some(list) = c.update {
        law_updates_keep_holders(m2, list.grants@);
    }
    let m4 = unassign_step(m3, c);
    if let Some(list) = c.remove {
        lemma_without_consumers_keeps(m4, texts(list.consumers@));
    }
}

/// What new shards end does not depend on the id of the cluster.
pub proof fn lemma_shards_do_not_look_at_the_id(
    m: ClusterView,
    id: ClusterIdView,
    shards: Seq<ShardView>,
)
    ensures
        with_shards(ClusterView { id, ..m }, shards) == (ClusterView {
            id,
            ..with_shards(m, shards)
        }),
{
    let other = ClusterView { id, ..m };
    assert(off_shards(other, shards) =~= off_shards(m, shards));
    let a = with_shards(other, shards);
    let b = with_shards(m, shards);
    let gone = off_shards(m, shards);
    assert forall|c: u128| #[trigger] m.consumers.contains_key(c) implies a.consumers[c]
        == b.consumers[c] by {
        lemma_filter_same(
            m.consumers[c].grants,
            |gid: Seq<char>| !goes_from(ClusterView { shards, ..other }, gone, c, gid),
            |gid: Seq<char>| !goes_from(ClusterView { shards, ..m }, gone, c, gid),
        );
    }
    assert(a.consumers =~= b.consumers);
}

/// Assignments leave the id and the shards of a cluster.
pub proof fn lemma_with_assignments_keeps_rest(m: ClusterView, list: Seq<Assignment>)
    ensures
        with_assignments(m, list) matches Ok(after) ==> after.id == m.id && after.shards
            == m.shards,
{
    if with_assignments(m, list) is Ok {
        lemma_with_assignments_keeps(m, list);
    }
}

} // verus!
