//! What each part of a cluster message does, grant by grant and consumer by consumer.

use vstd::prelude::*;

use crate::cluster::{
    apply_assignment, apply_snapshot, assign_consumer, decode_shards, drop_grant, remove_consumer,
    set_shards, shard_views, update_grant, ClusterIdView, ClusterMap, ClusterView,
};
use crate::cluster_laws::{
    law_change_keeps_the_origin, law_change_keeps_the_shards, law_updates_keep_holders,
    lemma_shards_do_not_look_at_the_id, lemma_with_assignments_keeps_rest,
};
use crate::cluster_model::{
    changed, goes_from, off_shards, shards_of, texts, with_assignments, with_consumer, with_grants,
    with_updates, without_consumer, without_consumers, without_grants,
};
use crate::cluster_pb::{Assignment, Change, ClusterMessage, ClusterMsg, GrantInfo, Snapshot};
use crate::error::{ClientError, ErrorView};
use crate::ids::{GrantId, GrantState, Instance, InstanceId, Shard, ShardView};
use crate::pb;
use crate::seqs::{lemma_filter_all, lemma_filter_holds, lemma_filter_same};
use crate::time::SystemTime;
use crate::uuids::parsed_uuid;
use crate::wire_laws::refused;
use crate::wrap::{
    grant_state_from_i32, grant_state_of, peer_of, read_instance, read_peer, read_shard, shard_of,
    timestamp_to_system_time,
};

verus! {

// ---------- Updates ----------

/// Whether two clusters agree on everything but one grant.
pub open spec fn same_but_grant(a: ClusterView, b: ClusterView, g: Seq<char>) -> bool {
    &&& a.id == b.id
    &&& a.consumers == b.consumers
    &&& a.shards == b.shards
    &&& forall|h: Seq<char>| h != g ==> #[trigger] a.grants.contains_key(h)
        == b.grants.contains_key(h)
    &&& forall|h: Seq<char>| h != g && #[trigger] a.grants.contains_key(h) ==> a.grants[h]
        == b.grants[h]
}

/// An update gives a known grant the state that it carries, whatever state the grant was
/// in, and the shard where it brings one, and leaves everything else. Of a grant that is
/// not known it does nothing.
pub proof fn law_update_sets_state_and_shard(
    map: ClusterMap,
    g: &GrantInfo,
    r: Result<ClusterMap, ClientError>,
    state: GrantState,
    shard: Result<Shard, ClientError>,
)
    requires
        call_ensures(update_grant, (map, g), r),
        call_ensures(grant_state_from_i32, (g.state,), state),
        g.shard is Some ==> call_ensures(read_shard, (&g.shard->Some_0,), shard),
    ensures
        ({
            let known = map@.grants.contains_key(g.id@);
            let before = map@.grants[g.id@];
            let after = r->Ok_0@.grants[g.id@];
            &&& !known ==> r is Ok && r->Ok_0@ == map@
            &&& known && g.shard is Some && shard is Err ==> r is Err && r->Err_0@
                == shard->Err_0@
            &&& known && (g.shard is None || shard is Ok) ==> {
                &&& r is Ok
                &&& r->Ok_0@.grants.contains_key(g.id@)
                &&& after.state == state
                &&& after.consumer == before.consumer
                &&& after.id == before.id
                &&& g.shard is None ==> after.shard == before.shard
                &&& g.shard is Some ==> after.shard == shard->Ok_0@
                &&& same_but_grant(map@, r->Ok_0@, g.id@)
            }
        }),
{
}

/// Updates take effect one after the other.
pub proof fn law_updates_in_turn(m: ClusterView, a: Seq<GrantInfo>, b: Seq<GrantInfo>)
    ensures
        with_updates(m, Seq::empty()) == Ok::<ClusterView, ErrorView>(m),
        with_updates(m, a) is Err ==> with_updates(m, a + b) == with_updates(m, a),
        with_updates(m, a) is Ok ==> with_updates(m, a + b) == with_updates(
            with_updates(m, a)->Ok_0,
            b,
        ),
    decreases b.len(),
{
    if b.len() == 0 {
        assert(a + b =~= a);
    } else {
        assert((a + b).drop_last() =~= a + b.drop_last());
        law_updates_in_turn(m, a, b.drop_last());
    }
}

/// Whether an update is the last of a list that names a grant.
pub open spec fn last_naming(list: Seq<GrantInfo>, i: int, g: Seq<char>) -> bool {
    &&& 0 <= i < list.len()
    &&& list[i].id@ == g
    &&& forall|j: int| i < j < list.len() ==> (#[trigger] list[j]).id@ != g
}

/// Whether an update is the last of a list that brings a shard for a grant.
pub open spec fn last_moving(list: Seq<GrantInfo>, i: int, g: Seq<char>) -> bool {
    &&& 0 <= i < list.len()
    &&& list[i].id@ == g
    &&& list[i].shard is Some
    &&& forall|j: int|
        i < j < list.len() && (#[trigger] list[j]).id@ == g ==> list[j].shard is None
}

/// After a list of updates each known grant that it names is in the state that the last
/// update naming it carries, whatever state it was in before, and on the shard of the
/// last update that brings one; without such an update it stays on its shard. A grant
/// that the list does not name is as it was.
pub proof fn law_last_update_wins(m: ClusterView, list: Seq<GrantInfo>, g: Seq<char>, i: int)
    requires
        with_updates(m, list) is Ok,
        m.grants.contains_key(g),
    ensures
        with_updates(m, list)->Ok_0.grants.contains_key(g),
        last_naming(list, i, g) ==> with_updates(m, list)->Ok_0.grants[g].state
            == grant_state_of(list[i].state),
        last_moving(list, i, g) ==> shard_of(list[i].shard->Some_0) == Ok::<ShardView, ErrorView>(
            with_updates(m, list)->Ok_0.grants[g].shard,
        ),
        (forall|j: int| 0 <= j < list.len() && (#[trigger] list[j]).id@ == g ==> list[j].shard is None)
            ==> with_updates(m, list)->Ok_0.grants[g].shard == m.grants[g].shard,
        (forall|j: int| 0 <= j < list.len() ==> (#[trigger] list[j]).id@ != g) ==> with_updates(
            m,
            list,
        )->Ok_0.grants[g] == m.grants[g],
    decreases list.len(),
{
    if list.len() > 0 {
        let front = list.drop_last();
        let n = list.len() - 1;
        law_last_update_wins(m, front, g, i);
        let before = with_updates(m, front)->Ok_0;
        assert forall|j: int| 0 <= j < front.len() implies front[j] == #[trigger] list[j] by {}
        if i < n {
            assert(list[n].id@ == g || list[n].id@ != g);
            if last_naming(list, i, g) {
                assert forall|j: int| i < j < front.len() implies (#[trigger] front[j]).id@
                    != g by {
                    assert(list[j].id@ != g);
                }
                assert(last_naming(front, i, g));
            }
            if last_moving(list, i, g) {
                assert forall|j: int|
                    i < j < front.len() && (#[trigger] front[j]).id@ == g implies front[j].shard is None by {
                    assert(list[j].shard is None);
                }
                assert(last_moving(front, i, g));
            }
        }
        if forall|j: int|
            0 <= j < list.len() && (#[trigger] list[j]).id@ == g ==> list[j].shard is None {
            assert forall|j: int|
                0 <= j < front.len() && (#[trigger] front[j]).id@ == g implies front[j].shard is None by {
                assert(list[j].shard is None);
            }
            assert(list[n].id@ == g ==> list[n].shard is None);
        }
        if forall|j: int| 0 <= j < list.len() ==> (#[trigger] list[j]).id@ != g {
            assert forall|j: int| 0 <= j < front.len() implies (#[trigger] front[j]).id@ != g by {
                assert(list[j].id@ != g);
            }
            assert(list[n].id@ != g);
        }
    }
}

/// A list of updates is refused exactly where one of a known grant brings a shard that is
/// no shard.
pub proof fn law_updates_are_refused_for_bad_shards(m: ClusterView, list: Seq<GrantInfo>)
    ensures
        with_updates(m, list) is Err <==> exists|i: int|
            0 <= i < list.len() && m.grants.contains_key((#[trigger] list[i]).id@)
                && list[i].shard is Some && shard_of(list[i].shard->Some_0) is Err,
        with_updates(m, list) is Ok ==> with_updates(m, list)->Ok_0.grants.dom()
            == m.grants.dom(),
    decreases list.len(),
{
    if list.len() > 0 {
        let front = list.drop_last();
        let n = list.len() - 1;
        law_updates_are_refused_for_bad_shards(m, front);
        assert forall|j: int| 0 <= j < front.len() implies front[j] == #[trigger] list[j] by {}
        if with_updates(m, front) is Err {
            let i = choose|i: int|
                0 <= i < front.len() && m.grants.contains_key((#[trigger] front[i]).id@)
                    && front[i].shard is Some && shard_of(front[i].shard->Some_0) is Err;
            assert(m.grants.contains_key(list[i].id@));
        } else {
            let before = with_updates(m, front)->Ok_0;
            assert(before.grants.dom().contains(list[n].id@) <==> m.grants.contains_key(
                list[n].id@,
            ));
            if exists|i: int|
                0 <= i < list.len() && m.grants.contains_key((#[trigger] list[i]).id@)
                    && list[i].shard is Some && shard_of(list[i].shard->Some_0) is Err {
                let i = choose|i: int|
                    0 <= i < list.len() && m.grants.contains_key((#[trigger] list[i]).id@)
                        && list[i].shard is Some && shard_of(list[i].shard->Some_0) is Err;
                if i < n {
                    assert(m.grants.contains_key(front[i].id@));
                }
            }
            if with_updates(m, list) is Err {
                assert(m.grants.contains_key(list[n].id@));
            } else {
                assert(with_updates(m, list)->Ok_0.grants.dom() =~= m.grants.dom());
            }
        }
    }
}

// ---------- Assignments ----------

/// Whether a grant can be taken up: it names a shard that is one.
pub open spec fn has_shard(g: GrantInfo) -> bool {
    g.shard matches Some(raw) && shard_of(raw) is Ok
}

/// The ids of a list of grants, in order.
pub open spec fn ids_of(grants: Seq<GrantInfo>) -> Seq<Seq<char>> {
    grants.map_values(|g: GrantInfo| g.id@)
}

/// What a consumer lists after grants were given to it: what it listed, and their ids in
/// order. Nothing else changes but those grants; and the grants are refused exactly where
/// one of them has no shard or one that is none.
proof fn lemma_with_grants_lists(m: ClusterView, c: u128, grants: Seq<GrantInfo>)
    requires
        m.consumers.contains_key(c),
    ensures
        with_grants(m, c, grants) is Ok <==> forall|i: int|
            0 <= i < grants.len() ==> has_shard(#[trigger] grants[i]),
        with_grants(m, c, grants) matches Ok(after) ==> {
            &&& after.id == m.id
            &&& after.shards == m.shards
            &&& after.consumers.dom() == m.consumers.dom()
            &&& after.consumers[c].consumer == m.consumers[c].consumer
            &&& after.consumers[c].grants == m.consumers[c].grants + ids_of(grants)
            &&& forall|d: u128| d != c && #[trigger] m.consumers.contains_key(d) ==> after.consumers[d]
                == m.consumers[d]
        },
    decreases grants.len(),
{
    if grants.len() == 0 {
        assert(m.consumers[c].grants + ids_of(grants) =~= m.consumers[c].grants);
    } else {
        let front = grants.drop_last();
        let n = grants.len() - 1;
        lemma_with_grants_lists(m, c, front);
        assert forall|j: int| 0 <= j < front.len() implies front[j] == #[trigger] grants[j] by {}
        if with_grants(m, c, front) is Ok {
            let before = with_grants(m, c, front)->Ok_0;
            assert(grants[n] == grants.last());
            if with_grants(m, c, grants) is Ok {
                let after = with_grants(m, c, grants)->Ok_0;
                assert(m.consumers[c].grants + ids_of(grants) =~= (m.consumers[c].grants + ids_of(
                    front,
                )).push(grants.last().id@));
                assert(after.consumers.dom() =~= m.consumers.dom());
                assert forall|i: int| 0 <= i < grants.len() implies has_shard(
                    #[trigger] grants[i],
                ) by {
                    if i < n {
                        assert(has_shard(front[i]));
                    }
                }
            } else {
                assert(!has_shard(grants[n]));
            }
        } else {
            let i = choose|i: int| 0 <= i < front.len() && !has_shard(#[trigger] front[i]);
            assert(!has_shard(grants[i]));
        }
    }
}

proof fn lemma_with_grants_entries(
    m: ClusterView,
    c: u128,
    grants: Seq<GrantInfo>,
    g: Seq<char>,
    i: int,
)
    requires
        m.consumers.contains_key(c),
        with_grants(m, c, grants) is Ok,
    ensures
        ({
            let after = with_grants(m, c, grants)->Ok_0;
            &&& last_naming(grants, i, g) ==> {
                &&& after.grants.contains_key(g)
                &&& after.grants[g].id == g
                &&& after.grants[g].consumer == c
                &&& after.grants[g].state == grant_state_of(grants[i].state)
                &&& shard_of(grants[i].shard->Some_0) == Ok::<ShardView, ErrorView>(
                    after.grants[g].shard,
                )
            }
            &&& (forall|j: int| 0 <= j < grants.len() ==> (#[trigger] grants[j]).id@ != g) ==> {
                &&& after.grants.contains_key(g) == m.grants.contains_key(g)
                &&& m.grants.contains_key(g) ==> after.grants[g] == m.grants[g]
            }
        }),
    decreases grants.len(),
{
    if grants.len() > 0 {
        let front = grants.drop_last();
        let n = grants.len() - 1;
        lemma_with_grants_entries(m, c, front, g, i);
        assert forall|j: int| 0 <= j < front.len() implies front[j] == #[trigger] grants[j] by {}
        assert(grants[n] == grants.last());
        if i < n && last_naming(grants, i, g) {
            assert forall|j: int| i < j < front.len() implies (#[trigger] front[j]).id@ != g by {
                assert(grants[j].id@ != g);
            }
            assert(last_naming(front, i, g));
            assert(grants[n].id@ != g);
        }
        if forall|j: int| 0 <= j < grants.len() ==> (#[trigger] grants[j]).id@ != g {
            assert forall|j: int| 0 <= j < front.len() implies (#[trigger] front[j]).id@ != g by {
                assert(grants[j].id@ != g);
            }
            assert(grants[n].id@ != g);
        }
    }
}

/// A consumer that is given grants is known from then on, as it was known before where it
/// was, and lists their ids behind those that it listed, in order. Other consumers, the
/// shards and the id of the cluster are as they were.
pub proof fn law_assigning_lists_the_grants(
    map: ClusterMap,
    consumer: Instance,
    grants: &Vec<GrantInfo>,
    r: Result<ClusterMap, ClientError>,
)
    requires
        call_ensures(assign_consumer, (map, consumer, grants), r),
    ensures
        r is Ok <==> forall|i: int| 0 <= i < grants@.len() ==> has_shard(#[trigger] grants@[i]),
        r matches Ok(after) ==> {
            let c = consumer.id.0;
            let known = map@.consumers.contains_key(c);
            &&& after@.id == map@.id
            &&& after@.shards == map@.shards
            &&& after@.consumers.contains_key(c)
            &&& known ==> after@.consumers[c].consumer == map@.consumers[c].consumer
            &&& !known ==> after@.consumers[c].consumer == consumer@
            &&& known ==> after@.consumers[c].grants == map@.consumers[c].grants + ids_of(grants@)
            &&& !known ==> after@.consumers[c].grants == ids_of(grants@)
            &&& forall|d: u128| d != c ==> #[trigger] after@.consumers.contains_key(d)
                == map@.consumers.contains_key(d)
            &&& forall|d: u128| d != c && #[trigger] map@.consumers.contains_key(d)
                ==> after@.consumers[d] == map@.consumers[d]
        },
{
    let m = with_consumer(map@, consumer@);
    lemma_with_grants_lists(m, consumer.id.0, grants@);
    assert(Seq::<Seq<char>>::empty() + ids_of(grants@) =~= ids_of(grants@));
    if let Ok(after) = r {
        assert forall|d: u128| d != consumer.id.0 implies #[trigger] after@.consumers.contains_key(d)
            == map@.consumers.contains_key(d) by {
            assert(after@.consumers.dom().contains(d) == m.consumers.dom().contains(d));
        }
        assert(after@.consumers.dom().contains(consumer.id.0));
        assert forall|d: u128| d != consumer.id.0 && #[trigger] map@.consumers.contains_key(
            d,
        ) implies after@.consumers[d] == map@.consumers[d] by {
            assert(m.consumers.contains_key(d));
        }
    }
}

/// Each grant that is given is held by the consumer, in the state and on the shard that
/// the last mention of it carries, whatever was known of it before; and no other grant
/// changes.
pub proof fn law_assigning_sets_the_grants(
    map: ClusterMap,
    consumer: Instance,
    grants: &Vec<GrantInfo>,
    after: ClusterMap,
    g: Seq<char>,
    i: int,
)
    requires
        call_ensures(assign_consumer, (map, consumer, grants), Ok(after)),
    ensures
        last_naming(grants@, i, g) ==> {
            &&& after@.grants.contains_key(g)
            &&& after@.grants[g].id == g
            &&& after@.grants[g].consumer == consumer.id.0
            &&& after@.grants[g].state == grant_state_of(grants@[i].state)
            &&& shard_of(grants@[i].shard->Some_0) == Ok::<ShardView, ErrorView>(
                after@.grants[g].shard,
            )
        },
        (forall|j: int| 0 <= j < grants@.len() ==> (#[trigger] grants@[j]).id@ != g) ==> {
            &&& after@.grants.contains_key(g) == map@.grants.contains_key(g)
            &&& map@.grants.contains_key(g) ==> after@.grants[g] == map@.grants[g]
        },
{
    lemma_with_grants_entries(
        with_consumer(map@, consumer@),
        consumer.id.0,
        grants@,
        g,
        i,
    );
}

proof fn lemma_first_bad_grant(m: ClusterView, c: u128, grants: Seq<GrantInfo>, i: int)
    requires
        m.consumers.contains_key(c),
        0 <= i < grants.len(),
        !has_shard(grants[i]),
        forall|j: int| 0 <= j < i ==> has_shard(#[trigger] grants[j]),
    ensures
        grants[i].shard is None ==> with_grants(m, c, grants) == Err::<ClusterView, ErrorView>(
            ErrorView::InvalidMessage("GrantInfo without shard"@),
        ),
        grants[i].shard matches Some(raw) ==> with_grants(m, c, grants) == Err::<
            ClusterView,
            ErrorView,
        >(shard_of(raw)->Err_0),
    decreases grants.len(),
{
    let front = grants.drop_last();
    assert forall|j: int| 0 <= j < front.len() implies front[j] == #[trigger] grants[j] by {}
    if i < grants.len() - 1 {
        lemma_first_bad_grant(m, c, front, i);
    } else {
        lemma_with_grants_lists(m, c, front);
        assert forall|j: int| 0 <= j < front.len() implies has_shard(#[trigger] front[j]) by {
            assert(has_shard(grants[j]));
        }
    }
}

/// The first grant without a shard, or with one that is none, decides the error.
pub proof fn law_first_bad_grant_decides(
    map: ClusterMap,
    consumer: Instance,
    grants: &Vec<GrantInfo>,
    r: Result<ClusterMap, ClientError>,
    i: int,
    shard: Result<Shard, ClientError>,
)
    requires
        call_ensures(assign_consumer, (map, consumer, grants), r),
        0 <= i < grants@.len(),
        forall|j: int| 0 <= j < i ==> has_shard(#[trigger] grants@[j]),
        !has_shard(grants@[i]),
        grants@[i].shard is Some ==> call_ensures(
            read_shard,
            (&grants@[i].shard->Some_0,),
            shard,
        ),
    ensures
        grants@[i].shard is None ==> refused(r, "GrantInfo without shard"@),
        grants@[i].shard is Some ==> r is Err && shard is Err && r->Err_0@ == shard->Err_0@,
{
    let m = with_consumer(map@, consumer@);
    lemma_first_bad_grant(m, consumer.id.0, grants@, i);
}

/// An assignment gives its grants to its consumer. It is refused without a consumer, and
/// where its consumer is none.
pub proof fn law_assignment_assigns_its_grants(
    map: ClusterMap,
    a: &Assignment,
    r: Result<ClusterMap, ClientError>,
    peer: Result<Instance, ClientError>,
    done: Result<ClusterMap, ClientError>,
)
    requires
        call_ensures(apply_assignment, (map, a), r),
        a.consumer is Some ==> call_ensures(read_peer, (&a.consumer->Some_0,), peer),
        a.consumer is Some && peer is Ok ==> call_ensures(
            assign_consumer,
            (map, peer->Ok_0, &a.grants),
            done,
        ),
    ensures
        a.consumer is None ==> refused(r, "Assignment without consumer"@),
        a.consumer is Some && peer is Err ==> r is Err && r->Err_0@ == peer->Err_0@,
        a.consumer is Some && peer is Ok && done is Ok ==> r is Ok && r->Ok_0@ == done->Ok_0@,
        a.consumer is Some && peer is Ok && done is Err ==> r is Err && r->Err_0@ == done->Err_0@,
{
}

/// Assignments take effect one after the other, and the first that is refused decides.
pub proof fn law_assignments_in_turn(m: ClusterView, a: Seq<Assignment>, b: Seq<Assignment>)
    ensures
        with_assignments(m, Seq::empty()) == Ok::<ClusterView, ErrorView>(m),
        with_assignments(m, a) is Err ==> with_assignments(m, a + b) == with_assignments(m, a),
        with_assignments(m, a) is Ok ==> with_assignments(m, a + b) == with_assignments(
            with_assignments(m, a)->Ok_0,
            b,
        ),
    decreases b.len(),
{
    if b.len() == 0 {
        assert(a + b =~= a);
    } else {
        assert((a + b).drop_last() =~= a + b.drop_last());
        law_assignments_in_turn(m, a, b.drop_last());
    }
}

// ---------- Ending ----------

/// A grant that is dropped is known no more and listed no more by its holder; every other
/// grant, consumer and list is as it was.
pub proof fn law_dropping_takes_one_grant(
    map: &mut ClusterMap,
    gid: &GrantId,
    h: Seq<char>,
    c: u128,
)
    requires
        call_ensures(drop_grant, (map, gid), ()),
    ensures
        ({
            let before = old(map)@;
            let after = final(map)@;
            let g = gid.0@;
            let holds = before.grants.contains_key(g) && before.grants[g].consumer == c;
            &&& after.id == before.id
            &&& after.shards == before.shards
            &&& !after.grants.contains_key(g)
            &&& h != g ==> after.grants.contains_key(h) == before.grants.contains_key(h)
            &&& h != g && before.grants.contains_key(h) ==> after.grants[h] == before.grants[h]
            &&& after.consumers.contains_key(c) == before.consumers.contains_key(c)
            &&& before.consumers.contains_key(c) ==> {
                &&& after.consumers[c].consumer == before.consumers[c].consumer
                &&& !holds ==> after.consumers[c].grants == before.consumers[c].grants
                &&& holds ==> after.consumers[c].grants == before.consumers[c].grants.filter(
                    |x: Seq<char>| x != g,
                )
                &&& holds ==> !after.consumers[c].grants.contains(g)
                &&& h != g ==> after.consumers[c].grants.contains(h)
                    == before.consumers[c].grants.contains(h)
            }
        }),
{
    let before = old(map)@;
    let g = gid.0@;
    lemma_lists_without(before, set![g], c, h);
    lemma_lists_without(before, set![g], c, g);
    if before.consumers.contains_key(c) {
        let ids = before.consumers[c].grants;
        let p = |x: Seq<char>| !goes_from(before, set![g], c, x);
        if before.grants.contains_key(g) && before.grants[g].consumer == c {
            lemma_filter_same(ids, p, |x: Seq<char>| x != g);
        } else {
            lemma_filter_all(ids, p);
        }
    }
}

/// What a consumer lists after grants ended.
proof fn lemma_lists_without(m: ClusterView, gone: Set<Seq<char>>, c: u128, h: Seq<char>)
    ensures
        m.consumers.contains_key(c) ==> without_grants(m, gone).consumers[c].grants.contains(h)
            == (m.consumers[c].grants.contains(h) && !(gone.contains(h) && m.grants.contains_key(h)
            && m.grants[h].consumer == c)),
{
    if m.consumers.contains_key(c) {
        lemma_filter_holds(
            m.consumers[c].grants,
            |gid: Seq<char>| !goes_from(m, gone, c, gid),
            h,
        );
    }
}

/// A consumer that is removed is known no more, nor is any grant that it listed; every
/// other consumer, with its list, and every other grant is as it was.
pub proof fn law_removing_takes_one_consumer(
    map: &mut ClusterMap,
    cid: &InstanceId,
    d: u128,
    g: Seq<char>,
)
    requires
        call_ensures(remove_consumer, (map, cid), ()),
    ensures
        ({
            let before = old(map)@;
            let after = final(map)@;
            let c = cid.0;
            let listed = before.consumers.contains_key(c) && before.consumers[c].grants.contains(
                g,
            );
            &&& after.id == before.id
            &&& after.shards == before.shards
            &&& !after.consumers.contains_key(c)
            &&& d != c ==> after.consumers.contains_key(d) == before.consumers.contains_key(d)
            &&& d != c && before.consumers.contains_key(d) ==> after.consumers[d]
                == before.consumers[d]
            &&& listed ==> !after.grants.contains_key(g)
            &&& !listed ==> after.grants.contains_key(g) == before.grants.contains_key(g)
            &&& !listed && before.grants.contains_key(g) ==> after.grants[g] == before.grants[g]
        }),
{
}

/// New shards are set as they are. A grant stays exactly where its shard is one of them,
/// and is then as it was; every consumer stays, and lists what it did but for the grants
/// that it held and lost.
pub proof fn law_new_shards_keep_their_grants(
    map: &mut ClusterMap,
    shards: Vec<Shard>,
    g: Seq<char>,
    c: u128,
)
    requires
        call_ensures(set_shards, (map, shards), ()),
    ensures
        ({
            let before = old(map)@;
            let after = final(map)@;
            let list = shard_views(shards@);
            let known = before.grants.contains_key(g);
            let stays = known && list.contains(before.grants[g].shard);
            &&& after.id == before.id
            &&& after.shards == list
            &&& after.grants.contains_key(g) <==> stays
            &&& stays ==> after.grants[g] == before.grants[g]
            &&& after.consumers.contains_key(c) == before.consumers.contains_key(c)
            &&& before.consumers.contains_key(c) ==> {
                &&& after.consumers[c].consumer == before.consumers[c].consumer
                &&& after.consumers[c].grants.contains(g) == (before.consumers[c].grants.contains(
                    g,
                ) && !(known && !stays && before.grants[g].consumer == c))
            }
        }),
{
    let before = old(map)@;
    let list = shard_views(shards@);
    lemma_lists_without(
        ClusterView { shards: list, ..before },
        off_shards(before, list),
        c,
        g,
    );
}

/// Consumers leave one after the other; a text that is no id removes nobody.
pub proof fn law_consumers_leave_in_turn(
    m: ClusterView,
    a: Seq<Seq<char>>,
    b: Seq<Seq<char>>,
    text: Seq<char>,
)
    ensures
        without_consumers(m, Seq::empty()) == m,
        without_consumers(m, a + b) == without_consumers(without_consumers(m, a), b),
        parsed_uuid(text) is Err ==> without_consumers(m, seq![text]) == m,
        parsed_uuid(text) matches Ok(c) ==> !without_consumers(
            m,
            seq![text],
        ).consumers.contains_key(c),
        parsed_uuid(text) matches Ok(c) ==> without_consumers(m, seq![text]) == without_consumer(
            m,
            c,
        ),
    decreases b.len(),
{
    assert(seq![text].drop_last() =~= Seq::empty());
    assert(without_consumers(m, Seq::empty()) == m);
    if b.len() == 0 {
        assert(a + b =~= a);
    } else {
        assert((a + b).drop_last() =~= a + b.drop_last());
        law_consumers_leave_in_turn(m, a, b.drop_last(), text);
    }
}

// ---------- Shards ----------

/// A list of shards is read item by item; the first that is no shard decides the error.
pub proof fn law_shards_are_read_one_by_one(
    raw: &Vec<pb::Shard>,
    r: Result<Vec<Shard>, ClientError>,
    i: int,
    shard: Result<Shard, ClientError>,
)
    requires
        call_ensures(decode_shards, (raw,), r),
        0 <= i < raw@.len(),
        call_ensures(read_shard, (&raw@[i],), shard),
    ensures
        r matches Ok(list) ==> list@.len() == raw@.len() && shard is Ok && list@[i]@
            == shard->Ok_0@,
        shard is Err && (forall|j: int| 0 <= j < i ==> shard_of(#[trigger] raw@[j]) is Ok) ==> r is Err
            && r->Err_0@ == shard->Err_0@,
        r is Err ==> exists|j: int| 0 <= j < raw@.len() && shard_of(#[trigger] raw@[j]) is Err,
{
    lemma_shards_one_by_one(raw@, i);
    if let Ok(list) = r {
        assert(shard_views(list@)[i] == list@[i]@);
    }
}

proof fn lemma_shards_one_by_one(raw: Seq<pb::Shard>, i: int)
    requires
        0 <= i < raw.len(),
    ensures
        shards_of(raw) matches Ok(list) ==> list.len() == raw.len() && shard_of(raw[i]) == Ok::<
            ShardView,
            ErrorView,
        >(list[i]),
        shard_of(raw[i]) is Err && (forall|j: int| 0 <= j < i ==> shard_of(#[trigger] raw[j]) is Ok)
            ==> shards_of(raw) == Err::<Seq<ShardView>, ErrorView>(shard_of(raw[i])->Err_0),
        shards_of(raw) is Err ==> exists|j: int|
            0 <= j < raw.len() && shard_of(#[trigger] raw[j]) is Err,
    decreases raw.len(),
{
    let front = raw.drop_last();
    let n = raw.len() - 1;
    assert forall|j: int| 0 <= j < front.len() implies front[j] == #[trigger] raw[j] by {}
    assert(raw[n] == raw.last());
    if i < n {
        lemma_shards_one_by_one(front, i);
    } else if n > 0 {
        lemma_shards_one_by_one(front, 0);
    }
    if shards_of(raw) is Err {
        if shards_of(front) is Err {
            let j = choose|j: int| 0 <= j < front.len() && shard_of(#[trigger] front[j]) is Err;
            assert(shard_of(raw[j]) is Err);
        } else {
            assert(shard_of(raw[n]) is Err);
        }
    }
    if i == n && shard_of(raw[i]) is Err && (forall|j: int|
        0 <= j < i ==> shard_of(#[trigger] raw[j]) is Ok) {
        if shards_of(front) is Err {
            let j = choose|j: int| 0 <= j < front.len() && shard_of(#[trigger] front[j]) is Err;
            assert(shard_of(raw[j]) is Ok);
        }
    }
}

// ---------- Whole changes ----------

/// A change that says nothing but what one of its parts says.
pub open spec fn only_shards(c: Change) -> Change {
    Change { assign: None, update: None, unassign: None, remove: None, ..c }
}

/// The assignments of a change by themselves.
pub open spec fn only_assign(c: Change) -> Change {
    Change { shards: None, update: None, unassign: None, remove: None, ..c }
}

/// The updates of a change by themselves.
pub open spec fn only_update(c: Change) -> Change {
    Change { shards: None, assign: None, unassign: None, remove: None, ..c }
}

/// The ended grants of a change by themselves.
pub open spec fn only_unassign(c: Change) -> Change {
    Change { shards: None, assign: None, update: None, remove: None, ..c }
}

/// The removed consumers of a change by themselves.
pub open spec fn only_remove(c: Change) -> Change {
    Change { shards: None, assign: None, update: None, unassign: None, ..c }
}

/// A change is the same as five changes with one part each, in this order: shards,
/// assignments, updates, ended grants, removed consumers. The first that is refused
/// decides.
pub proof fn law_change_is_its_parts_in_order(
    m: &ClusterMap,
    c: &Change,
    version: i64,
    timestamp: SystemTime,
    r: Result<ClusterMap, ClientError>,
    r1: Result<ClusterMap, ClientError>,
    r2: Result<ClusterMap, ClientError>,
    r3: Result<ClusterMap, ClientError>,
    r4: Result<ClusterMap, ClientError>,
    r5: Result<ClusterMap, ClientError>,
)
    requires
        call_ensures(ClusterMap::apply_change, (m, c, version, timestamp), r),
        call_ensures(ClusterMap::apply_change, (m, &only_shards(*c), version, timestamp), r1),
        r1 is Ok ==> call_ensures(
            ClusterMap::apply_change,
            (&r1->Ok_0, &only_assign(*c), version, timestamp),
            r2,
        ),
        r1 is Ok && r2 is Ok ==> call_ensures(
            ClusterMap::apply_change,
            (&r2->Ok_0, &only_update(*c), version, timestamp),
            r3,
        ),
        r1 is Ok && r2 is Ok && r3 is Ok ==> call_ensures(
            ClusterMap::apply_change,
            (&r3->Ok_0, &only_unassign(*c), version, timestamp),
            r4,
        ),
        r1 is Ok && r2 is Ok && r3 is Ok && r4 is Ok ==> call_ensures(
            ClusterMap::apply_change,
            (&r4->Ok_0, &only_remove(*c), version, timestamp),
            r5,
        ),
    ensures
        r1 is Err ==> r is Err && r->Err_0@ == r1->Err_0@,
        r1 is Ok && r2 is Err ==> r is Err && r->Err_0@ == r2->Err_0@,
        r1 is Ok && r2 is Ok && r3 is Err ==> r is Err && r->Err_0@ == r3->Err_0@,
        r1 is Ok && r2 is Ok && r3 is Ok ==> r is Ok && r4 is Ok && r5 is Ok && r->Ok_0@
            == r5->Ok_0@,
{
    let t = timestamp@;
    if r1 is Ok {
        let m1 = r1->Ok_0@;
        lemma_id_settles(m@, only_shards(*c), version, t);
        if r2 is Ok {
            let m2 = r2->Ok_0@;
            lemma_id_settles(m1, only_assign(*c), version, t);
            if r3 is Ok {
                lemma_id_settles(m2, only_update(*c), version, t);
                lemma_id_settles(r3->Ok_0@, only_unassign(*c), version, t);
            }
        }
    }
}

/// Once a change is applied, applying the same version and time again changes the id no
/// further.
proof fn lemma_id_settles(m: ClusterView, c: Change, version: i64, timestamp: int)
    requires
        changed(m, c, version, timestamp) is Ok,
    ensures
        ({
            let next = changed(m, c, version, timestamp)->Ok_0;
            next == (ClusterView {
                id: ClusterIdView {
                    version,
                    origin: next.id.origin,
                    timestamp,
                },
                ..next
            })
        }),
{
    law_change_keeps_the_origin(m, c, version, timestamp);
}

/// A change brings its own version and time, keeps the origin, and sets the shards only
/// where it lists some.
pub proof fn law_change_sets_version_and_time(
    m: &ClusterMap,
    c: &Change,
    version: i64,
    timestamp: SystemTime,
    next: ClusterMap,
    list: Result<Vec<Shard>, ClientError>,
)
    requires
        call_ensures(ClusterMap::apply_change, (m, c, version, timestamp), Ok(next)),
        c.shards is Some ==> call_ensures(decode_shards, (&c.shards->Some_0.shards,), list),
    ensures
        next@.id.version == version,
        next@.id.timestamp == timestamp@,
        next@.id.origin == m@.id.origin,
        c.shards is None ==> next@.shards == m@.shards,
        c.shards is Some ==> list is Ok && next@.shards == shard_views(list->Ok_0@),
{
    law_change_keeps_the_origin(m@, *c, version, timestamp@);
    law_change_keeps_the_shards(m@, *c, version, timestamp@);
}

/// A change that only lists shards does what setting the shards does.
pub proof fn law_change_of_shards_sets_them(
    m: &ClusterMap,
    c: &Change,
    version: i64,
    timestamp: SystemTime,
    r: Result<ClusterMap, ClientError>,
    list: Result<Vec<Shard>, ClientError>,
    map: &mut ClusterMap,
)
    requires
        c.shards is Some,
        *c == only_shards(*c),
        call_ensures(ClusterMap::apply_change, (m, c, version, timestamp), r),
        call_ensures(decode_shards, (&c.shards->Some_0.shards,), list),
        map@ == m@,
        list is Ok ==> call_ensures(set_shards, (map, list->Ok_0), ()),
    ensures
        list is Err ==> r is Err && r->Err_0@ == list->Err_0@,
        list is Ok ==> {
            &&& r is Ok
            &&& r->Ok_0@.grants == final(map)@.grants
            &&& r->Ok_0@.consumers == final(map)@.consumers
            &&& r->Ok_0@.shards == final(map)@.shards
        },
{
    if list is Ok {
        let shards = shard_views(list->Ok_0@);
        let id = ClusterIdView {
            version,
            origin: m@.id.origin,
            timestamp: timestamp@,
        };
        lemma_shards_do_not_look_at_the_id(m@, id, shards);
    }
}

/// A change of one assignment does what the assignment does, and one of one update what
/// the update does.
pub proof fn law_change_of_one_does_what_it_does(
    m: ClusterMap,
    c: &Change,
    version: i64,
    timestamp: SystemTime,
    r: Result<ClusterMap, ClientError>,
    done: Result<ClusterMap, ClientError>,
)
    requires
        call_ensures(ClusterMap::apply_change, (&m, c, version, timestamp), r),
        m@.id.version == version,
        m@.id.timestamp == timestamp@,
    ensures
        *c == only_assign(*c) && (c.assign matches Some(list) && list.assignments@.len() == 1
            && call_ensures(apply_assignment, (m, &list.assignments@[0]), done)) ==> {
            &&& r is Ok <==> done is Ok
            &&& r is Ok ==> r->Ok_0@ == done->Ok_0@
            &&& r is Err ==> r->Err_0@ == done->Err_0@
        },
        *c == only_update(*c) && (c.update matches Some(list) && list.grants@.len() == 1
            && call_ensures(update_grant, (m, &list.grants@[0]), done)) ==> {
            &&& r is Ok <==> done is Ok
            &&& r is Ok ==> r->Ok_0@ == done->Ok_0@
            &&& r is Err ==> r->Err_0@ == done->Err_0@
        },
{
    assert(m@ == (ClusterView {
        id: ClusterIdView {
            version,
            origin: m@.id.origin,
            timestamp: timestamp@,
        },
        ..m@
    }));
    if let Some(list) = c.assign {
        if list.assignments@.len() == 1 {
            assert(list.assignments@.drop_last() =~= Seq::empty());
            assert(with_assignments(m@, list.assignments@.drop_last()) == Ok::<
                ClusterView,
                ErrorView,
            >(m@));
        }
    }
    if let Some(list) = c.update {
        if list.grants@.len() == 1 {
            assert(list.grants@.drop_last() =~= Seq::empty());
            assert(with_updates(m@, list.grants@.drop_last()) == Ok::<ClusterView, ErrorView>(m@));
        }
    }
}

/// A change of updates leaves each known grant as the last update of it says.
pub proof fn law_change_of_updates(
    m: &ClusterMap,
    c: &Change,
    version: i64,
    timestamp: SystemTime,
    next: ClusterMap,
    g: Seq<char>,
    i: int,
    state: GrantState,
)
    requires
        *c == only_update(*c),
        c.update is Some,
        call_ensures(ClusterMap::apply_change, (m, c, version, timestamp), Ok(next)),
        m@.grants.contains_key(g),
        last_naming(c.update->Some_0.grants@, i, g),
        call_ensures(grant_state_from_i32, (c.update->Some_0.grants@[i].state,), state),
    ensures
        next@.grants.contains_key(g),
        next@.grants[g].state == state,
        next@.grants[g].consumer == m@.grants[g].consumer,
        next@.consumers == m@.consumers,
{
    let start = ClusterView {
        id: ClusterIdView {
            version,
            origin: m@.id.origin,
            timestamp: timestamp@,
        },
        ..m@
    };
    law_last_update_wins(start, c.update->Some_0.grants@, g, i);
    law_updates_keep_holders(start, c.update->Some_0.grants@);
}

/// A change of ended grants ends exactly those that it names: they are known no more and
/// listed no more by their holders. All else is as it was.
pub proof fn law_change_of_ended_grants(
    m: &ClusterMap,
    c: &Change,
    version: i64,
    timestamp: SystemTime,
    r: Result<ClusterMap, ClientError>,
    g: Seq<char>,
    d: u128,
)
    requires
        *c == only_unassign(*c),
        c.unassign is Some,
        call_ensures(ClusterMap::apply_change, (m, c, version, timestamp), r),
    ensures
        r is Ok,
        ({
            let next = r->Ok_0@;
            let known = m@.grants.contains_key(g);
            let named = exists|i: int|
                0 <= i < c.unassign->Some_0.grants@.len()
                    && #[trigger] c.unassign->Some_0.grants@[i]@ == g;
            &&& next.shards == m@.shards
            &&& next.grants.contains_key(g) <==> known && !named
            &&& known && !named ==> next.grants[g] == m@.grants[g]
            &&& next.consumers.contains_key(d) == m@.consumers.contains_key(d)
            &&& m@.consumers.contains_key(d) ==> {
                &&& next.consumers[d].consumer == m@.consumers[d].consumer
                &&& next.consumers[d].grants.contains(g) == (m@.consumers[d].grants.contains(g)
                    && !(named && known && m@.grants[g].consumer == d))
            }
        }),
{
    let start = ClusterView {
        id: ClusterIdView {
            version,
            origin: m@.id.origin,
            timestamp: timestamp@,
        },
        ..m@
    };
    let list = c.unassign->Some_0.grants@;
    let gone = texts(list).to_set();
    lemma_lists_without(start, gone, d, g);
    if gone.contains(g) {
        let i = choose|i: int| 0 <= i < texts(list).len() && texts(list)[i] == g;
        assert(list[i]@ == g);
    }
    if exists|i: int| 0 <= i < list.len() && #[trigger] list[i]@ == g {
        let i = choose|i: int| 0 <= i < list.len() && #[trigger] list[i]@ == g;
        assert(texts(list)[i] == g);
    }
}

/// A change of removed consumers is never refused, and removes each that it names by its
/// id, as removing it by itself does.
pub proof fn law_change_of_removed_consumers(
    m: &ClusterMap,
    c: &Change,
    version: i64,
    timestamp: SystemTime,
    r: Result<ClusterMap, ClientError>,
    map: &mut ClusterMap,
    cid: &InstanceId,
)
    requires
        *c == only_remove(*c),
        c.remove is Some,
        call_ensures(ClusterMap::apply_change, (m, c, version, timestamp), r),
        map@ == m@,
        call_ensures(remove_consumer, (map, cid), ()),
        m@.id.version == version,
        m@.id.timestamp == timestamp@,
    ensures
        r is Ok,
        c.remove->Some_0.consumers@.len() == 0 ==> r->Ok_0@ == m@,
        c.remove->Some_0.consumers@.len() == 1 && parsed_uuid(
            c.remove->Some_0.consumers@[0]@,
        ) is Err ==> r->Ok_0@ == m@,
        c.remove->Some_0.consumers@.len() == 1 && parsed_uuid(c.remove->Some_0.consumers@[0]@)
            == Ok::<u128, Seq<char>>(cid.0) ==> r->Ok_0@ == final(map)@,
{
    let list = texts(c.remove->Some_0.consumers@);
    assert(m@ == (ClusterView {
        id: ClusterIdView {
            version,
            origin: m@.id.origin,
            timestamp: timestamp@,
        },
        ..m@
    }));
    if list.len() == 0 {
        assert(list =~= Seq::empty());
    }
    if list.len() == 1 {
        assert(list =~= seq![c.remove->Some_0.consumers@[0]@]);
        law_consumers_leave_in_turn(
            m@,
            Seq::empty(),
            Seq::empty(),
            c.remove->Some_0.consumers@[0]@,
        );
    }
}

// ---------- Snapshots and messages ----------

/// A snapshot shows its own version, time, origin and shards, and what its assignments
/// make of an empty cluster, whatever is known otherwise; it is refused where its shards,
/// then its origin, then its assignments are.
pub proof fn law_snapshot_is_a_change_of_nothing(
    snap: &Snapshot,
    version: i64,
    timestamp: SystemTime,
    r: Result<ClusterMap, ClientError>,
    empty: ClusterMap,
    c: &Change,
    grown: Result<ClusterMap, ClientError>,
    origin: Result<Instance, ClientError>,
    list: Result<Vec<Shard>, ClientError>,
)
    requires
        call_ensures(apply_snapshot, (snap, version, timestamp), r),
        call_ensures(ClusterMap::empty, (), empty),
        c.shards is None,
        c.assign matches Some(a) && a.assignments@ == snap.assignments@,
        c.update is None,
        c.unassign is None,
        c.remove is None,
        call_ensures(ClusterMap::apply_change, (&empty, c, version, timestamp), grown),
        snap.origin is Some ==> call_ensures(read_instance, (&snap.origin->Some_0,), origin),
        call_ensures(decode_shards, (&snap.shards,), list),
    ensures
        list is Err ==> r is Err && r->Err_0@ == list->Err_0@,
        list is Ok && snap.origin is Some && origin is Err ==> r is Err && r->Err_0@
            == origin->Err_0@,
        list is Ok && (snap.origin is None || origin is Ok) && grown is Err ==> r is Err
            && r->Err_0@ == grown->Err_0@,
        list is Ok && (snap.origin is None || origin is Ok) && grown is Ok ==> {
            &&& r is Ok
            &&& r->Ok_0@.id.version == version
            &&& r->Ok_0@.id.timestamp == timestamp@
            &&& snap.origin is None ==> r->Ok_0@.id.origin is None
            &&& snap.origin is Some ==> r->Ok_0@.id.origin == Some(origin->Ok_0@)
            &&& r->Ok_0@.shards == shard_views(list->Ok_0@)
            &&& r->Ok_0@.consumers == grown->Ok_0@.consumers
            &&& r->Ok_0@.grants == grown->Ok_0@.grants
        },
{
    if list is Ok && (snap.origin is None || origin is Ok) {
        let start = ClusterView {
            id: ClusterIdView { version, origin: None, timestamp: timestamp@ },
            consumers: Map::empty(),
            grants: Map::empty(),
            shards: Seq::empty(),
        };
        let id = ClusterIdView {
            version,
            origin: if snap.origin is Some {
                Some(origin->Ok_0@)
            } else {
                None
            },
            timestamp: timestamp@,
        };
        lemma_assignments_do_not_look_at_the_rest(
            start,
            id,
            shard_views(list->Ok_0@),
            snap.assignments@,
        );
        let full = ClusterView { id, shards: shard_views(list->Ok_0@), ..start };
        lemma_with_assignments_keeps_rest(full, snap.assignments@);
    }
}

/// What assignments make of consumers and grants does not depend on the id and the shards
/// of the cluster.
proof fn lemma_assignments_do_not_look_at_the_rest(
    m: ClusterView,
    id: ClusterIdView,
    shards: Seq<ShardView>,
    list: Seq<Assignment>,
)
    ensures
        ({
            let a = with_assignments(m, list);
            let b = with_assignments(ClusterView { id, shards, ..m }, list);
            &&& a is Err ==> b == a
            &&& a is Ok ==> b == Ok::<ClusterView, ErrorView>(
                ClusterView { id, shards, ..a->Ok_0 },
            )
        }),
    decreases list.len(),
{
    if list.len() > 0 {
        lemma_assignments_do_not_look_at_the_rest(m, id, shards, list.drop_last());
        if with_assignments(m, list.drop_last()) is Ok {
            let before = with_assignments(m, list.drop_last())->Ok_0;
            let a = list.last();
            if a.consumer is Some && peer_of(a.consumer->Some_0) is Ok {
                let consumer = peer_of(a.consumer->Some_0)->Ok_0;
                let other = ClusterView { id, shards, ..before };
                assert(with_consumer(other, consumer) == (ClusterView {
                    id,
                    shards,
                    ..with_consumer(before, consumer)
                }));
                lemma_grants_do_not_look_at_the_rest(
                    with_consumer(before, consumer),
                    id,
                    shards,
                    consumer.id,
                    a.grants@,
                );
            }
        }
    }
}

proof fn lemma_grants_do_not_look_at_the_rest(
    m: ClusterView,
    id: ClusterIdView,
    shards: Seq<ShardView>,
    c: u128,
    grants: Seq<GrantInfo>,
)
    ensures
        ({
            let a = with_grants(m, c, grants);
            let b = with_grants(ClusterView { id, shards, ..m }, c, grants);
            &&& a is Err ==> b == a
            &&& a is Ok ==> b == Ok::<ClusterView, ErrorView>(
                ClusterView { id, shards, ..a->Ok_0 },
            )
        }),
    decreases grants.len(),
{
    if grants.len() > 0 {
        lemma_grants_do_not_look_at_the_rest(m, id, shards, c, grants.drop_last());
    }
}

/// A message does what its snapshot or its change does, with the version and the time of
/// the message; without a time it counts as from the epoch, and without either it is
/// refused.
pub proof fn law_message_does_what_it_carries(
    m: &ClusterMap,
    msg: ClusterMessage,
    r: Result<ClusterMap, ClientError>,
    t: SystemTime,
    by_snapshot: Result<ClusterMap, ClientError>,
    by_change: Result<ClusterMap, ClientError>,
)
    requires
        call_ensures(ClusterMap::apply, (m, msg), r),
        msg.timestamp is Some ==> call_ensures(
            timestamp_to_system_time,
            (&msg.timestamp->Some_0,),
            t,
        ),
        msg.timestamp is None ==> t@ == 0,
        msg.msg matches Some(ClusterMsg::Snapshot(snap)) ==> call_ensures(
            apply_snapshot,
            (&snap, msg.version, t),
            by_snapshot,
        ),
        msg.msg matches Some(ClusterMsg::Change(change)) ==> call_ensures(
            ClusterMap::apply_change,
            (m, &change, msg.version, t),
            by_change,
        ),
    ensures
        msg.msg is None ==> refused(r, "ClusterMessage without a variant"@),
        (msg.msg matches Some(ClusterMsg::Snapshot(_))) ==> {
            &&& r is Ok <==> by_snapshot is Ok
            &&& r is Ok ==> r->Ok_0@ == by_snapshot->Ok_0@
            &&& r is Err ==> r->Err_0@ == by_snapshot->Err_0@
        },
        (msg.msg matches Some(ClusterMsg::Change(_))) ==> {
            &&& r is Ok <==> by_change is Ok
            &&& r is Ok ==> r->Ok_0@ == by_change->Ok_0@
            &&& r is Err ==> r->Err_0@ == by_change->Err_0@
        },
{
}

/// The cluster before anything was heard of it knows nothing.
pub proof fn law_empty_cluster_knows_nothing(empty: ClusterMap, c: u128, g: Seq<char>)
    requires
        call_ensures(ClusterMap::empty, (), empty),
    ensures
        empty@.id.version == 0,
        empty@.id.origin is None,
        empty@.id.timestamp == 0,
        !empty@.consumers.contains_key(c),
        !empty@.grants.contains_key(g),
        empty@.shards.len() == 0,
{
}

} // verus!
