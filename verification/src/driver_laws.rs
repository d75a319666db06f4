//! What each thing that a consumer hears does to each of its grants.

use vstd::prelude::*;

use crate::cluster::{id_texts, ClusterMap};
use crate::consumer::{
    build_register, effect_views, revoke_frame, shutdown_result, update_frame, ConsumerOptions,
    Driver, Effect, Flow, Heard, TaskEnd,
};
use crate::consumer_laws::law_stopping_lets_every_grant_go;
use crate::consumer_model::{
    outbound_of, shard_of_grant, ActiveGrantView, DriverView, EffectView, GrantEventView,
    OutboundView, Signal,
};
use crate::consumer_pb::{ClientMessage, ClientMsg, ConsumerMsg, JoinMessage, JoinMsg};
use crate::error::ClientError;
use crate::ids::{DomainKeyName, GrantId, GrantState, Instance, QualifiedServiceName, Shard};
use crate::ownership::{OwnershipState, OwnershipView, TimerStep};
use crate::pb;
use crate::pb::Grant;
use crate::session::{classify, heartbeat_delay, SessionEvent};
use crate::time::{Duration, SystemTime};
use crate::uuids::hyphenated;
use crate::wrap::{grant_state_from_i32, read_shard, service_of, timestamp_to_system_time};

verus! {

// ---------- Frames of reference ----------

/// Whether two states of a driver agree but for its grants and what it has to say.
pub open spec fn same_else(a: DriverView, b: DriverView) -> bool {
    &&& a.cluster == b.cluster
    &&& a.cluster_news == b.cluster_news
    &&& a.closed == b.closed
}

/// Whether two states of a driver agree on every grant but one.
pub open spec fn same_but(a: DriverView, b: DriverView, id: Seq<char>) -> bool {
    &&& forall|h: Seq<char>| h != id ==> #[trigger] a.grants.contains_key(h)
        == b.grants.contains_key(h)
    &&& forall|h: Seq<char>| h != id && #[trigger] a.grants.contains_key(h) ==> a.grants[h]
        == b.grants[h]
}

/// Whether only the ownership of an entry differs.
pub open spec fn same_grant(a: ActiveGrantView, b: ActiveGrantView) -> bool {
    &&& a.assigned == b.assigned
    &&& a.pb_grant == b.pb_grant
    &&& a.revoked == b.revoked
}

/// Whether two ownerships agree on the latches that the user closes.
pub open spec fn same_user_side(a: OwnershipView, b: OwnershipView) -> bool {
    &&& a.loader.load == b.loader.load
    &&& a.unloader.unload == b.unloader.unload
    &&& a.revoke_requested == b.revoke_requested
}

// ---------- Notify ----------

/// News that the counterpart of a known grant has loaded, or has unloaded, count for that
/// grant, whatever else is known of it; news of any other kind count for nothing. No
/// other grant is touched, and nothing is said.
pub proof fn law_news_of_the_counterpart_count(
    d: &mut Driver,
    msg: ClientMessage,
    now: SystemTime,
    target: Grant,
    update: Grant,
    state: GrantState,
)
    requires
        call_ensures(Driver::handle_client_message, (d, msg, now), ()),
        msg.msg matches Some(ClientMsg::Notify(n)) && n.target == Some(target) && n.update
            == Some(update),
        call_ensures(grant_state_from_i32, (update.state,), state),
        d@.grants.contains_key(target.id@),
    ensures
        ({
            let id = target.id@;
            let before = old(d)@.grants[id];
            let after = final(d)@.grants[id];
            &&& final(d)@.grants.contains_key(id)
            &&& same_grant(before, after)
            &&& after.ownership.unloader.loaded <==> before.ownership.unloader.loaded || state is AllocatedLoaded
            &&& after.ownership.loader.unloaded <==> before.ownership.loader.unloaded || state is RevokedUnloaded
            &&& after.ownership.active == before.ownership.active
            &&& after.ownership.revoked == before.ownership.revoked
            &&& after.ownership.expired == before.ownership.expired
            &&& after.ownership.expiration == before.ownership.expiration
            &&& same_user_side(before.ownership, after.ownership)
            &&& same_but(old(d)@, final(d)@, id)
            &&& same_else(old(d)@, final(d)@)
            &&& final(d)@.outbox == old(d)@.outbox
        }),
{
}

/// News without a target or an update, or of a grant that is not known, change nothing.
pub proof fn law_idle_news_change_nothing(d: &mut Driver, msg: ClientMessage, now: SystemTime)
    requires
        call_ensures(Driver::handle_client_message, (d, msg, now), ()),
        msg.msg matches Some(ClientMsg::Notify(n)) && (n.target is None || n.update is None
            || !d@.grants.contains_key(n.target->Some_0.id@)),
    ensures
        final(d)@ == old(d)@,
{
}

// ---------- Promote ----------

/// A known grant that is promoted is active, whatever it was, and noted as it was sent;
/// nothing else of it changes, no other grant is touched, and nothing is said.
pub proof fn law_promotion_activates(
    d: &mut Driver,
    msg: ClientMessage,
    now: SystemTime,
    g: Grant,
)
    requires
        call_ensures(Driver::handle_client_message, (d, msg, now), ()),
        msg.msg matches Some(ClientMsg::Promote(p)) && p.grants@ == seq![g],
    ensures
        !old(d)@.grants.contains_key(g.id@) ==> final(d)@ == old(d)@,
        old(d)@.grants.contains_key(g.id@) ==> {
            let id = g.id@;
            let before = old(d)@.grants[id];
            let after = final(d)@.grants[id];
            &&& final(d)@.grants.contains_key(id)
            &&& after.assigned == before.assigned
            &&& after.pb_grant == g
            &&& after.revoked == before.revoked
            &&& after.ownership.active
            &&& after.ownership.revoked == before.ownership.revoked
            &&& after.ownership.expired == before.ownership.expired
            &&& after.ownership.expiration == before.ownership.expiration
            &&& after.ownership.unloader.loaded == before.ownership.unloader.loaded
            &&& after.ownership.loader.unloaded == before.ownership.loader.unloaded
            &&& same_user_side(before.ownership, after.ownership)
            &&& same_but(old(d)@, final(d)@, id)
            &&& same_else(old(d)@, final(d)@)
            &&& final(d)@.outbox == old(d)@.outbox
        },
{
    assert(seq![g].drop_last() =~= Seq::empty());
    assert(old(d)@.promoted_all(Seq::empty()) == old(d)@);
}

/// Grants are assigned, promoted and revoked one after the other.
pub proof fn law_grants_are_taken_in_turn(
    d: DriverView,
    a: Seq<Grant>,
    b: Seq<Grant>,
    now: int,
)
    ensures
        d.promoted_all(Seq::empty()) == d,
        d.revoked_all(Seq::empty()) == d,
        d.assigned_all(Seq::empty(), now) == d,
        d.promoted_all(a + b) == d.promoted_all(a).promoted_all(b),
        d.revoked_all(a + b) == d.revoked_all(a).revoked_all(b),
        d.assigned_all(a + b, now) == d.assigned_all(a, now).assigned_all(b, now),
    decreases b.len(),
{
    if b.len() == 0 {
        assert(a + b =~= a);
    } else {
        assert((a + b).drop_last() =~= a + b.drop_last());
        law_grants_are_taken_in_turn(d, a, b.drop_last(), now);
    }
}

/// What a message of several grants does is what its grants do, first to last: of the
/// message with the first ones and the message with the rest.
pub proof fn law_messages_of_grants_in_turn(
    d: &mut Driver,
    whole: ClientMessage,
    e: &mut Driver,
    first: ClientMessage,
    f: &mut Driver,
    rest: ClientMessage,
    now: SystemTime,
)
    requires
        call_ensures(Driver::handle_client_message, (d, whole, now), ()),
        call_ensures(Driver::handle_client_message, (e, first, now), ()),
        call_ensures(Driver::handle_client_message, (f, rest, now), ()),
        e@ == d@,
        f@ == final(e)@,
        match (whole.msg, first.msg, rest.msg) {
            (
                Some(ClientMsg::Assign(w)),
                Some(ClientMsg::Assign(x)),
                Some(ClientMsg::Assign(y)),
            ) => w.grants@ == x.grants@ + y.grants@,
            (
                Some(ClientMsg::Promote(w)),
                Some(ClientMsg::Promote(x)),
                Some(ClientMsg::Promote(y)),
            ) => w.grants@ == x.grants@ + y.grants@,
            (
                Some(ClientMsg::Revoke(w)),
                Some(ClientMsg::Revoke(x)),
                Some(ClientMsg::Revoke(y)),
            ) => w.grants@ == x.grants@ + y.grants@,
            _ => false,
        },
    ensures
        final(d)@ == final(f)@,
{
    match (first.msg, rest.msg) {
        (Some(ClientMsg::Assign(x)), Some(ClientMsg::Assign(y))) => {
            law_grants_are_taken_in_turn(old(d)@, x.grants@, y.grants@, now@);
        },
        (Some(ClientMsg::Promote(x)), Some(ClientMsg::Promote(y))) => {
            law_grants_are_taken_in_turn(old(d)@, x.grants@, y.grants@, now@);
        },
        (Some(ClientMsg::Revoke(x)), Some(ClientMsg::Revoke(y))) => {
            law_grants_are_taken_in_turn(old(d)@, x.grants@, y.grants@, now@);
        },
        _ => {},
    }
}

// ---------- Revoke ----------

/// A known grant that is revoked is revoked, whatever it was, noted as it was sent, and
/// leased until the time that comes with the revocation, where one does; nothing else of
/// it changes, no other grant is touched, and nothing is said.
pub proof fn law_revocation_revokes(
    d: &mut Driver,
    msg: ClientMessage,
    now: SystemTime,
    g: Grant,
    lease: SystemTime,
)
    requires
        call_ensures(Driver::handle_client_message, (d, msg, now), ()),
        msg.msg matches Some(ClientMsg::Revoke(r)) && r.grants@ == seq![g],
        g.lease is Some ==> call_ensures(timestamp_to_system_time, (&g.lease->Some_0,), lease),
    ensures
        !old(d)@.grants.contains_key(g.id@) ==> final(d)@ == old(d)@,
        old(d)@.grants.contains_key(g.id@) ==> {
            let id = g.id@;
            let before = old(d)@.grants[id];
            let after = final(d)@.grants[id];
            &&& final(d)@.grants.contains_key(id)
            &&& after.assigned == before.assigned
            &&& after.pb_grant == g
            &&& after.revoked
            &&& after.ownership.revoked
            &&& after.ownership.active == before.ownership.active
            &&& after.ownership.expired == before.ownership.expired
            &&& g.lease is None ==> after.ownership.expiration == before.ownership.expiration
            &&& g.lease is Some ==> after.ownership.expiration == lease@
            &&& after.ownership.unloader.loaded == before.ownership.unloader.loaded
            &&& after.ownership.loader.unloaded == before.ownership.loader.unloaded
            &&& same_user_side(before.ownership, after.ownership)
            &&& same_but(old(d)@, final(d)@, id)
            &&& same_else(old(d)@, final(d)@)
            &&& final(d)@.outbox == old(d)@.outbox
        },
{
    assert(seq![g].drop_last() =~= Seq::empty());
    assert(old(d)@.revoked_all(Seq::empty()) == old(d)@);
}

// ---------- Extend ----------

/// An extension moves the lease of every known grant that was not revoked, forward or
/// back, active or not, and of no other; nothing else of any grant changes, and nothing
/// is said.
pub proof fn law_extension_moves_every_lease(
    d: &mut Driver,
    msg: ClientMessage,
    now: SystemTime,
    lease: SystemTime,
    id: Seq<char>,
)
    requires
        call_ensures(Driver::handle_client_message, (d, msg, now), ()),
        msg.msg matches Some(ClientMsg::Extend(e)) && match e.lease {
            Some(ts) => call_ensures(timestamp_to_system_time, (&ts,), lease),
            None => false,
        },
    ensures
        same_else(old(d)@, final(d)@),
        final(d)@.outbox == old(d)@.outbox,
        final(d)@.grants.contains_key(id) == old(d)@.grants.contains_key(id),
        old(d)@.grants.contains_key(id) ==> {
            let before = old(d)@.grants[id];
            let after = final(d)@.grants[id];
            &&& same_grant(before, after)
            &&& before.revoked ==> after == before
            &&& !before.revoked ==> after.ownership.expiration == lease@
            &&& after.ownership.active == before.ownership.active
            &&& after.ownership.revoked == before.ownership.revoked
            &&& after.ownership.expired == before.ownership.expired
            &&& after.ownership.unloader.loaded == before.ownership.unloader.loaded
            &&& after.ownership.loader.unloaded == before.ownership.loader.unloaded
            &&& same_user_side(before.ownership, after.ownership)
        },
{
}

/// Messages that say nothing, an extension without a lease, and kinds that only a
/// consumer sends change nothing.
pub proof fn law_other_messages_change_nothing(d: &mut Driver, msg: ClientMessage, now: SystemTime)
    requires
        call_ensures(Driver::handle_client_message, (d, msg, now), ()),
        match msg.msg {
            None => true,
            Some(ClientMsg::Extend(e)) => e.lease is None,
            Some(ClientMsg::Assign(_)) => false,
            Some(ClientMsg::Promote(_)) => false,
            Some(ClientMsg::Revoke(_)) => false,
            Some(ClientMsg::Notify(_)) => false,
            _ => true,
        },
    ensures
        final(d)@ == old(d)@,
{
}

// ---------- Assign ----------

/// A grant with a valid shard that is assigned is known as it was sent, with a fresh
/// ownership: active or revoked as its state says, leased until the time that comes with
/// it or for 30s, and expired where that is over. One of the same id that was known
/// before is let go first, with its ownership expired; both is told, in this order. A
/// grant without a valid shard is passed over. No other grant is touched.
pub proof fn law_assignment_makes_a_fresh_grant(
    d: &mut Driver,
    msg: ClientMessage,
    now: SystemTime,
    g: Grant,
    shard: Result<Shard, ClientError>,
    state: GrantState,
    lease: SystemTime,
)
    requires
        call_ensures(Driver::handle_client_message, (d, msg, now), ()),
        msg.msg matches Some(ClientMsg::Assign(a)) && a.grants@ == seq![g],
        g.shard is Some ==> call_ensures(read_shard, (&g.shard->Some_0,), shard),
        call_ensures(grant_state_from_i32, (g.state,), state),
        g.lease is Some ==> call_ensures(timestamp_to_system_time, (&g.lease->Some_0,), lease),
        g.lease is None ==> lease@ == now@ + 30 * 1_000_000_000,
    ensures
        g.shard is None || shard is Err ==> final(d)@ == old(d)@,
        g.shard is Some && shard is Ok ==> {
            let id = g.id@;
            let known = old(d)@.grants.contains_key(id);
            let after = final(d)@.grants[id];
            let o = after.ownership;
            let n = old(d)@.outbox.len();
            let told = final(d)@.outbox;
            &&& final(d)@.grants.contains_key(id)
            &&& after.assigned == g
            &&& after.pb_grant == g
            &&& after.revoked <==> state is Revoked || state is RevokedUnloaded
            &&& o.active <==> state is Active
            &&& o.revoked <==> state is Revoked || state is RevokedUnloaded
            &&& o.expiration == lease@
            &&& o.expired <==> now@ > lease@
            &&& !o.revoke_requested && !o.loader.load && !o.loader.unloaded && !o.unloader.loaded
                && !o.unloader.unload
            &&& same_but(old(d)@, final(d)@, id)
            &&& same_else(old(d)@, final(d)@)
            &&& told.len() == n + (if known { 2int } else { 1 })
            &&& told.take(n as int) == old(d)@.outbox
            &&& known ==> (told[n as int] matches EffectView::Tell(
                GrantEventView::Removed { id: gone, ownership },
            ) && gone == id && lets_go(old(d)@.grants[id].ownership, ownership))
            &&& told.last() matches EffectView::Tell(
                GrantEventView::Assigned { id: told_id, shard: told_shard, ownership },
            ) && told_id == id && told_shard == shard->Ok_0@ && ownership == o
        },
{
    assert(seq![g].drop_last() =~= Seq::empty());
    assert(old(d)@.assigned_all(Seq::empty(), now@) == old(d)@);
    if g.shard is Some && shard is Ok {
        assert(shard_of_grant(g) == Some(shard->Ok_0@));
        assert(final(d)@.outbox.take(old(d)@.outbox.len() as int) =~= old(d)@.outbox);
    }
}

/// Whether an ownership ended as another: expired, and as it was otherwise.
pub open spec fn lets_go(before: OwnershipView, end: OwnershipView) -> bool {
    &&& end.expired
    &&& end.active == before.active
    &&& end.revoked == before.revoked
    &&& end.revoke_requested == before.revoke_requested
    &&& end.loader.load == before.loader.load
    &&& end.loader.unloaded == before.loader.unloaded
    &&& end.unloader.loaded == before.unloader.loaded
    &&& end.unloader.unload == before.unloader.unload
    &&& end.expiration == before.expiration
}

/// A grant that is removed is known no more, which is told once, with its ownership
/// expired; no other grant is touched. Removing one that is not known does nothing.
pub proof fn law_removal_lets_one_grant_go(d: &mut Driver, id: GrantId)
    requires
        call_ensures(Driver::remove_grant, (d, id), ()),
    ensures
        !old(d)@.grants.contains_key(id.0@) ==> final(d)@ == old(d)@,
        old(d)@.grants.contains_key(id.0@) ==> {
            &&& !final(d)@.grants.contains_key(id.0@)
            &&& same_but(old(d)@, final(d)@, id.0@)
            &&& same_else(old(d)@, final(d)@)
            &&& final(d)@.outbox.len() == old(d)@.outbox.len() + 1
            &&& final(d)@.outbox.drop_last() == old(d)@.outbox
            &&& final(d)@.outbox.last() matches EffectView::Tell(
                GrantEventView::Removed { id: gone, ownership },
            ) && gone == id.0@ && lets_go(old(d)@.grants[id.0@].ownership, ownership)
        },
{
    if old(d)@.grants.contains_key(id.0@) {
        assert(final(d)@.outbox.drop_last() =~= old(d)@.outbox);
    }
}

/// Stopping lets every grant go, each told once, in any order, with its ownership
/// expired; it says nothing else, and keeps what is known of the cluster.
pub proof fn law_stop_lets_all_go(d: &mut Driver, i: int, j: int)
    requires
        call_ensures(Driver::stop, (d,), ()),
    ensures
        final(d)@.closed,
        final(d)@.cluster == old(d)@.cluster,
        final(d)@.cluster_news == old(d)@.cluster_news,
        forall|h: Seq<char>| !#[trigger] final(d)@.grants.contains_key(h),
        final(d)@.outbox.len() == old(d)@.outbox.len() + old(d)@.grants.len(),
        old(d)@.outbox.is_prefix_of(final(d)@.outbox),
        old(d)@.outbox.len() <= i < final(d)@.outbox.len() ==> (
        final(d)@.outbox[i] matches EffectView::Tell(GrantEventView::Removed { id, ownership })
            && old(d)@.grants.contains_key(id) && lets_go(
            old(d)@.grants[id].ownership,
            ownership,
        )),
        old(d)@.outbox.len() <= i < j < final(d)@.outbox.len() ==> final(d)@.outbox[i]
            != final(d)@.outbox[j],
{
    let before = old(d)@;
    let end = final(d)@;
    law_stopping_lets_every_grant_go(before, end);
    assert(before.outbox =~= end.outbox.take(before.outbox.len() as int));
    let ids = choose|ids: Seq<Seq<char>>|
        ids.no_duplicates() && ids.to_set() == before.grants.dom() && end
            == #[trigger] before.stopped(ids);
    let n = before.outbox.len();
    if n <= i < end.outbox.len() {
        assert(end.outbox[i] == before.farewell(ids[i - n]));
        assert(ids.to_set().contains(ids[i - n]));
    }
    if n <= i < j < end.outbox.len() {
        assert(end.outbox[j] == before.farewell(ids[j - n]));
        assert(ids[i - n] != ids[j - n]);
    }
}

// ---------- Signals and the clock ----------

/// The latch that a signal closes.
pub open spec fn signal_latch(o: OwnershipView, s: Signal) -> bool {
    match s {
        Signal::Load => o.loader.load,
        Signal::Unload => o.unloader.unload,
        Signal::RequestRevoke => o.revoke_requested,
    }
}

/// A signal on a known grant closes its own latch, whatever else is known of the grant,
/// and no other. The coordinator is told exactly where it is the first and the grant has
/// not expired: with the grant as it was assigned, now loaded or unloaded, or to be
/// revoked. A signal on a grant that is not known does nothing.
pub proof fn law_signal_closes_its_latch(
    d: &mut Driver,
    id: &GrantId,
    s: Signal,
)
    requires
        call_ensures(Driver::signal, (d, id, s), ()),
    ensures
        !old(d)@.grants.contains_key(id.0@) ==> final(d)@ == old(d)@,
        old(d)@.grants.contains_key(id.0@) ==> {
            let before = old(d)@.grants[id.0@];
            let after = final(d)@.grants[id.0@];
            let first = !signal_latch(before.ownership, s);
            let told = first && !before.ownership.expired;
            &&& final(d)@.grants.contains_key(id.0@)
            &&& same_grant(before, after)
            &&& signal_latch(after.ownership, s)
            &&& forall|other: Signal| other != s ==> #[trigger] signal_latch(
                after.ownership,
                other,
            ) == signal_latch(before.ownership, other)
            &&& after.ownership.active == before.ownership.active
            &&& after.ownership.revoked == before.ownership.revoked
            &&& after.ownership.expired == before.ownership.expired
            &&& after.ownership.expiration == before.ownership.expiration
            &&& after.ownership.loader.unloaded == before.ownership.loader.unloaded
            &&& after.ownership.unloader.loaded == before.ownership.unloader.loaded
            &&& same_but(old(d)@, final(d)@, id.0@)
            &&& same_else(old(d)@, final(d)@)
            &&& !told ==> final(d)@.outbox == old(d)@.outbox
            &&& told ==> final(d)@.outbox.len() == old(d)@.outbox.len() + 1
                && final(d)@.outbox.drop_last() == old(d)@.outbox && match s {
                Signal::Load => final(d)@.outbox.last() matches EffectView::Send(
                    OutboundView::Update { grant: Some(g) },
                ) && g.state == 4 && g.id == before.assigned.id && g.shard
                    == before.assigned.shard && g.lease == before.assigned.lease,
                Signal::Unload => final(d)@.outbox.last() matches EffectView::Send(
                    OutboundView::Update { grant: Some(g) },
                ) && g.state == 5 && g.id == before.assigned.id && g.shard
                    == before.assigned.shard && g.lease == before.assigned.lease,
                Signal::RequestRevoke => final(d)@.outbox.last() matches EffectView::Send(
                    OutboundView::Revoke { grants },
                ) && grants.len() == 1 && grants[0] == before.assigned,
            }
        },
{
    if old(d)@.grants.contains_key(id.0@) {
        let before = old(d)@.grants[id.0@];
        if !signal_latch(before.ownership, s) && !before.ownership.expired {
            assert(final(d)@.outbox.drop_last() =~= old(d)@.outbox);
        }
    }
}

/// A look at the clock for a known grant expires it exactly where its lease is over, and
/// changes nothing else of it, no other grant, and says nothing; until then it says to
/// look again when the lease ends. For a grant that is not known there is nothing to do.
pub proof fn law_clock_expires_one_grant(
    d: &mut Driver,
    id: &GrantId,
    now: SystemTime,
    r: TimerStep,
)
    requires
        call_ensures(Driver::timer, (d, id, now), r),
    ensures
        !old(d)@.grants.contains_key(id.0@) ==> final(d)@ == old(d)@ && r is Stop,
        old(d)@.grants.contains_key(id.0@) ==> {
            let before = old(d)@.grants[id.0@];
            let after = final(d)@.grants[id.0@];
            let over = now@ >= before.ownership.expiration;
            &&& final(d)@.grants.contains_key(id.0@)
            &&& same_grant(before, after)
            &&& after.ownership.expired <==> before.ownership.expired || over
            &&& r is Stop <==> before.ownership.expired || over
            &&& r matches TimerStep::Sleep(s) ==> now@ + s@ == before.ownership.expiration
            &&& after.ownership.active == before.ownership.active
            &&& after.ownership.revoked == before.ownership.revoked
            &&& after.ownership.expiration == before.ownership.expiration
            &&& after.ownership.loader.unloaded == before.ownership.loader.unloaded
            &&& after.ownership.unloader.loaded == before.ownership.unloader.loaded
            &&& same_user_side(before.ownership, after.ownership)
            &&& same_but(old(d)@, final(d)@, id.0@)
            &&& same_else(old(d)@, final(d)@)
            &&& final(d)@.outbox == old(d)@.outbox
        },
{
}

// ---------- Frames ----------

/// A client message in a frame does what it does by itself, and brings nothing of the
/// session.
pub proof fn law_client_frame_does_what_its_message_does(
    d: &mut Driver,
    join: JoinMessage,
    now: SystemTime,
    r: Result<Option<SystemTime>, ClientError>,
    e: &mut Driver,
    msg: ClientMessage,
)
    requires
        call_ensures(Driver::handle_inbound, (d, join, now), r),
        join.msg matches Some(JoinMsg::Consumer(c)) && c.msg == Some(ConsumerMsg::Client(msg)),
        e@ == d@,
        call_ensures(Driver::handle_client_message, (e, msg, now), ()),
    ensures
        final(d)@ == final(e)@,
        r matches Ok(None),
{
}

/// A message about the cluster replaces what is known of it by what the message makes of
/// it, and marks it as new; one that is refused changes nothing. No grant is touched and
/// nothing is said.
pub proof fn law_cluster_frame_applies_its_message(
    d: &mut Driver,
    join: JoinMessage,
    now: SystemTime,
    r: Result<Option<SystemTime>, ClientError>,
    known: &ClusterMap,
    next: Result<ClusterMap, ClientError>,
)
    requires
        call_ensures(Driver::handle_inbound, (d, join, now), r),
        known@ == d@.cluster,
        join.msg matches Some(JoinMsg::Consumer(c)) && match c.msg {
            Some(ConsumerMsg::Cluster(cm)) => call_ensures(ClusterMap::apply, (known, cm), next),
            _ => false,
        },
    ensures
        r matches Ok(None),
        next is Err ==> final(d)@ == old(d)@,
        next is Ok ==> {
            &&& final(d)@.cluster == next->Ok_0@
            &&& final(d)@.cluster_news
            &&& final(d)@.grants == old(d)@.grants
            &&& final(d)@.closed == old(d)@.closed
            &&& final(d)@.outbox == old(d)@.outbox
        },
{
}

/// A session frame changes nothing that the driver knows; it gives the end of the lease
/// that an established or acknowledged session brings, and the error of a closed one. A
/// frame without content changes nothing and gives nothing.
pub proof fn law_session_frame_gives_its_event(
    d: &mut Driver,
    join: JoinMessage,
    now: SystemTime,
    r: Result<Option<SystemTime>, ClientError>,
    event: Option<SessionEvent>,
)
    requires
        call_ensures(Driver::handle_inbound, (d, join, now), r),
        match join.msg {
            None => event is None,
            Some(JoinMsg::Session(s)) => call_ensures(classify, (&s,), event),
            Some(JoinMsg::Consumer(c)) => c.msg is None && event is None,
        },
    ensures
        final(d)@ == old(d)@,
        event is None ==> (r matches Ok(None)),
        event matches Some(SessionEvent::Established { ttl }) ==> (r matches Ok(Some(t)) && t@
            == ttl@),
        event matches Some(SessionEvent::HeartbeatAck { ttl }) ==> (r matches Ok(Some(t)) && t@
            == ttl@),
        event matches Some(SessionEvent::Closed { error }) ==> (r matches Err(
            ClientError::SessionClosed(m),
        ) && m@ == error@),
{
}

// ---------- The loop ----------

/// A frame that the loop hears does what taking it up does. The loop goes on as before, or
/// with heartbeats by the lease that the frame brings; where the frame ends the session,
/// the driver stops, and the loop ends with that error.
pub proof fn law_loop_takes_up_frames(
    d: &mut Driver,
    join: JoinMessage,
    now: SystemTime,
    flow: Flow,
    e: &mut Driver,
    r: Result<Option<SystemTime>, ClientError>,
    delay: Duration,
)
    requires
        call_ensures(Driver::step, (d, Heard::Frame(join), now), flow),
        e@ == d@,
        call_ensures(Driver::handle_inbound, (e, join, now), r),
        r matches Ok(Some(ttl)) ==> call_ensures(heartbeat_delay, (ttl, now), delay),
    ensures
        r matches Ok(None) ==> final(d)@ == final(e)@ && flow is Continue,
        r matches Ok(Some(_)) ==> final(d)@ == final(e)@ && (flow matches Flow::Heartbeat(w) && w@
            == delay@),
        r matches Err(error) ==> final(d)@.closed && (flow matches Flow::Exit(Err(f)) && f@
            == error@),
{
}

/// A heartbeat that is due is sent, with the time, and nothing else happens.
pub proof fn law_loop_sends_heartbeats(d: &mut Driver, now: SystemTime, flow: Flow)
    requires
        call_ensures(Driver::step, (d, Heard::Tick, now), flow),
    ensures
        flow is Continue,
        final(d)@.grants == old(d)@.grants,
        same_else(old(d)@, final(d)@),
        final(d)@.outbox.len() == old(d)@.outbox.len() + 1,
        final(d)@.outbox.drop_last() == old(d)@.outbox,
        final(d)@.outbox.last() matches EffectView::Send(OutboundView::Heartbeat { now: at })
            && at matches Some(ts) && (0 <= now@ < (i64::MAX + 1) * 1_000_000_000 ==> ts.seconds
            * 1_000_000_000 + ts.nanos == now@),
{
    assert(final(d)@.outbox.drop_last() =~= old(d)@.outbox);
}

/// However the stream ends, the driver stops and the loop ends: well on a shutdown, with
/// the status of a stream that failed, and as a closed session otherwise.
pub proof fn law_loop_ends_with_the_stream(
    d: &mut Driver,
    heard: Heard,
    now: SystemTime,
    flow: Flow,
)
    requires
        call_ensures(Driver::step, (d, heard, now), flow),
        !(heard is Frame),
        !(heard is Tick),
    ensures
        final(d)@.closed,
        forall|h: Seq<char>| !#[trigger] final(d)@.grants.contains_key(h),
        heard is Shutdown ==> (flow matches Flow::Exit(Ok(_))),
        heard matches Heard::Failed(status) ==> (flow matches Flow::Exit(
            Err(ClientError::Transport(s)),
        ) && s@ == status@),
        heard is Ended ==> (flow matches Flow::Exit(Err(ClientError::SessionClosed(m))) && m@
            == "stream ended"@),
        heard is Unsent ==> (flow matches Flow::Exit(Err(ClientError::SessionClosed(m))) && m@
            == "outbound dropped"@),
        !(heard is Shutdown) ==> final(d)@.outbox.len() == old(d)@.outbox.len()
            + old(d)@.grants.len(),
{
    let before = old(d)@;
    match heard {
        Heard::Shutdown => {
            law_stopping_lets_every_grant_go(
                before.sending(OutboundView::Deregister).sending(
                    OutboundView::Closed { error: "client shutdown"@ },
                ),
                final(d)@,
            );
        },
        _ => {
            law_stopping_lets_every_grant_go(before, final(d)@);
        },
    }
}

// ---------- Opening, taking and ending ----------

/// A new driver knows nothing, and has two frames to send: who the consumer is, under the
/// id of the session, and then its registration.
pub proof fn law_driver_opens_with_two_frames(
    session_id: String,
    consumer: Instance,
    service: QualifiedServiceName,
    opts: &ConsumerOptions,
    d: Driver,
)
    requires
        call_ensures(Driver::with_session, (session_id, consumer, service, opts), d),
    ensures
        forall|h: Seq<char>| !#[trigger] d@.grants.contains_key(h),
        !d@.closed,
        !d@.cluster_news,
        d@.cluster.id.version == 0,
        d@.outbox.len() == 2,
        d@.outbox[0] matches EffectView::Send(OutboundView::Establish { client, id })
            && client matches Some(c) && id == session_id@ && c.name@ == consumer.name.0@ && c.id@
            == hyphenated(consumer.id.0),
        d@.outbox[1] matches EffectView::Send(OutboundView::Register(r)) && {
            &&& r.consumer matches Some(p) && p.endpoint@ == consumer.endpoint.0@
            &&& r.service matches Some(s) && s.tenant@ == service.tenant.0@ && s.service@
                == service.service.0@
            &&& r.domains@.len() == 0
            &&& r.active@.len() == 0
            &&& r.options matches Some(o) && o.capacity_limit == opts.capacity_limit
                && o.names@.len() == opts.key_names@.len()
        },
{
    if let EffectView::Send(OutboundView::Register(r)) = d@.outbox[1] {
        assert(service_of(r.service->Some_0) == service@);
    }
}

/// A registration passes each key name on, in order.
pub proof fn law_registration_passes_the_key_names(
    consumer: Instance,
    service: QualifiedServiceName,
    opts: &ConsumerOptions,
    frame: JoinMessage,
    i: int,
)
    requires
        call_ensures(build_register, (consumer, service, opts), frame),
        0 <= i < opts.key_names@.len(),
    ensures
        frame.msg matches Some(JoinMsg::Consumer(c)) && c.msg matches Some(ConsumerMsg::Client(m))
            && m.msg matches Some(ClientMsg::Register(r)) && r.options matches Some(o)
            && o.names@.len() == opts.key_names@.len() && o.names@[i].domain@
            == opts.key_names@[i].domain.0@ && o.names@[i].name@ == opts.key_names@[i].name@,
{
    let reg = match outbound_of(frame) {
        OutboundView::Register(reg) => reg,
        _ => arbitrary(),
    };
    assert(reg.options->Some_0.names@[i].domain == opts.key_names@[i].domain.0);
}

/// The frame on a grant in another state carries the grant with that state alone changed,
/// and the frame that asks for a revocation carries the grant as it is.
pub proof fn law_reports_carry_the_grant(
    g: &Grant,
    state: pb::GrantState,
    n: i32,
    update: JoinMessage,
    revoke: JoinMessage,
)
    requires
        call_ensures(update_frame, (g, state), update),
        call_ensures(pb::GrantState::to_i32, (state,), n),
        call_ensures(revoke_frame, (g,), revoke),
    ensures
        update.msg matches Some(JoinMsg::Consumer(c)) && c.msg matches Some(ConsumerMsg::Client(m))
            && m.msg matches Some(ClientMsg::Update(u)) && u.grant matches Some(h) && h.id == g.id
            && h.shard == g.shard && h.lease == g.lease && h.state == n,
        revoke.msg matches Some(JoinMsg::Consumer(c)) && c.msg matches Some(ConsumerMsg::Client(m))
            && m.msg matches Some(ClientMsg::Revoke(r)) && r.grants@.len() == 1 && r.grants@[0]
            == *g,
{
}

/// What waits is taken once: the outbox is empty afterwards, and the cluster is given
/// exactly where it has changed since; nothing else changes.
pub proof fn law_what_waits_is_taken_once(d: &mut Driver, taken: Option<ClusterMap>)
    ensures
        call_ensures(Driver::take_cluster, (d,), taken) ==> {
            &&& taken is Some <==> old(d)@.cluster_news
            &&& taken matches Some(c) ==> c@ == old(d)@.cluster
            &&& !final(d)@.cluster_news
            &&& final(d)@.cluster == old(d)@.cluster
            &&& final(d)@.grants == old(d)@.grants
            &&& final(d)@.closed == old(d)@.closed
            &&& final(d)@.outbox == old(d)@.outbox
        },
        forall|out: Vec<Effect>| #[trigger]
            call_ensures(Driver::take_outbox, (d,), out) ==> {
                &&& out@.len() == old(d)@.outbox.len()
                &&& forall|i: int| 0 <= i < out@.len() ==> (#[trigger] out@[i])@
                    == old(d)@.outbox[i]
                &&& final(d)@.outbox.len() == 0
                &&& final(d)@.grants == old(d)@.grants
                &&& same_else(old(d)@, final(d)@)
            },
{
    assert forall|out: Vec<Effect>| #[trigger]
        call_ensures(Driver::take_outbox, (d,), out) implies {
        &&& out@.len() == old(d)@.outbox.len()
        &&& forall|i: int| 0 <= i < out@.len() ==> (#[trigger] out@[i])@ == old(d)@.outbox[i]
        &&& final(d)@.outbox.len() == 0
        &&& final(d)@.grants == old(d)@.grants
        &&& same_else(old(d)@, final(d)@)
    } by {
        let views = effect_views(out@);
        assert(views.len() == out@.len());
        assert forall|i: int| 0 <= i < out@.len() implies (#[trigger] out@[i])@
            == old(d)@.outbox[i] by {
            assert(views[i] == out@[i]@);
        }
    }
}

/// A shutdown comes to what the task came to; one that is gone or was cancelled is no
/// error, and one that broke off is a closed session.
pub proof fn law_shutdown_comes_to_what_the_task_did(end: TaskEnd, r: Result<(), ClientError>)
    requires
        call_ensures(shutdown_result, (end,), r),
    ensures
        end is Gone || end is Cancelled ==> r is Ok,
        end matches TaskEnd::Done(result) ==> r == result,
        end matches TaskEnd::Broken(m) ==> r == Err::<(), ClientError>(
            ClientError::SessionClosed(m),
        ),
{
}

/// Options are changed one at a time.
pub proof fn law_options_change_one_at_a_time(
    o: ConsumerOptions,
    name: DomainKeyName,
    limit: u64,
    named: ConsumerOptions,
    limited: ConsumerOptions,
)
    requires
        call_ensures(ConsumerOptions::with_key_name, (o, name), named),
        call_ensures(ConsumerOptions::with_capacity_limit, (o, limit), limited),
    ensures
        named.key_names@ == o.key_names@.push(name),
        named.capacity_limit == o.capacity_limit,
        limited.key_names@ == o.key_names@,
        limited.capacity_limit == limit,
{
}

/// The list of ids names each known grant once and no other, and what is shown of a grant
/// is its ownership; of a grant that is not known nothing is shown.
pub proof fn law_known_grants_are_shown(
    d: &Driver,
    ids: Vec<GrantId>,
    g: &GrantId,
    shown: Option<OwnershipState>,
    known: &ClusterMap,
    closed: bool,
)
    requires
        call_ensures(Driver::ids, (d,), ids),
        call_ensures(Driver::ownership, (d, g), shown),
        call_ensures(Driver::cluster, (d,), known),
        call_ensures(Driver::is_closed, (d,), closed),
    ensures
        d@.grants.contains_key(g.0@) <==> exists|i: int|
            0 <= i < ids@.len() && (#[trigger] ids@[i]).0@ == g.0@,
        shown is Some <==> d@.grants.contains_key(g.0@),
        shown matches Some(o) ==> o@ == d@.grants[g.0@].ownership,
        known@ == d@.cluster,
        closed == d@.closed,
{
    let list = id_texts(ids@);
    if d@.grants.contains_key(g.0@) {
        assert(list.to_set().contains(g.0@));
        let i = choose|i: int| 0 <= i < list.len() && list[i] == g.0@;
        assert(ids@[i].0@ == g.0@);
    }
    if exists|i: int| 0 <= i < ids@.len() && (#[trigger] ids@[i]).0@ == g.0@ {
        let i = choose|i: int| 0 <= i < ids@.len() && (#[trigger] ids@[i]).0@ == g.0@;
        assert(list[i] == g.0@);
        assert(list.to_set().contains(g.0@));
    }
}

} // verus!
