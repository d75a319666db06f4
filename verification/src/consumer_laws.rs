//! What holds of a consumer's driver whatever it hears.

use vstd::prelude::*;

use crate::consumer::{idle_driver, registers, turn, Flow, Heard};
use crate::consumer_model::{
    fresh_entry, shard_of_grant, ActiveGrantView, DriverView, EffectView, GrantEventView, OutboundView, Signal,
};
use crate::consumer_pb::{
    ClientMessage, ClientMsg, ConsumerMsg, Extend, JoinMessage, JoinMsg, Notify, Register,
};
use crate::error::ErrorView;
use crate::ids::{DomainKeyName, InstanceView, ServiceView};
use crate::pb::Grant;
use crate::time::NANOS_PER_SEC;
use crate::wrap::{law_instance_survives_the_wire, peer_of, service_of, time_of};

verus! {

// ---------- The table of grants ----------

/// Whether the entries of a driver are sound: each grant is noted under its own id,
/// and is marked as revoked exactly where its ownership is.
pub open spec fn sound(d: DriverView) -> bool {
    forall|id: Seq<char>| #[trigger] d.grants.contains_key(id) ==> sound_entry(id, d.grants[id])
}

/// Whether an entry is sound under an id.
pub open spec fn sound_entry(id: Seq<char>, e: ActiveGrantView) -> bool {
    &&& e.assigned.id@ == id
    &&& e.pb_grant.id@ == id
    &&& e.revoked == e.ownership.revoked
}

/// A driver that has heard nothing is sound.
pub proof fn law_idle_driver_is_sound(outbox: Seq<EffectView>)
    ensures
        sound(idle_driver(outbox)),
{
}

proof fn lemma_assigned_sound(d: DriverView, g: Grant, now: int)
    requires
        sound(d),
    ensures
        sound(d.assigned(g, now)),
{
    let next = d.assigned(g, now);
    assert forall|id: Seq<char>| #[trigger] next.grants.contains_key(id) implies sound_entry(
        id,
        next.grants[id],
    ) by {
        if shard_of_grant(g) is Some && id != g.id@ {
            assert(d.grants.contains_key(id));
        }
    }
}

proof fn lemma_assigned_all_sound(d: DriverView, grants: Seq<Grant>, now: int)
    requires
        sound(d),
    ensures
        sound(d.assigned_all(grants, now)),
    decreases grants.len(),
{
    if grants.len() > 0 {
        lemma_assigned_all_sound(d, grants.drop_last(), now);
        lemma_assigned_sound(d.assigned_all(grants.drop_last(), now), grants.last(), now);
    }
}

proof fn lemma_promoted_all_sound(d: DriverView, grants: Seq<Grant>)
    requires
        sound(d),
    ensures
        sound(d.promoted_all(grants)),
    decreases grants.len(),
{
    if grants.len() > 0 {
        lemma_promoted_all_sound(d, grants.drop_last());
    }
}

proof fn lemma_revoked_all_sound(d: DriverView, grants: Seq<Grant>)
    requires
        sound(d),
    ensures
        sound(d.revoked_all(grants)),
    decreases grants.len(),
{
    if grants.len() > 0 {
        lemma_revoked_all_sound(d, grants.drop_last());
    }
}

/// Whatever a driver hears, it stays sound.
pub proof fn law_hearing_keeps_the_driver_sound(d: DriverView, join: JoinMessage, now: int)
    requires
        sound(d),
    ensures
        sound(d.heard(join, now)),
{
    if let Some(JoinMsg::Consumer(c)) = join.msg {
        if let Some(ConsumerMsg::Client(client)) = c.msg {
            match client.msg {
                Some(ClientMsg::Assign(a)) => {
                    lemma_assigned_all_sound(d, a.grants@, now);
                },
                Some(ClientMsg::Promote(p)) => {
                    lemma_promoted_all_sound(d, p.grants@);
                },
                Some(ClientMsg::Revoke(r)) => {
                    lemma_revoked_all_sound(d, r.grants@);
                },
                Some(ClientMsg::Extend(e)) => {
                    let next = d.extended(e);
                    assert forall|id: Seq<char>| #[trigger]
                        next.grants.contains_key(id) implies sound_entry(id, next.grants[id]) by {
                        assert(d.grants.contains_key(id));
                    }
                },
                _ => {},
            }
        }
    }
}

/// Signals of the user, the clock and stopping keep a driver sound too.
pub proof fn law_other_turns_keep_the_driver_sound(
    d: DriverView,
    id: Seq<char>,
    s: Signal,
    now: int,
    end: DriverView,
)
    requires
        sound(d),
        d.stops_as(end),
    ensures
        sound(d.signalled(id, s)),
        sound(d.timed(id, now)),
        sound(d.without(id)),
        sound(end),
{
}

// ---------- Followers ----------

/// The ids that a follower of the events holds, who held some before.
pub open spec fn follow(held: Set<Seq<char>>, outbox: Seq<EffectView>) -> Set<Seq<char>>
    decreases outbox.len(),
{
    if outbox.len() == 0 {
        held
    } else {
        let before = follow(held, outbox.drop_last());
        match outbox.last() {
            EffectView::Tell(GrantEventView::Assigned { id, .. }) => before.insert(id),
            EffectView::Tell(GrantEventView::Removed { id, .. }) => before.remove(id),
            EffectView::Send(_) => before,
        }
    }
}

/// Whether the events that were added on the way from one state to another tell a
/// follower exactly which grants are known there.
pub open spec fn tells(d: DriverView, next: DriverView) -> bool {
    exists|news: Seq<EffectView>|
        {
            &&& next.outbox == d.outbox + news
            &&& #[trigger] follow(d.grants.dom(), news) == next.grants.dom()
        }
}

proof fn lemma_follow_on(held: Set<Seq<char>>, a: Seq<EffectView>, b: Seq<EffectView>)
    ensures
        follow(held, a + b) == follow(follow(held, a), b),
    decreases b.len(),
{
    if b.len() == 0 {
        assert(a + b =~= a);
    } else {
        assert((a + b).drop_last() =~= a + b.drop_last());
        lemma_follow_on(held, a, b.drop_last());
    }
}

proof fn lemma_tells_on(a: DriverView, b: DriverView, c: DriverView)
    requires
        tells(a, b),
        tells(b, c),
    ensures
        tells(a, c),
{
    let first = choose|news: Seq<EffectView>|
        b.outbox == a.outbox + news && #[trigger] follow(a.grants.dom(), news) == b.grants.dom();
    let second = choose|news: Seq<EffectView>|
        c.outbox == b.outbox + news && #[trigger] follow(b.grants.dom(), news) == c.grants.dom();
    lemma_follow_on(a.grants.dom(), first, second);
    assert(c.outbox =~= a.outbox + (first + second));
    assert(follow(a.grants.dom(), first + second) == c.grants.dom());
}

proof fn lemma_silence_tells(d: DriverView, next: DriverView)
    requires
        next.outbox == d.outbox,
        next.grants.dom() == d.grants.dom(),
    ensures
        tells(d, next),
{
    let none = Seq::<EffectView>::empty();
    assert(next.outbox =~= d.outbox + none);
    assert(follow(d.grants.dom(), none) == next.grants.dom());
}

proof fn lemma_one_event_tells(d: DriverView, next: DriverView, e: GrantEventView)
    requires
        next.outbox == d.outbox.push(EffectView::Tell(e)),
        match e {
            GrantEventView::Assigned { id, .. } => next.grants.dom() == d.grants.dom().insert(id),
            GrantEventView::Removed { id, .. } => next.grants.dom() == d.grants.dom().remove(id),
        },
    ensures
        tells(d, next),
{
    let news = seq![EffectView::Tell(e)];
    assert(news.drop_last() =~= Seq::empty());
    assert(follow(d.grants.dom(), news.drop_last()) == d.grants.dom());
    assert(next.outbox =~= d.outbox + news);
    assert(follow(d.grants.dom(), news) == next.grants.dom());
}

proof fn lemma_without_tells(d: DriverView, id: Seq<char>)
    ensures
        tells(d, d.without(id)),
{
    let next = d.without(id);
    if d.grants.contains_key(id) {
        assert(next.grants.dom() =~= d.grants.dom().remove(id));
        lemma_one_event_tells(
            d,
            next,
            GrantEventView::Removed { id, ownership: d.grants[id].ownership.after_expiry() },
        );
    } else {
        lemma_silence_tells(d, next);
    }
}

proof fn lemma_assigned_all_tells(d: DriverView, grants: Seq<Grant>, now: int)
    ensures
        tells(d, d.assigned_all(grants, now)),
    decreases grants.len(),
{
    if grants.len() == 0 {
        lemma_silence_tells(d, d);
    } else {
        let front = d.assigned_all(grants.drop_last(), now);
        lemma_assigned_all_tells(d, grants.drop_last(), now);
        let g = grants.last();
        let next = front.assigned(g, now);
        match shard_of_grant(g) {
            None => {},
            Some(shard) => {
                let gone = front.without(g.id@);
                lemma_without_tells(front, g.id@);
                assert(next.grants.dom() =~= gone.grants.dom().insert(g.id@));
                lemma_one_event_tells(
                    gone,
                    next,
                    GrantEventView::Assigned {
                        id: g.id@,
                        shard,
                        ownership: fresh_entry(g, now).ownership,
                    },
                );
                lemma_tells_on(front, gone, next);
                lemma_tells_on(d, front, next);
            },
        }
    }
}

proof fn lemma_promoted_all_keeps(d: DriverView, grants: Seq<Grant>)
    ensures
        d.promoted_all(grants).outbox == d.outbox,
        d.promoted_all(grants).grants.dom() == d.grants.dom(),
        forall|id: Seq<char>| #[trigger]
            d.grants.contains_key(id) ==> d.grants[id].ownership.grows_to(
                d.promoted_all(grants).grants[id].ownership,
            ),
    decreases grants.len(),
{
    if grants.len() > 0 {
        let front = d.promoted_all(grants.drop_last());
        lemma_promoted_all_keeps(d, grants.drop_last());
        assert(front.promoted(grants.last()).grants.dom() =~= front.grants.dom());
    }
}

proof fn lemma_revoked_all_keeps(d: DriverView, grants: Seq<Grant>)
    ensures
        d.revoked_all(grants).outbox == d.outbox,
        d.revoked_all(grants).grants.dom() == d.grants.dom(),
        forall|id: Seq<char>| #[trigger]
            d.grants.contains_key(id) ==> d.grants[id].ownership.grows_to(
                d.revoked_all(grants).grants[id].ownership,
            ),
    decreases grants.len(),
{
    if grants.len() > 0 {
        let front = d.revoked_all(grants.drop_last());
        lemma_revoked_all_keeps(d, grants.drop_last());
        assert(front.after_revoke(grants.last()).grants.dom() =~= front.grants.dom());
    }
}

/// Whatever a driver hears, whoever follows its events knows which grants it holds.
pub proof fn law_followers_know_the_grants(d: DriverView, join: JoinMessage, now: int)
    ensures
        tells(d, d.heard(join, now)),
{
    let next = d.heard(join, now);
    lemma_silence_tells(d, d);
    if let Some(JoinMsg::Consumer(c)) = join.msg {
        match c.msg {
            Some(ConsumerMsg::Client(client)) => {
                match client.msg {
                    Some(ClientMsg::Assign(a)) => {
                        lemma_assigned_all_tells(d, a.grants@, now);
                    },
                    Some(ClientMsg::Promote(p)) => {
                        lemma_promoted_all_keeps(d, p.grants@);
                        lemma_silence_tells(d, next);
                    },
                    Some(ClientMsg::Revoke(r)) => {
                        lemma_revoked_all_keeps(d, r.grants@);
                        lemma_silence_tells(d, next);
                    },
                    Some(ClientMsg::Notify(n)) => {
                        assert(next.grants.dom() =~= d.grants.dom());
                        lemma_silence_tells(d, next);
                    },
                    Some(ClientMsg::Extend(e)) => {
                        assert(next.grants.dom() =~= d.grants.dom());
                        lemma_silence_tells(d, next);
                    },
                    _ => {},
                }
            },
            Some(ConsumerMsg::Cluster(_)) => {
                lemma_silence_tells(d, next);
            },
            None => {},
        }
    }
}

/// Signals of the user and the clock leave the same grants known, and tell nothing of
/// them.
pub proof fn law_signals_and_clock_keep_the_grants(
    d: DriverView,
    id: Seq<char>,
    s: Signal,
    now: int,
)
    ensures
        d.signalled(id, s).grants.dom() == d.grants.dom(),
        d.timed(id, now).grants.dom() == d.grants.dom(),
        told_part(d.signalled(id, s).outbox) == told_part(d.outbox),
        d.timed(id, now).outbox == d.outbox,
{
    assert(d.signalled(id, s).grants.dom() =~= d.grants.dom());
    assert(d.timed(id, now).grants.dom() =~= d.grants.dom());
    if d.grants.contains_key(id) {
        lemma_parts_of_push(d.outbox, EffectView::Send(d.grants[id].report(s)));
    }
}

/// The part of an outbox that is told to followers.
pub open spec fn told_part(outbox: Seq<EffectView>) -> Seq<EffectView> {
    outbox.filter(|e: EffectView| e is Tell)
}

/// The part of an outbox that is sent to the coordinator.
pub open spec fn sent_part(outbox: Seq<EffectView>) -> Seq<EffectView> {
    outbox.filter(|e: EffectView| e is Send)
}

proof fn lemma_parts_of_push(outbox: Seq<EffectView>, e: EffectView)
    ensures
        told_part(outbox.push(e)) == if e is Tell {
            told_part(outbox).push(e)
        } else {
            told_part(outbox)
        },
        sent_part(outbox.push(e)) == if e is Send {
            sent_part(outbox).push(e)
        } else {
            sent_part(outbox)
        },
{
    reveal(Seq::filter);
    assert(outbox.push(e).drop_last() =~= outbox);
}

// ---------- Stopping ----------

/// A driver that stops knows no grant any more. Of each grant that it knew it tells
/// once that it is gone, with its ownership expired, and it tells nothing else.
pub proof fn law_stopping_lets_every_grant_go(d: DriverView, end: DriverView)
    requires
        d.stops_as(end),
    ensures
        end.closed,
        end.grants == Map::<Seq<char>, ActiveGrantView>::empty(),
        end.outbox.len() == d.outbox.len() + d.grants.len(),
        end.outbox.take(d.outbox.len() as int) == d.outbox,
        forall|id: Seq<char>| #[trigger]
            d.grants.contains_key(id) ==> exists|i: int|
                d.outbox.len() <= i < end.outbox.len() && #[trigger] end.outbox[i] == d.farewell(id),
{
    let ids = choose|ids: Seq<Seq<char>>|
        ids.no_duplicates() && ids.to_set() == d.grants.dom() && end == #[trigger] d.stopped(ids);
    ids.unique_seq_to_set();
    assert(end.outbox.take(d.outbox.len() as int) =~= d.outbox);
    assert forall|id: Seq<char>| #[trigger] d.grants.contains_key(id) implies exists|i: int|
        d.outbox.len() <= i < end.outbox.len() && #[trigger] end.outbox[i] == d.farewell(id) by {
        assert(ids.to_set().contains(id));
        let j = choose|j: int| 0 <= j < ids.len() && ids[j] == id;
        assert(end.outbox[d.outbox.len() + j] == d.farewell(id));
    }
}

/// However the loop around a join stream ends, no grant is left behind and the driver
/// is closed; and while it goes on, the driver is not closed by it.
pub proof fn law_every_exit_stops_the_driver(
    d: DriverView,
    heard: Heard,
    now: int,
    next: DriverView,
    flow: Flow,
)
    requires
        turn(d, heard, now, next, flow),
    ensures
        flow is Exit ==> next.closed && next.grants.dom() =~= Set::<Seq<char>>::empty(),
        flow !is Exit ==> next.closed == d.closed,
{
    if let Heard::Frame(join) = heard {
        lemma_heard_keeps_closed(d, join, now);
    }
}

proof fn lemma_heard_keeps_closed(d: DriverView, join: JoinMessage, now: int)
    ensures
        d.heard(join, now).closed == d.closed,
{
    if let Some(JoinMsg::Consumer(c)) = join.msg {
        if let Some(ConsumerMsg::Client(client)) = c.msg {
            match client.msg {
                Some(ClientMsg::Assign(a)) => {
                    lemma_assigned_all_keeps_closed(d, a.grants@, now);
                },
                Some(ClientMsg::Promote(p)) => {
                    lemma_promoted_all_keeps_closed(d, p.grants@);
                },
                Some(ClientMsg::Revoke(r)) => {
                    lemma_revoked_all_keeps_closed(d, r.grants@);
                },
                _ => {},
            }
        }
    }
}

proof fn lemma_assigned_all_keeps_closed(d: DriverView, grants: Seq<Grant>, now: int)
    ensures
        d.assigned_all(grants, now).closed == d.closed,
    decreases grants.len(),
{
    if grants.len() > 0 {
        lemma_assigned_all_keeps_closed(d, grants.drop_last(), now);
    }
}

proof fn lemma_promoted_all_keeps_closed(d: DriverView, grants: Seq<Grant>)
    ensures
        d.promoted_all(grants).closed == d.closed,
    decreases grants.len(),
{
    if grants.len() > 0 {
        lemma_promoted_all_keeps_closed(d, grants.drop_last());
    }
}

proof fn lemma_revoked_all_keeps_closed(d: DriverView, grants: Seq<Grant>)
    ensures
        d.revoked_all(grants).closed == d.closed,
    decreases grants.len(),
{
    if grants.len() > 0 {
        lemma_revoked_all_keeps_closed(d, grants.drop_last());
    }
}

/// A shutdown tells the coordinator first that the consumer deregisters and then that
/// the session is closed; only after that are the grants let go. It ends well.
pub proof fn law_shutdown_says_goodbye_first(
    d: DriverView,
    now: int,
    next: DriverView,
    flow: Flow,
)
    requires
        turn(d, Heard::Shutdown, now, next, flow),
    ensures
        ({
            let goodbye = d.outbox.push(EffectView::Send(OutboundView::Deregister)).push(
                EffectView::Send(OutboundView::Closed { error: "client shutdown"@ }),
            );
            &&& goodbye.is_prefix_of(next.outbox)
            &&& next.outbox.len() == goodbye.len() + d.grants.len()
            &&& forall|i: int| goodbye.len() <= i < next.outbox.len() ==> #[trigger] next.outbox[i] is Tell
        }),
        flow matches Flow::Exit(Ok(())),
{
    let goodbye = d.sending(OutboundView::Deregister).sending(
        OutboundView::Closed { error: "client shutdown"@ },
    );
    law_stopping_lets_every_grant_go(goodbye, next);
    assert(goodbye.outbox =~= next.outbox.take(goodbye.outbox.len() as int));
    let ids = choose|ids: Seq<Seq<char>>|
        ids.no_duplicates() && ids.to_set() == goodbye.grants.dom() && next
            == #[trigger] goodbye.stopped(ids);
    assert forall|i: int| goodbye.outbox.len() <= i < next.outbox.len() implies #[trigger] next.outbox[i] is Tell by {
        assert(next.outbox[i] == goodbye.farewell(ids[i - goodbye.outbox.len()]));
    }
}

// ---------- Signals ----------

/// The coordinator hears of a signal once, however often the user gives it.
pub proof fn law_signal_is_reported_once(d: DriverView, id: Seq<char>, s: Signal)
    ensures
        d.signalled(id, s).signalled(id, s) == d.signalled(id, s),
{
    let once = d.signalled(id, s);
    let twice = once.signalled(id, s);
    if d.grants.contains_key(id) {
        assert(twice.grants =~= once.grants);
    }
}

/// The first signal on a grant that is known and has not expired is reported.
pub proof fn law_first_signal_is_reported(d: DriverView, id: Seq<char>, s: Signal)
    requires
        d.grants.contains_key(id),
        !d.grants[id].ownership.expired,
        !d.grants[id].has_signalled(s),
    ensures
        d.signalled(id, s).outbox == d.outbox.push(EffectView::Send(d.grants[id].report(s))),
{
}

/// Nothing is reported of a grant that has expired or is not known.
pub proof fn law_expired_grant_reports_nothing(d: DriverView, id: Seq<char>, s: Signal)
    requires
        d.grants.contains_key(id) ==> d.grants[id].ownership.expired,
    ensures
        d.signalled(id, s).outbox == d.outbox,
{
}

/// What waits stays in its order: signals and the clock only add to its end.
pub proof fn law_outbox_only_grows(d: DriverView, id: Seq<char>, s: Signal, now: int)
    ensures
        d.outbox.is_prefix_of(d.signalled(id, s).outbox),
        d.signalled(id, s).outbox.len() <= d.outbox.len() + 1,
        d.timed(id, now).outbox == d.outbox,
{
}

// ---------- What the coordinator says ----------

/// An extension moves the lease of each grant that is not on its way out, and of no
/// other.
pub proof fn law_extension_spares_revoked_grants(d: DriverView, e: Extend, id: Seq<char>)
    requires
        d.grants.contains_key(id),
        e.lease is Some,
    ensures
        d.grants[id].revoked ==> d.extended(e).grants[id] == d.grants[id],
        !d.grants[id].revoked ==> d.extended(e).grants[id].ownership.expiration == time_of(
            e.lease->Some_0,
        ),
{
}

/// A grant that is not known is not promoted, revoked or told of.
pub proof fn law_unknown_grants_are_passed_over(d: DriverView, g: Grant, n: Notify)
    requires
        !d.grants.contains_key(g.id@),
        n.target == Some(g),
    ensures
        d.promoted(g) == d,
        d.after_revoke(g) == d,
        d.notified(n) == d,
{
}

/// A grant that is assigned again is replaced: the table is as if it had been
/// assigned once.
pub proof fn law_assigning_again_replaces(d: DriverView, g: Grant, before: int, now: int)
    ensures
        d.assigned(g, before).assigned(g, now).grants == d.assigned(g, now).grants,
{
    assert(d.assigned(g, before).assigned(g, now).grants =~= d.assigned(g, now).grants);
}

/// Messages other than an assignment open no latch of a grant that is known again,
/// and forget none.
pub proof fn law_messages_keep_closed_latches(
    d: DriverView,
    msg: ClientMessage,
    now: int,
    id: Seq<char>,
)
    requires
        !(msg.msg matches Some(ClientMsg::Assign(_))),
        d.grants.contains_key(id),
    ensures
        d.told(msg, now).grants.contains_key(id),
        d.grants[id].ownership.grows_to(d.told(msg, now).grants[id].ownership),
{
    match msg.msg {
        Some(ClientMsg::Promote(p)) => {
            lemma_promoted_all_keeps(d, p.grants@);
            assert(d.promoted_all(p.grants@).grants.dom().contains(id));
        },
        Some(ClientMsg::Revoke(r)) => {
            lemma_revoked_all_keeps(d, r.grants@);
            assert(d.revoked_all(r.grants@).grants.dom().contains(id));
        },
        _ => {},
    }
}

/// What the coordinator says makes the driver send nothing by itself.
pub proof fn law_hearing_sends_nothing(d: DriverView, join: JoinMessage, now: int)
    ensures
        sent_part(d.heard(join, now).outbox) == sent_part(d.outbox),
{
    if let Some(JoinMsg::Consumer(c)) = join.msg {
        if let Some(ConsumerMsg::Client(client)) = c.msg {
            match client.msg {
                Some(ClientMsg::Assign(a)) => {
                    lemma_assigned_all_sends_nothing(d, a.grants@, now);
                },
                Some(ClientMsg::Promote(p)) => {
                    lemma_promoted_all_keeps(d, p.grants@);
                },
                Some(ClientMsg::Revoke(r)) => {
                    lemma_revoked_all_keeps(d, r.grants@);
                },
                _ => {},
            }
        }
    }
}

proof fn lemma_assigned_all_sends_nothing(d: DriverView, grants: Seq<Grant>, now: int)
    ensures
        sent_part(d.assigned_all(grants, now).outbox) == sent_part(d.outbox),
    decreases grants.len(),
{
    if grants.len() > 0 {
        let front = d.assigned_all(grants.drop_last(), now);
        lemma_assigned_all_sends_nothing(d, grants.drop_last(), now);
        let g = grants.last();
        let gone = front.without(g.id@);
        if front.grants.contains_key(g.id@) {
            lemma_parts_of_push(front.outbox, front.farewell(g.id@));
        }
        if let Some(shard) = shard_of_grant(g) {
            lemma_parts_of_push(
                gone.outbox,
                EffectView::Tell(
                    GrantEventView::Assigned {
                        id: g.id@,
                        shard,
                        ownership: fresh_entry(g, now).ownership,
                    },
                ),
            );
        }
    }
}

/// The coordinator reads the consumer that registers, endpoint and all, and its
/// service back from the registration, where the consumer came to be at or after the
/// epoch.
pub proof fn law_registration_reads_back(
    r: Register,
    consumer: InstanceView,
    service: ServiceView,
    key_names: Seq<DomainKeyName>,
    capacity_limit: u64,
)
    requires
        registers(r, consumer, service, key_names, capacity_limit),
        0 <= consumer.created < (i64::MAX + 1) * NANOS_PER_SEC,
    ensures
        peer_of(r.consumer->Some_0) == Ok::<InstanceView, ErrorView>(consumer),
        service_of(r.service->Some_0) == service,
{
    law_instance_survives_the_wire(r.consumer->Some_0, consumer);
}

} // verus!
