//! Session sub-protocol.
//!
//! Helpers to build the outbound session frames that are embedded in a join stream
//! and to classify the inbound ones.
//!
//! The session lifecycle is:
//!   1. client sends `Establish { client, id }`
//!   2. server responds `Established { ttl, server }` — record ttl
//!   3. client periodically sends `Heartbeat { now }`
//!   4. server responds `HeartbeatAck { ttl }` — refresh ttl
//!   5. either side sends `Closed { error }` to terminate
//!
//! Heartbeats are sent at `ttl / 3` to give the server ample opportunity to
//! respond before the lease would lapse.

use vstd::prelude::*;

use crate::consumer_pb::{JoinMessage, JoinMsg};
use crate::location_pb;
use crate::session_pb;
use crate::session_pb::Request;
use crate::time::{Duration, SystemTime};
use crate::wrap::{system_time_to_timestamp, time_of, timestamp_of, timestamp_to_system_time};

verus! {

/// Events extracted from an inbound session frame.
#[derive(Clone, Debug)]
pub enum SessionEvent {
    Established { ttl: SystemTime },
    HeartbeatAck { ttl: SystemTime },
    Closed { error: String },
}

/// What a [`SessionEvent`] stands for.
#[verifier::ext_equal]
pub enum SessionEventView {
    Established { ttl: int },
    HeartbeatAck { ttl: int },
    Closed { error: Seq<char> },
}

impl View for SessionEvent {
    type V = SessionEventView;

    open spec fn view(&self) -> SessionEventView {
        match *self {
            SessionEvent::Established { ttl } => SessionEventView::Established { ttl: ttl@ },
            SessionEvent::HeartbeatAck { ttl } => SessionEventView::HeartbeatAck { ttl: ttl@ },
            SessionEvent::Closed { error } => SessionEventView::Closed { error: error@ },
        }
    }
}

/// The event in a session frame. A frame that only a client sends holds none, nor
/// does one that should name a ttl and does not.
pub open spec fn event_of(msg: session_pb::Message) -> Option<SessionEventView> {
    match msg.request {
        Some(Request::Established(e)) => match e.ttl {
            Some(ts) => Some(SessionEventView::Established { ttl: time_of(ts) }),
            None => None,
        },
        Some(Request::Ack(a)) => match a.ttl {
            Some(ts) => Some(SessionEventView::HeartbeatAck { ttl: time_of(ts) }),
            None => None,
        },
        Some(Request::Closed(c)) => Some(SessionEventView::Closed { error: c.error@ }),
        Some(Request::Establish(_)) => None,
        Some(Request::Heartbeat(_)) => None,
        None => None,
    }
}

/// The event in an inbound session frame.
pub fn classify(msg: &session_pb::Message) -> (r: Option<SessionEvent>)
    ensures
        match r {
            Some(e) => event_of(*msg) == Some(e@),
            None => event_of(*msg) is None,
        },
{
    match &msg.request {
        Some(Request::Established(e)) => match &e.ttl {
            Some(ts) => Some(SessionEvent::Established { ttl: timestamp_to_system_time(ts) }),
            None => None,
        },
        Some(Request::Ack(a)) => match &a.ttl {
            Some(ts) => Some(SessionEvent::HeartbeatAck { ttl: timestamp_to_system_time(ts) }),
            None => None,
        },
        Some(Request::Closed(c)) => Some(SessionEvent::Closed { error: c.error.clone() }),
        Some(Request::Establish(_)) => None,
        Some(Request::Heartbeat(_)) => None,
        None => None,
    }
}

/// A session frame inside a join stream.
pub open spec fn session_frame(req: Request) -> JoinMessage {
    JoinMessage { msg: Some(JoinMsg::Session(session_pb::Message { request: Some(req) })) }
}

/// The frame that asks for a session.
pub fn establish_frame(client: location_pb::Instance, session_id: String) -> (r: JoinMessage)
    ensures
        r == session_frame(
            Request::Establish(session_pb::Establish { client: Some(client), id: session_id }),
        ),
{
    wrap(Request::Establish(session_pb::Establish { client: Some(client), id: session_id }))
}

/// The frame that keeps a session alive.
pub fn heartbeat_frame(now: SystemTime) -> (r: JoinMessage)
    ensures
        r == session_frame(
            Request::Heartbeat(session_pb::Heartbeat { now: Some(timestamp_of(now@)) }),
        ),
{
    wrap(
        Request::Heartbeat(session_pb::Heartbeat { now: Some(system_time_to_timestamp(now)) }),
    )
}

/// The message of a frame that ends a session.
pub open spec fn is_closed_frame(r: JoinMessage, error: String) -> bool {
    r == session_frame(Request::Closed(session_pb::Closed { error }))
}

/// The frame that ends a session.
pub fn closed_frame<S: Into<String>>(error: S) -> (r: JoinMessage)
    ensures
        exists|text: String| #[trigger]
            is_closed_frame(r, text) && call_ensures(
                <S as Into<String>>::into,
                (error,),
                text,
            ),
{
    let text: String = error.into();
    let r = wrap(Request::Closed(session_pb::Closed { error: text }));
    assert(is_closed_frame(r, text));
    r
}

fn wrap(req: Request) -> (r: JoinMessage)
    ensures
        r == session_frame(req),
{
    JoinMessage { msg: Some(JoinMsg::Session(session_pb::Message { request: Some(req) })) }
}

/// The time between heartbeats while the lease of the session is not known yet.
pub fn initial_heartbeat_delay() -> (d: Duration)
    ensures
        d@ == 60_000_000_000,
{
    Duration::from_secs(60)
}

/// The shortest time between heartbeats, in nanoseconds: a stale ttl does not make
/// the loop spin.
pub const MIN_HEARTBEAT_NANOS: u128 = 250_000_000;

/// The longest time between heartbeats, in nanoseconds, as a sanity ceiling.
pub const MAX_HEARTBEAT_NANOS: u128 = 30_000_000_000;

/// How long after `now` the next heartbeat is due: a third of what is left of the
/// lease, within the two bounds.
pub open spec fn heartbeat_due(ttl: int, now: int) -> int {
    let third = if now < ttl {
        (ttl - now) / 3
    } else {
        0
    };
    if third < MIN_HEARTBEAT_NANOS {
        MIN_HEARTBEAT_NANOS as int
    } else if third > MAX_HEARTBEAT_NANOS {
        MAX_HEARTBEAT_NANOS as int
    } else {
        third
    }
}

/// Given a lease expiration, compute when to next send a heartbeat.
/// Returns a duration from `now`. Bounded to at least 250ms so the loop
/// doesn't spin on a stale ttl, and at most 30s as a sanity ceiling.
pub fn heartbeat_delay(ttl: SystemTime, now: SystemTime) -> (d: Duration)
    ensures
        d@ == heartbeat_due(ttl@, now@),
{
    let remaining = ttl.remaining(now);
    let third = remaining.third();
    third.clamp(Duration::from_millis(250), Duration::from_secs(30))
}

/// The time between heartbeats is at least 250ms and at most 30s.
pub proof fn law_heartbeat_delay_is_bounded(ttl: int, now: int)
    ensures
        250_000_000 <= heartbeat_due(ttl, now) <= 30_000_000_000,
{
}

/// Where at least three times the shortest delay is left of the lease, the server
/// has at least two thirds of what is left to respond before the lease would lapse.
pub proof fn law_heartbeat_leaves_two_thirds(ttl: int, now: int)
    requires
        ttl - now >= 3 * MIN_HEARTBEAT_NANOS,
    ensures
        3 * heartbeat_due(ttl, now) <= ttl - now,
{
}

/// A frame that the client builds holds no event for the client; only the frame that
/// ends a session, which either side may send, does.
pub proof fn law_client_frames_hold_no_event(e: session_pb::Establish, h: session_pb::Heartbeat)
    ensures
        event_of(session_pb::Message { request: Some(Request::Establish(e)) }) is None,
        event_of(session_pb::Message { request: Some(Request::Heartbeat(h)) }) is None,
{
}

/// Between three times the shortest and three times the longest delay, a heartbeat is
/// due after a third of what is left of the lease; below, after the shortest delay, and
/// above, after the longest.
pub proof fn law_heartbeat_is_due_after_a_third(ttl: SystemTime, now: SystemTime, d: Duration)
    requires
        call_ensures(heartbeat_delay, (ttl, now), d),
    ensures
        ttl@ - now@ <= 750_000_000 ==> d@ == 250_000_000,
        ttl@ - now@ >= 90_000_000_000 ==> d@ == 30_000_000_000,
        750_000_000 <= ttl@ - now@ <= 90_000_000_000 ==> 3 * d@ <= ttl@ - now@ < 3 * d@ + 3,
{
}

/// What a server's frame brings is read from it as it stands: the time of its ttl, or
/// its error. Without a ttl there is nothing to read.
pub proof fn law_server_frames_are_read(
    msg: &session_pb::Message,
    r: Option<SessionEvent>,
)
    requires
        call_ensures(classify, (msg,), r),
    ensures
        msg.request is None ==> r is None,
        msg.request matches Some(Request::Established(e)) ==> match e.ttl {
            None => r is None,
            Some(ts) => r matches Some(SessionEvent::Established { ttl }) && ttl@ == time_of(ts),
        },
        msg.request matches Some(Request::Ack(a)) ==> match a.ttl {
            None => r is None,
            Some(ts) => r matches Some(SessionEvent::HeartbeatAck { ttl }) && ttl@ == time_of(ts),
        },
        msg.request matches Some(Request::Closed(c)) ==> (r matches Some(
            SessionEvent::Closed { error },
        ) && error@ == c.error@),
        msg.request matches Some(Request::Establish(_)) ==> r is None,
        msg.request matches Some(Request::Heartbeat(_)) ==> r is None,
{
}

/// A frame that ends a session is read as the end of the session, with the same error.
pub proof fn law_closed_frame_is_read_back(
    text: &str,
    frame: JoinMessage,
    msg: session_pb::Message,
    r: Option<SessionEvent>,
)
    requires
        call_ensures(closed_frame::<&str>, (text,), frame),
        frame.msg == Some(JoinMsg::Session(msg)),
        call_ensures(classify, (&msg,), r),
    ensures
        r matches Some(SessionEvent::Closed { error }) && error@ == text@,
{
}

/// The frames of a client carry what it gives them and nothing else: who it is and the
/// id of the session, the time, or the error.
pub proof fn law_client_frames_carry_their_content(
    client: location_pb::Instance,
    id: String,
    now: SystemTime,
    text: &str,
    establish: JoinMessage,
    heartbeat: JoinMessage,
    closed: JoinMessage,
)
    requires
        call_ensures(establish_frame, (client, id), establish),
        call_ensures(heartbeat_frame, (now,), heartbeat),
        call_ensures(closed_frame::<&str>, (text,), closed),
    ensures
        establish.msg matches Some(JoinMsg::Session(m)) && m.request matches Some(
            Request::Establish(e),
        ) && e.client == Some(client) && e.id@ == id@,
        heartbeat.msg matches Some(JoinMsg::Session(m)) && m.request matches Some(
            Request::Heartbeat(h),
        ) && (h.now matches Some(ts) && (0 <= now@ < (i64::MAX + 1) * 1_000_000_000 ==> time_of(ts)
            == now@)),
        closed.msg matches Some(JoinMsg::Session(m)) && m.request matches Some(
            Request::Closed(c),
        ) && c.error@ == text@,
{
    if 0 <= now@ < (i64::MAX + 1) * 1_000_000_000 {
        crate::wrap::law_time_survives_the_wire(now@);
    }
}

/// Before the lease of the session is known, a heartbeat is due once a minute.
pub proof fn law_heartbeats_start_once_a_minute(d: Duration)
    requires
        call_ensures(initial_heartbeat_delay, (), d),
    ensures
        d@ == 60 * 1_000_000_000,
{
}

} // verus!
