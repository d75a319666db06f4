use splitter_client::consumer_pb::{JoinMessage, JoinMsg};
use splitter_client::location_pb;
use splitter_client::pb::Timestamp;
use splitter_client::session::{
    classify, closed_frame, establish_frame, heartbeat_delay, heartbeat_frame,
    initial_heartbeat_delay, SessionEvent,
};
use splitter_client::session_pb::{
    Closed, Establish, Established, Heartbeat, HeartbeatAck, Message, Request,
};
use splitter_client::time::SystemTime;

fn message(request: Request) -> Message {
    Message { request: Some(request) }
}

fn ttl(seconds: i64) -> Option<Timestamp> {
    Some(Timestamp { seconds, nanos: 0 })
}

fn at_millis(ms: i128) -> SystemTime {
    SystemTime::from_epoch_nanos(ms * 1_000_000).unwrap()
}

fn request_of(m: JoinMessage) -> Request {
    match m.msg {
        Some(JoinMsg::Session(s)) => s.request.unwrap(),
        _ => panic!("not a session frame"),
    }
}

#[test]
fn server_frames_are_classified() {
    match classify(&message(Request::Established(Established { ttl: ttl(5), server: None }))) {
        Some(SessionEvent::Established { ttl }) => assert_eq!(ttl.epoch_nanos(), 5_000_000_000),
        _ => panic!("established"),
    }
    match classify(&message(Request::Ack(HeartbeatAck { ttl: ttl(6) }))) {
        Some(SessionEvent::HeartbeatAck { ttl }) => assert_eq!(ttl.epoch_nanos(), 6_000_000_000),
        _ => panic!("ack"),
    }
    match classify(&message(Request::Closed(Closed { error: "bye".to_string() }))) {
        Some(SessionEvent::Closed { error }) => assert_eq!(error, "bye"),
        _ => panic!("closed"),
    }
}

#[test]
fn frames_without_an_event_are_passed_over() {
    assert!(classify(&Message { request: None }).is_none());
    assert!(classify(&message(Request::Established(Established { ttl: None, server: None }))).is_none());
    assert!(classify(&message(Request::Ack(HeartbeatAck { ttl: None }))).is_none());
    assert!(classify(&message(Request::Heartbeat(Heartbeat { now: ttl(1) }))).is_none());
    let establish = Establish { client: None, id: "x".to_string() };
    assert!(classify(&message(Request::Establish(establish))).is_none());
}

#[test]
fn frames_say_what_they_were_given() {
    let client = location_pb::Instance {
        id: "i".to_string(),
        location: None,
        created: None,
        name: "n".to_string(),
    };
    match request_of(establish_frame(client.clone(), "sid".to_string())) {
        Request::Establish(e) => {
            assert_eq!(e.client, Some(client));
            assert_eq!(e.id, "sid");
        }
        _ => panic!("establish"),
    }
    match request_of(heartbeat_frame(at_millis(1_500))) {
        Request::Heartbeat(h) => {
            assert_eq!(h.now, Some(Timestamp { seconds: 1, nanos: 500_000_000 }));
        }
        _ => panic!("heartbeat"),
    }
    match request_of(closed_frame("client shutdown")) {
        Request::Closed(c) => assert_eq!(c.error, "client shutdown"),
        _ => panic!("closed"),
    }
}

#[test]
fn heartbeats_are_due_after_a_third_of_the_lease() {
    assert_eq!(heartbeat_delay(at_millis(6_000), at_millis(0)).as_nanos(), 2_000_000_000);
    assert_eq!(heartbeat_delay(at_millis(1_000), at_millis(0)).as_nanos(), 333_333_333);
}

#[test]
fn heartbeats_start_once_a_minute() {
    assert_eq!(initial_heartbeat_delay().as_secs(), 60);
}

#[test]
fn heartbeat_delays_are_bounded() {
    // A stale ttl, and one that is nearly over.
    assert_eq!(heartbeat_delay(at_millis(0), at_millis(9_000)).as_nanos(), 250_000_000);
    assert_eq!(heartbeat_delay(at_millis(749), at_millis(0)).as_nanos(), 250_000_000);
    assert_eq!(heartbeat_delay(at_millis(750), at_millis(0)).as_nanos(), 250_000_000);
    assert_eq!(heartbeat_delay(at_millis(90_000), at_millis(0)).as_nanos(), 30_000_000_000);
    assert_eq!(heartbeat_delay(at_millis(900_000), at_millis(0)).as_nanos(), 30_000_000_000);
}
