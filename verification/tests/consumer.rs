use splitter_client::cluster_pb::{ClusterMessage, ClusterMsg, Snapshot};
use splitter_client::consumer::{
    build_register, revoke_frame, shutdown_result, update_frame, Effect, Flow, Heard, Signal,
    TaskEnd,
};
use splitter_client::consumer_pb::{
    Assign, ClientMessage, ClientMsg, ConsumerMessage, ConsumerMsg, Deregister, Extend,
    JoinMessage, JoinMsg, Notify, Promote, Released, Revoke,
};
use splitter_client::error::{Code, Status};
use splitter_client::ownership::TimerStep;
use splitter_client::pb::{self, Grant, Timestamp};
use splitter_client::session_pb::{Closed, Established, HeartbeatAck, Message, Request};
use splitter_client::time::SystemTime;
use splitter_client::{
    ClientError, ConsumerOptions, DomainKeyName, Driver, GrantEvent, GrantId, Instance,
    InstanceId, Location, OwnershipState, QualifiedServiceName,
};

const ACTIVE: i32 = 1;
const ALLOCATED: i32 = 2;
const REVOKED: i32 = 3;
const LOADED: i32 = 4;
const UNLOADED: i32 = 5;

fn at(secs: i128) -> SystemTime {
    SystemTime::from_epoch_nanos(secs * 1_000_000_000).unwrap()
}

fn stamp(seconds: i64) -> Option<Timestamp> {
    Some(Timestamp { seconds, nanos: 0 })
}

fn me() -> Instance {
    Instance {
        id: InstanceId(0x12),
        location: Location::new("local", "test"),
        name: "consumer".into(),
        created: at(50),
        endpoint: "h:1".into(),
    }
}

/// A driver with what it has said so far, sorted by whom it was said to.
struct Rig {
    driver: Driver,
    frames: Vec<JoinMessage>,
    events: Vec<GrantEvent>,
}

impl Rig {
    fn new(driver: Driver) -> Self {
        Rig { driver, frames: Vec::new(), events: Vec::new() }
    }

    fn collect(&mut self) {
        for effect in self.driver.take_outbox() {
            match effect {
                Effect::Send(m) => self.frames.push(m),
                Effect::Tell(e) => self.events.push(e),
            }
        }
    }

    fn take_outbound(&mut self) -> Vec<JoinMessage> {
        self.collect();
        std::mem::take(&mut self.frames)
    }

    fn take_events(&mut self) -> Vec<GrantEvent> {
        self.collect();
        std::mem::take(&mut self.events)
    }
}

impl std::ops::Deref for Rig {
    type Target = Driver;

    fn deref(&self) -> &Driver {
        &self.driver
    }
}

impl std::ops::DerefMut for Rig {
    fn deref_mut(&mut self) -> &mut Driver {
        &mut self.driver
    }
}

fn driver() -> Rig {
    let mut d = Rig::new(Driver::with_session(
        "session".to_string(),
        me(),
        QualifiedServiceName::new("t", "s"),
        &ConsumerOptions::default(),
    ));
    d.take_outbound();
    d
}

fn pb_shard() -> pb::Shard {
    pb::Shard {
        domain: Some(pb::QualifiedDomainName {
            service: Some(pb::QualifiedServiceName {
                tenant: "t".to_string(),
                service: "s".to_string(),
            }),
            name: "d".to_string(),
        }),
        kind: 2,
        region: String::new(),
        from: String::new(),
        to: String::new(),
    }
}

fn grant(id: &str, state: i32, lease: Option<Timestamp>) -> Grant {
    Grant { id: id.to_string(), shard: Some(pb_shard()), state, lease }
}

fn gid(id: &str) -> GrantId {
    GrantId(id.into())
}

fn client(msg: ClientMsg) -> JoinMessage {
    JoinMessage {
        msg: Some(JoinMsg::Consumer(ConsumerMessage {
            msg: Some(ConsumerMsg::Client(ClientMessage { msg: Some(msg) })),
        })),
    }
}

fn session(request: Request) -> JoinMessage {
    JoinMessage { msg: Some(JoinMsg::Session(Message { request: Some(request) })) }
}

fn assign(d: &mut Rig, grants: Vec<Grant>) {
    let flow = d.step(Heard::Frame(client(ClientMsg::Assign(Assign { grants }))), at(1000));
    assert!(matches!(flow, Flow::Continue));
}

fn tell(d: &mut Rig, msg: ClientMsg) {
    assert!(matches!(d.step(Heard::Frame(client(msg)), at(1000)), Flow::Continue));
}

fn client_msg(m: &JoinMessage) -> &ClientMsg {
    match &m.msg {
        Some(JoinMsg::Consumer(ConsumerMessage {
            msg: Some(ConsumerMsg::Client(ClientMessage { msg: Some(c) })),
        })) => c,
        _ => panic!("not a client message"),
    }
}

fn ownership(d: &Rig, id: &str) -> OwnershipState {
    d.ownership(&gid(id)).expect("known grant")
}

#[test]
fn a_driver_opens_with_establish_and_register() {
    let opts = ConsumerOptions::default()
        .with_key_name(DomainKeyName { domain: "d".into(), name: "k".to_string() })
        .with_capacity_limit(7);
    let mut d = Rig::new(Driver::with_session(
        "sid".to_string(),
        me(),
        QualifiedServiceName::new("t", "s"),
        &opts,
    ));
    assert!(!d.is_closed());
    let frames = d.take_outbound();
    assert_eq!(frames.len(), 2);
    match &frames[0].msg {
        Some(JoinMsg::Session(Message { request: Some(Request::Establish(e)) })) => {
            assert_eq!(e.id, "sid");
            let c = e.client.as_ref().unwrap();
            assert_eq!(c.id, "00000000-0000-0000-0000-000000000012");
            assert_eq!(c.created, stamp(50));
            assert_eq!(c.name, "consumer");
        }
        _ => panic!("establish first"),
    }
    match client_msg(&frames[1]) {
        ClientMsg::Register(r) => {
            assert_eq!(r.consumer.as_ref().unwrap().endpoint, "h:1");
            assert_eq!(r.service.as_ref().unwrap().tenant, "t");
            assert!(r.domains.is_empty());
            assert!(r.active.is_empty());
            let o = r.options.as_ref().unwrap();
            assert_eq!(o.capacity_limit, 7);
            assert_eq!(o.names.len(), 1);
            assert_eq!(o.names[0].domain, "d");
            assert_eq!(o.names[0].name, "k");
        }
        _ => panic!("register second"),
    }
    assert!(d.take_outbound().is_empty());
}

#[test]
fn each_driver_has_a_session_id_of_its_own() {
    let id = || {
        let service = QualifiedServiceName::new("t", "s");
        let mut d = Rig::new(Driver::new(me(), service, &ConsumerOptions::default()));
        match d.take_outbound().remove(0).msg {
            Some(JoinMsg::Session(Message { request: Some(Request::Establish(e)) })) => e.id,
            _ => panic!("establish first"),
        }
    };
    let (a, b) = (id(), id());
    assert_ne!(a, b);
    assert_eq!(a.len(), 36);
    assert_eq!(a.as_bytes()[14], b'4');
}

#[test]
fn registration_carries_the_options() {
    let m = build_register(
        me(),
        QualifiedServiceName::new("t", "s"),
        &ConsumerOptions::default().with_capacity_limit(3),
    );
    match client_msg(&m) {
        ClientMsg::Register(r) => assert_eq!(r.options.as_ref().unwrap().capacity_limit, 3),
        _ => panic!("register"),
    }
}

#[test]
fn join_receives_initial_cluster_update() {
    let mut d = driver();
    assert!(d.take_cluster().is_none());
    assert_eq!(d.cluster().id.version, 0);
    let snap = ClusterMessage {
        id: "c".to_string(),
        version: 12,
        timestamp: stamp(1),
        msg: Some(ClusterMsg::Snapshot(Snapshot {
            shards: vec![pb_shard()],
            origin: None,
            assignments: vec![],
        })),
    };
    let frame = JoinMessage {
        msg: Some(JoinMsg::Consumer(ConsumerMessage {
            msg: Some(ConsumerMsg::Cluster(snap)),
        })),
    };
    assert!(matches!(d.step(Heard::Frame(frame), at(1000)), Flow::Continue));
    let snap = d.take_cluster().expect("cluster update arrived");
    assert!(snap.id.version > 0);
    assert_eq!(snap.id.version, 12);
    assert_eq!(snap.shards.len(), 1);
    assert!(d.take_cluster().is_none());
}

#[test]
fn a_cluster_message_that_cannot_be_taken_up_is_passed_over() {
    let mut d = driver();
    let bad = ClusterMessage { id: "c".to_string(), version: 1, timestamp: None, msg: None };
    let frame = JoinMessage {
        msg: Some(JoinMsg::Consumer(ConsumerMessage { msg: Some(ConsumerMsg::Cluster(bad)) })),
    };
    assert!(matches!(d.step(Heard::Frame(frame), at(1000)), Flow::Continue));
    assert!(d.take_cluster().is_none());
    assert_eq!(d.cluster().id.version, 0);
}

#[test]
fn shutdown_closes_driver_cleanly() {
    let mut d = driver();
    assign(&mut d, vec![grant("g", ACTIVE, stamp(2000))]);
    d.take_events();
    assert!(!d.is_closed(), "freshly-joined driver shouldn't be closed");
    let flow = d.step(Heard::Shutdown, at(1000));
    assert!(matches!(flow, Flow::Exit(Ok(()))), "no shutdown error");
    assert!(d.is_closed());
    let frames = d.take_outbound();
    assert_eq!(frames.len(), 2);
    assert!(matches!(client_msg(&frames[0]), ClientMsg::Deregister(_)));
    match &frames[1].msg {
        Some(JoinMsg::Session(Message { request: Some(Request::Closed(c)) })) => {
            assert_eq!(c.error, "client shutdown");
        }
        _ => panic!("closed last"),
    }
    let events = d.take_events();
    assert_eq!(events.len(), 1);
    match &events[0] {
        GrantEvent::Removed { id, ownership } => {
            assert_eq!(id.as_str(), "g");
            assert!(ownership.expired);
        }
        _ => panic!("removed"),
    }
}

#[test]
fn goodbye_is_said_before_the_grants_are_let_go() {
    let mut d = driver();
    assign(&mut d, vec![grant("a", ACTIVE, stamp(2000)), grant("b", ACTIVE, stamp(2000))]);
    d.collect();
    assert!(matches!(d.step(Heard::Shutdown, at(1000)), Flow::Exit(Ok(()))));
    let order: Vec<&str> = d
        .take_outbox()
        .iter()
        .map(|e| match e {
            Effect::Send(_) => "send",
            Effect::Tell(_) => "tell",
        })
        .collect();
    assert_eq!(order, vec!["send", "send", "tell", "tell"]);
}

#[test]
fn the_end_of_time_matters_only_for_a_default_lease() {
    let mut d = driver();
    let end = SystemTime::from_epoch_nanos(splitter_client::time::MAX_TIME_NANOS).unwrap();
    let frame = client(ClientMsg::Assign(Assign { grants: vec![grant("g", ACTIVE, stamp(5))] }));
    assert!(matches!(d.step(Heard::Frame(frame), end), Flow::Continue));
    assert!(ownership(&d, "g").expired);
    assert!(matches!(d.step(Heard::Shutdown, end), Flow::Exit(Ok(()))));
}

#[test]
fn a_failed_stream_ends_the_driver() {
    let mut d = driver();
    assign(&mut d, vec![grant("g", ACTIVE, stamp(2000))]);
    let status = Status::new(Code::NotFound, "no such service");
    match d.step(Heard::Failed(status.clone()), at(1000)) {
        Flow::Exit(Err(e)) => assert_eq!(e, ClientError::Transport(status)),
        _ => panic!("driver exits"),
    }
    assert!(d.is_closed());
    assert!(d.ids().is_empty());
}

#[test]
fn every_end_of_the_stream_lets_the_grants_go() {
    let ends: Vec<(Heard, ClientError)> = vec![
        (Heard::Ended, ClientError::SessionClosed("stream ended".to_string())),
        (Heard::Unsent, ClientError::SessionClosed("outbound dropped".to_string())),
        (
            Heard::Frame(session(Request::Closed(Closed { error: "evicted".to_string() }))),
            ClientError::SessionClosed("evicted".to_string()),
        ),
    ];
    for (heard, error) in ends {
        let mut d = driver();
        assign(&mut d, vec![grant("a", ACTIVE, None), grant("b", ALLOCATED, None)]);
        d.take_events();
        match d.step(heard, at(1000)) {
            Flow::Exit(Err(e)) => assert_eq!(e, error),
            _ => panic!("driver exits"),
        }
        assert!(d.is_closed());
        assert!(d.ids().is_empty());
        let mut gone: Vec<String> = d
            .take_events()
            .iter()
            .map(|e| match e {
                GrantEvent::Removed { id, .. } => id.to_string(),
                _ => panic!("removed"),
            })
            .collect();
        gone.sort();
        assert_eq!(gone, vec!["a", "b"]);
    }
}

#[test]
fn the_session_lease_sets_the_heartbeat() {
    let mut d = driver();
    let e = Request::Established(Established { ttl: stamp(1060), server: None });
    match d.step(Heard::Frame(session(e)), at(1000)) {
        Flow::Heartbeat(delay) => assert_eq!(delay.as_secs(), 20),
        _ => panic!("heartbeat"),
    }
    let a = Request::Ack(HeartbeatAck { ttl: stamp(1009) });
    match d.step(Heard::Frame(session(a)), at(1000)) {
        Flow::Heartbeat(delay) => assert_eq!(delay.as_secs(), 3),
        _ => panic!("heartbeat"),
    }
    assert!(matches!(d.step(Heard::Tick, at(1003)), Flow::Continue));
    let frames = d.take_outbound();
    match &frames[0].msg {
        Some(JoinMsg::Session(Message { request: Some(Request::Heartbeat(h)) })) => {
            assert_eq!(h.now, stamp(1003));
        }
        _ => panic!("heartbeat frame"),
    }
}

#[test]
fn frames_without_content_are_passed_over() {
    let mut d = driver();
    let empty = JoinMessage { msg: None };
    let nothing = JoinMessage { msg: Some(JoinMsg::Consumer(ConsumerMessage { msg: None })) };
    let ack = session(Request::Ack(HeartbeatAck { ttl: None }));
    for frame in vec![empty, nothing, ack] {
        assert!(matches!(d.step(Heard::Frame(frame), at(1000)), Flow::Continue));
    }
    assert!(d.take_outbound().is_empty());
    assert!(d.take_events().is_empty());
}

#[test]
fn an_assigned_grant_is_told_with_its_ownership() {
    let mut d = driver();
    assign(&mut d, vec![grant("g", ALLOCATED, stamp(1500))]);
    let events = d.take_events();
    assert_eq!(events.len(), 1);
    match &events[0] {
        GrantEvent::Assigned { id, shard, ownership } => {
            assert_eq!(id.as_str(), "g");
            assert_eq!(shard.domain.name.as_str(), "d");
            assert_eq!(ownership.expiration.epoch_nanos(), 1_500_000_000_000);
            assert!(!ownership.active);
        }
        _ => panic!("assigned"),
    }
    assert_eq!(d.ids().len(), 1);
}

#[test]
fn a_grant_without_a_lease_has_thirty_seconds() {
    let mut d = driver();
    assign(&mut d, vec![grant("g", ACTIVE, None)]);
    assert_eq!(ownership(&d, "g").expiration.epoch_nanos(), 1_030_000_000_000);
    assert!(ownership(&d, "g").active);
}

#[test]
fn a_grant_without_a_valid_shard_is_passed_over() {
    let mut d = driver();
    let mut no_shard = grant("a", ACTIVE, None);
    no_shard.shard = None;
    let mut bad_shard = grant("b", ACTIVE, None);
    bad_shard.shard.as_mut().unwrap().domain = None;
    assign(&mut d, vec![no_shard, bad_shard, grant("c", ACTIVE, None)]);
    let ids: Vec<String> = d.ids().iter().map(|g| g.to_string()).collect();
    assert_eq!(ids, vec!["c"]);
    assert_eq!(d.take_events().len(), 1);
}

#[test]
fn a_grant_that_is_assigned_again_is_a_new_grant() {
    let mut d = driver();
    assign(&mut d, vec![grant("g", ACTIVE, stamp(1500))]);
    d.signal(&gid("g"), Signal::Load);
    assign(&mut d, vec![grant("g", ALLOCATED, stamp(1600))]);
    let events = d.take_events();
    assert_eq!(events.len(), 3);
    match &events[1] {
        GrantEvent::Removed { id, ownership } => {
            assert_eq!(id.as_str(), "g");
            assert!(ownership.expired);
            assert!(ownership.active);
        }
        _ => panic!("removed"),
    }
    assert!(matches!(&events[2], GrantEvent::Assigned { .. }));
    let o = ownership(&d, "g");
    assert!(!o.active);
    assert!(!o.loaded);
    assert_eq!(d.ids().len(), 1);
}

#[test]
fn promote_and_revoke_close_their_latches() {
    let mut d = driver();
    assign(&mut d, vec![grant("g", ALLOCATED, stamp(1500))]);
    tell(&mut d, ClientMsg::Promote(Promote { grants: vec![grant("g", ACTIVE, None)] }));
    assert!(ownership(&d, "g").active);
    assert_eq!(ownership(&d, "g").expiration.epoch_nanos(), 1_500_000_000_000);
    tell(&mut d, ClientMsg::Revoke(Revoke { grants: vec![grant("g", REVOKED, stamp(1700))] }));
    let o = ownership(&d, "g");
    assert!(o.revoked);
    assert!(o.active);
    assert_eq!(o.expiration.epoch_nanos(), 1_700_000_000_000);
}

#[test]
fn messages_on_unknown_grants_are_passed_over() {
    let mut d = driver();
    let g = grant("x", ACTIVE, None);
    tell(&mut d, ClientMsg::Promote(Promote { grants: vec![g.clone()] }));
    tell(&mut d, ClientMsg::Revoke(Revoke { grants: vec![g.clone()] }));
    tell(&mut d, ClientMsg::Notify(Notify { target: Some(g.clone()), update: Some(g.clone()) }));
    tell(&mut d, ClientMsg::Released(Released { grants: vec![g] }));
    tell(&mut d, ClientMsg::Deregister(Deregister {}));
    d.signal(&gid("x"), Signal::Load);
    assert!(matches!(d.timer(&gid("x"), at(9)), TimerStep::Stop));
    assert!(d.ids().is_empty());
    assert!(d.take_events().is_empty());
    assert!(d.take_outbound().is_empty());
}

#[test]
fn news_of_the_counterpart_reach_loader_and_unloader() {
    let mut d = driver();
    assign(&mut d, vec![grant("g", ALLOCATED, stamp(1500))]);
    let notify = |state| Notify {
        target: Some(grant("g", ALLOCATED, None)),
        update: Some(grant("other", state, None)),
    };
    tell(&mut d, ClientMsg::Notify(notify(ACTIVE)));
    assert!(!ownership(&d, "g").counterpart_unloaded);
    assert!(!ownership(&d, "g").counterpart_loaded);
    tell(&mut d, ClientMsg::Notify(notify(UNLOADED)));
    assert!(ownership(&d, "g").counterpart_unloaded);
    assert!(!ownership(&d, "g").counterpart_loaded);
    tell(&mut d, ClientMsg::Notify(notify(LOADED)));
    assert!(ownership(&d, "g").counterpart_loaded);
    // One that names no target or no update says nothing.
    tell(&mut d, ClientMsg::Notify(Notify { target: None, update: None }));
}

#[test]
fn an_extension_spares_revoked_grants() {
    let mut d = driver();
    assign(
        &mut d,
        vec![
            grant("a", ACTIVE, stamp(1500)),
            grant("b", REVOKED, stamp(1500)),
            grant("c", ALLOCATED, stamp(1500)),
        ],
    );
    tell(&mut d, ClientMsg::Revoke(Revoke { grants: vec![grant("c", REVOKED, None)] }));
    tell(&mut d, ClientMsg::Extend(Extend { lease: stamp(2000) }));
    assert_eq!(ownership(&d, "a").expiration.epoch_nanos(), 2_000_000_000_000);
    assert_eq!(ownership(&d, "b").expiration.epoch_nanos(), 1_500_000_000_000);
    assert_eq!(ownership(&d, "c").expiration.epoch_nanos(), 1_500_000_000_000);
    tell(&mut d, ClientMsg::Extend(Extend { lease: None }));
    assert_eq!(ownership(&d, "a").expiration.epoch_nanos(), 2_000_000_000_000);
}

#[test]
fn signals_are_reported_once_with_the_grant_as_assigned() {
    let mut d = driver();
    let g = grant("g", ALLOCATED, stamp(1500));
    assign(&mut d, vec![g.clone()]);
    tell(&mut d, ClientMsg::Promote(Promote { grants: vec![grant("g", ACTIVE, stamp(1600))] }));
    d.signal(&gid("g"), Signal::Load);
    d.signal(&gid("g"), Signal::Load);
    d.signal(&gid("g"), Signal::Unload);
    d.signal(&gid("g"), Signal::RequestRevoke);
    d.signal(&gid("g"), Signal::RequestRevoke);
    let frames = d.take_outbound();
    assert_eq!(frames.len(), 3);
    assert_eq!(frames[0], update_frame(&g, pb::GrantState::AllocatedLoaded));
    assert_eq!(frames[1], update_frame(&g, pb::GrantState::RevokedUnloaded));
    assert_eq!(frames[2], revoke_frame(&g));
    match client_msg(&frames[0]) {
        ClientMsg::Update(u) => {
            assert_eq!(u.grant, Some(Grant { state: LOADED, ..g.clone() }));
        }
        _ => panic!("update"),
    }
    match client_msg(&frames[2]) {
        ClientMsg::Revoke(r) => assert_eq!(r.grants, vec![g]),
        _ => panic!("revoke"),
    }
}

#[test]
fn an_expired_grant_reports_nothing() {
    let mut d = driver();
    assign(&mut d, vec![grant("g", ACTIVE, stamp(1010))]);
    match d.timer(&gid("g"), at(1004)) {
        TimerStep::Sleep(s) => assert_eq!(s.as_secs(), 6),
        TimerStep::Stop => panic!("not yet"),
    }
    assert!(matches!(d.timer(&gid("g"), at(1010)), TimerStep::Stop));
    assert!(ownership(&d, "g").expired);
    d.signal(&gid("g"), Signal::Load);
    assert!(d.take_outbound().is_empty());
    // The grant is still known until the coordinator or the end of the stream takes it.
    assert_eq!(d.ids().len(), 1);
    d.remove_grant(gid("g"));
    assert!(d.ids().is_empty());
}

#[test]
fn followers_can_rebuild_the_set_of_grants() {
    let mut d = driver();
    assign(&mut d, vec![grant("a", ACTIVE, None), grant("b", ACTIVE, None)]);
    assign(&mut d, vec![grant("a", ALLOCATED, None), grant("c", ACTIVE, None)]);
    d.remove_grant(gid("b"));
    let mut held = std::collections::BTreeSet::new();
    for e in d.take_events() {
        match e {
            GrantEvent::Assigned { id, .. } => held.insert(id.into_string()),
            GrantEvent::Removed { id, .. } => held.remove(id.as_str()),
        };
    }
    let known: std::collections::BTreeSet<String> =
        d.ids().into_iter().map(|g| g.into_string()).collect();
    assert_eq!(held, known);
    assert_eq!(known.len(), 2);
}

#[test]
fn the_end_of_the_task_decides_the_shutdown() {
    assert_eq!(shutdown_result(TaskEnd::Gone), Ok(()));
    assert_eq!(shutdown_result(TaskEnd::Cancelled), Ok(()));
    assert_eq!(shutdown_result(TaskEnd::Done(Ok(()))), Ok(()));
    assert_eq!(
        shutdown_result(TaskEnd::Done(Err(ClientError::Cancelled))),
        Err(ClientError::Cancelled)
    );
    assert_eq!(
        shutdown_result(TaskEnd::Broken("panic".to_string())),
        Err(ClientError::SessionClosed("panic".to_string()))
    );
}
