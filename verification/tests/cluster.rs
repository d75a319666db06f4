use splitter_client::cluster::{
    apply_assignment, drop_grant, remove_consumer, shard_covers, update_grant,
};
use splitter_client::cluster_pb::{
    Assign, Assignment, Change, ClusterMessage, ClusterMsg, GrantInfo, Remove, Shards, Snapshot,
    Unassign, Update,
};
use splitter_client::pb::{self, Timestamp};
use splitter_client::{location_pb, ClientError, ClusterMap, DomainKey, DomainType, GrantId};
use splitter_client::{
    GrantState, InstanceId, QualifiedDomainKey, QualifiedDomainName, QualifiedServiceName, Shard,
};

const A: u128 = 0xA;
const B: u128 = 0xB;

const ACTIVE: i32 = 1;
const ALLOCATED: i32 = 2;
const REVOKED: i32 = 3;
const LOADED: i32 = 4;

fn uuid(n: u128) -> String {
    format!("00000000-0000-0000-0000-{n:012x}")
}

fn pb_domain(name: &str) -> pb::QualifiedDomainName {
    pb::QualifiedDomainName {
        service: Some(pb::QualifiedServiceName {
            tenant: "t".to_string(),
            service: "s".to_string(),
        }),
        name: name.to_string(),
    }
}

fn pb_shard(from: &str, to: &str) -> pb::Shard {
    pb::Shard {
        domain: Some(pb_domain("d")),
        kind: 2,
        region: String::new(),
        from: from.to_string(),
        to: to.to_string(),
    }
}

fn domain() -> QualifiedDomainName {
    QualifiedDomainName { service: QualifiedServiceName::new("t", "s"), name: "d".into() }
}

fn shard(from: &str, to: &str) -> Shard {
    Shard {
        domain: domain(),
        kind: DomainType::Global,
        region: Default::default(),
        from: from.to_string(),
        to: to.to_string(),
    }
}

fn key(k: &str) -> QualifiedDomainKey {
    QualifiedDomainKey {
        domain: domain(),
        key: DomainKey { region: "eu".into(), key: k.to_string() },
    }
}

fn location_instance(n: u128) -> location_pb::Instance {
    location_pb::Instance {
        id: uuid(n),
        location: None,
        created: Some(Timestamp { seconds: 5, nanos: 0 }),
        name: "c".to_string(),
    }
}

fn instance(n: u128) -> pb::Instance {
    pb::Instance { instance: Some(location_instance(n)), endpoint: "h:1".to_string() }
}

fn info(id: &str, shard: pb::Shard, state: i32) -> GrantInfo {
    GrantInfo { id: id.to_string(), shard: Some(shard), state }
}

fn assignment(n: u128, grants: Vec<GrantInfo>) -> Assignment {
    Assignment { consumer: Some(instance(n)), grants }
}

fn message(version: i64, msg: ClusterMsg) -> ClusterMessage {
    ClusterMessage {
        id: "x".to_string(),
        version,
        timestamp: Some(Timestamp { seconds: 100 + version, nanos: 7 }),
        msg: Some(msg),
    }
}

fn no_change() -> Change {
    Change { shards: None, assign: None, update: None, unassign: None, remove: None }
}

fn snapshot() -> ClusterMessage {
    message(
        3,
        ClusterMsg::Snapshot(Snapshot {
            shards: vec![pb_shard("", "m"), pb_shard("m", "")],
            origin: Some(location_instance(9)),
            assignments: vec![
                assignment(A, vec![info("g1", pb_shard("", "m"), ACTIVE)]),
                assignment(B, vec![info("g2", pb_shard("m", ""), LOADED)]),
            ],
        }),
    )
}

fn base() -> ClusterMap {
    ClusterMap::empty().apply(snapshot()).unwrap()
}

#[test]
fn a_change_can_be_applied_by_itself() {
    let c = Change {
        unassign: Some(Unassign { grants: vec!["g1".to_string()] }),
        ..no_change()
    };
    let m = base().apply_change(&c, 8, base().id.timestamp).unwrap();
    assert_eq!(m.id.version, 8);
    assert_eq!(holder(&m, "g1"), None);
}

fn change(m: &ClusterMap, c: Change) -> Result<ClusterMap, ClientError> {
    m.apply(message(4, ClusterMsg::Change(c)))
}

fn holder(m: &ClusterMap, g: &str) -> Option<u128> {
    m.grants.get(&GrantId(g.into())).map(|e| e.consumer.0)
}

fn noted(m: &ClusterMap, n: u128) -> Vec<String> {
    match m.consumers.get(&InstanceId(n)) {
        Some(c) => c.grants.iter().map(|g| g.to_string()).collect(),
        None => Vec::new(),
    }
}

#[test]
fn an_empty_cluster_knows_nothing() {
    let m = ClusterMap::empty();
    assert_eq!(m.id.version, 0);
    assert!(m.id.origin.is_none());
    assert_eq!(m.id.timestamp.epoch_nanos(), 0);
    assert_eq!(m.consumers.len(), 0);
    assert_eq!(m.grants.len(), 0);
    assert!(m.shards.is_empty());
    assert!(m.lookup(&key("a"), &[]).is_none());
}

#[test]
fn a_snapshot_shows_consumers_grants_and_shards() {
    let m = base();
    assert_eq!(m.id.version, 3);
    assert_eq!(m.id.timestamp.epoch_nanos(), 103_000_000_007);
    assert_eq!(m.id.origin.as_ref().unwrap().id.0, 9);
    assert_eq!(m.shards, vec![shard("", "m"), shard("m", "")]);
    assert_eq!(holder(&m, "g1"), Some(A));
    assert_eq!(holder(&m, "g2"), Some(B));
    assert_eq!(noted(&m, A), vec!["g1"]);
    let c = m.consumers.get(&InstanceId(A)).unwrap();
    assert_eq!(c.consumer.endpoint.as_str(), "h:1");
}

#[test]
fn a_snapshot_replaces_what_was_known() {
    let empty = ClusterMsg::Snapshot(Snapshot { shards: vec![], origin: None, assignments: vec![] });
    let m = base().apply(message(5, empty)).unwrap();
    assert_eq!(m.id.version, 5);
    assert!(m.id.origin.is_none());
    assert_eq!(m.consumers.len(), 0);
    assert_eq!(m.grants.len(), 0);
    assert!(m.shards.is_empty());
}

#[test]
fn a_message_without_a_variant_is_refused() {
    let mut msg = snapshot();
    msg.msg = None;
    assert_eq!(
        base().apply(msg).err(),
        Some(ClientError::InvalidMessage("ClusterMessage without a variant".to_string()))
    );
}

#[test]
fn a_message_without_a_timestamp_is_from_the_epoch() {
    let mut msg = snapshot();
    msg.timestamp = None;
    assert_eq!(base().apply(msg).unwrap().id.timestamp.epoch_nanos(), 0);
}

#[test]
fn an_empty_change_changes_only_the_id() {
    let before = base();
    let m = change(&before, no_change()).unwrap();
    assert_eq!(m.id.version, 4);
    assert_eq!(m.id.timestamp.epoch_nanos(), 104_000_000_007);
    assert_eq!(m.id.origin.as_ref().unwrap().id.0, 9);
    assert_eq!(holder(&m, "g1"), Some(A));
    assert_eq!(holder(&m, "g2"), Some(B));
    assert_eq!(m.shards, before.shards);
    // What it was applied to is as it was.
    assert_eq!(before.id.version, 3);
}

#[test]
fn grants_on_shards_that_are_gone_are_dropped() {
    let m = change(
        &base(),
        Change { shards: Some(Shards { shards: vec![pb_shard("m", "")] }), ..no_change() },
    )
    .unwrap();
    assert_eq!(m.shards, vec![shard("m", "")]);
    assert_eq!(holder(&m, "g1"), None);
    assert_eq!(holder(&m, "g2"), Some(B));
    assert!(noted(&m, A).is_empty());
    assert_eq!(noted(&m, B), vec!["g2"]);
}

#[test]
fn a_grant_can_be_assigned_to_another_consumer() {
    let m = change(
        &base(),
        Change {
            assign: Some(Assign {
                assignments: vec![assignment(B, vec![info("g1", pb_shard("", "m"), ALLOCATED)])],
            }),
            ..no_change()
        },
    )
    .unwrap();
    assert_eq!(holder(&m, "g1"), Some(B));
    assert_eq!(noted(&m, B), vec!["g2", "g1"]);
    let g = m.grants.get(&GrantId("g1".into())).unwrap();
    assert_eq!(g.state, GrantState::Allocated);
}

#[test]
fn updates_change_state_and_shard_of_known_grants() {
    let m = change(
        &base(),
        Change {
            update: Some(Update {
                grants: vec![
                    GrantInfo { id: "g1".to_string(), shard: None, state: REVOKED },
                    info("g2", pb_shard("x", "y"), ACTIVE),
                    info("unknown", pb_shard("", ""), ACTIVE),
                ],
            }),
            ..no_change()
        },
    )
    .unwrap();
    let g1 = m.grants.get(&GrantId("g1".into())).unwrap();
    assert_eq!(g1.state, GrantState::Revoked);
    assert_eq!(g1.shard, shard("", "m"));
    let g2 = m.grants.get(&GrantId("g2".into())).unwrap();
    assert_eq!(g2.state, GrantState::Active);
    assert_eq!(g2.shard, shard("x", "y"));
    assert_eq!(g2.consumer.0, B);
    assert_eq!(m.grants.len(), 2);
}

#[test]
fn unassigned_grants_are_gone() {
    let m = change(
        &base(),
        Change {
            unassign: Some(Unassign { grants: vec!["g1".to_string(), "unknown".to_string()] }),
            ..no_change()
        },
    )
    .unwrap();
    assert_eq!(holder(&m, "g1"), None);
    assert!(noted(&m, A).is_empty());
    assert!(m.consumers.contains(&InstanceId(A)));
    assert_eq!(holder(&m, "g2"), Some(B));
}

#[test]
fn removed_consumers_take_their_grants_along() {
    let m = change(
        &base(),
        Change {
            remove: Some(Remove { consumers: vec!["not a uuid".to_string(), uuid(A)] }),
            ..no_change()
        },
    )
    .unwrap();
    assert!(!m.consumers.contains(&InstanceId(A)));
    assert_eq!(holder(&m, "g1"), None);
    assert_eq!(holder(&m, "g2"), Some(B));
}

#[test]
fn a_change_that_moves_no_grant_leaves_exact_lists() {
    let m = change(
        &base(),
        Change {
            assign: Some(Assign {
                assignments: vec![
                    assignment(A, vec![info("g1", pb_shard("", "m"), ALLOCATED)]),
                    assignment(A, vec![info("g3", pb_shard("", "m"), ALLOCATED)]),
                ],
            }),
            unassign: Some(Unassign { grants: vec!["g1".to_string()] }),
            remove: Some(Remove { consumers: vec![uuid(B)] }),
            ..no_change()
        },
    )
    .unwrap();
    // The grant was noted twice with its holder; both notes are gone.
    assert_eq!(noted(&m, A), vec!["g3"]);
    assert_eq!(holder(&m, "g3"), Some(A));
    assert_eq!(holder(&m, "g1"), None);
    assert_eq!(holder(&m, "g2"), None);
    assert!(!m.consumers.contains(&InstanceId(B)));
}

#[test]
fn missing_parts_are_refused() {
    let no_consumer = Assignment { consumer: None, grants: vec![] };
    let no_shard = assignment(
        A,
        vec![GrantInfo { id: "g".to_string(), shard: None, state: ACTIVE }],
    );
    let cases = vec![
        (no_consumer, "Assignment without consumer"),
        (no_shard, "GrantInfo without shard"),
    ];
    for (a, text) in cases {
        let r = change(
            &base(),
            Change { assign: Some(Assign { assignments: vec![a] }), ..no_change() },
        );
        assert_eq!(r.err(), Some(ClientError::InvalidMessage(text.to_string())));
    }
    let r = change(
        &base(),
        Change {
            shards: Some(Shards {
                shards: vec![pb::Shard { domain: None, ..pb_shard("", "") }],
            }),
            ..no_change()
        },
    );
    assert_eq!(
        r.err(),
        Some(ClientError::InvalidMessage("missing field: Shard.domain".to_string()))
    );
}

#[test]
fn the_first_error_decides() {
    let bad = pb::Shard { domain: None, ..pb_shard("", "") };
    let r = change(
        &base(),
        Change {
            assign: Some(Assign {
                assignments: vec![
                    assignment(A, vec![info("g3", bad, ACTIVE)]),
                    Assignment { consumer: None, grants: vec![] },
                ],
            }),
            ..no_change()
        },
    );
    assert_eq!(
        r.err(),
        Some(ClientError::InvalidMessage("missing field: Shard.domain".to_string()))
    );
}

#[test]
fn lookup_goes_by_key_and_preferred_state() {
    let m = base();
    assert_eq!(m.lookup(&key("a"), &[]).unwrap().id.as_str(), "g1");
    assert_eq!(m.lookup(&key("m"), &[]).unwrap().id.as_str(), "g2");
    assert!(m.lookup(&key("m"), &[GrantState::Active]).is_none());
    let both = change(
        &m,
        Change {
            assign: Some(Assign {
                assignments: vec![assignment(A, vec![info("g3", pb_shard("", ""), REVOKED)])],
            }),
            ..no_change()
        },
    )
    .unwrap();
    assert_eq!(both.lookup(&key("a"), &[]).unwrap().id.as_str(), "g1");
    let first_revoked = [GrantState::Revoked, GrantState::Active];
    assert_eq!(both.lookup(&key("a"), &first_revoked).unwrap().id.as_str(), "g3");
    // By default, revoked comes before loaded.
    assert_eq!(both.lookup(&key("m"), &[]).unwrap().id.as_str(), "g3");
    assert!(both.lookup(&key("a"), &[GrantState::Allocated]).is_none());
}

#[test]
fn a_shard_covers_from_its_lower_up_to_its_upper_bound() {
    let s = shard("b", "d");
    assert!(!shard_covers(&s, &key("a")));
    assert!(shard_covers(&s, &key("b")));
    assert!(shard_covers(&s, &key("c")));
    assert!(!shard_covers(&s, &key("d")));
    assert!(shard_covers(&shard("", ""), &key("")));
    assert!(shard_covers(&shard("b", ""), &key("zzz")));
    assert!(shard_covers(&shard("", "b"), &key("azz")));
    let mut other = shard("", "");
    other.domain.name = "e".into();
    assert!(!shard_covers(&other, &key("a")));
}

#[test]
fn a_regional_shard_covers_only_its_region() {
    let mut s = shard("", "");
    s.region = "eu".into();
    assert!(shard_covers(&s, &key("a")));
    s.region = "us".into();
    assert!(!shard_covers(&s, &key("a")));
}

#[test]
fn shards_of_a_domain_are_listed_in_order() {
    let mut m = base();
    let mut other = shard("q", "r");
    other.domain.name = "e".into();
    m.shards.insert(1, other);
    let got = m.shards_for_domain(&domain());
    assert_eq!(got, vec![&shard("", "m"), &shard("m", "")]);
}

#[test]
fn grants_and_consumers_can_be_dropped_one_by_one() {
    let mut m = base();
    drop_grant(&mut m, &GrantId("g2".into()));
    assert_eq!(holder(&m, "g2"), None);
    assert!(noted(&m, B).is_empty());
    drop_grant(&mut m, &GrantId("g2".into()));
    remove_consumer(&mut m, &InstanceId(A));
    assert_eq!(m.grants.len(), 0);
    assert_eq!(m.consumers.len(), 1);
    let m = apply_assignment(m, &assignment(A, vec![info("g5", pb_shard("", ""), ACTIVE)])).unwrap();
    let m = update_grant(m, &GrantInfo { id: "g5".to_string(), shard: None, state: 99 }).unwrap();
    assert_eq!(m.grants.get(&GrantId("g5".into())).unwrap().state, GrantState::Unknown);
}
