use splitter_client::pb::{self, Timestamp};
use splitter_client::time::SystemTime;
use splitter_client::wrap::{
    domain_type_from_i32, grant_state_from_i32, required, system_time_to_timestamp,
    timestamp_to_system_time,
};
use splitter_client::{
    location_pb, ClientError, DomainKey, DomainKeyName, DomainType, GrantState, Instance,
    InstanceId, Location, QualifiedDomainKey, QualifiedDomainName, QualifiedServiceName, Shard,
};

fn invalid(text: &str) -> ClientError {
    ClientError::InvalidMessage(text.to_string())
}

fn nanos(n: i128) -> SystemTime {
    SystemTime::from_epoch_nanos(n).unwrap()
}

fn instance() -> Instance {
    Instance {
        id: InstanceId(0x1234),
        location: Location::new("eu", "n1"),
        name: "name".into(),
        created: nanos(1_500_000_000),
        endpoint: "h:1".into(),
    }
}

fn domain() -> QualifiedDomainName {
    QualifiedDomainName { service: QualifiedServiceName::new("t", "s"), name: "d".into() }
}

#[test]
fn required_fields_must_be_there() {
    assert_eq!(required(Some(3), "x"), Ok(3));
    assert_eq!(required::<i32>(None, "A.b"), Err(invalid("missing field: A.b")));
}

#[test]
fn times_go_to_timestamps_and_back() {
    let ts = system_time_to_timestamp(nanos(1_700_000_000_123_456_789));
    assert_eq!(ts, Timestamp { seconds: 1_700_000_000, nanos: 123_456_789 });
    assert_eq!(timestamp_to_system_time(&ts).epoch_nanos(), 1_700_000_000_123_456_789);
}

#[test]
fn times_before_the_epoch_count_as_the_epoch() {
    assert_eq!(system_time_to_timestamp(nanos(-1)), Timestamp { seconds: 0, nanos: 0 });
    let t = timestamp_to_system_time(&Timestamp { seconds: -5, nanos: -7 });
    assert_eq!(t.epoch_nanos(), 0);
    let t = timestamp_to_system_time(&Timestamp { seconds: -5, nanos: 7 });
    assert_eq!(t.epoch_nanos(), 7);
}

#[test]
fn instances_survive_the_wire() {
    let raw: pb::Instance = instance().into();
    assert_eq!(raw.endpoint, "h:1");
    let inner = raw.instance.clone().unwrap();
    assert_eq!(inner.id, "00000000-0000-0000-0000-000000001234");
    assert_eq!(inner.created, Some(Timestamp { seconds: 1, nanos: 500_000_000 }));
    let back = Instance::try_from(raw).unwrap();
    assert!(back == instance());
    // Without the outer message there is no endpoint.
    let back = Instance::try_from(inner).unwrap();
    assert!(back.endpoint.is_empty());
}

#[test]
fn instances_with_missing_or_bad_parts_are_refused() {
    let no_inner = pb::Instance { instance: None, endpoint: String::new() };
    assert_eq!(
        Instance::try_from(no_inner).err(),
        Some(invalid("missing field: Instance.instance"))
    );
    let mut raw: location_pb::Instance = instance().into();
    raw.created = None;
    assert_eq!(
        Instance::try_from(raw).err(),
        Some(invalid("missing field: location.Instance.created"))
    );
    let mut raw: location_pb::Instance = instance().into();
    raw.id = "nope".to_string();
    match Instance::try_from(raw).err() {
        Some(ClientError::InvalidMessage(m)) => {
            assert!(m.starts_with("invalid instance id 'nope': "));
            assert!(m.len() > "invalid instance id 'nope': ".len());
        }
        _ => panic!("refused"),
    }
    let mut raw: location_pb::Instance = instance().into();
    raw.location = None;
    assert!(Instance::try_from(raw).unwrap().location == Location::default());
}

#[test]
fn names_and_keys_survive_the_wire() {
    let s: pb::QualifiedServiceName = QualifiedServiceName::new("t", "s").into();
    assert!(QualifiedServiceName::from(s) == QualifiedServiceName::new("t", "s"));
    let d: pb::QualifiedDomainName = domain().into();
    assert!(QualifiedDomainName::try_from(d).unwrap() == domain());
    let key = QualifiedDomainKey {
        domain: domain(),
        key: DomainKey { region: "eu".into(), key: "k".to_string() },
    };
    let raw: pb::QualifiedDomainKey = key.clone().into();
    assert!(QualifiedDomainKey::try_from(raw).unwrap() == key);
    let name = DomainKeyName { domain: "d".into(), name: "n".to_string() };
    let raw: pb::DomainKeyName = name.clone().into();
    assert!(DomainKeyName::from(raw) == name);
}

#[test]
fn names_and_keys_with_missing_parts_are_refused() {
    let d = pb::QualifiedDomainName { service: None, name: "d".to_string() };
    assert_eq!(
        QualifiedDomainName::try_from(d).err(),
        Some(invalid("missing field: QualifiedDomainName.service"))
    );
    let k = pb::QualifiedDomainKey { domain: None, key: None };
    assert_eq!(
        QualifiedDomainKey::try_from(k).err(),
        Some(invalid("missing field: QualifiedDomainKey.domain"))
    );
    let k = pb::QualifiedDomainKey { domain: Some(domain().into()), key: None };
    let back = QualifiedDomainKey::try_from(k).unwrap();
    assert_eq!(back.key.key, "");
}

#[test]
fn numbers_stand_for_kinds_and_states() {
    let kinds = [DomainType::Invalid, DomainType::Unit, DomainType::Global, DomainType::Regional];
    for kind in kinds {
        let raw: pb::DomainType = kind.into();
        assert_eq!(domain_type_from_i32(raw.to_i32()), kind);
    }
    assert_eq!(domain_type_from_i32(99), DomainType::Invalid);
    let states = [
        GrantState::Unknown,
        GrantState::Active,
        GrantState::Allocated,
        GrantState::Revoked,
        GrantState::AllocatedLoaded,
        GrantState::RevokedUnloaded,
    ];
    for state in states {
        let raw: pb::GrantState = state.into();
        assert_eq!(grant_state_from_i32(raw.to_i32()), state);
    }
    assert_eq!(grant_state_from_i32(-1), GrantState::Unknown);
}

#[test]
fn shards_survive_the_wire() {
    let s = Shard {
        domain: domain(),
        kind: DomainType::Regional,
        region: "eu".into(),
        from: "a".to_string(),
        to: "b".to_string(),
    };
    let raw: pb::Shard = s.clone().into();
    assert!(Shard::try_from(raw.clone()).unwrap() == s);
    let bad = pb::Shard { domain: None, ..raw };
    assert_eq!(Shard::try_from(bad).err(), Some(invalid("missing field: Shard.domain")));
}
