use splitter_client::{
    DomainKey, DomainName, DomainType, Endpoint, GrantId, Instance, InstanceId, InstanceName,
    Location, NodeName, QualifiedDomainName, QualifiedServiceName, Region, ServiceName, Shard,
    TenantName,
};
use splitter_client::time::SystemTime;

fn domain() -> QualifiedDomainName {
    QualifiedDomainName { service: QualifiedServiceName::new("t", "s"), name: "d".into() }
}

#[test]
fn parse_cuts_at_the_first_slash() {
    let q = QualifiedServiceName::parse("a/b/c").unwrap();
    assert_eq!(q.to_string(), "a/b/c");
    assert_eq!(q.tenant.as_str(), "a");
    assert_eq!(q.service.as_str(), "b/c");
    assert!(QualifiedServiceName::parse("a/").is_none());
    assert!(QualifiedServiceName::parse("/b").is_none());
    assert!(QualifiedServiceName::parse("ab").is_none());
    assert!(QualifiedServiceName::parse("").is_none());
}

#[test]
fn service_names_read_back_from_their_text() {
    let q = QualifiedServiceName::new("tenant", "service");
    assert_eq!(q.to_string(), "tenant/service");
    assert_eq!(QualifiedServiceName::parse(&q.to_string()), Some(q));
}

#[test]
fn names_wrap_strings() {
    assert_eq!(GrantId::new("g").as_str(), "g");
    assert_eq!(Region::new("r".to_string()).into_string(), "r");
    assert!(NodeName::default().is_empty());
    assert!(!TenantName::from("t").is_empty());
    assert_eq!(ServiceName::from("s".to_string()).to_string(), "s");
    assert_eq!(DomainName::from("d").as_ref(), "d");
    assert_eq!(InstanceName::from("i").clone(), InstanceName::new("i"));
    assert_ne!(Endpoint::from("a"), Endpoint::from("b"));
}

#[test]
fn things_read_as_text() {
    let i = Instance {
        id: InstanceId(0x10),
        location: Location::new("eu", "n1"),
        name: "x".into(),
        created: SystemTime::unix_epoch(),
        endpoint: Endpoint::default(),
    };
    assert_eq!(i.location.to_string(), "eu/n1");
    assert_eq!(i.to_string(), "00000000-0000-0000-0000-000000000010@eu/n1");
    assert_eq!(domain().to_string(), "t/s/d");
    let s = Shard {
        domain: domain(),
        kind: DomainType::Unit,
        region: Region::default(),
        from: "a".to_string(),
        to: "b".to_string(),
    };
    assert_eq!(s.to_string(), "t/s/d[a..b]");
    assert_eq!(DomainKey::default().key, "");
}

#[test]
fn ids_are_random_and_read_back() {
    let a = InstanceId::new();
    let b = InstanceId::default();
    assert_ne!(a, b);
    let text = a.to_string();
    assert_eq!(text.as_bytes()[14], b'4');
    assert!(matches!(text.as_bytes()[19], b'8' | b'9' | b'a' | b'b'));
    assert_eq!(InstanceId::try_from(text.as_str()), Ok(a));
    assert_eq!(InstanceId::try_from(text.clone()), Ok(a));
    assert_eq!(text.parse::<InstanceId>(), Ok(a));
    assert_eq!(InstanceId::from(a.as_u128()), a);
}

#[test]
fn ids_are_read_in_every_form_of_a_uuid() {
    let id = InstanceId(0xA1A2A3A4_B1B2_C1C2_D1D2_D3D4D5D6D7D8);
    for text in [
        "a1a2a3a4-b1b2-c1c2-d1d2-d3d4d5d6d7d8",
        "A1A2A3A4-B1B2-C1C2-D1D2-D3D4D5D6D7D8",
        "a1a2a3a4b1b2c1c2d1d2d3d4d5d6d7d8",
        "{a1a2a3a4-b1b2-c1c2-d1d2-d3d4d5d6d7d8}",
        "urn:uuid:a1a2a3a4-b1b2-c1c2-d1d2-d3d4d5d6d7d8",
    ] {
        assert_eq!(InstanceId::try_from(text), Ok(id));
    }
    let e = InstanceId::try_from("not-a-uuid").unwrap_err();
    assert!(!e.reason.is_empty());
}
