use splitter_client::cluster::{ClusterId, ConsumerEntry, GrantEntry};
use splitter_client::dialer::Dialer;
use splitter_client::remote::RemoteFn;
use splitter_client::table::Table;
use splitter_client::time::SystemTime;
use splitter_client::{
    ClientError, ClusterMap, ConnectionPool, DomainKey, DomainResolver, DomainType, Endpoint,
    GrantId, GrantState, Instance, InstanceId, Location, QualifiedDomainKey, QualifiedDomainName,
    QualifiedServiceName, Shard,
};

const ME: InstanceId = InstanceId(1);
const PEER: InstanceId = InstanceId(2);
const THIRD: InstanceId = InstanceId(3);

fn domain(name: &str) -> QualifiedDomainName {
    QualifiedDomainName { service: QualifiedServiceName::new("t", "s"), name: name.into() }
}

fn key(name: &str, key: &str) -> QualifiedDomainKey {
    QualifiedDomainKey {
        domain: domain(name),
        key: DomainKey { region: Default::default(), key: key.to_string() },
    }
}

fn consumer(id: InstanceId, region: &str) -> ConsumerEntry {
    ConsumerEntry {
        consumer: Instance {
            id,
            location: Location::new(region, "n"),
            name: "c".into(),
            created: SystemTime::unix_epoch(),
            endpoint: "h:1".into(),
        },
        grants: Vec::new(),
    }
}

fn grant(id: &str, state: GrantState, consumer: InstanceId, from: &str, to: &str) -> GrantEntry {
    GrantEntry {
        id: GrantId(id.into()),
        shard: Shard {
            domain: domain("d"),
            kind: DomainType::Global,
            region: Default::default(),
            from: from.to_string(),
            to: to.to_string(),
        },
        state,
        consumer,
    }
}

fn cluster(grants: Vec<GrantEntry>) -> ClusterMap {
    let mut consumers = Table::new();
    consumers.insert(ME, consumer(ME, "here"));
    consumers.insert(PEER, consumer(PEER, "there"));
    let mut table = Table::new();
    for g in grants {
        table.insert(g.id.clone(), g);
    }
    ClusterMap {
        id: ClusterId { version: 1, origin: None, timestamp: SystemTime::unix_epoch() },
        consumers,
        grants: table,
        shards: Vec::new(),
    }
}

fn pool(m: &ClusterMap) -> ConnectionPool<String> {
    let mut p = ConnectionPool::new(ME);
    p.apply_cluster(m, &mut Dialer::new(&|e: &Endpoint| Ok(e.as_str().to_string())));
    p
}

#[test]
fn a_key_resolves_to_the_channel_of_its_owner() {
    let m = cluster(vec![grant("g", GrantState::Active, PEER, "", "")]);
    let r = DomainResolver::new(domain("d"));
    assert_eq!(r.channel(&m, &pool(&m), &key("d", "k")).unwrap(), "h:1");
    let calls = std::cell::Cell::new(0);
    let make = |c: &String| {
        calls.set(calls.get() + 1);
        format!("client of {c}")
    };
    let mut remote = RemoteFn::new(&make);
    let client = r.resolve(&m, &pool(&m), &key("d", "k"), &mut remote);
    assert_eq!(client.unwrap(), "client of h:1");
    assert_eq!(calls.get(), 1);
    let client = r.resolve(&m, &pool(&m), &key("e", "k"), &mut remote);
    assert!(matches!(client, Err(ClientError::InvalidMessage(_))));
    assert_eq!(calls.get(), 1);
    assert_eq!(r.location(&m, &key("d", "k")), Some(Location::new("there", "n")));
    assert_eq!(r.domain(), &domain("d"));
}

#[test]
fn a_key_of_another_domain_is_refused() {
    let m = cluster(vec![]);
    let r = DomainResolver::new(domain("d"));
    let err = r.channel(&m, &pool(&m), &key("e", "k")).unwrap_err();
    assert_eq!(
        err,
        ClientError::InvalidMessage("resolver domain mismatch: t/s/d vs t/s/e".to_string())
    );
}

#[test]
fn own_and_unowned_keys_have_no_resolution() {
    let m = cluster(vec![grant("g", GrantState::Active, ME, "", "m")]);
    let r = DomainResolver::new(domain("d"));
    let p = pool(&m);
    assert_eq!(r.channel(&m, &p, &key("d", "a")), Err(ClientError::NoResolution));
    assert_eq!(r.location(&m, &key("d", "a")), Some(Location::new("here", "n")));
    assert_eq!(r.channel(&m, &p, &key("d", "z")), Err(ClientError::NoResolution));
    assert_eq!(r.location(&m, &key("d", "z")), None);
}

#[test]
fn an_owner_that_is_not_known_has_no_location() {
    let m = cluster(vec![grant("g", GrantState::Active, THIRD, "", "")]);
    let r = DomainResolver::new(domain("d"));
    assert_eq!(r.location(&m, &key("d", "a")), None);
    assert_eq!(r.channel(&m, &pool(&m), &key("d", "a")), Err(ClientError::NoResolution));
}

#[test]
fn active_is_preferred_to_loaded_and_loaded_to_revoked() {
    let r = DomainResolver::new(domain("d"));
    let m = cluster(vec![
        grant("a", GrantState::Revoked, ME, "", ""),
        grant("b", GrantState::AllocatedLoaded, PEER, "", ""),
    ]);
    assert_eq!(r.location(&m, &key("d", "k")), Some(Location::new("there", "n")));
    let m = cluster(vec![
        grant("a", GrantState::AllocatedLoaded, ME, "", ""),
        grant("b", GrantState::Active, PEER, "", ""),
    ]);
    assert_eq!(r.location(&m, &key("d", "k")), Some(Location::new("there", "n")));
    // A grant that has unloaded is not considered.
    let m = cluster(vec![grant("a", GrantState::RevokedUnloaded, PEER, "", "")]);
    assert_eq!(r.location(&m, &key("d", "k")), None);
}
