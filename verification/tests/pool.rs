use splitter_client::cluster::{ClusterId, ConsumerEntry};
use splitter_client::dialer::Dialer;
use splitter_client::pool::{default_dial, dial_result, normalize_endpoint};
use splitter_client::table::Table;
use splitter_client::time::SystemTime;
use splitter_client::{
    ClientError, ClusterMap, ConnectionPool, Endpoint, Instance, InstanceId, Location,
};

const ME: InstanceId = InstanceId(0x0000_0000_0000_0001);
const OTHER: InstanceId = InstanceId(0x0000_0000_0000_0002);
const PEER_A: InstanceId = InstanceId(0x0000_0000_0000_000A);
const PEER_B: InstanceId = InstanceId(0x0000_0000_0000_000B);

fn mk_instance(id: InstanceId, endpoint: &str) -> Instance {
    Instance {
        id,
        location: Location::default(),
        name: "test".into(),
        created: SystemTime::unix_epoch(),
        endpoint: endpoint.into(),
    }
}

fn mk_cluster(consumers: Vec<Instance>) -> ClusterMap {
    let mut map = Table::new();
    for c in consumers {
        map.insert(
            c.id,
            ConsumerEntry {
                consumer: c,
                grants: Vec::new(),
            },
        );
    }
    ClusterMap {
        id: ClusterId {
            version: 1,
            origin: None,
            timestamp: SystemTime::unix_epoch(),
        },
        consumers: map,
        grants: Table::new(),
        shards: Vec::new(),
    }
}

#[test]
fn self_resolve_returns_no_resolution() {
    let pool = ConnectionPool::<String>::new(ME);
    assert!(matches!(pool.resolve(&ME), Err(ClientError::NoResolution)));
}

#[test]
fn unknown_id_returns_no_resolution() {
    let pool = ConnectionPool::<String>::new(ME);
    assert!(matches!(
        pool.resolve(&OTHER),
        Err(ClientError::NoResolution)
    ));
}

#[test]
fn apply_cluster_adds_known_peers() {
    let mut pool = ConnectionPool::new(ME);
    let cluster = mk_cluster(vec![
        mk_instance(ME, "1.1.1.1:50052"),
        mk_instance(PEER_A, "2.2.2.2:50052"),
        mk_instance(PEER_B, "3.3.3.3:50052"),
    ]);
    pool.apply_cluster(&cluster, &mut Dialer::new(&default_dial));
    assert_eq!(pool.len(), 2);
    assert!(pool.resolve(&PEER_A).is_ok());
    assert!(pool.resolve(&PEER_B).is_ok());
    // self still rejects
    assert!(matches!(pool.resolve(&ME), Err(ClientError::NoResolution)));
    assert_eq!(pool.self_id().0, ME.0);
}

#[test]
fn apply_cluster_drops_departed_peers() {
    let mut pool = ConnectionPool::new(ME);
    pool.apply_cluster(
        &mk_cluster(vec![
            mk_instance(PEER_A, "2.2.2.2:50052"),
            mk_instance(PEER_B, "3.3.3.3:50052"),
        ]),
        &mut Dialer::new(&default_dial),
    );
    assert_eq!(pool.len(), 2);

    pool.apply_cluster(
        &mk_cluster(vec![mk_instance(PEER_A, "2.2.2.2:50052")]),
        &mut Dialer::new(&default_dial),
    );
    assert_eq!(pool.len(), 1);
    assert!(pool.resolve(&PEER_A).is_ok());
    assert!(matches!(
        pool.resolve(&PEER_B),
        Err(ClientError::NoResolution)
    ));
}

#[test]
fn apply_cluster_skips_empty_endpoints() {
    let mut pool = ConnectionPool::new(ME);
    pool.apply_cluster(&mk_cluster(vec![mk_instance(PEER_A, "")]), &mut Dialer::new(&default_dial));
    assert_eq!(pool.len(), 0);
    assert!(pool.is_empty());
}

#[test]
fn a_channel_is_rebuilt_only_where_the_endpoint_changed() {
    let count = std::cell::Cell::new(0u32);
    let dial = |e: &Endpoint| -> Result<(u32, String), ClientError> {
        count.set(count.get() + 1);
        Ok((count.get(), e.as_str().to_string()))
    };
    let mut pool = ConnectionPool::new(ME);
    pool.apply_cluster(&mk_cluster(vec![mk_instance(PEER_A, "a:1")]), &mut Dialer::new(&dial));
    pool.apply_cluster(&mk_cluster(vec![mk_instance(PEER_A, "a:1")]), &mut Dialer::new(&dial));
    assert_eq!(pool.resolve(&PEER_A).unwrap(), &(1, "a:1".to_string()));
    pool.apply_cluster(&mk_cluster(vec![mk_instance(PEER_A, "a:2")]), &mut Dialer::new(&dial));
    assert_eq!(pool.resolve(&PEER_A).unwrap(), &(2, "a:2".to_string()));
    assert_eq!(count.get(), 2);
}

#[test]
fn each_new_or_changed_peer_is_dialed_once() {
    let dialed = std::cell::RefCell::new(Vec::new());
    let dial = |e: &Endpoint| -> Result<String, ClientError> {
        dialed.borrow_mut().push(e.as_str().to_string());
        Ok(e.as_str().to_string())
    };
    let mut pool = ConnectionPool::new(ME);
    let cluster = mk_cluster(vec![
        mk_instance(ME, "me:1"),
        mk_instance(OTHER, ""),
        mk_instance(PEER_A, "a:1"),
        mk_instance(PEER_B, "b:1"),
    ]);
    assert_eq!(pool.plan(&cluster).to_dial.len(), 2);
    pool.apply_cluster(&cluster, &mut Dialer::new(&dial));
    assert_eq!(*dialed.borrow(), vec!["a:1", "b:1"]);
    // The same cluster again: nothing is dialed and nothing changes.
    pool.apply_cluster(&cluster, &mut Dialer::new(&dial));
    assert_eq!(dialed.borrow().len(), 2);
    assert_eq!(pool.len(), 2);
    let changed = mk_cluster(vec![mk_instance(PEER_A, "a:2"), mk_instance(PEER_B, "b:1")]);
    pool.apply_cluster(&changed, &mut Dialer::new(&dial));
    assert_eq!(*dialed.borrow(), vec!["a:1", "b:1", "a:2"]);
    assert_eq!(pool.resolve(&PEER_A).unwrap(), "a:2");
}

#[test]
fn new_peers_are_dialed_before_those_that_moved() {
    let dialed = std::cell::RefCell::new(Vec::new());
    let dial = |e: &Endpoint| -> Result<String, ClientError> {
        dialed.borrow_mut().push(e.as_str().to_string());
        Ok(e.as_str().to_string())
    };
    let mut pool = ConnectionPool::new(ME);
    let before = mk_cluster(vec![mk_instance(PEER_A, "a:1")]);
    pool.apply_cluster(&before, &mut Dialer::new(&dial));
    let after = mk_cluster(vec![mk_instance(PEER_A, "a:2"), mk_instance(PEER_B, "b:1")]);
    pool.apply_cluster(&after, &mut Dialer::new(&dial));
    assert_eq!(*dialed.borrow(), vec!["a:1", "b:1", "a:2"]);
}

#[test]
fn a_peer_that_cannot_be_dialed_is_left_as_it_was() {
    let dial = |e: &Endpoint| -> Result<String, ClientError> {
        if e.as_str() == "bad" {
            Err(ClientError::TransportSetup("no".to_string()))
        } else {
            Ok(e.as_str().to_string())
        }
    };
    let mut pool = ConnectionPool::new(ME);
    pool.apply_cluster(
        &mk_cluster(vec![mk_instance(PEER_A, "a:1"), mk_instance(PEER_B, "bad")]),
        &mut Dialer::new(&dial),
    );
    assert_eq!(pool.len(), 1);
    assert!(pool.resolve(&PEER_B).is_err());
    pool.apply_cluster(&mk_cluster(vec![mk_instance(PEER_A, "bad")]), &mut Dialer::new(&dial));
    assert_eq!(pool.resolve(&PEER_A).unwrap(), "a:1");
}

#[test]
fn an_endpoint_without_a_scheme_is_insecure_http() {
    assert_eq!(normalize_endpoint("10.0.0.5:50052"), "http://10.0.0.5:50052");
    assert_eq!(normalize_endpoint("http://h:1"), "http://h:1");
    assert_eq!(normalize_endpoint("https://h:1"), "https://h:1");
    assert_eq!(normalize_endpoint("httpx"), "http://httpx");
    assert_eq!(normalize_endpoint(""), "http://");
}

#[test]
fn dialing_reads_the_endpoint_as_a_uri() {
    assert_eq!(default_dial(&Endpoint::from("h.example:50052")).unwrap(), "http://h.example:50052/");
    let err = default_dial(&Endpoint::from("a b")).unwrap_err();
    assert_eq!(err, ClientError::TransportSetup("invalid URI".to_string()));
}

#[test]
fn a_refused_endpoint_is_a_setup_error() {
    assert_eq!(dial_result(Ok("u".to_string())), Ok("u".to_string()));
    assert_eq!(
        dial_result(Err("why".to_string())),
        Err(ClientError::TransportSetup("why".to_string()))
    );
}
