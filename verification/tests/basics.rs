use splitter_client::table::Table;
use splitter_client::text::{compare, split_once, starts_with, Order};
use splitter_client::time::{Duration, SystemTime};
use splitter_client::{GrantId, InstanceId};

#[test]
fn texts_are_ordered_by_their_bytes() {
    assert!(matches!(compare("a", "b"), Order::Less));
    assert!(matches!(compare("b", "a"), Order::Greater));
    assert!(matches!(compare("ab", "ab"), Order::Equal));
    assert!(matches!(compare("", "a"), Order::Less));
    assert!(matches!(compare("a", "ab"), Order::Less));
    assert!(matches!(compare("Z", "a"), Order::Less));
    for (a, b) in [("é", "z"), ("z", "é"), ("\u{ffff}", "\u{10000}"), ("", "")] {
        let expected = if a < b {
            0
        } else if a == b {
            1
        } else {
            2
        };
        let got = match compare(a, b) {
            Order::Less => 0,
            Order::Equal => 1,
            Order::Greater => 2,
        };
        assert_eq!(got, expected);
    }
}

#[test]
fn prefixes_and_splits() {
    assert!(starts_with("http://x", "http://"));
    assert!(!starts_with("http:/", "http://"));
    assert!(starts_with("éa", "é"));
    assert!(starts_with("a", ""));
    assert_eq!(split_once("a/b/c", '/'), Some(("a", "b/c")));
    assert_eq!(split_once("/b", '/'), Some(("", "b")));
    assert_eq!(split_once("ab", '/'), None);
}

#[test]
fn tables_hold_one_value_for_a_key() {
    let mut t: Table<GrantId, u32> = Table::new();
    assert_eq!(t.insert("b".into(), 1), None);
    assert_eq!(t.insert("a".into(), 2), None);
    assert_eq!(t.insert("b".into(), 3), Some(1));
    assert_eq!(t.len(), 2);
    assert_eq!(t.get(&"a".into()), Some(&2));
    assert_eq!(t.get(&"b".into()), Some(&3));
    assert_eq!(t.get(&"c".into()), None);
    assert_eq!(t.key_at(0).as_str(), "a");
    assert_eq!(*t.value_at(1), 3);
    assert_eq!(t.remove(&"a".into()), Some(2));
    assert_eq!(t.remove(&"a".into()), None);
    assert!(t.contains(&"b".into()));
    assert!(!t.contains(&"a".into()));
}

#[test]
fn tables_keep_many_keys_apart() {
    let mut t: Table<InstanceId, u128> = Table::new();
    for n in 0..200u128 {
        let k = (n * 7919) % 211;
        t.insert(InstanceId(k), k);
    }
    assert_eq!(t.len(), 200);
    for n in 0..100u128 {
        let k = (n * 7919) % 211;
        assert_eq!(t.remove(&InstanceId(k)), Some(k));
    }
    assert_eq!(t.len(), 100);
    let copy = t.clone();
    for n in 100..200u128 {
        let k = (n * 7919) % 211;
        assert_eq!(copy.get(&InstanceId(k)), Some(&k));
    }
}

#[test]
fn durations_and_times() {
    assert_eq!(Duration::from_millis(1500).as_nanos(), 1_500_000_000);
    assert_eq!(Duration::from_millis(1500).as_secs(), 1);
    assert_eq!(Duration::from_millis(1500).subsec_nanos(), 500_000_000);
    assert!(Duration::zero().is_zero());
    assert_eq!(Duration::from_secs(9).third().as_secs(), 3);
    assert_eq!(Duration::from_secs(9).doubled().as_secs(), 18);
    assert_eq!(Duration::from_secs(9).minus(Duration::from_secs(2)).as_secs(), 7);
    assert_eq!(Duration::from_secs(9).min(Duration::from_secs(2)).as_secs(), 2);
    let d = Duration::from_secs(1).clamp(Duration::from_secs(2), Duration::from_secs(4));
    assert_eq!(d.as_secs(), 2);
    let t = SystemTime::unix_epoch().plus(Duration::from_secs(5));
    assert_eq!(t.epoch_nanos(), 5_000_000_000);
    assert_eq!(t.remaining(SystemTime::unix_epoch()).as_secs(), 5);
    assert!(SystemTime::unix_epoch().remaining(t).is_zero());
    assert!(SystemTime::unix_epoch().duration_since(t).is_none());
    assert!(t.is_after(SystemTime::unix_epoch()));
    assert!(t.same(t));
    assert!(SystemTime::from_epoch_nanos(i128::MAX).is_none());
}
