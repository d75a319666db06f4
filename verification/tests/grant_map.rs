use splitter_client::{
    DomainType, GrantId, GrantMap, GrantState, QualifiedDomainName, QualifiedServiceName, Shard,
};

fn mk_shard() -> Shard {
    Shard {
        domain: QualifiedDomainName {
            service: QualifiedServiceName::new("t", "s"),
            name: "d".into(),
        },
        kind: DomainType::Global,
        region: Default::default(),
        from: String::new(),
        to: String::new(),
    }
}

#[test]
fn state_transitions_overwrite_in_place() {
    let mut gm = GrantMap::<u32>::new();
    let id = GrantId("g1".into());
    let shard = mk_shard();
    gm.allocated(id.clone(), shard.clone(), 1);
    assert!(matches!(gm.get(&id), Some((_, GrantState::Allocated, 1))));
    gm.loaded(id.clone(), shard.clone(), 2);
    assert!(matches!(
        gm.get(&id),
        Some((_, GrantState::AllocatedLoaded, 2))
    ));
    gm.activate(id.clone(), shard.clone(), 3);
    assert!(matches!(gm.get(&id), Some((_, GrantState::Active, 3))));
    gm.revoke(id.clone(), shard.clone(), 4);
    assert!(matches!(gm.get(&id), Some((_, GrantState::Revoked, 4))));
    gm.unloaded(id.clone(), shard, 5);
    assert!(matches!(
        gm.get(&id),
        Some((_, GrantState::RevokedUnloaded, 5))
    ));
}

#[test]
fn delete_removes_entry() {
    let mut gm = GrantMap::<u32>::new();
    let id = GrantId("g1".into());
    gm.allocated(id.clone(), mk_shard(), 1);
    assert_eq!(gm.len(), 1);
    let (_, state, value) = gm.delete(&id).expect("present");
    assert_eq!(state, GrantState::Allocated);
    assert_eq!(value, 1);
    assert!(gm.is_empty());
    assert!(gm.delete(&id).is_none());
}

#[test]
fn ids_lists_each_grant_once() {
    let mut gm = GrantMap::<u32>::default();
    for name in ["b", "a", "c", "a"] {
        gm.write(GrantId(name.into()), mk_shard(), GrantState::Active, 0);
    }
    let mut ids: Vec<String> = gm.ids().into_iter().map(|id| id.into_string()).collect();
    ids.sort();
    assert_eq!(ids, vec!["a", "b", "c"]);
    assert_eq!(gm.len(), 3);
    assert!(gm.get(&GrantId("d".into())).is_none());
}

#[test]
fn writes_leave_other_grants_alone() {
    let mut gm = GrantMap::<u32>::new();
    let a = GrantId("a".into());
    let b = GrantId("b".into());
    gm.activate(a.clone(), mk_shard(), 1);
    gm.revoke(b.clone(), mk_shard(), 2);
    gm.unloaded(b.clone(), mk_shard(), 3);
    gm.delete(&b);
    let (shard, state, value) = gm.get(&a).expect("untouched");
    assert_eq!(shard, mk_shard());
    assert_eq!(state, GrantState::Active);
    assert_eq!(value, 1);
}
