use splitter_client::ownership::TimerStep;
use splitter_client::time::{Duration, SystemTime};
use splitter_client::{ClientError, GrantState, Latch, Ownership};

fn at(secs: i128) -> SystemTime {
    SystemTime::from_epoch_nanos(secs * 1_000_000_000).unwrap()
}

fn now() -> SystemTime {
    at(1_700_000_000)
}

fn far_future() -> SystemTime {
    now().plus(Duration::from_secs(3600))
}

#[test]
fn initial_active_state_fires_active_immediately() {
    let o = Ownership::new(GrantState::Active, far_future(), now());
    o.wait_for_active().expect("already active").expect("ok");
}

#[test]
fn initial_revoked_state_fires_revoked() {
    let o = Ownership::new(GrantState::Revoked, far_future(), now());
    let err = o.wait_for_active().expect("resolves").unwrap_err();
    assert!(matches!(err, ClientError::Revoked));
    let o = Ownership::new(GrantState::RevokedUnloaded, far_future(), now());
    assert!(o.revoked().is_closed());
}

#[test]
fn expiration_in_past_pre_closes_expired() {
    let o = Ownership::new(GrantState::Allocated, at(1_699_999_999), now());
    let err = o.wait_for_active().expect("resolves").unwrap_err();
    assert!(matches!(err, ClientError::Expired));
}

#[test]
fn a_lease_that_ends_now_is_not_over_yet() {
    let mut o = Ownership::new(GrantState::Allocated, now(), now());
    assert!(!o.expired().is_closed());
    assert!(matches!(o.timer_step(now()), TimerStep::Stop));
    assert!(o.expired().is_closed());
}

#[test]
fn wait_for_unload_returns_loader_when_activated() {
    let mut o = Ownership::new(GrantState::Allocated, far_future(), now());
    assert!(o.wait_for_unload().is_none());
    o.activate();
    let loader = o.wait_for_unload().expect("resolves").expect("ok");
    assert!(std::ptr::eq(loader, o.loader()));
}

#[test]
fn wait_for_unload_returns_loader_when_counterpart_unloaded() {
    let mut o = Ownership::new(GrantState::Allocated, far_future(), now());
    o.counterpart_unloaded();
    o.wait_for_unload().expect("resolves").expect("ok");
    assert!(o.loader().unloaded().is_closed());
}

#[test]
fn wait_for_revoke_returns_unloader() {
    let mut o = Ownership::new(GrantState::Active, far_future(), now());
    assert!(o.wait_for_revoke().is_none());
    o.revoke();
    let unloader = o.wait_for_revoke().expect("resolves").expect("ok");
    assert!(std::ptr::eq(unloader, o.unloader()));
}

#[test]
fn wait_for_load_resolves_on_counterpart_loaded() {
    let mut o = Ownership::new(GrantState::Revoked, far_future(), now());
    assert!(o.wait_for_load().is_none());
    o.counterpart_loaded();
    o.wait_for_load().expect("resolves").expect("ok");
    assert!(o.unloader().loaded().is_closed());
}

#[test]
fn loader_load_and_unloader_unload_are_idempotent() {
    let mut o = Ownership::new(GrantState::Allocated, far_future(), now());
    assert!(o.load());
    assert!(!o.load());
    assert!(o.loader().is_loaded());
    assert!(o.unload());
    assert!(!o.unload());
    assert!(o.unloader().is_unloaded());
}

#[test]
fn request_revoke_closes_signal() {
    let mut o = Ownership::new(GrantState::Active, far_future(), now());
    assert!(!o.revoke_requested().is_closed());
    o.request_revoke();
    assert!(o.revoke_requested().is_closed());
    // The grant is not revoked by that.
    assert!(!o.revoked().is_closed());
    assert!(o.wait_for_revoke().is_none());
}

#[test]
fn every_wait_ends_with_expiry() {
    let mut o = Ownership::new(GrantState::Allocated, far_future(), now());
    let open = Latch::new();
    assert!(o.wait_for_action(open.reader()).is_none());
    o.expire();
    assert!(matches!(o.wait_for_unload(), Some(Err(ClientError::Expired))));
    assert!(matches!(o.wait_for_active(), Some(Err(ClientError::Expired))));
    assert!(matches!(o.wait_for_revoke(), Some(Err(ClientError::Expired))));
    assert!(matches!(o.wait_for_load(), Some(Err(ClientError::Expired))));
    assert!(matches!(o.wait_for_action(open.reader()), Some(Err(ClientError::Expired))));
    let mut done = Latch::new();
    done.close();
    assert!(matches!(o.wait_for_action(done.reader()), Some(Ok(()))));
}

#[test]
fn waiting_for_unload_fails_on_revoke() {
    let mut o = Ownership::new(GrantState::Allocated, far_future(), now());
    o.revoke();
    assert!(matches!(o.wait_for_unload(), Some(Err(ClientError::Revoked))));
}

#[test]
fn timer_sleeps_until_the_lease_ends() {
    let mut o = Ownership::new(GrantState::Active, at(1_700_000_010), now());
    match o.timer_step(now()) {
        TimerStep::Sleep(d) => assert_eq!(d.as_secs(), 10),
        TimerStep::Stop => panic!("lease is not over"),
    }
    o.set_expiration(at(1_700_000_020));
    assert_eq!(o.expiration().epoch_nanos(), 1_700_000_020_000_000_000);
    assert!(matches!(o.timer_step(at(1_700_000_015)), TimerStep::Sleep(_)));
    assert!(!o.expired().is_closed());
    assert!(matches!(o.timer_step(at(1_700_000_020)), TimerStep::Stop));
    assert!(o.expired().is_closed());
    // A longer lease does not bring it back.
    o.set_expiration(at(1_800_000_000));
    assert!(matches!(o.timer_step(now()), TimerStep::Stop));
    assert!(o.expired().is_closed());
}

#[test]
fn a_snapshot_shows_a_moment() {
    let mut o = Ownership::new(GrantState::Allocated, far_future(), now());
    let before = o.snapshot();
    o.counterpart_unloaded();
    o.load();
    o.activate();
    o.request_revoke();
    o.revoke();
    o.counterpart_loaded();
    o.unload();
    o.expire();
    assert!(!before.active && !before.loaded && !before.expired);
    assert!(before.active_answer().is_none());
    let after = o.snapshot();
    assert!(after.active && after.revoked && after.expired && after.revoke_requested);
    assert!(after.counterpart_unloaded && after.loaded);
    assert!(after.counterpart_loaded && after.unloaded);
    assert_eq!(after.expiration, far_future());
    assert_ne!(before, after);
    assert!(matches!(after.unload_answer(), Some(Ok(()))));
    assert!(matches!(after.revoke_answer(), Some(Ok(()))));
    assert!(matches!(after.load_answer(), Some(Ok(()))));
    assert!(matches!(after.action_answer(false), Some(Err(ClientError::Expired))));
    assert!(matches!(after.action_answer(true), Some(Ok(()))));
}
