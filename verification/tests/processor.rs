use splitter_client::dispatcher::{drain_result, next_in_chain, start_chain, ChainStep};
use splitter_client::processor::{Action, Phase, RangeState};
use splitter_client::time::{Duration, SystemTime};
use splitter_client::{
    ClientError, DomainType, GrantId, GrantMap, GrantRun, GrantState, Ownership,
    QualifiedDomainName, QualifiedServiceName, RecordingRange, Shard,
};

fn mk_shard() -> Shard {
    Shard {
        domain: QualifiedDomainName {
            service: QualifiedServiceName::new("t", "s"),
            name: "d".into(),
        },
        kind: DomainType::Global,
        region: Default::default(),
        from: String::new(),
        to: String::new(),
    }
}

fn now() -> SystemTime {
    SystemTime::from_epoch_nanos(1_700_000_000_000_000_000).unwrap()
}

fn far_future() -> SystemTime {
    now().plus(Duration::from_secs(3600))
}

/// A range with its log, and the drain that was started for the grant.
struct Kept {
    range: RecordingRange,
    log: Vec<String>,
    drain: Option<usize>,
}

impl Kept {
    fn new() -> Self {
        Kept {
            range: RecordingRange::new("r", Duration::from_millis(10)),
            log: Vec::new(),
            drain: None,
        }
    }

    fn state(&self) -> RangeState {
        RangeState {
            initialized: self.range.initialized().is_closed(),
            drained: self.drain.is_some_and(|place| self.range.drained(place).is_closed()),
            closed: self.range.closed().is_closed(),
        }
    }

    fn initialize(&mut self) {
        self.range.initialize(&mut self.log);
    }

    fn drain_done(&mut self) {
        self.range.drain_done(self.drain.unwrap(), &mut self.log);
    }

    fn close(&mut self) {
        self.range.close(&mut self.log);
    }
}

/// Takes steps until there is something to wait for or the handover is over.
fn settle(
    run: &mut GrantRun,
    o: &mut Ownership,
    kept: &mut Kept,
    grants: &mut GrantMap<u32>,
) -> bool {
    loop {
        match run.step(&o.snapshot(), &kept.state(), 7, grants, now()) {
            Action::Wait => return false,
            Action::Proceed => {}
            Action::Load => {
                // The signal comes first; only then is the grant noted as loaded.
                assert_eq!(noted_state(grants), Some(GrantState::Allocated));
                o.load();
            }
            Action::Drain(timeout) => {
                let d = kept.range.drain(timeout, &mut kept.log);
                assert_eq!(d.delay.as_nanos(), 10_000_000);
                kept.drain = Some(d.place);
            }
            Action::Unload => {
                assert_eq!(noted_state(grants), Some(GrantState::Revoked));
                o.unload();
            }
            Action::Close => {
                kept.close();
                return true;
            }
        }
    }
}

fn noted_state(grants: &GrantMap<u32>) -> Option<GrantState> {
    grants.get(&GrantId("g".into())).map(|(_, state, _)| state)
}

#[test]
fn a_filter_that_declines_passes_the_grant_on() {
    // The last one in the chain gives it up.
    let o = Ownership::new(GrantState::Allocated, far_future(), now());
    assert_eq!(start_chain(&o.snapshot(), 2), ChainStep::Ask(0));
    assert_eq!(next_in_chain(0, false, 2), ChainStep::Ask(1));
    assert_eq!(next_in_chain(1, false, 2), ChainStep::Relinquish);
}

#[test]
fn full_lifecycle_records_all_phases() {
    let mut grants = GrantMap::new();
    let mut range = Kept::new();
    let mut o = Ownership::new(GrantState::Allocated, far_future(), now());
    let mut run = GrantRun::new(GrantId("g".into()), mk_shard());

    assert!(!settle(&mut run, &mut o, &mut range, &mut grants));
    assert_eq!(noted_state(&grants), None);
    // Step 1 needs counterpart-unloaded:
    o.counterpart_unloaded();
    assert!(!settle(&mut run, &mut o, &mut range, &mut grants));
    assert_eq!(noted_state(&grants), Some(GrantState::Allocated));
    // Step 2 needs the range to initialize:
    range.initialize();
    assert!(!settle(&mut run, &mut o, &mut range, &mut grants));
    assert_eq!(noted_state(&grants), Some(GrantState::AllocatedLoaded));
    // Step 3 needs active:
    o.activate();
    assert!(!settle(&mut run, &mut o, &mut range, &mut grants));
    assert_eq!(noted_state(&grants), Some(GrantState::Active));
    assert_eq!(run.phase(), Phase::Serve);
    // Step 4 needs revoke:
    o.revoke();
    assert!(!settle(&mut run, &mut o, &mut range, &mut grants));
    assert_eq!(noted_state(&grants), Some(GrantState::Revoked));
    // Step 5 needs the range to drain, and counterpart-loaded:
    range.drain_done();
    assert!(!settle(&mut run, &mut o, &mut range, &mut grants));
    assert_eq!(noted_state(&grants), Some(GrantState::RevokedUnloaded));
    o.counterpart_loaded();
    assert!(settle(&mut run, &mut o, &mut range, &mut grants));

    let joined = range.log.join("|");
    assert_eq!(joined, "r initialized|r drain start|r drain done|r closed");
    // Verify the Loader/Unloader signals fired (i.e. steps 2 & 5 reached).
    assert!(o.loader().is_loaded(), "loader.load should fire");
    assert!(o.unloader().is_unloaded(), "unloader.unload should fire");
    // Grant map cleaned up on exit.
    assert!(grants.is_empty());
}

#[test]
fn exit_on_expiration_cleans_up() {
    let mut grants = GrantMap::new();
    let mut range = Kept::new();
    let mut o = Ownership::new(GrantState::Allocated, far_future(), now());
    let mut run = GrantRun::new(GrantId("g".into()), mk_shard());
    // Expire before any progress.
    o.expire();
    assert!(settle(&mut run, &mut o, &mut range, &mut grants));
    assert!(grants.is_empty());
    assert!(
        range.log.iter().any(|s| s.contains("closed")),
        "expected range close on expire"
    );
    // It is over for good.
    o.activate();
    assert!(settle(&mut run, &mut o, &mut range, &mut grants));
    assert_eq!(range.log.len(), 1);
}

#[test]
fn expiry_ends_the_handover_in_every_phase() {
    for steps in 0..6 {
        let mut grants = GrantMap::new();
        let mut range = Kept::new();
        let mut o = Ownership::new(GrantState::Allocated, far_future(), now());
        let mut run = GrantRun::new(GrantId("g".into()), mk_shard());
        if steps > 0 {
            o.counterpart_unloaded();
            settle(&mut run, &mut o, &mut range, &mut grants);
        }
        if steps > 1 {
            range.initialize();
            settle(&mut run, &mut o, &mut range, &mut grants);
        }
        if steps > 2 {
            o.activate();
            settle(&mut run, &mut o, &mut range, &mut grants);
        }
        if steps > 3 {
            o.revoke();
            settle(&mut run, &mut o, &mut range, &mut grants);
        }
        if steps > 4 {
            range.drain_done();
            settle(&mut run, &mut o, &mut range, &mut grants);
        }
        o.expire();
        assert!(settle(&mut run, &mut o, &mut range, &mut grants), "phase {steps}");
        assert!(grants.is_empty());
        assert!(range.state().closed);
    }
}

#[test]
fn a_range_that_closes_while_initializing_gives_the_grant_up() {
    let mut grants = GrantMap::new();
    let mut range = Kept::new();
    let mut o = Ownership::new(GrantState::Active, far_future(), now());
    let mut run = GrantRun::new(GrantId("g".into()), mk_shard());
    assert!(!settle(&mut run, &mut o, &mut range, &mut grants));
    range.close();
    assert!(settle(&mut run, &mut o, &mut range, &mut grants));
    assert!(!o.loader().is_loaded());
    assert!(grants.is_empty());
}

#[test]
fn a_range_that_closed_while_draining_does_not_unload() {
    let mut grants = GrantMap::new();
    let mut range = Kept::new();
    let mut o = Ownership::new(GrantState::Active, far_future(), now());
    let mut run = GrantRun::new(GrantId("g".into()), mk_shard());
    range.initialize();
    o.revoke();
    assert!(!settle(&mut run, &mut o, &mut range, &mut grants));
    range.close();
    range.drain_done();
    assert!(settle(&mut run, &mut o, &mut range, &mut grants));
    assert!(!o.unloader().is_unloaded());
}

#[test]
fn draining_has_what_is_left_of_the_lease() {
    let mut grants = GrantMap::new();
    let mut range = Kept::new();
    range.range = RecordingRange::new("r".to_string(), Duration::from_secs(60));
    range.initialize();
    let mut o = Ownership::new(GrantState::Active, now().plus(Duration::from_secs(3)), now());
    o.revoke();
    let mut run = GrantRun::new(GrantId("g".into()), mk_shard());
    let timeout = loop {
        match run.step(&o.snapshot(), &range.state(), 1u32, &mut grants, now()) {
            Action::Drain(d) => break d,
            Action::Wait | Action::Close => panic!("nothing to wait for"),
            _ => {}
        }
    };
    assert_eq!(timeout.as_secs(), 3);
    assert_eq!(range.range.drain(timeout, &mut range.log).delay.as_secs(), 3);
}

#[test]
fn an_abandoned_handover_is_tracked_no_more() {
    let mut grants = GrantMap::new();
    let mut range = Kept::new();
    let mut o = Ownership::new(GrantState::Active, far_future(), now());
    let mut run = GrantRun::new(GrantId("g".into()), mk_shard());
    grants.activate(GrantId("other".into()), mk_shard(), 1);
    settle(&mut run, &mut o, &mut range, &mut grants);
    assert_eq!(grants.len(), 2);
    run.abandon(&mut grants);
    assert_eq!(run.phase(), Phase::Ended);
    assert_eq!(grants.len(), 1);
}

#[test]
fn the_first_filter_that_accepts_owns_the_grant() {
    let mut o = Ownership::new(GrantState::Active, far_future(), now());
    assert_eq!(start_chain(&o.snapshot(), 0), ChainStep::Relinquish);
    assert_eq!(start_chain(&o.snapshot(), 3), ChainStep::Ask(0));
    assert_eq!(next_in_chain(0, false, 3), ChainStep::Ask(1));
    assert_eq!(next_in_chain(1, true, 3), ChainStep::Owned(1));
    o.expire();
    assert_eq!(start_chain(&o.snapshot(), 3), ChainStep::Expired);
}

#[test]
fn a_drain_that_times_out_is_no_error() {
    assert_eq!(drain_result(None), Ok(()));
    assert_eq!(drain_result(Some(Ok(()))), Ok(()));
    assert_eq!(
        drain_result(Some(Err(ClientError::Cancelled))),
        Err(ClientError::Cancelled)
    );
}

#[test]
fn each_drain_ends_on_its_own() {
    let mut log = Vec::new();
    let mut range = RecordingRange::new("r", Duration::from_millis(10));
    let first = range.drain(Duration::from_secs(1), &mut log);
    let second = range.drain(Duration::from_millis(1), &mut log);
    assert_eq!(second.delay.as_nanos(), 1_000_000);
    range.drain_done(first.place, &mut log);
    assert!(range.drained(first.place).is_closed());
    assert!(!range.drained(second.place).is_closed());
    range.drain_done(second.place, &mut log);
    assert!(range.drained(second.place).is_closed());
    assert_eq!(log.join("|"), "r drain start|r drain start|r drain done|r drain done");
}

#[test]
fn ranges_can_share_a_log() {
    let mut log = Vec::new();
    let mut a = RecordingRange::new("a", Duration::from_millis(10));
    let mut b = RecordingRange::new("b", Duration::from_millis(10));
    a.initialize(&mut log);
    b.log(&mut log, "hello");
    b.close(&mut log);
    b.close(&mut log);
    a.close(&mut log);
    assert_eq!(log.join("|"), "a initialized|b hello|b closed|a closed");
}
