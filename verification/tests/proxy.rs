use std::sync::atomic::{AtomicU32, Ordering};
use std::sync::{Arc, Mutex};

use splitter_client::error::{Code, Status};
use splitter_client::inquiry::{Answer, Inquiry};
use splitter_client::proxy::{finish_remote, next_step, route, Route, RouteStep};
use splitter_client::retry::RetryStep;
use splitter_client::time::Duration;
use splitter_client::{
    ClientError, ClusterMap, DomainKey, GrantState, Location, OwnershipBackoff, Proxy,
    QualifiedDomainKey, QualifiedDomainName, QualifiedServiceName,
};

type Outcome<T> = Result<T, ClientError>;
type ResolveFn = Box<dyn FnMut() -> Outcome<&'static str> + Send>;
type LookupFn = Box<dyn FnMut(&[GrantState]) -> Option<u32> + Send>;

/// Test proxy whose behavior is driven by test-supplied closures.
struct MockProxy {
    on_resolve: Mutex<ResolveFn>,
    on_lookup: Mutex<LookupFn>,
    cluster: Arc<ClusterMap>,
}

impl MockProxy {
    fn new<R, L>(on_resolve: R, on_lookup: L) -> Self
    where
        R: FnMut() -> Outcome<&'static str> + Send + 'static,
        L: FnMut(&[GrantState]) -> Option<u32> + Send + 'static,
    {
        Self {
            on_resolve: Mutex::new(Box::new(on_resolve)),
            on_lookup: Mutex::new(Box::new(on_lookup)),
            cluster: Arc::new(ClusterMap::empty()),
        }
    }
}

impl Proxy for MockProxy {
    type Key = u32;
    type Client = &'static str;
    type Value = u32;

    fn resolve(&self, _: &u32) -> Outcome<&'static str> {
        (self.on_resolve.lock().unwrap())()
    }
    fn lookup(&self, _: &u32, states: &[GrantState]) -> Option<u32> {
        (self.on_lookup.lock().unwrap())(states)
    }
    fn domain_key(&self, key: &u32) -> QualifiedDomainKey {
        QualifiedDomainKey {
            domain: QualifiedDomainName {
                service: QualifiedServiceName::new("t", "s"),
                name: "d".into(),
            },
            key: DomainKey {
                region: Default::default(),
                key: key.to_string(),
            },
        }
    }
    fn location(&self, _: &u32) -> Option<Location> {
        None
    }
    fn cluster(&self) -> Arc<ClusterMap> {
        self.cluster.clone()
    }
}

fn remote_ok(client: &'static str, req: u32) -> Result<String, Status> {
    Ok(format!("remote:{client}:{req}"))
}

fn local_ok(v: u32, req: u32) -> Outcome<String> {
    Ok(format!("local:{v}:{req}"))
}

fn handle(
    p: &MockProxy,
    key: &u32,
    req: u32,
    remote: impl Fn(&'static str, u32) -> Result<String, Status>,
    local: impl Fn(u32, u32) -> Outcome<String>,
) -> Outcome<String> {
    match route(&mut Inquiry::new(p, key))? {
        Route::Local(v) => local(v, req),
        Route::Remote(client) => finish_remote(remote(client, req)),
    }
}

fn handle_with_retry(p: &MockProxy, timeout: Duration, req: u32) -> Outcome<String> {
    let backoff = OwnershipBackoff::new(timeout);
    let mut retry = backoff.start();
    let mut elapsed: u128 = 0;
    loop {
        let outcome = handle(p, &7, req, remote_ok, local_ok);
        match retry.step(&backoff, outcome, Duration::from_nanos(elapsed)) {
            RetryStep::Done(r) => return r,
            RetryStep::Sleep(d) => elapsed += d.as_nanos(),
        }
    }
}

#[test]
fn active_local_grant_takes_fast_path() {
    let p = MockProxy::new(
        || panic!("resolve should not be called"),
        |states| {
            assert_eq!(states, &[GrantState::Active]);
            Some(99)
        },
    );
    let r = handle(&p, &7, 42, remote_ok, local_ok).unwrap();
    assert_eq!(r, "local:99:42");
}

#[test]
fn no_local_active_resolves_remote() {
    let p = MockProxy::new(|| Ok("peer-a"), |_| None);
    let r = handle(&p, &7, 42, remote_ok, local_ok).unwrap();
    assert_eq!(r, "remote:peer-a:42");
}

#[test]
fn no_resolution_falls_back_to_any_state_local() {
    let attempts = Arc::new(AtomicU32::new(0));
    let a = attempts.clone();
    let p = MockProxy::new(
        || Err(ClientError::NoResolution),
        move |states| {
            let n = a.fetch_add(1, Ordering::SeqCst);
            // First call filters to Active → None; second uses any state.
            if n == 0 {
                assert_eq!(states, &[GrantState::Active]);
                None
            } else {
                assert!(states.is_empty());
                Some(5)
            }
        },
    );
    let r = handle(&p, &7, 42, remote_ok, local_ok).unwrap();
    assert_eq!(r, "local:5:42");
    assert_eq!(attempts.load(Ordering::SeqCst), 2);
}

#[test]
fn no_resolution_no_local_is_not_owned() {
    let p = MockProxy::new(|| Err(ClientError::NoResolution), |_| None);
    let err = handle(&p, &7, 42, remote_ok, local_ok).unwrap_err();
    assert!(matches!(err, ClientError::NotOwned));
}

#[test]
fn remote_status_translates_to_client_error() {
    let p = MockProxy::new(|| Ok("peer-a"), |_| None);
    let remote = |_: &'static str, _: u32| {
        Err::<String, _>(Status::new(Code::OutOfRange, "not owned"))
    };
    let err = handle(&p, &7, 42, remote, local_ok).unwrap_err();
    assert!(matches!(err, ClientError::NotOwned));
}

#[test]
fn resolve_returning_unavailable_propagates() {
    let p = MockProxy::new(
        || Err(ClientError::Transport(Status::new(Code::Unavailable, "down"))),
        |_| None,
    );
    let err = handle(&p, &7, 42, remote_ok, local_ok).unwrap_err();
    assert!(matches!(err, ClientError::Transport(_)));
}

#[test]
fn retry_recovers_after_transient_not_owned() {
    let attempts = Arc::new(AtomicU32::new(0));
    let a = attempts.clone();
    let p = MockProxy::new(
        move || {
            let n = a.fetch_add(1, Ordering::SeqCst);
            if n < 2 {
                Err(ClientError::NoResolution)
            } else {
                Ok("peer-a")
            }
        },
        |_| None,
    );
    // NoResolution + no local value = NotOwned (ownership error → retried).
    let r = handle_with_retry(&p, Duration::from_secs(30), 42).unwrap();
    assert_eq!(r, "remote:peer-a:42");
    assert!(attempts.load(Ordering::SeqCst) >= 3);
}

#[test]
fn retry_does_not_retry_non_ownership_errors() {
    let attempts = Arc::new(AtomicU32::new(0));
    let a = attempts.clone();
    let p = MockProxy::new(
        move || {
            a.fetch_add(1, Ordering::SeqCst);
            Err(ClientError::InvalidMessage("bad".into()))
        },
        |_| None,
    );
    let r = handle_with_retry(&p, Duration::from_secs(1), 42);
    assert!(matches!(r, Err(ClientError::InvalidMessage(_))));
    assert_eq!(attempts.load(Ordering::SeqCst), 1);
}

#[test]
fn each_answer_decides_what_is_asked_next() {
    let step = next_step::<&str, u32>;
    assert!(matches!(step(Answer::Active(Some(1))), RouteStep::Done(Ok(Route::Local(1)))));
    assert!(matches!(step(Answer::Active(None)), RouteStep::AskResolve));
    assert!(matches!(
        step(Answer::Resolved(Ok("peer"))),
        RouteStep::Done(Ok(Route::Remote("peer")))
    ));
    assert!(matches!(
        step(Answer::Resolved(Err(ClientError::NoResolution))),
        RouteStep::AskAny
    ));
    assert!(matches!(
        step(Answer::Resolved(Err(ClientError::Cancelled))),
        RouteStep::Done(Err(ClientError::Cancelled))
    ));
    assert!(matches!(step(Answer::Any(Some(2))), RouteStep::Done(Ok(Route::Local(2)))));
    assert!(matches!(
        step(Answer::Any(None)),
        RouteStep::Done(Err(ClientError::NotOwned))
    ));
}

#[test]
fn a_resolved_key_is_not_looked_up_again() {
    let lookups = Arc::new(AtomicU32::new(0));
    let l = lookups.clone();
    let p = MockProxy::new(
        || Ok("peer-a"),
        move |_| {
            l.fetch_add(1, Ordering::SeqCst);
            None
        },
    );
    assert!(matches!(route(&mut Inquiry::new(&p, &7)), Ok(Route::Remote("peer-a"))));
    assert_eq!(lookups.load(Ordering::SeqCst), 1);
}
