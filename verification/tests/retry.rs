use splitter_client::error::{Code, Status};
use splitter_client::retry::RetryStep;
use splitter_client::time::Duration;
use splitter_client::{ClientError, OwnershipBackoff};

fn fast_backoff(timeout: Duration) -> OwnershipBackoff {
    OwnershipBackoff {
        initial: Duration::from_millis(1),
        max: Duration::from_millis(4),
        timeout,
    }
}

/// Runs attempts until they are over, on a clock that only sleeps move. Gives the
/// result and the sleeps in milliseconds.
fn run<T>(
    backoff: &OwnershipBackoff,
    mut op: impl FnMut() -> Result<T, ClientError>,
) -> (Result<T, ClientError>, Vec<u128>) {
    let mut retry = backoff.start();
    assert_eq!(retry.delay(), backoff.initial);
    let mut elapsed: u128 = 0;
    let mut sleeps = Vec::new();
    loop {
        match retry.step(backoff, op(), Duration::from_nanos(elapsed)) {
            RetryStep::Done(r) => return (r, sleeps),
            RetryStep::Sleep(d) => {
                elapsed += d.as_nanos();
                sleeps.push(d.as_nanos() / 1_000_000);
            }
        }
    }
}

#[test]
fn succeeds_immediately_without_retry() {
    let mut attempts = 0;
    let (r, sleeps) = run(&fast_backoff(Duration::from_secs(1)), || {
        attempts += 1;
        Ok(42)
    });
    assert_eq!(r.unwrap(), 42);
    assert_eq!(attempts, 1);
    assert!(sleeps.is_empty());
}

#[test]
fn retries_ownership_errors_until_success() {
    let mut attempts = 0;
    let (r, sleeps) = run(&fast_backoff(Duration::from_millis(500)), || {
        attempts += 1;
        if attempts <= 3 {
            Err(ClientError::NotOwned)
        } else {
            Ok("ok")
        }
    });
    assert_eq!(r.unwrap(), "ok");
    assert_eq!(attempts, 4);
    assert_eq!(sleeps, vec![1, 2, 4]);
}

#[test]
fn non_ownership_errors_are_not_retried() {
    let mut attempts = 0;
    let (r, _) = run::<()>(&fast_backoff(Duration::from_secs(1)), || {
        attempts += 1;
        Err(ClientError::InvalidMessage("nope".into()))
    });
    assert!(matches!(r, Err(ClientError::InvalidMessage(_))));
    assert_eq!(attempts, 1);
}

#[test]
fn unavailable_transport_is_ownership_and_retried() {
    let mut attempts = 0;
    let _ = run::<()>(&fast_backoff(Duration::from_millis(50)), || {
        attempts += 1;
        Err(ClientError::Transport(Status::new(Code::Unavailable, "peer down")))
    });
    assert!(attempts > 1);
}

#[test]
fn timeout_surfaces_last_ownership_error() {
    let (r, sleeps) = run::<()>(&fast_backoff(Duration::from_millis(20)), || {
        Err(ClientError::Draining)
    });
    assert!(matches!(r, Err(ClientError::Draining)));
    assert_eq!(sleeps, vec![1, 2, 4, 4, 4, 4, 1]);
}

#[test]
fn default_delays_double_from_one_to_five_seconds() {
    let (_, sleeps) = run::<()>(&OwnershipBackoff::new(Duration::from_secs(20)), || {
        Err(ClientError::NotOwned)
    });
    assert_eq!(sleeps, vec![1000, 2000, 4000, 5000, 5000, 3000]);
}

#[test]
fn nothing_is_retried_without_time() {
    let (r, sleeps) = run::<()>(&OwnershipBackoff::new(Duration::zero()), || {
        Err(ClientError::NotOwned)
    });
    assert!(matches!(r, Err(ClientError::NotOwned)));
    assert!(sleeps.is_empty());
}
