use splitter_client::Latch;

#[test]
fn close_before_await_resolves_immediately() {
    let mut l = Latch::new();
    l.close();
    assert!(l.reader().is_closed());
    assert!(l.is_closed());
}

#[test]
fn multiple_close_is_idempotent() {
    let mut l = Latch::new();
    l.close();
    l.close();
    l.close();
    assert!(l.is_closed());
    assert!(l.reader().is_closed());
}

#[test]
fn only_the_first_close_counts() {
    let mut l = Latch::default();
    assert!(!l.is_closed());
    assert!(!l.reader().is_closed());
    assert!(l.close());
    assert!(!l.close());
}

#[test]
fn every_observer_sees_the_close() {
    let mut l = Latch::new();
    l.close();
    let r1 = l.reader();
    let r2 = r1;
    assert!(r1.is_closed() && r2.is_closed() && l.reader().is_closed());
    assert!(!l.close());
    assert!(l.is_closed());
}
