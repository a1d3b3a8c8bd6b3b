use wandering_inn_scraper::rate::RateLimiter;

#[test]
fn first_request_needs_no_wait() {
    let gate = RateLimiter::new(1000);
    assert_eq!(gate.delay_before(0), 0);
    assert_eq!(gate.delay_before(123_456), 0);
}

#[test]
fn wait_is_the_remainder_of_the_interval() {
    let mut gate = RateLimiter::new(1000);
    gate.record(5000);
    assert_eq!(gate.delay_before(5000), 1000);
    assert_eq!(gate.delay_before(5400), 600);
    assert_eq!(gate.delay_before(5999), 1);
    assert_eq!(gate.delay_before(6000), 0);
    assert_eq!(gate.delay_before(9999), 0);
}

#[test]
fn recording_again_restarts_the_interval() {
    let mut gate = RateLimiter::new(250);
    gate.record(100);
    assert_eq!(gate.delay_before(200), 150);
    gate.record(200);
    assert_eq!(gate.delay_before(200), 250);
    assert_eq!(gate.delay_before(450), 0);
}

#[test]
fn oversized_interval_saturates() {
    let mut gate = RateLimiter::new(u64::MAX);
    gate.record(10);
    assert_eq!(gate.delay_before(0), u64::MAX);
    assert_eq!(gate.delay_before(5), u64::MAX);
    assert_eq!(gate.delay_before(20), u64::MAX - 10);
}

#[test]
fn zero_interval_never_waits() {
    let mut gate = RateLimiter::new(0);
    gate.record(42);
    assert_eq!(gate.delay_before(42), 0);
}
