use phm_worker::clock::{current_time_millis, millis_since_epoch};
use std::time::{Duration, SystemTime, UNIX_EPOCH};

fn std_millis() -> u128 {
    SystemTime::now().duration_since(UNIX_EPOCH).unwrap().as_millis()
}

#[test]
fn clock_is_that_of_the_system() {
    let before = std_millis();
    let now = current_time_millis();
    let after = std_millis();
    assert!(before <= now);
    assert!(now <= after);
}

#[test]
fn milliseconds_of_a_span() {
    assert_eq!(millis_since_epoch(Ok((2, 999_999_999))), 2_999);
    assert_eq!(millis_since_epoch(Ok((0, 1_000_000))), 1);
    assert_eq!(millis_since_epoch(Ok((0, 999_999))), 0);
    assert_eq!(millis_since_epoch(Ok((u64::MAX, 0))), u64::MAX as u128 * 1000);
    let before = UNIX_EPOCH - Duration::from_secs(1);
    let err = before.duration_since(UNIX_EPOCH).unwrap_err();
    assert_eq!(millis_since_epoch(Err(err)), 0);
}
