use riker_cqrs::clock::{cutoff, is_idle, NANOS_PER_SEC};
use riker_cqrs::Timestamp;

#[test]
fn a_second_is_a_billion_nanoseconds() {
    assert_eq!(NANOS_PER_SEC, 1_000_000_000);
    assert_eq!(Timestamp::from_secs(0), Timestamp { nanos: 0 });
    assert_eq!(Timestamp::from_secs(30), Timestamp { nanos: 30_000_000_000 });
    assert_eq!(
        Timestamp::from_secs(u64::MAX),
        Timestamp { nanos: 18_446_744_073_709_551_615_000_000_000 }
    );
}

#[test]
fn cutoff_is_now_less_the_window() {
    assert_eq!(cutoff(Timestamp::from_secs(65), 60), Some(Timestamp::from_secs(5)));
    assert_eq!(cutoff(Timestamp::from_secs(200), 60), Some(Timestamp::from_secs(140)));
    assert_eq!(cutoff(Timestamp::from_secs(60), 60), Some(Timestamp::from_secs(0)));
    assert_eq!(cutoff(Timestamp { nanos: 61_500_000_000 }, 60), Some(Timestamp { nanos: 1_500_000_000 }));
}

#[test]
fn cutoff_before_the_epoch_is_none() {
    assert_eq!(cutoff(Timestamp::from_secs(59), 60), None);
    assert_eq!(cutoff(Timestamp { nanos: 59_999_999_999 }, 60), None);
    assert_eq!(cutoff(Timestamp::from_secs(0), u64::MAX), None);
}

#[test]
fn idle_means_strictly_before_the_cutoff() {
    let last_used = Timestamp::from_secs(30);
    assert!(!is_idle(last_used, Timestamp::from_secs(65), 60));
    assert!(!is_idle(last_used, Timestamp::from_secs(90), 60));
    assert!(is_idle(last_used, Timestamp { nanos: 90_000_000_001 }, 60));
    assert!(is_idle(last_used, Timestamp::from_secs(200), 60));
}

#[test]
fn nothing_is_idle_before_one_window_has_passed() {
    assert!(!is_idle(Timestamp::from_secs(0), Timestamp::from_secs(10), 60));
    assert!(!is_idle(Timestamp::from_secs(0), Timestamp::from_secs(0), u64::MAX));
}

#[test]
fn a_last_use_in_the_future_is_not_idle() {
    assert!(!is_idle(Timestamp::from_secs(500), Timestamp::from_secs(100), 60));
    assert!(!is_idle(Timestamp { nanos: u128::MAX }, Timestamp::from_secs(100), 0));
}

#[test]
fn a_window_of_zero_evicts_whatever_was_used_earlier() {
    assert!(is_idle(Timestamp::from_secs(1), Timestamp::from_secs(2), 0));
    assert!(!is_idle(Timestamp::from_secs(2), Timestamp::from_secs(2), 0));
}
