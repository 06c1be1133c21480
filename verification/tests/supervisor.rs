use cowatcher::supervisor::RestartPolicy;
use std::time::Duration;

fn secs(n: u64) -> Duration {
    Duration::from_secs(n)
}

#[test]
fn backoff_doubles_and_caps() {
    let mut policy = RestartPolicy::new(secs(1), secs(30), secs(60));
    assert_eq!(policy.record_exit(secs(0)), secs(1));
    assert_eq!(policy.record_exit(secs(0)), secs(2));
    assert_eq!(policy.record_exit(secs(0)), secs(4));
    assert_eq!(policy.record_exit(secs(0)), secs(8));
    assert_eq!(policy.record_exit(secs(0)), secs(16));
    assert_eq!(policy.record_exit(secs(0)), secs(30));
    assert_eq!(policy.record_exit(secs(0)), secs(30));
}

#[test]
fn healthy_run_resets_backoff() {
    let mut policy = RestartPolicy::new(secs(1), secs(30), secs(60));
    policy.record_exit(secs(0));
    policy.record_exit(secs(0));
    assert_eq!(policy.consecutive_failures(), 2);
    assert_eq!(policy.record_exit(secs(120)), secs(1));
    assert_eq!(policy.consecutive_failures(), 1);
}

#[test]
fn never_overflows_on_many_failures() {
    let mut policy = RestartPolicy::new(secs(1), secs(30), secs(60));
    let mut last = secs(0);
    for _ in 0..200 {
        last = policy.record_exit(secs(0));
    }
    assert_eq!(last, secs(30), "stays capped, no panic/overflow");
}

#[test]
fn a_run_exactly_at_the_healthy_length_counts_as_healthy() {
    let mut policy = RestartPolicy::new(secs(1), secs(30), secs(60));
    policy.record_exit(secs(0));
    policy.record_exit(secs(0));
    policy.record_exit(secs(0));
    assert_eq!(policy.record_exit(secs(60)), secs(1));
    assert_eq!(policy.consecutive_failures(), 1);
}

#[test]
fn a_base_above_the_cap_is_held_to_the_cap() {
    let mut policy = RestartPolicy::new(secs(50), secs(30), secs(60));
    assert_eq!(policy.record_exit(secs(0)), secs(30));
}

#[test]
fn an_overflowing_product_falls_back_to_the_cap() {
    let mut policy = RestartPolicy::new(Duration::MAX, Duration::MAX, secs(60));
    assert_eq!(policy.record_exit(secs(0)), Duration::MAX);
    assert_eq!(policy.record_exit(secs(0)), Duration::MAX);
}

#[test]
fn the_default_policy_waits_one_second_first() {
    let mut policy = RestartPolicy::default();
    assert_eq!(policy.base, secs(1));
    assert_eq!(policy.cap, secs(30));
    assert_eq!(policy.healthy_after, secs(60));
    assert_eq!(policy.consecutive_failures(), 0);
    assert_eq!(policy.record_exit(secs(0)), secs(1));
}
