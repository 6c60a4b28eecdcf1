use safehouse::backoff::exponential_backoff_secs;

#[test]
fn backoff_is_monotonic_and_capped() {
    let seq: Vec<u64> = (1..=8).map(exponential_backoff_secs).collect();
    assert_eq!(seq, vec![2, 4, 8, 16, 32, 60, 60, 60]);
    for w in seq.windows(2) {
        assert!(w[1] >= w[0], "backoff must be non-decreasing");
    }
    assert!(
        seq.iter().all(|&s| s <= 60),
        "backoff must be capped so a long outage can't push it out unboundedly"
    );
}

#[test]
fn clamps_out_of_range_attempts() {
    assert_eq!(exponential_backoff_secs(0), exponential_backoff_secs(1));
    assert_eq!(exponential_backoff_secs(100), exponential_backoff_secs(6));
}

#[test]
fn backoff_at_the_limits_of_the_type() {
    assert_eq!(exponential_backoff_secs(0), 2);
    assert_eq!(exponential_backoff_secs(u32::MAX), 60);
}
