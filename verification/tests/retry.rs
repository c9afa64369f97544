use atlasip::retry::{RetryPolicy, RetryStep};

/// Drives a policy over attempts whose outcomes are given; returns the
/// number of attempts made, the pauses taken and whether one succeeded.
fn drive(max_retries: u32, base_ms: u64, succeeds_at: Option<u32>) -> (u32, Vec<u64>, bool) {
    let mut policy = RetryPolicy::new(max_retries, base_ms);
    let mut calls = 0u32;
    let mut pauses = Vec::new();
    loop {
        let ok = succeeds_at == Some(calls);
        calls += 1;
        if ok {
            return (calls, pauses, true);
        }
        match policy.after_failure() {
            RetryStep::Wait(ms) => pauses.push(ms),
            RetryStep::GiveUp => return (calls, pauses, false),
        }
    }
}

#[test]
fn test_succeeds_first_attempt() {
    let (calls, pauses, ok) = drive(2, 1, Some(0));
    assert!(ok);
    assert_eq!(calls, 1, "should only be called once");
    assert!(pauses.is_empty());
}

#[test]
fn test_succeeds_on_retry() {
    let (calls, pauses, ok) = drive(2, 1, Some(1));
    assert!(ok);
    assert_eq!(calls, 2);
    assert_eq!(pauses, vec![1]);
}

#[test]
fn test_all_attempts_fail() {
    let (calls, _, ok) = drive(2, 1, None);
    assert!(!ok);
    assert_eq!(calls, 3);
}

#[test]
fn test_zero_retries_no_retry() {
    let (calls, pauses, ok) = drive(0, 1, None);
    assert!(!ok);
    assert_eq!(calls, 1, "zero retries = exactly one call");
    assert!(pauses.is_empty());
}

#[test]
fn test_exponential_backoff_attempt_count() {
    let (calls, pauses, _) = drive(2, 200, None);
    assert_eq!(calls, 3, "1 initial + 2 retries");
    assert_eq!(pauses, vec![200, 400]);
}

#[test]
fn backoff_doubles_each_time() {
    let (_, pauses, _) = drive(4, 5, None);
    assert_eq!(pauses, vec![5, 10, 20, 40]);
}
