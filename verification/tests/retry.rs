use std::time::Duration;
use yang_push::retry::{Retry, RetryConfig, RetryStep};

fn retry_cfg(max_retries: u32) -> RetryConfig {
    RetryConfig::new(max_retries, Duration::from_millis(1))
}

/// Runs `operation` until it is to be tried no more; how often it was tried,
/// which retries were announced, and what came of it.
fn run<F: Fn(u32) -> Result<&'static str, &'static str>>(
    config: RetryConfig,
    operation: F,
) -> (u32, Vec<u32>, Result<&'static str, &'static str>) {
    let mut retry = Retry::new(config);
    let mut calls = 0;
    let mut announced = Vec::new();
    loop {
        let outcome = operation(calls);
        calls += 1;
        match retry.with_retry(outcome) {
            RetryStep::Again(n) => announced.push(n),
            RetryStep::Done(result) => return (calls, announced, result),
        }
    }
}

/// A single attempt that succeeds immediately: no retries should happen.
#[test]
fn test_succeeds_on_first_attempt() {
    let (calls, announced, result) = run(retry_cfg(5), |_| Ok("done"));
    assert!(result.is_ok());
    assert_eq!(calls, 1, "should not retry on success");
    assert!(announced.is_empty());
}

/// max_retries = 0 means exactly one attempt; failure is returned immediately.
#[test]
fn test_no_retry_when_max_retries_zero() {
    let (calls, announced, result) = run(retry_cfg(0), |_| Err("always fails"));
    assert!(result.is_err());
    assert_eq!(calls, 1, "should try exactly once");
    assert!(announced.is_empty());
}

/// All attempts fail: the last error is returned and total calls ==
/// max_retries + 1.
#[test]
fn test_all_retries_exhausted_returns_last_error() {
    const MAX_RETRIES: u32 = 3;
    let (calls, announced, result) = run(retry_cfg(MAX_RETRIES), |n| {
        Err(if n == MAX_RETRIES {
            "last error"
        } else {
            "transient"
        })
    });
    assert_eq!(result, Err("last error"));
    assert_eq!(calls, MAX_RETRIES + 1);
    assert_eq!(announced, vec![1, 2, 3]);
}

/// Succeeds on the N-th attempt: prior failures must not be surfaced.
#[test]
fn test_succeeds_after_transient_failures() {
    const FAIL_FIRST: u32 = 2;
    let (calls, announced, result) = run(retry_cfg(5), |n| {
        if n < FAIL_FIRST {
            Err("transient")
        } else {
            Ok("done")
        }
    });
    assert!(result.is_ok(), "should ultimately succeed");
    assert_eq!(calls, FAIL_FIRST + 1);
    assert_eq!(announced, vec![1, 2]);
}

#[test]
fn config_keeps_the_longest_wait() {
    assert_eq!(
        RetryConfig::new(2, Duration::from_secs(30)).max_backoff(),
        Duration::from_secs(30)
    );
}
