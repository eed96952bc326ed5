use peg_metrics::retry::{handle_network_err, run_retry, FetchError, RetryPolicy};

#[test]
fn every_error_waits_seventy_millis() {
    assert_eq!(
        handle_network_err(&FetchError::Transport),
        RetryPolicy::WaitRetry(70)
    );
    assert_eq!(
        handle_network_err(&FetchError::Decode),
        RetryPolicy::WaitRetry(70)
    );
}

#[test]
fn two_failures_then_success() {
    // the eventual success value comes through, after two waits
    let outcomes: Vec<Result<u64, FetchError>> = vec![
        Err(FetchError::Transport),
        Err(FetchError::Transport),
        Ok(42),
    ];
    let (result, waited_ms) = run_retry(outcomes, RetryPolicy::WaitRetry(70));
    assert_eq!(result, Some(42));
    assert_eq!(waited_ms, 140);
    assert!(waited_ms >= 2 * 70);
}

#[test]
fn immediate_policy_never_waits() {
    let outcomes: Vec<Result<u64, FetchError>> = vec![Err(FetchError::Decode), Ok(7)];
    let (result, waited_ms) = run_retry(outcomes, RetryPolicy::Repeat);
    assert_eq!(result, Some(7));
    assert_eq!(waited_ms, 0);
}

#[test]
fn first_success_wins() {
    let outcomes: Vec<Result<u64, FetchError>> = vec![Ok(1), Ok(2)];
    let (result, waited_ms) = run_retry(outcomes, RetryPolicy::WaitRetry(70));
    assert_eq!(result, Some(1));
    assert_eq!(waited_ms, 0);
}

#[test]
fn endpoint_still_down() {
    let outcomes: Vec<Result<u64, FetchError>> =
        vec![Err(FetchError::Transport), Err(FetchError::Transport)];
    let (result, waited_ms) = run_retry(outcomes, RetryPolicy::WaitRetry(5));
    assert_eq!(result, None);
    assert_eq!(waited_ms, 10);
}
