//! Tests of the retry-send loop: eventual delivery, the backoff schedule,
//! quit during retry, and deduplicated error logging.

use buffered_client::retry::{next_backoff, run_retry, RetryEvent, INITIAL_BACKOFF_MS, MAX_BACKOFF_MS};

fn failed(msg: &str) -> RetryEvent {
    RetryEvent::Failed(String::from(msg))
}

#[test]
fn delivers_after_k_failures() {
    let run = run_retry(vec![failed("refused"), failed("refused"), RetryEvent::Succeeded]);
    assert!(run.delivered);
    assert!(!run.aborted);
    assert_eq!(run.attempts, 3);
    assert_eq!(run.waits, vec![100, 200]);
}

#[test]
fn immediate_success_waits_for_nothing() {
    let run = run_retry(vec![RetryEvent::Succeeded]);
    assert!(run.delivered);
    assert!(!run.aborted);
    assert_eq!(run.attempts, 1);
    assert!(run.waits.is_empty());
    assert!(run.logged.is_empty());
}

#[test]
fn backoff_doubles_up_to_the_cap() {
    let mut evs: Vec<RetryEvent> = Vec::new();
    for _ in 0..7 {
        evs.push(failed("unreachable"));
    }
    evs.push(RetryEvent::Succeeded);
    let run = run_retry(evs);
    assert!(run.delivered);
    assert_eq!(run.attempts, 8);
    assert_eq!(run.waits, vec![100, 200, 400, 800, 1600, 3000, 3000]);
}

#[test]
fn next_backoff_doubles_and_caps() {
    assert_eq!(next_backoff(INITIAL_BACKOFF_MS), 200);
    assert_eq!(next_backoff(200), 400);
    assert_eq!(next_backoff(1600), MAX_BACKOFF_MS);
    assert_eq!(next_backoff(MAX_BACKOFF_MS), MAX_BACKOFF_MS);
}

#[test]
fn quit_during_wait_aborts_delivery() {
    let run = run_retry(vec![failed("refused"), RetryEvent::Quit]);
    assert!(!run.delivered);
    assert!(run.aborted);
    assert_eq!(run.attempts, 1);
    assert_eq!(run.waits, vec![100]);
}

#[test]
fn script_without_resolution_keeps_retrying() {
    let run = run_retry(vec![failed("refused")]);
    assert!(!run.delivered);
    assert!(!run.aborted);
    assert_eq!(run.attempts, 1);
    assert_eq!(run.waits, vec![100]);
}

#[test]
fn identical_consecutive_errors_are_logged_once() {
    let run = run_retry(vec![
        failed("refused"),
        failed("refused"),
        failed("reset"),
        failed("reset"),
        failed("refused"),
        RetryEvent::Succeeded,
    ]);
    assert!(run.delivered);
    assert_eq!(run.logged, vec![true, false, true, false, true]);
}
