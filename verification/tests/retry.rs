use monitorhop::retry::{retry, RetryDecision, RetryState};
use std::cell::RefCell;

#[test]
fn ddchi_reader_retry_returns_ok_immediately_on_first_success() {
    let calls = RefCell::new(0);
    let result = retry(
        3,
        || {
            *calls.borrow_mut() += 1;
            Ok::<_, anyhow::Error>(42)
        },
        || {},
    );
    assert_eq!(result.unwrap(), 42);
    assert_eq!(*calls.borrow(), 1);
}

#[test]
fn ddchi_reader_retry_succeeds_after_transient_failures() {
    let calls = RefCell::new(0);
    let result = retry(
        3,
        || {
            *calls.borrow_mut() += 1;
            if *calls.borrow() < 3 {
                Err(anyhow::Error::msg("transient"))
            } else {
                Ok(42)
            }
        },
        || {},
    );
    assert_eq!(result.unwrap(), 42);
    assert_eq!(*calls.borrow(), 3);
}

#[test]
fn ddchi_reader_retry_gives_up_after_exhausting_attempts_and_returns_the_last_error() {
    let calls = RefCell::new(0);
    let result = retry(
        3,
        || {
            *calls.borrow_mut() += 1;
            Err::<i32, _>(anyhow::Error::msg(format!("attempt {}", calls.borrow())))
        },
        || {},
    );
    assert_eq!(*calls.borrow(), 3);
    assert_eq!(result.unwrap_err().to_string(), "attempt 3");
}

#[test]
fn lib_retry_returns_ok_immediately_on_first_success() {
    let calls = RefCell::new(0);
    let result = retry(
        3,
        || {
            *calls.borrow_mut() += 1;
            Ok::<_, anyhow::Error>(42)
        },
        || {},
    );
    assert_eq!(result.unwrap(), 42);
    assert_eq!(*calls.borrow(), 1);
}

#[test]
fn lib_retry_succeeds_after_transient_failures() {
    let calls = RefCell::new(0);
    let result = retry(
        3,
        || {
            *calls.borrow_mut() += 1;
            if *calls.borrow() < 3 {
                Err(anyhow::Error::msg("transient"))
            } else {
                Ok(42)
            }
        },
        || {},
    );
    assert_eq!(result.unwrap(), 42);
    assert_eq!(*calls.borrow(), 3);
}

#[test]
fn lib_retry_gives_up_after_exhausting_attempts_and_returns_the_last_error() {
    let calls = RefCell::new(0);
    let result = retry(
        3,
        || {
            *calls.borrow_mut() += 1;
            Err::<i32, _>(anyhow::Error::msg(format!("attempt {}", calls.borrow())))
        },
        || {},
    );
    assert_eq!(*calls.borrow(), 3);
    assert_eq!(result.unwrap_err().to_string(), "attempt 3");
}

#[test]
fn retry_pauses_only_between_tries() {
    let calls = RefCell::new(0);
    let pauses = RefCell::new(0);
    let result: Result<i32, String> = retry(
        4,
        || {
            *calls.borrow_mut() += 1;
            Err("no".to_string())
        },
        || *pauses.borrow_mut() += 1,
    );
    assert!(result.is_err());
    assert_eq!(*calls.borrow(), 4);
    assert_eq!(*pauses.borrow(), 3);
}

#[test]
fn retry_state_decides_per_try() {
    let mut state = RetryState::new(2);
    assert_eq!(state.on_result(false), RetryDecision::PauseAndRetry);
    assert_eq!(state.on_result(false), RetryDecision::GiveUp);
    let mut once = RetryState::new(1);
    assert_eq!(once.on_result(false), RetryDecision::GiveUp);
    let mut ok = RetryState::new(3);
    assert_eq!(ok.on_result(true), RetryDecision::Return);
}
