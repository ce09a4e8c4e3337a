use xrenew::retry::run_scripted;
use xrenew::retry::should_retry;
use xrenew::retry::AttemptError;
use xrenew::retry::MAX_ATTEMPTS;

fn cf(m: &str) -> Result<String, AttemptError> {
    Err(AttemptError::CaptchaFailure(m.to_string()))
}

fn other(m: &str) -> Result<String, AttemptError> {
    Err(AttemptError::Other(m.to_string()))
}

#[test]
fn two_captcha_failures_then_success_takes_three_attempts() {
    let script = vec![cf("one"), cf("two"), Ok("done".to_string())];
    let run = run_scripted(&script);
    assert_eq!(run.attempts, 3);
    assert_eq!(run.delays, 2);
    match run.result {
        Ok(m) => assert_eq!(m, "done"),
        other => panic!("unexpected: {:?}", other),
    }
}

#[test]
fn three_captcha_failures_stop_at_the_cap() {
    let script = vec![cf("one"), cf("two"), cf("three")];
    let run = run_scripted(&script);
    assert_eq!(run.attempts, 3);
    assert_eq!(run.delays, 2);
    match run.result {
        Err(AttemptError::CaptchaFailure(m)) => assert_eq!(m, "three"),
        other => panic!("unexpected: {:?}", other),
    }
}

#[test]
fn a_credential_failure_is_never_retried() {
    let script = vec![other("bad credentials")];
    let run = run_scripted(&script);
    assert_eq!(run.attempts, 1);
    assert_eq!(run.delays, 0);
    match run.result {
        Err(AttemptError::Other(m)) => assert_eq!(m, "bad credentials"),
        other => panic!("unexpected: {:?}", other),
    }
}

#[test]
fn an_immediate_success_takes_one_attempt() {
    let script = vec![Ok("first try".to_string()), cf("never seen")];
    let run = run_scripted(&script);
    assert_eq!(run.attempts, 1);
    assert_eq!(run.delays, 0);
    assert!(matches!(run.result, Ok(m) if m == "first try"));
}

#[test]
fn only_captcha_failures_within_the_cap_are_retried() {
    assert!(should_retry(&cf("x"), 1));
    assert!(should_retry(&cf("x"), MAX_ATTEMPTS - 1));
    assert!(!should_retry(&cf("x"), MAX_ATTEMPTS));
    assert!(!should_retry(&other("x"), 1));
    assert!(!should_retry(&Ok("m".to_string()), 1));
}
