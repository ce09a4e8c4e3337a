//! The retry policy of the renewal orchestrator: only captcha-class
//! failures are retried, a bounded number of times, with a fixed pause
//! between attempts; any other failure, and any success, ends the run.
use vstd::prelude::*;
use vstd::string::*;

verus! {

/// How often the whole sequence is attempted, at most.
pub const MAX_ATTEMPTS: usize = 3;

/// The pause between attempts, in seconds.
pub const RETRY_DELAY_SECS: u64 = 60;

/// How one whole login-and-renew attempt ended short of success: a
/// captcha-class failure, which the orchestrator may retry, or any other
/// failure, which ends the run.
#[derive(Debug)]
pub enum AttemptError {
    CaptchaFailure(String),
    Other(String),
}

/// Mathematical image of an attempt's outcome.
pub ghost enum GAttemptOutcome {
    Success(Seq<char>),
    CaptchaFailure(Seq<char>),
    Other(Seq<char>),
}

pub open spec fn outcome_view(o: Result<String, AttemptError>) -> GAttemptOutcome {
    match o {
        Ok(m) => GAttemptOutcome::Success(m@),
        Err(AttemptError::CaptchaFailure(m)) => GAttemptOutcome::CaptchaFailure(m@),
        Err(AttemptError::Other(m)) => GAttemptOutcome::Other(m@),
    }
}

/// The one outcome that is retried.
pub open spec fn is_captcha_failure(o: Result<String, AttemptError>) -> bool {
    o matches Err(AttemptError::CaptchaFailure(m))
}

/// Whether another attempt follows this outcome: only a captcha-class
/// failure is retried, and only while the attempt cap leaves room.
pub fn should_retry(outcome: &Result<String, AttemptError>, attempts_done: usize) -> (r:
    bool)
    ensures
        r == (is_captcha_failure(*outcome) && attempts_done < MAX_ATTEMPTS),
{
    let is_cf = match outcome {
        Err(AttemptError::CaptchaFailure(_)) => true,
        _ => false,
    };
    is_cf && attempts_done < MAX_ATTEMPTS
}

/// Which scripted attempt ends the run: the first whose outcome is no
/// captcha-class failure, or the last allowed attempt.
pub open spec fn spec_final_index(s: Seq<Result<String, AttemptError>>) -> int {
    if s.len() >= 1 && !is_captcha_failure(s[0]) {
        0
    } else if s.len() >= 2 && !is_captcha_failure(s[1]) {
        1
    } else {
        2
    }
}

/// Every attempt before the final one failed on a captcha, and the run
/// never goes past the attempt cap.
pub proof fn lemma_retry_shape(s: Seq<Result<String, AttemptError>>)
    ensures
        0 <= spec_final_index(s) < MAX_ATTEMPTS,
        forall|k: int|
            0 <= k < spec_final_index(s) && k < s.len() ==> is_captcha_failure(#[trigger] s[k]),
{
}

/// What one run of scripted attempts does.
pub struct RetryRun {
    pub attempts: usize,
    pub delays: usize,
    pub result: Result<String, AttemptError>,
}

fn clone_outcome(o: &Result<String, AttemptError>) -> (r: Result<String, AttemptError>)
    ensures
        outcome_view(r) == outcome_view(*o),
{
    match o {
        Ok(m) => Ok(m.clone()),
        Err(AttemptError::CaptchaFailure(m)) => Err(AttemptError::CaptchaFailure(m.clone())),
        Err(AttemptError::Other(m)) => Err(AttemptError::Other(m.clone())),
    }
}

/// Run the retry policy over a script of attempt outcomes: attempts are
/// consumed in order until one is no captcha-class failure or the cap is
/// reached; one delay falls between consecutive attempts; the last
/// consumed outcome is the run's result.
pub fn run_scripted(outcomes: &Vec<Result<String, AttemptError>>) -> (r: RetryRun)
    requires
        spec_final_index(outcomes@) < outcomes@.len(),
    ensures
        r.attempts as int == spec_final_index(outcomes@) + 1,
        r.delays as int == spec_final_index(outcomes@),
        outcome_view(r.result) == outcome_view(outcomes@[spec_final_index(outcomes@)]),
{
    let first_retries = {
        let o = &outcomes[0];
        match o {
            Err(AttemptError::CaptchaFailure(_)) => true,
            _ => false,
        }
    };
    if !first_retries {
        return RetryRun { attempts: 1, delays: 0, result: clone_outcome(&outcomes[0]) };
    }
    let second_retries = {
        let o = &outcomes[1];
        match o {
            Err(AttemptError::CaptchaFailure(_)) => true,
            _ => false,
        }
    };
    if !second_retries {
        return RetryRun { attempts: 2, delays: 1, result: clone_outcome(&outcomes[1]) };
    }
    RetryRun { attempts: 3, delays: 2, result: clone_outcome(&outcomes[2]) }
}

} // verus!
