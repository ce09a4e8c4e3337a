//! One whole renewal attempt as a state machine.
//!
//! The machine decides; its driver performs.  Each step takes the state
//! and the event that answers the last action, and yields the next state
//! with the next action: a page to fetch, a form to post, a code to ask
//! the operator for, a captcha to hand to a solver, or the attempt's end.
//! Every exchange and every wait lives in the driver; the machine is a
//! pure function over the responses it is shown.
use vstd::prelude::*;
use vstd::string::*;

use crate::captcha::choose_solver;
use crate::captcha::SolvePlan;
use crate::data::Account;
use crate::discovery::get_server_id;
use crate::discovery::spec_server_id_page;
use crate::extend::build_captcha_params;
use crate::extend::classify_captcha_response;
use crate::extend::classify_extend_response;
use crate::extend::find_extend_form;
use crate::extend::spec_base64_payload;
use crate::extend::Captcha;
use crate::extend::CaptchaResponse;
use crate::extend::ExtendError;
use crate::extend::ExtendResponse;
use crate::extend::EXTEND_URL;
use crate::form::Form;
use crate::login::build_login_params;
use crate::login::auth_code_params;
use crate::login::classify_login_response;
use crate::login::classify_two_factor_response;
use crate::login::find_login_form;
use crate::login::find_two_factor_form;
use crate::login::select_email_params;
use crate::login::LoginError;
use crate::login::LoginStatus;
use crate::login::LOGIN_URL;
use crate::params::Params;
use crate::retry::AttemptError;

verus! {

/// A code or token handed back by a solver.
#[derive(Debug)]
pub enum Solution {
    Code(i32),
    Token(String),
}

/// What the driver is asked to do next.
pub enum FlowAction {
    /// Fetch this URL.
    Get(String),
    /// Post this form body to this URL.
    Post(String, Params),
    /// Ask the operator for the mailed two-factor code.
    PromptCode,
    /// Hand this inline image to the image solver.
    SolveImage { mime_type: String, data: String },
    /// Hand this challenge to the token solver.
    SolveTurnstile { site_key: String, url: String },
    /// The attempt is over, with this outcome.
    Done(Result<String, AttemptError>),
}

/// What the driver reports back.
pub enum FlowEvent {
    /// The machine is started.
    Started,
    /// An exchange ended on this final URL with this page.
    Page { url: String, body: String },
    /// The operator typed this two-factor code.
    Code(String),
    /// The solver answered, or failed with a message.
    Solved(Result<Solution, String>),
    /// The exchange or the solver call could not be made at all.
    Failed(String),
}

/// Where the attempt stands: which answer it is waiting for.
pub enum FlowState {
    Start,
    AwaitLoginPage,
    AwaitLogin,
    AwaitTwoFactorForm { hint: Option<String> },
    AwaitCode { form: Form },
    AwaitTwoFactorResult,
    AwaitExtendPage,
    AwaitExtendResult,
    AwaitSolve { captcha: Captcha },
    AwaitCaptchaResult,
    Finished,
}

/// The outcome when the driver could not perform an action: during captcha
/// solving or submission the failure is captcha-class and may be retried,
/// everywhere else it ends the run.
pub open spec fn spec_failed_outcome(st: FlowState, m: Seq<char>) -> GOutcome {
    match st {
        FlowState::AwaitSolve { captcha } => GOutcome::CaptchaFailure(
            "Captcha solve: "@ + m,
        ),
        FlowState::AwaitCaptchaResult => GOutcome::CaptchaFailure("Captcha submit: "@ + m),
        _ => GOutcome::Other(m),
    }
}

/// Mathematical image of an attempt outcome.
pub ghost enum GOutcome {
    Success(Seq<char>),
    CaptchaFailure(Seq<char>),
    Other(Seq<char>),
}

pub open spec fn action_outcome(a: FlowAction) -> Option<GOutcome> {
    match a {
        FlowAction::Done(o) => Some(outcome_of(o)),
        _ => None,
    }
}

pub open spec fn outcome_of(o: Result<String, AttemptError>) -> GOutcome {
    match o {
        Ok(m) => GOutcome::Success(m@),
        Err(AttemptError::CaptchaFailure(m)) => GOutcome::CaptchaFailure(m@),
        Err(AttemptError::Other(m)) => GOutcome::Other(m@),
    }
}

/// The action is a post of exactly these parameters to this URL.
pub open spec fn is_post(a: FlowAction, url: Seq<char>, ps: Seq<(Seq<char>, Seq<char>)>)
    -> bool {
    a matches FlowAction::Post(u, p) && u@ == url && p@ == ps
}

/// The action ends the attempt with this plain failure.
pub open spec fn is_other_failure(a: FlowAction, m: Seq<char>) -> bool {
    action_outcome(a) == Some(GOutcome::Other(m))
}

/// The action ends the attempt with this captcha-class failure.
pub open spec fn is_captcha_failure_action(a: FlowAction, m: Seq<char>) -> bool {
    action_outcome(a) == Some(GOutcome::CaptchaFailure(m))
}

/// The action ends the attempt successfully with this message.
pub open spec fn is_success_action(a: FlowAction, m: Seq<char>) -> bool {
    action_outcome(a) == Some(GOutcome::Success(m))
}

/// What follows a page that proves the operator is logged in: the dashboard
/// page is scanned for the server, and its renewal page is fetched; a
/// dashboard without the server ends the run.
pub open spec fn spec_after_login(html: Seq<char>, r: (FlowState, FlowAction)) -> bool {
    match spec_server_id_page(html) {
        Some(id) => r.0 is AwaitExtendPage && (r.1 matches FlowAction::Get(u) && u@
            == EXTEND_URL@ + "?id_vps="@ + id),
        None => r.0 is Finished && is_other_failure(r.1, "No VPS found"@),
    }
}

fn after_login(html: &str) -> (r: (FlowState, FlowAction))
    ensures
        spec_after_login(html@, r),
{
    match get_server_id(html) {
        Some(id) => {
            let url = String::from_str(EXTEND_URL).concat("?id_vps=").concat(id.as_str());
            (FlowState::AwaitExtendPage, FlowAction::Get(url))
        },
        None => (
            FlowState::Finished,
            FlowAction::Done(Err(AttemptError::Other(String::from_str("No VPS found")))),
        ),
    }
}

fn fail_other(prefix: &str, m: &str) -> (r: (FlowState, FlowAction))
    ensures
        r.0 is Finished,
        is_other_failure(r.1, prefix@ + m@),
{
    (
        FlowState::Finished,
        FlowAction::Done(Err(AttemptError::Other(String::from_str(prefix).concat(m)))),
    )
}

fn fail_captcha(prefix: &str, m: &str) -> (r: (FlowState, FlowAction))
    ensures
        r.0 is Finished,
        is_captcha_failure_action(r.1, prefix@ + m@),
{
    (
        FlowState::Finished,
        FlowAction::Done(
            Err(AttemptError::CaptchaFailure(String::from_str(prefix).concat(m))),
        ),
    )
}

/// Drive one renewal attempt forward by one step.
///
/// Started, the machine fetches the login page, posts the credentials into
/// its login form, and reads the outcome off the response URL: rejection
/// and unknown pages end the run; a two-factor challenge, allowed only
/// interactively, selects mail delivery, asks the operator for the code
/// and posts it; the dashboard is scanned for the server, whose renewal
/// form is fetched and posted as it stands.  The renewal response either
/// ends the run, or names a captcha challenge: its artifacts go to a solver,
/// the solution is written into the challenge form, and the response to that
/// posting ends the run.  A form without an action, or an event that does
/// not answer the pending action, ends the run as unrecognised structure.
pub fn flow_step(
    st: FlowState,
    ev: FlowEvent,
    account: &Account,
    interactive: bool,
    has_api_key: bool,
) -> (r: (FlowState, FlowAction))
    ensures
        st matches FlowState::Start ==> (ev matches FlowEvent::Started ==> r.0
            is AwaitLoginPage && (r.1 matches FlowAction::Get(u) && u@ == LOGIN_URL@)),
        st matches FlowState::AwaitLoginPage ==> (ev matches FlowEvent::Page { url, body } ==> (match crate::form::spec_pick_login_form(
            crate::form::spec_extract_forms(body@, Some(LOGIN_URL@)),
        ) {
            Some(f) => match f.action {
                Some(a) => r.0 is AwaitLogin && is_post(
                    r.1,
                    a,
                    crate::login::spec_login_params(f, account.email@, account.password@),
                ),
                None => r.0 is Finished && is_other_failure(
                    r.1,
                    "login page: "@ + "form has no action"@,
                ),
            },
            None => r.0 is Finished && is_other_failure(
                r.1,
                "login page: "@ + "No login form found"@,
            ),
        })),
        st matches FlowState::AwaitLogin ==> (ev matches FlowEvent::Page { url, body } ==> ({
            let login = crate::text::spec_starts_with(url@, LOGIN_URL@);
            let auth = crate::text::spec_starts_with(url@, crate::login::AUTH_URL@);
            let top = crate::text::spec_starts_with(url@, crate::login::TOP_PAGE@);
            &&& login ==> r.0 is Finished && is_other_failure(
                r.1,
                crate::login::LOGIN_FAILED_MESSAGE@,
            )
            &&& !login && auth ==> ({
                let fs = crate::form::spec_extract_forms(body@, Some(url@));
                if fs.len() == 0 {
                    r.0 is Finished && is_other_failure(
                        r.1,
                        "login: "@ + "No two-way auth form found"@,
                    )
                } else if !interactive {
                    r.0 is Finished && is_other_failure(
                        r.1,
                        "Two-way authentication required"@,
                    )
                } else {
                    let f = fs[0];
                    match crate::params::spec_get(
                        crate::login::spec_valued_params(f),
                        "auth_type"@,
                    ) {
                        Some(v) => match f.action {
                            Some(a) => (r.0 matches FlowState::AwaitTwoFactorForm { hint }
                                && (match hint {
                                Some(h) => Some(h@),
                                None => None,
                            }) == crate::page::spec_mailaddress(body@)) && is_post(
                                r.1,
                                a,
                                crate::params::spec_set(
                                    crate::login::spec_valued_params(f),
                                    "auth_type"@,
                                    "auth_mail"@,
                                ),
                            ),
                            None => r.0 is Finished && is_other_failure(
                                r.1,
                                "auth select: "@ + "form has no action"@,
                            ),
                        },
                        None => r.0 is Finished && is_other_failure(
                            r.1,
                            "auth select: "@ + "auth_type not found in form"@,
                        ),
                    }
                }
            })
            &&& !login && !auth && top ==> spec_after_login(body@, r)
            &&& !login && !auth && !top ==> r.0 is Finished && is_other_failure(
                r.1,
                "login: "@ + "Unknown login status"@,
            )
        })),
        st matches FlowState::AwaitTwoFactorForm { hint } ==> (ev matches FlowEvent::Page { url, body } ==> ({
            let fs = crate::form::spec_extract_forms(body@, Some(url@));
            if fs.len() == 0 {
                r.0 is Finished && is_other_failure(
                    r.1,
                    "auth select: "@ + "No forms found in two-way auth response"@,
                )
            } else {
                match crate::form::spec_pick_do_form(fs) {
                    Some(f) => r.0 matches FlowState::AwaitCode { form } && form@ == f
                        && r.1 is PromptCode,
                    None => r.0 is Finished && is_other_failure(
                        r.1,
                        "auth select: "@ + "No valid form found in two-way auth response"@,
                    ),
                }
            }
        })),
        st matches FlowState::AwaitCode { form } ==> (ev matches FlowEvent::Code(code) ==> (
        match crate::params::spec_get(
            crate::login::spec_valued_params(form@),
            "auth_code"@,
        ) {
            Some(v) => match form@.action {
                Some(a) => r.0 is AwaitTwoFactorResult && is_post(
                    r.1,
                    a,
                    crate::params::spec_set(
                        crate::login::spec_valued_params(form@),
                        "auth_code"@,
                        code@,
                    ),
                ),
                None => r.0 is Finished && is_other_failure(
                    r.1,
                    "two-way auth: "@ + "form has no action"@,
                ),
            },
            None => r.0 is Finished && is_other_failure(
                r.1,
                "two-way auth: "@ + "auth_code not found in form"@,
            ),
        })),
        st matches FlowState::AwaitTwoFactorResult ==> (ev matches FlowEvent::Page { url, body } ==> (if crate::text::spec_starts_with(url@, crate::login::TOP_PAGE@) {
            spec_after_login(body@, r)
        } else {
            r.0 is Finished && is_other_failure(r.1, "Two-way authentication failed"@)
        })),
        st matches FlowState::AwaitExtendPage ==> (ev matches FlowEvent::Page { url, body } ==> (match crate::form::spec_pick_extend_form(
            crate::form::spec_extract_forms(body@, Some(url@)),
        ) {
            Some(f) => match f.action {
                Some(a) => r.0 is AwaitExtendResult && is_post(
                    r.1,
                    a,
                    crate::extend::spec_all_params(f),
                ),
                None => r.0 is Finished && is_other_failure(
                    r.1,
                    "extend vps: "@ + "form has no action"@,
                ),
            },
            None => r.0 is Finished && is_other_failure(
                r.1,
                "extend vps: "@ + "No valid extend form found"@,
            ),
        })),
        st matches FlowState::AwaitExtendResult ==> (ev matches FlowEvent::Page { url, body } ==> ({
            let cls = crate::extend::spec_extend_class(body@);
            &&& cls matches crate::extend::ExtendClass::Done ==> is_success_action(
                r.1,
                crate::extend::spec_message_or(body@, "Extend successful"@),
            )
            &&& cls matches crate::extend::ExtendClass::Unavailable ==> is_other_failure(
                r.1,
                crate::extend::spec_message_or(body@, "Extend unavailable"@),
            )
            &&& cls matches crate::extend::ExtendClass::Gated ==> (
            match crate::form::spec_pick_do_form(
                crate::form::spec_extract_forms(body@, Some(url@)),
            ) {
                Some(f) => ({
                    let payload = (match crate::page::spec_captcha_image(body@) {
                        Some(img) => spec_base64_payload(img),
                        None => None,
                    });
                    if payload is Some {
                        r.0 matches FlowState::AwaitSolve { captcha } && captcha.form@ == f
                            && captcha.url@ == url@ && (r.1 matches FlowAction::SolveImage {
                            mime_type,
                            data,
                        } && data@ == payload->Some_0 && mime_type@ == (
                        match crate::page::spec_captcha_image(body@) {
                            Some(img) => match crate::extend::spec_mime_of(img) {
                                Some(m) => m,
                                None => "image/png"@,
                            },
                            None => "image/png"@,
                        }))
                    } else {
                        match crate::page::spec_challenge_key(body@) {
                            Some(k) => if has_api_key {
                                r.0 matches FlowState::AwaitSolve { captcha }
                                    && captcha.form@ == f && captcha.url@ == url@ && (
                                r.1 matches FlowAction::SolveTurnstile { site_key, url: u2 }
                                    && site_key@ == k && u2@ == url@)
                            } else {
                                r.0 is Finished && is_captcha_failure_action(
                                    r.1,
                                    "Captcha solve: "@ + "Api key not set"@,
                                )
                            },
                            None => r.0 is Finished && is_captcha_failure_action(
                                r.1,
                                "Captcha solve: "@ + "invalid src format"@,
                            ),
                        }
                    }
                }),
                None => r.0 is Finished && is_other_failure(
                    r.1,
                    "submit extend: "@ + "Captcha required but no image found"@,
                ),
            })
            &&& cls matches crate::extend::ExtendClass::Unrecognised ==> r.0 is Finished
                && is_other_failure(r.1, "submit extend: "@ + "Extend failed"@)
        })),
        st matches FlowState::AwaitSolve { captcha } ==> (ev matches FlowEvent::Solved(sol) ==> (match sol {
            Err(m) => r.0 is Finished && is_captcha_failure_action(
                r.1,
                "Captcha solve: "@ + m@,
            ),
            Ok(s) => ({
                let code = (match s {
                    Solution::Code(n) => Some(n as int),
                    Solution::Token(t) => None,
                });
                let token = (match s {
                    Solution::Code(n) => None,
                    Solution::Token(t) => Some(t@),
                });
                match crate::extend::spec_captcha_params(captcha.form@, code, token) {
                    Some(ps) => match captcha.form@.action {
                        Some(a) => r.0 is AwaitCaptchaResult && is_post(r.1, a, ps),
                        None => r.0 is Finished && is_captcha_failure_action(
                            r.1,
                            "Captcha submit: "@ + "form has no action"@,
                        ),
                    },
                    None => r.0 is Finished && is_captcha_failure_action(
                        r.1,
                        "Captcha submit: "@ + "Captcha code field not found in form"@,
                    ),
                }
            }),
        })),
        st matches FlowState::AwaitCaptchaResult ==> (ev matches FlowEvent::Page { url, body } ==> ({
            let cls = crate::extend::spec_captcha_class(body@);
            &&& (cls matches crate::extend::CaptchaClass::Completed ==> is_success_action(
                r.1,
                "利用期限の更新手続きが完了しました"@,
            ))
            &&& (cls matches crate::extend::CaptchaClass::Done ==> is_success_action(
                r.1,
                crate::extend::spec_message_or(body@, "Extend successful"@),
            ))
            &&& (cls matches crate::extend::CaptchaClass::Unavailable
                ==> is_captcha_failure_action(
                r.1,
                crate::extend::spec_message_or(body@, "Extend unavailable"@),
            ))
            &&& (cls matches crate::extend::CaptchaClass::Rejected
                ==> is_captcha_failure_action(
                r.1,
                "Captcha submit: "@ + "Invalid captcha code"@,
            ))
            &&& (cls matches crate::extend::CaptchaClass::Unrecognised
                ==> is_captcha_failure_action(
                r.1,
                "Captcha submit: "@ + "Captcha submission failed"@,
            ))
        })),
        ev matches FlowEvent::Failed(m) ==> r.0 is Finished && action_outcome(r.1) == Some(
            spec_failed_outcome(st, m@),
        ),
{
    match (st, ev) {
        (FlowState::Start, FlowEvent::Started) => (
            FlowState::AwaitLoginPage,
            FlowAction::Get(String::from_str(LOGIN_URL)),
        ),
        (FlowState::AwaitLoginPage, FlowEvent::Page { url, body }) => {
            match find_login_form(body.as_str()) {
                Ok(f) => {
                    let ps = build_login_params(&f, account);
                    match f.action {
                        Some(a) => (FlowState::AwaitLogin, FlowAction::Post(a, ps)),
                        None => fail_other("login page: ", "form has no action"),
                    }
                },
                Err(LoginError::ParseError(m)) => fail_other("login page: ", m),
                Err(LoginError::RequestError(m)) => fail_other("login page: ", m.as_str()),
            }
        },
        (FlowState::AwaitLogin, FlowEvent::Page { url, body }) => {
            match classify_login_response(url.as_str(), body.as_str()) {
                Ok(LoginStatus::Failure(m)) => (
                    FlowState::Finished,
                    FlowAction::Done(Err(AttemptError::Other(m))),
                ),
                Ok(LoginStatus::TwoFactorRequired(f, hint)) => {
                    if !interactive {
                        (
                            FlowState::Finished,
                            FlowAction::Done(
                                Err(
                                    AttemptError::Other(
                                        String::from_str("Two-way authentication required"),
                                    ),
                                ),
                            ),
                        )
                    } else {
                        match select_email_params(&f) {
                            Ok(ps) => {
                                match f.action {
                                    Some(a) => (
                                        FlowState::AwaitTwoFactorForm { hint },
                                        FlowAction::Post(a, ps),
                                    ),
                                    None => fail_other("auth select: ", "form has no action"),
                                }
                            },
                            Err(LoginError::ParseError(m)) => fail_other("auth select: ", m),
                            Err(LoginError::RequestError(m)) => fail_other(
                                "auth select: ",
                                m.as_str(),
                            ),
                        }
                    }
                },
                Ok(LoginStatus::Success(html)) => after_login(html.as_str()),
                Err(LoginError::ParseError(m)) => fail_other("login: ", m),
                Err(LoginError::RequestError(m)) => fail_other("login: ", m.as_str()),
            }
        },
        (FlowState::AwaitTwoFactorForm { hint }, FlowEvent::Page { url, body }) => {
            match find_two_factor_form(url.as_str(), body.as_str()) {
                Ok(f) => (FlowState::AwaitCode { form: f }, FlowAction::PromptCode),
                Err(LoginError::ParseError(m)) => fail_other("auth select: ", m),
                Err(LoginError::RequestError(m)) => fail_other("auth select: ", m.as_str()),
            }
        },
        (FlowState::AwaitCode { form }, FlowEvent::Code(code)) => {
            match auth_code_params(&form, code.as_str()) {
                Ok(ps) => {
                    match form.action {
                        Some(a) => (FlowState::AwaitTwoFactorResult, FlowAction::Post(a, ps)),
                        None => fail_other("two-way auth: ", "form has no action"),
                    }
                },
                Err(LoginError::ParseError(m)) => fail_other("two-way auth: ", m),
                Err(LoginError::RequestError(m)) => fail_other("two-way auth: ", m.as_str()),
            }
        },
        (FlowState::AwaitTwoFactorResult, FlowEvent::Page { url, body }) => {
            match classify_two_factor_response(url.as_str(), body.as_str()) {
                Ok(LoginStatus::Success(html)) => after_login(html.as_str()),
                Ok(LoginStatus::Failure(m)) => (
                    FlowState::Finished,
                    FlowAction::Done(
                        Err(
                            AttemptError::Other(
                                String::from_str("Two-way authentication failed"),
                            ),
                        ),
                    ),
                ),
                Ok(LoginStatus::TwoFactorRequired(f, hint)) => (
                    FlowState::Finished,
                    FlowAction::Done(
                        Err(
                            AttemptError::Other(
                                String::from_str("Two-way authentication failed"),
                            ),
                        ),
                    ),
                ),
                Err(LoginError::ParseError(m)) => (
                    FlowState::Finished,
                    FlowAction::Done(
                        Err(
                            AttemptError::Other(
                                String::from_str("Two-way authentication failed"),
                            ),
                        ),
                    ),
                ),
                Err(LoginError::RequestError(m)) => (
                    FlowState::Finished,
                    FlowAction::Done(
                        Err(
                            AttemptError::Other(
                                String::from_str("Two-way authentication failed"),
                            ),
                        ),
                    ),
                ),
            }
        },
        (FlowState::AwaitExtendPage, FlowEvent::Page { url, body }) => {
            match find_extend_form(url.as_str(), body.as_str()) {
                Ok(f) => {
                    let ps = crate::extend::build_all_params(&f);
                    match f.action {
                        Some(a) => (FlowState::AwaitExtendResult, FlowAction::Post(a, ps)),
                        None => fail_other("extend vps: ", "form has no action"),
                    }
                },
                Err(ExtendError::ParseError(m)) => fail_other("extend vps: ", m),
                Err(ExtendError::RequestError(m)) => fail_other("extend vps: ", m.as_str()),
            }
        },
        (FlowState::AwaitExtendResult, FlowEvent::Page { url, body }) => {
            match classify_extend_response(url.as_str(), body.as_str()) {
                Ok(ExtendResponse::Success(m)) => (
                    FlowState::Finished,
                    FlowAction::Done(Ok(m)),
                ),
                Ok(ExtendResponse::Failure(m)) => (
                    FlowState::Finished,
                    FlowAction::Done(Err(AttemptError::Other(m))),
                ),
                Ok(ExtendResponse::CaptchaRequired(c)) => {
                    match choose_solver(&c, has_api_key) {
                        Ok(SolvePlan::Image(req)) => (
                            FlowState::AwaitSolve { captcha: c },
                            FlowAction::SolveImage {
                                mime_type: req.mime_type,
                                data: req.data,
                            },
                        ),
                        Ok(SolvePlan::Turnstile { site_key, url }) => (
                            FlowState::AwaitSolve { captcha: c },
                            FlowAction::SolveTurnstile { site_key, url },
                        ),
                        Err(ce) => {
                            let d = ce.describe();
                            fail_captcha("Captcha solve: ", d.as_str())
                        },
                    }
                },
                Err(ExtendError::ParseError(m)) => fail_other("submit extend: ", m),
                Err(ExtendError::RequestError(m)) => fail_other("submit extend: ", m.as_str()),
            }
        },
        (FlowState::AwaitSolve { captcha }, FlowEvent::Solved(sol)) => {
            match sol {
                Err(m) => fail_captcha("Captcha solve: ", m.as_str()),
                Ok(s) => {
                    let (code, token) = match s {
                        Solution::Code(n) => (Some(n), None),
                        Solution::Token(t) => (None, Some(t)),
                    };
                    match build_captcha_params(&captcha, code, token) {
                        Ok(ps) => {
                            match &captcha.form.action {
                                Some(a) => (
                                    FlowState::AwaitCaptchaResult,
                                    FlowAction::Post(a.clone(), ps),
                                ),
                                None => fail_captcha("Captcha submit: ", "form has no action"),
                            }
                        },
                        Err(ExtendError::ParseError(m)) => fail_captcha("Captcha submit: ", m),
                        Err(ExtendError::RequestError(m)) => fail_captcha(
                            "Captcha submit: ",
                            m.as_str(),
                        ),
                    }
                },
            }
        },
        (FlowState::AwaitCaptchaResult, FlowEvent::Page { url, body }) => {
            match classify_captcha_response(body.as_str()) {
                Ok(CaptchaResponse::Success(m)) => (
                    FlowState::Finished,
                    FlowAction::Done(Ok(m)),
                ),
                Ok(CaptchaResponse::Failure(m)) => (
                    FlowState::Finished,
                    FlowAction::Done(Err(AttemptError::CaptchaFailure(m))),
                ),
                Err(ExtendError::ParseError(m)) => fail_captcha("Captcha submit: ", m),
                Err(ExtendError::RequestError(m)) => fail_captcha("Captcha submit: ", m.as_str()),
            }
        },
        (st2, FlowEvent::Failed(m)) => {
            match st2 {
                FlowState::AwaitSolve { captcha } => fail_captcha("Captcha solve: ", m.as_str()),
                FlowState::AwaitCaptchaResult => fail_captcha("Captcha submit: ", m.as_str()),
                _ => (
                    FlowState::Finished,
                    FlowAction::Done(Err(AttemptError::Other(m))),
                ),
            }
        },
        (_, _) => (
            FlowState::Finished,
            FlowAction::Done(
                Err(AttemptError::Other(String::from_str("unexpected event"))),
            ),
        ),
    }
}

} // verus!
