//! Delegating a captcha to a solving service: choosing the strategy from
//! the challenge's artifacts, and reading the service's answer.
use vstd::prelude::*;
use vstd::string::*;

use crate::extend::spec_base64_payload;
use crate::extend::spec_mime_of;
use crate::extend::Captcha;

verus! {

/// What the image-solving endpoint is asked: the image's media type and
/// its base64 payload.
#[derive(Debug, Clone, PartialEq, Eq)]
pub struct Request {
    pub mime_type: String,
    pub data: String,
}

/// What the image-solving endpoint answers: a numeric code.
#[derive(Debug, Clone, PartialEq, Eq)]
pub struct Response {
    pub code: i32,
}

/// Why no solution was obtained.
#[derive(Debug, Clone, PartialEq, Eq)]
pub enum CaptchaError {
    InvalidSrcFormat,
    RequestError(String),
    ServerError { code: u16, message: String },
    ApiKeyNotSet,
    TwoCaptchaError(String),
    CaptchaFailure(String),
}

impl CaptchaError {
    /// A short account of the error, for logs and messages.
    pub fn describe(&self) -> (r: String)
        ensures
            (match self {
                CaptchaError::InvalidSrcFormat => r@ == "invalid src format"@,
                CaptchaError::RequestError(m) => r@ == "Failed to send captcha request: "@
                    + m@,
                CaptchaError::ServerError { code, message } => r@
                    == "Captcha server error: "@ + message@,
                CaptchaError::ApiKeyNotSet => r@ == "Api key not set"@,
                CaptchaError::TwoCaptchaError(m) => r@ == "TwoCaptcha error: "@ + m@,
                CaptchaError::CaptchaFailure(m) => r@ == "Captcha solving failed: "@ + m@,
            }),
    {
        match self {
            CaptchaError::InvalidSrcFormat => String::from_str("invalid src format"),
            CaptchaError::RequestError(m) => String::from_str(
                "Failed to send captcha request: ",
            ).concat(m.as_str()),
            CaptchaError::ServerError { code, message } => String::from_str(
                "Captcha server error: ",
            ).concat(message.as_str()),
            CaptchaError::ApiKeyNotSet => String::from_str("Api key not set"),
            CaptchaError::TwoCaptchaError(m) => String::from_str("TwoCaptcha error: ").concat(
                m.as_str(),
            ),
            CaptchaError::CaptchaFailure(m) => String::from_str(
                "Captcha solving failed: ",
            ).concat(m.as_str()),
        }
    }
}

/// The chosen way to solve a challenge: send the inline image for a numeric
/// code, or send the challenge key and page URL for a token.
#[derive(Debug, Clone, PartialEq, Eq)]
pub enum SolvePlan {
    Image(Request),
    Turnstile { site_key: String, url: String },
}

/// The image request for a challenge: the image's media type, or `image/png`
/// when it names none, and its base64 payload; a challenge whose image is not a
/// data URL cannot be sent.
pub fn build_solve_request(captcha: &Captcha) -> (r: Result<Request, CaptchaError>)
    ensures
        (match captcha.image {
            Some(img) => match spec_base64_payload(img@) {
                Some(payload) => r matches Ok(req) && req.data@ == payload && req.mime_type@
                    == (match spec_mime_of(img@) {
                    Some(m) => m,
                    None => "image/png"@,
                }),
                None => r matches Err(CaptchaError::InvalidSrcFormat),
            },
            None => r matches Err(CaptchaError::InvalidSrcFormat),
        }),
{
    let mime_type = match captcha.mime_type() {
        Some(m) => m,
        None => String::from_str("image/png"),
    };
    match captcha.base64_image() {
        Some(data) => Ok(Request { mime_type, data }),
        None => Err(CaptchaError::InvalidSrcFormat),
    }
}

/// Choose the solving strategy for a challenge: a usable inline image goes to
/// the image solver; else a challenge key goes to the token solver, which
/// needs the stored service key; a challenge with neither cannot be solved.
pub fn choose_solver(captcha: &Captcha, has_api_key: bool) -> (r: Result<
    SolvePlan,
    CaptchaError,
>)
    ensures
        ({
            let payload = (match captcha.image {
                Some(img) => spec_base64_payload(img@),
                None => None,
            });
            if payload is Some {
                r matches Ok(SolvePlan::Image(req)) && req.data@ == payload->Some_0
                    && req.mime_type@ == (match captcha.image {
                    Some(img) => match spec_mime_of(img@) {
                        Some(m) => m,
                        None => "image/png"@,
                    },
                    None => "image/png"@,
                })
            } else {
                match captcha.cloudflare {
                    Some(k) => if has_api_key {
                        r matches Ok(SolvePlan::Turnstile { site_key, url }) && site_key@
                            == k@ && url@ == captcha.url@
                    } else {
                        r matches Err(CaptchaError::ApiKeyNotSet)
                    },
                    None => r matches Err(CaptchaError::InvalidSrcFormat),
                }
            }
        }),
{
    match captcha.base64_image() {
        Some(data) => {
            let mime_type = match captcha.mime_type() {
                Some(m) => m,
                None => String::from_str("image/png"),
            };
            Ok(SolvePlan::Image(Request { mime_type, data }))
        },
        None => {
            match captcha.cloudflare_challenge() {
                Some(k) => {
                    if has_api_key {
                        Ok(
                            SolvePlan::Turnstile {
                                site_key: k.clone(),
                                url: captcha.url.clone(),
                            },
                        )
                    } else {
                        Err(CaptchaError::ApiKeyNotSet)
                    }
                },
                None => Err(CaptchaError::InvalidSrcFormat),
            }
        },
    }
}

/// Read the image endpoint's status: the two-hundreds mean success; any
/// other status carries the response text as the error.
pub fn check_solver_status(status: u16, body: String) -> (r: Result<(), CaptchaError>)
    ensures
        200 <= status < 300 ==> r is Ok,
        !(200 <= status < 300) ==> (r matches Err(CaptchaError::ServerError { code, message })
            && code == status && message@ == body@),
{
    if 200 <= status && status < 300 {
        Ok(())
    } else {
        Err(CaptchaError::ServerError { code: status, message: body })
    }
}

/// Read the token service's answer: a missing code is a failed solve.
pub fn interpret_token_result(code: Option<String>) -> (r: Result<String, CaptchaError>)
    ensures
        (match code {
            Some(c) => r matches Ok(t) && t@ == c@,
            None => r matches Err(CaptchaError::CaptchaFailure(m)) && m@
                == "TwoCaptcha did not return a code"@,
        }),
{
    match code {
        Some(c) => Ok(c),
        None => Err(CaptchaError::CaptchaFailure(String::from_str(
            "TwoCaptcha did not return a code",
        ))),
    }
}

} // verus!
