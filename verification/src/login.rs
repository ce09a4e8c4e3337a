//! The password login flow and its optional two-factor continuation.
//!
//! The outcome of a submission is read off the final response URL: back on
//! the login page means rejected credentials, the authentication page means
//! a two-factor challenge, the dashboard means success, and anything else
//! is an unrecognised page.
use vstd::prelude::*;
use vstd::string::*;

use crate::data::Account;
use crate::form::classify_field;
use crate::form::extract_forms;
use crate::form::forms_view;
use crate::form::pick_do_form;
use crate::form::pick_login_form;
use crate::form::spec_classify;
use crate::form::spec_extract_forms;
use crate::form::spec_pick_do_form;
use crate::form::spec_pick_login_form;
use crate::form::FieldType;
use crate::form::Form;
use crate::form::GField;
use crate::form::GForm;
use crate::page::get_mailaddress;
use crate::page::spec_mailaddress;
use crate::params::spec_set;
use crate::params::Params;
use crate::text::spec_starts_with;
use crate::text::starts_with_chars;
use crate::text::to_chars;

verus! {

/// The page that takes the credentials.
pub const LOGIN_URL: &'static str = "https://secure.xserver.ne.jp/xapanel/login/xvps/";

/// The dashboard reached after a successful login.
pub const TOP_PAGE: &'static str = "https://secure.xserver.ne.jp/xapanel/xvps/index";

/// The page that runs the two-factor challenge.
pub const AUTH_URL: &'static str = "https://secure.xserver.ne.jp/xapanel/myaccount/loginauth/index";

/// What a rejected login reports.
pub const LOGIN_FAILED_MESSAGE: &'static str =
    "Login failed(アカウントが間違っている可能性があります)";

/// Why a login step could not run: the exchange itself failed, or the page
/// did not hold what the flow needs.
#[derive(Debug, Clone, PartialEq, Eq)]
pub enum LoginError {
    RequestError(String),
    ParseError(&'static str),
}

/// Where a login submission ended.
#[derive(Debug)]
pub enum LoginStatus {
    Success(String),
    Failure(String),
    TwoFactorRequired(Form, Option<String>),
}

/// The login form of the login page: the first form whose action holds the
/// login token; a page without one is unrecognised.
pub fn find_login_form(html: &str) -> (r: Result<Form, LoginError>)
    ensures
        (match spec_pick_login_form(spec_extract_forms(html@, Some(LOGIN_URL@))) {
            Some(f) => r matches Ok(g) && g@ == f,
            None => r matches Err(LoginError::ParseError(m)) && m@ == "No login form found"@,
        }),
{
    let forms = extract_forms(html, Some(LOGIN_URL));
    match pick_login_form(forms) {
        Some(f) => Ok(f),
        None => Err(LoginError::ParseError("No login form found")),
    }
}

// ---------------------------------------------------------------------------
// Submission parameters
// ---------------------------------------------------------------------------

/// What a login submission sends for one field: identifiers carry the mail
/// address, secrets the password, everything else its extracted value.
pub open spec fn spec_login_value(f: GField, email: Seq<char>, password: Seq<char>) -> Seq<
    char,
> {
    match spec_classify(f) {
        FieldType::Id => email,
        FieldType::Password => password,
        FieldType::Other => match f.value {
            Some(v) => v,
            None => Seq::empty(),
        },
    }
}

pub open spec fn spec_login_params_from(
    ps: Seq<(Seq<char>, Seq<char>)>,
    fields: Seq<GField>,
    i: int,
    email: Seq<char>,
    password: Seq<char>,
) -> Seq<(Seq<char>, Seq<char>)>
    decreases fields.len() - i,
    when 0 <= i <= fields.len()
{
    if i >= fields.len() {
        ps
    } else {
        spec_login_params_from(
            spec_set(ps, fields[i].name, spec_login_value(fields[i], email, password)),
            fields,
            i + 1,
            email,
            password,
        )
    }
}

/// The parameters a login submission sends, over the form's fields in
/// order, later duplicates overwriting earlier ones.
pub open spec fn spec_login_params(f: GForm, email: Seq<char>, password: Seq<char>) -> Seq<
    (Seq<char>, Seq<char>),
> {
    spec_login_params_from(Seq::empty(), f.fields, 0, email, password)
}

/// Build the login submission for `form` from the account's credentials.
pub fn build_login_params(form: &Form, account: &Account) -> (r: Params)
    ensures
        r@ == spec_login_params(form@, account.email@, account.password@),
{
    let ghost fields = form@.fields;
    let mut ps = Params::new();
    let mut i: usize = 0;
    while i < form.fields.len()
        invariant
            i <= form.fields@.len(),
            fields == form@.fields,
            fields.len() == form.fields@.len(),
            spec_login_params_from(ps@, fields, i as int, account.email@, account.password@)
                == spec_login_params(form@, account.email@, account.password@),
        decreases form.fields.len() - i,
    {
        proof {
            assert(fields[i as int] == form.fields@[i as int]@);
        }
        let field = &form.fields[i];
        let v: String = match classify_field(field) {
            FieldType::Id => account.email.clone(),
            FieldType::Password => account.password.clone(),
            FieldType::Other => match &field.value {
                Some(v) => v.clone(),
                None => String::new(),
            },
        };
        ps.set(field.name.clone(), v);
        i = i + 1;
    }
    ps
}

/// The parameters carried over from a form's already-valued fields alone:
/// fields without a value send nothing.
pub open spec fn spec_valued_params_from(
    ps: Seq<(Seq<char>, Seq<char>)>,
    fields: Seq<GField>,
    i: int,
) -> Seq<(Seq<char>, Seq<char>)>
    decreases fields.len() - i,
    when 0 <= i <= fields.len()
{
    if i >= fields.len() {
        ps
    } else {
        let next = (match fields[i].value {
            Some(v) => spec_set(ps, fields[i].name, v),
            None => ps,
        });
        spec_valued_params_from(next, fields, i + 1)
    }
}

pub open spec fn spec_valued_params(f: GForm) -> Seq<(Seq<char>, Seq<char>)> {
    spec_valued_params_from(Seq::empty(), f.fields, 0)
}

/// Carry a form's valued fields into a submission.
pub fn build_valued_params(form: &Form) -> (r: Params)
    ensures
        r@ == spec_valued_params(form@),
{
    let ghost fields = form@.fields;
    let mut ps = Params::new();
    let mut i: usize = 0;
    while i < form.fields.len()
        invariant
            i <= form.fields@.len(),
            fields == form@.fields,
            fields.len() == form.fields@.len(),
            spec_valued_params_from(ps@, fields, i as int) == spec_valued_params(form@),
        decreases form.fields.len() - i,
    {
        proof {
            assert(fields[i as int] == form.fields@[i as int]@);
        }
        let field = &form.fields[i];
        match &field.value {
            Some(v) => {
                ps.set(field.name.clone(), v.clone());
            },
            None => {},
        }
        i = i + 1;
    }
    ps
}

// ---------------------------------------------------------------------------
// Reading the submission's outcome
// ---------------------------------------------------------------------------

/// Map the final URL of a login submission, with the page it returned, to
/// the login outcome.  The mapping goes by the URL's prefix alone: the
/// login page means rejected credentials; the authentication page means a
/// two-factor challenge, whose first form and masked destination are read
/// from the page; the dashboard means success and hands the page on; any
/// other prefix is an unrecognised outcome.
pub fn classify_login_response(final_url: &str, body: &str) -> (r: Result<
    LoginStatus,
    LoginError,
>)
    ensures
        spec_starts_with(final_url@, LOGIN_URL@) ==> (r matches Ok(LoginStatus::Failure(m))
            && m@ == LOGIN_FAILED_MESSAGE@),
        !spec_starts_with(final_url@, LOGIN_URL@) && spec_starts_with(final_url@, AUTH_URL@)
            ==> {
            let fs = spec_extract_forms(body@, Some(final_url@));
            if fs.len() == 0 {
                r matches Err(LoginError::ParseError(m)) && m@ == "No two-way auth form found"@
            } else {
                r matches Ok(LoginStatus::TwoFactorRequired(f, hint)) && f@ == fs[0] && (
                match hint {
                    Some(h) => Some(h@),
                    None => None,
                }) == spec_mailaddress(body@)
            }
        },
        !spec_starts_with(final_url@, LOGIN_URL@) && !spec_starts_with(final_url@, AUTH_URL@)
            && spec_starts_with(final_url@, TOP_PAGE@) ==> (r matches Ok(
        LoginStatus::Success(b)) && b@ == body@),
        !spec_starts_with(final_url@, LOGIN_URL@) && !spec_starts_with(final_url@, AUTH_URL@)
            && !spec_starts_with(final_url@, TOP_PAGE@) ==> (r matches Err(
        LoginError::ParseError(m)) && m@ == "Unknown login status"@),
{
    let url = to_chars(final_url);
    if starts_with_chars(&url, LOGIN_URL) {
        return Ok(LoginStatus::Failure(String::from_str(LOGIN_FAILED_MESSAGE)));
    }
    if starts_with_chars(&url, AUTH_URL) {
        let mut forms = extract_forms(body, Some(final_url));
        if forms.len() == 0 {
            return Err(LoginError::ParseError("No two-way auth form found"));
        }
        let ghost fs = forms_view(forms@);
        let f = forms.remove(0);
        proof {
            assert(f@ == fs[0]);
        }
        let hint = get_mailaddress(body);
        return Ok(LoginStatus::TwoFactorRequired(f, hint));
    }
    if starts_with_chars(&url, TOP_PAGE) {
        return Ok(LoginStatus::Success(String::from_str(body)));
    }
    Err(LoginError::ParseError("Unknown login status"))
}

// ---------------------------------------------------------------------------
// The two-factor continuation
// ---------------------------------------------------------------------------

/// The submission that picks mail delivery for the two-factor code: the
/// form's valued fields, with `auth_type` forced to the mail method; a form
/// without an `auth_type` field is unrecognised.
pub fn select_email_params(form: &Form) -> (r: Result<Params, LoginError>)
    ensures
        (match crate::params::spec_get(spec_valued_params(form@), "auth_type"@) {
            Some(v) => r matches Ok(p) && p@ == spec_set(
                spec_valued_params(form@),
                "auth_type"@,
                "auth_mail"@,
            ),
            None => r matches Err(LoginError::ParseError(m)) && m@
                == "auth_type not found in form"@,
        }),
{
    let mut ps = build_valued_params(form);
    match ps.get("auth_type") {
        Some(_) => {},
        None => {
            return Err(LoginError::ParseError("auth_type not found in form"));
        },
    }
    ps.set(String::from_str("auth_type"), String::from_str("auth_mail"));
    Ok(ps)
}

/// The submission that answers the two-factor challenge: the form's valued
/// fields, with `auth_code` set to the code obtained out-of-band; a form
/// without an `auth_code` field is unrecognised.
pub fn auth_code_params(form: &Form, code: &str) -> (r: Result<Params, LoginError>)
    ensures
        (match crate::params::spec_get(spec_valued_params(form@), "auth_code"@) {
            Some(v) => r matches Ok(p) && p@ == spec_set(
                spec_valued_params(form@),
                "auth_code"@,
                code@,
            ),
            None => r matches Err(LoginError::ParseError(m)) && m@
                == "auth_code not found in form"@,
        }),
{
    let mut ps = build_valued_params(form);
    match ps.get("auth_code") {
        Some(_) => {},
        None => {
            return Err(LoginError::ParseError("auth_code not found in form"));
        },
    }
    ps.set(String::from_str("auth_code"), String::from_str(code));
    Ok(ps)
}

/// The form that submits the two-factor code: the first form of the
/// delivery-selection response whose action holds the submission token.
pub fn find_two_factor_form(final_url: &str, body: &str) -> (r: Result<Form, LoginError>)
    ensures
        ({
            let fs = spec_extract_forms(body@, Some(final_url@));
            if fs.len() == 0 {
                r matches Err(LoginError::ParseError(m)) && m@
                    == "No forms found in two-way auth response"@
            } else {
                match spec_pick_do_form(fs) {
                    Some(f) => r matches Ok(g) && g@ == f,
                    None => r matches Err(LoginError::ParseError(m)) && m@
                        == "No valid form found in two-way auth response"@,
                }
            }
        }),
{
    let forms = extract_forms(body, Some(final_url));
    if forms.len() == 0 {
        return Err(LoginError::ParseError("No forms found in two-way auth response"));
    }
    match pick_do_form(forms) {
        Some(f) => Ok(f),
        None => Err(LoginError::ParseError("No valid form found in two-way auth response")),
    }
}

/// Map the final URL of a two-factor code submission to its outcome: only
/// the dashboard means success; everything else is a failed authentication.
pub fn classify_two_factor_response(final_url: &str, body: &str) -> (r: Result<
    LoginStatus,
    LoginError,
>)
    ensures
        spec_starts_with(final_url@, TOP_PAGE@) ==> (r matches Ok(LoginStatus::Success(b))
            && b@ == body@),
        !spec_starts_with(final_url@, TOP_PAGE@) ==> (r matches Err(LoginError::ParseError(m))
            && m@ == "Two-way auth failed"@),
{
    let url = to_chars(final_url);
    if starts_with_chars(&url, TOP_PAGE) {
        Ok(LoginStatus::Success(String::from_str(body)))
    } else {
        Err(LoginError::ParseError("Two-way auth failed"))
    }
}

} // verus!
