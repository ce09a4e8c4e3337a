use xrenew::data::Account;
use xrenew::login::auth_code_params;
use xrenew::login::build_login_params;
use xrenew::login::classify_login_response;
use xrenew::login::classify_two_factor_response;
use xrenew::login::find_login_form;
use xrenew::login::find_two_factor_form;
use xrenew::login::select_email_params;
use xrenew::login::LoginError;
use xrenew::login::LoginStatus;
use xrenew::login::AUTH_URL;
use xrenew::login::LOGIN_FAILED_MESSAGE;
use xrenew::login::LOGIN_URL;
use xrenew::login::TOP_PAGE;

fn account() -> Account {
    Account::new("someone@example.com".to_string(), "hunter2".to_string())
}

const AUTH_BODY: &str = "<html><body>\
    <span id=\"mailaddress\"> s***e@example.com </span>\
    <form action=\"/xapanel/myaccount/loginauth/do\">\
    <input type=\"hidden\" name=\"auth_type\" value=\"auth_app\">\
    <input type=\"hidden\" name=\"token\" value=\"t1\">\
    </form></body></html>";

#[test]
fn login_page_prefix_means_failure() {
    let url = format!("{}?retry=1", LOGIN_URL);
    match classify_login_response(&url, "<html></html>") {
        Ok(LoginStatus::Failure(m)) => assert_eq!(m, LOGIN_FAILED_MESSAGE),
        other => panic!("unexpected: {:?}", other),
    }
}

#[test]
fn auth_prefix_means_two_factor_with_form_and_hint() {
    let url = format!("{}?step=1", AUTH_URL);
    match classify_login_response(&url, AUTH_BODY) {
        Ok(LoginStatus::TwoFactorRequired(form, hint)) => {
            assert_eq!(hint.as_deref(), Some("s***e@example.com"));
            let action = form.action.expect("form action");
            assert!(action.contains("/xapanel/myaccount/loginauth/do"));
        },
        other => panic!("unexpected: {:?}", other),
    }
}

#[test]
fn auth_prefix_without_forms_is_parse_error() {
    let url = format!("{}?step=1", AUTH_URL);
    match classify_login_response(&url, "<html><body>empty</body></html>") {
        Err(LoginError::ParseError(m)) => assert_eq!(m, "No two-way auth form found"),
        other => panic!("unexpected: {:?}", other),
    }
}

#[test]
fn top_page_prefix_means_success_with_body() {
    let url = format!("{}?top=1", TOP_PAGE);
    match classify_login_response(&url, "<html>dash</html>") {
        Ok(LoginStatus::Success(b)) => assert_eq!(b, "<html>dash</html>"),
        other => panic!("unexpected: {:?}", other),
    }
}

#[test]
fn unknown_prefix_is_parse_error() {
    match classify_login_response("https://elsewhere.example.com/", "<html></html>") {
        Err(LoginError::ParseError(m)) => assert_eq!(m, "Unknown login status"),
        other => panic!("unexpected: {:?}", other),
    }
}

#[test]
fn finds_the_login_form_and_resolves_its_action() {
    let html = "<form action=\"/other\"></form>\
        <form action=\"/xapanel/login/xvps/do\"><input name=\"memberid\"></form>";
    let f = find_login_form(html).expect("login form");
    assert_eq!(f.action.as_deref(), Some("https://secure.xserver.ne.jp/xapanel/login/xvps/do"));
}

#[test]
fn a_page_without_login_form_is_parse_error() {
    match find_login_form("<form action=\"/logout\"></form>") {
        Err(LoginError::ParseError(m)) => assert_eq!(m, "No login form found"),
        other => panic!("unexpected: {:?}", other),
    }
}

#[test]
fn login_params_fill_identifier_and_secret() {
    let html = "<form action=\"/login/do\">\
        <input name=\"memberid\" type=\"text\">\
        <input name=\"user_password\" type=\"password\">\
        <input name=\"csrf\" type=\"hidden\" value=\"tok\">\
        <input name=\"blank\" type=\"text\">\
        </form>";
    let forms = xrenew::form::extract_forms(html, None);
    let ps = build_login_params(&forms[0], &account());
    assert_eq!(ps.get("memberid").map(String::as_str), Some("someone@example.com"));
    assert_eq!(ps.get("user_password").map(String::as_str), Some("hunter2"));
    assert_eq!(ps.get("csrf").map(String::as_str), Some("tok"));
    assert_eq!(ps.get("blank").map(String::as_str), Some(""));
    assert_eq!(ps.len(), 4);
}

#[test]
fn duplicate_field_names_collapse_to_the_last_write() {
    let html = "<form action=\"/login/do\">\
        <input name=\"flag\" type=\"hidden\" value=\"first\">\
        <input name=\"flag\" type=\"hidden\" value=\"second\">\
        </form>";
    let forms = xrenew::form::extract_forms(html, None);
    let ps = build_login_params(&forms[0], &account());
    assert_eq!(ps.len(), 1);
    assert_eq!(ps.get("flag").map(String::as_str), Some("second"));
}

#[test]
fn select_email_forces_the_mail_method() {
    let forms = xrenew::form::extract_forms(AUTH_BODY, None);
    let ps = select_email_params(&forms[0]).expect("params");
    assert_eq!(ps.get("auth_type").map(String::as_str), Some("auth_mail"));
    assert_eq!(ps.get("token").map(String::as_str), Some("t1"));
}

#[test]
fn select_email_without_auth_type_fails() {
    let html = "<form action=\"/do\"><input name=\"x\" value=\"1\"></form>";
    let forms = xrenew::form::extract_forms(html, None);
    match select_email_params(&forms[0]) {
        Err(LoginError::ParseError(m)) => assert_eq!(m, "auth_type not found in form"),
        other => panic!("unexpected: {:?}", other),
    }
}

#[test]
fn valueless_fields_stay_out_of_the_two_factor_submission() {
    let html = "<form action=\"/do\">\
        <input name=\"auth_type\" value=\"auth_app\">\
        <input name=\"auth_code\" value=\"\">\
        <input name=\"untouched\">\
        </form>";
    let forms = xrenew::form::extract_forms(html, None);
    let ps = select_email_params(&forms[0]).expect("params");
    assert_eq!(ps.get("untouched"), None);
    assert_eq!(ps.len(), 2);
}

#[test]
fn the_code_lands_in_auth_code() {
    let html = "<form action=\"/do\">\
        <input name=\"auth_code\" value=\"\">\
        <input name=\"token\" value=\"t\">\
        </form>";
    let forms = xrenew::form::extract_forms(html, None);
    let ps = auth_code_params(&forms[0], "123456").expect("params");
    assert_eq!(ps.get("auth_code").map(String::as_str), Some("123456"));
}

#[test]
fn a_form_without_auth_code_fails() {
    let html = "<form action=\"/do\"><input name=\"token\" value=\"t\"></form>";
    let forms = xrenew::form::extract_forms(html, None);
    match auth_code_params(&forms[0], "123456") {
        Err(LoginError::ParseError(m)) => assert_eq!(m, "auth_code not found in form"),
        other => panic!("unexpected: {:?}", other),
    }
}

#[test]
fn two_factor_form_needs_the_submission_token() {
    let body = "<form action=\"/somewhere\"></form>";
    match find_two_factor_form("https://e.com/", body) {
        Err(LoginError::ParseError(m)) => {
            assert_eq!(m, "No valid form found in two-way auth response")
        },
        other => panic!("unexpected: {:?}", other),
    }
    let body2 = "<form action=\"/auth/do\"></form>";
    let f = find_two_factor_form("https://e.com/", body2).expect("form");
    assert_eq!(f.action.as_deref(), Some("https://e.com/auth/do"));
}

#[test]
fn two_factor_result_goes_by_the_dashboard_prefix() {
    let url = format!("{}?x=1", TOP_PAGE);
    match classify_two_factor_response(&url, "dash") {
        Ok(LoginStatus::Success(b)) => assert_eq!(b, "dash"),
        other => panic!("unexpected: {:?}", other),
    }
    match classify_two_factor_response(LOGIN_URL, "dash") {
        Err(LoginError::ParseError(m)) => assert_eq!(m, "Two-way auth failed"),
        other => panic!("unexpected: {:?}", other),
    }
}
