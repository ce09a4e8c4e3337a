use xrenew::data::Account;
use xrenew::flow::flow_step;
use xrenew::flow::FlowAction;
use xrenew::flow::FlowEvent;
use xrenew::flow::FlowState;
use xrenew::flow::Solution;
use xrenew::login::LOGIN_URL;
use xrenew::login::TOP_PAGE;
use xrenew::retry::AttemptError;

fn account() -> Account {
    Account::new("someone@example.com".to_string(), "hunter2".to_string())
}

fn page(url: &str, body: &str) -> FlowEvent {
    FlowEvent::Page { url: url.to_string(), body: body.to_string() }
}

const LOGIN_PAGE: &str = "<form action=\"/xapanel/login/xvps/do\">\
    <input name=\"memberid\" type=\"text\">\
    <input name=\"user_password\" type=\"password\">\
    <input type=\"hidden\" name=\"csrf\" value=\"tok\"></form>";

const DASHBOARD: &str = "<h3>無料VPS</h3>\
    <table><a href=\"/xapanel/xvps/server/detail?id=42\">srv</a></table>";

const EXTEND_PAGE: &str = "<form action=\"/xapanel/xvps/server/freevps/extend/conf\">\
    <input type=\"hidden\" name=\"id_vps\" value=\"42\"></form>";

#[test]
fn a_run_without_captcha_reaches_success() {
    let acc = account();
    let (st, act) = flow_step(FlowState::Start, FlowEvent::Started, &acc, false, false);
    match &act {
        FlowAction::Get(u) => assert_eq!(u, LOGIN_URL),
        _ => panic!("expected a fetch"),
    }

    let (st, act) = flow_step(st, page(LOGIN_URL, LOGIN_PAGE), &acc, false, false);
    let login_post = match &act {
        FlowAction::Post(u, ps) => {
            assert_eq!(u, "https://secure.xserver.ne.jp/xapanel/login/xvps/do");
            assert_eq!(ps.get("memberid").map(String::as_str), Some("someone@example.com"));
            assert_eq!(ps.get("user_password").map(String::as_str), Some("hunter2"));
            assert_eq!(ps.get("csrf").map(String::as_str), Some("tok"));
            u.clone()
        },
        _ => panic!("expected the login post"),
    };
    assert!(login_post.contains("login"));

    let (st, act) = flow_step(st, page(TOP_PAGE, DASHBOARD), &acc, false, false);
    match &act {
        FlowAction::Get(u) => assert_eq!(
            u,
            "https://secure.xserver.ne.jp/xapanel/xvps/server/freevps/extend/index?id_vps=42"
        ),
        _ => panic!("expected the renewal fetch"),
    }

    let extend_url = "https://secure.xserver.ne.jp/xapanel/xvps/server/freevps/extend/index?id_vps=42";
    let (st, act) = flow_step(st, page(extend_url, EXTEND_PAGE), &acc, false, false);
    match &act {
        FlowAction::Post(u, ps) => {
            assert_eq!(u, "https://secure.xserver.ne.jp/xapanel/xvps/server/freevps/extend/conf");
            assert_eq!(ps.get("id_vps").map(String::as_str), Some("42"));
        },
        _ => panic!("expected the renewal post"),
    }

    let body = "<section>更新が完了しました</section>完了しました";
    let (_st, act) = flow_step(st, page(extend_url, body), &acc, false, false);
    match act {
        FlowAction::Done(Ok(m)) => assert_eq!(m, "更新が完了しました"),
        _ => panic!("expected a successful end"),
    }
}

#[test]
fn a_rejected_login_ends_the_run() {
    let acc = account();
    let (st, _) = flow_step(FlowState::Start, FlowEvent::Started, &acc, false, false);
    let (st, _) = flow_step(st, page(LOGIN_URL, LOGIN_PAGE), &acc, false, false);
    let back = format!("{}?failed=1", LOGIN_URL);
    let (_st, act) = flow_step(st, page(&back, "<html></html>"), &acc, false, false);
    match act {
        FlowAction::Done(Err(AttemptError::Other(m))) => assert!(m.contains("Login failed")),
        _ => panic!("expected the run to end"),
    }
}

#[test]
fn an_unattended_two_factor_challenge_ends_the_run() {
    let acc = account();
    let (st, _) = flow_step(FlowState::Start, FlowEvent::Started, &acc, false, false);
    let (st, _) = flow_step(st, page(LOGIN_URL, LOGIN_PAGE), &acc, false, false);
    let auth = "https://secure.xserver.ne.jp/xapanel/myaccount/loginauth/index";
    let body = "<form action=\"/auth/do\">\
        <input type=\"hidden\" name=\"auth_type\" value=\"auth_app\"></form>";
    let (_st, act) = flow_step(st, page(auth, body), &acc, false, false);
    match act {
        FlowAction::Done(Err(AttemptError::Other(m))) => {
            assert_eq!(m, "Two-way authentication required")
        },
        _ => panic!("expected the run to end"),
    }
}

#[test]
fn an_interactive_two_factor_challenge_runs_to_the_code_prompt() {
    let acc = account();
    let (st, _) = flow_step(FlowState::Start, FlowEvent::Started, &acc, true, false);
    let (st, _) = flow_step(st, page(LOGIN_URL, LOGIN_PAGE), &acc, true, false);
    let auth = "https://secure.xserver.ne.jp/xapanel/myaccount/loginauth/index";
    let body = "<span id=\"mailaddress\">a***@example.com</span>\
        <form action=\"/myaccount/loginauth/select\">\
        <input type=\"hidden\" name=\"auth_type\" value=\"auth_app\"></form>";
    let (st, act) = flow_step(st, page(auth, body), &acc, true, false);
    match (&st, &act) {
        (FlowState::AwaitTwoFactorForm { hint }, FlowAction::Post(_, ps)) => {
            assert_eq!(hint.as_deref(), Some("a***@example.com"));
            assert_eq!(ps.get("auth_type").map(String::as_str), Some("auth_mail"));
        },
        _ => panic!("expected the delivery selection"),
    }

    let select_body = "<form action=\"/myaccount/loginauth/do\">\
        <input type=\"hidden\" name=\"auth_code\" value=\"\">\
        <input type=\"hidden\" name=\"token\" value=\"t\"></form>";
    let (st, act) = flow_step(st, page(auth, select_body), &acc, true, false);
    assert!(matches!(act, FlowAction::PromptCode));

    let (st, act) = flow_step(st, FlowEvent::Code("991122".to_string()), &acc, true, false);
    match (&st, &act) {
        (FlowState::AwaitTwoFactorResult, FlowAction::Post(_, ps)) => {
            assert_eq!(ps.get("auth_code").map(String::as_str), Some("991122"));
        },
        _ => panic!("expected the code post"),
    }

    let (_st, act) = flow_step(st, page(TOP_PAGE, DASHBOARD), &acc, true, false);
    assert!(matches!(act, FlowAction::Get(_)));
}

#[test]
fn a_captcha_gate_goes_to_the_image_solver_and_back() {
    let acc = account();
    let extend_url = "https://secure.xserver.ne.jp/xapanel/xvps/server/freevps/extend/index?id_vps=42";
    let gated = "画像認証<img src=\"data:image/png;base64,QUJD\">\
        <form action=\"/freevps/extend/do\">\
        <input type=\"hidden\" name=\"auth_code\" value=\"\">\
        <input type=\"hidden\" name=\"id_vps\" value=\"42\"></form>";
    let (st, act) = flow_step(
        FlowState::AwaitExtendResult,
        page(extend_url, gated),
        &acc,
        false,
        false,
    );
    match (&st, &act) {
        (FlowState::AwaitSolve { .. }, FlowAction::SolveImage { mime_type, data }) => {
            assert_eq!(mime_type, "image/png");
            assert_eq!(data, "QUJD");
        },
        _ => panic!("expected the image to go to the solver"),
    }

    let (st, act) = flow_step(
        st,
        FlowEvent::Solved(Ok(Solution::Code(7788))),
        &acc,
        false,
        false,
    );
    match (&st, &act) {
        (FlowState::AwaitCaptchaResult, FlowAction::Post(u, ps)) => {
            assert!(u.ends_with("/freevps/extend/do"));
            assert_eq!(ps.get("auth_code").map(String::as_str), Some("7788"));
            assert_eq!(ps.get("id_vps").map(String::as_str), Some("42"));
        },
        _ => panic!("expected the solved code post"),
    }

    let rejected = "入力された認証コードが正しくありません";
    let (_st, act) = flow_step(st, page(extend_url, rejected), &acc, false, false);
    match act {
        FlowAction::Done(Err(AttemptError::CaptchaFailure(m))) => {
            assert_eq!(m, "Captcha submit: Invalid captcha code")
        },
        _ => panic!("expected a captcha-class failure"),
    }
}

#[test]
fn a_gate_with_only_a_challenge_key_needs_the_service_key() {
    let acc = account();
    let extend_url = "https://secure.xserver.ne.jp/xapanel/xvps/server/freevps/extend/index";
    let gated = "画像認証<div class=\"cf-turnstile\" data-sitekey=\"sk-5\"></div>\
        <form action=\"/freevps/extend/do\">\
        <input type=\"hidden\" name=\"auth_code\" value=\"\"></form>";

    let (_st, act) = flow_step(
        FlowState::AwaitExtendResult,
        page(extend_url, gated),
        &acc,
        false,
        true,
    );
    match &act {
        FlowAction::SolveTurnstile { site_key, url } => {
            assert_eq!(site_key, "sk-5");
            assert_eq!(url, extend_url);
        },
        _ => panic!("expected the challenge to go to the token solver"),
    }

    let (_st, act) = flow_step(
        FlowState::AwaitExtendResult,
        page(extend_url, gated),
        &acc,
        false,
        false,
    );
    match act {
        FlowAction::Done(Err(AttemptError::CaptchaFailure(m))) => {
            assert_eq!(m, "Captcha solve: Api key not set")
        },
        _ => panic!("expected a captcha-class failure"),
    }
}

#[test]
fn a_missing_server_ends_the_run() {
    let acc = account();
    let (_st, act) = flow_step(
        FlowState::AwaitLogin,
        page(TOP_PAGE, "<html>no servers</html>"),
        &acc,
        false,
        false,
    );
    match act {
        FlowAction::Done(Err(AttemptError::Other(m))) => assert_eq!(m, "No VPS found"),
        _ => panic!("expected the run to end"),
    }
}

#[test]
fn a_failed_exchange_maps_by_state() {
    let acc = account();
    let (_st, act) = flow_step(
        FlowState::AwaitLoginPage,
        FlowEvent::Failed("connection refused".to_string()),
        &acc,
        false,
        false,
    );
    assert!(matches!(act, FlowAction::Done(Err(AttemptError::Other(m))) if m == "connection refused"));

    let (_st, act) = flow_step(
        FlowState::AwaitCaptchaResult,
        FlowEvent::Failed("connection refused".to_string()),
        &acc,
        false,
        false,
    );
    match act {
        FlowAction::Done(Err(AttemptError::CaptchaFailure(m))) => {
            assert_eq!(m, "Captcha submit: connection refused")
        },
        _ => panic!("expected a captcha-class failure"),
    }
}
