use xrenew::extend::build_captcha_params;
use xrenew::extend::classify_captcha_response;
use xrenew::extend::classify_extend_response;
use xrenew::extend::find_extend_form;
use xrenew::extend::Captcha;
use xrenew::extend::CaptchaResponse;
use xrenew::extend::ExtendError;
use xrenew::extend::ExtendResponse;

const PAGE_URL: &str = "https://secure.xserver.ne.jp/xapanel/xvps/server/freevps/extend/index";

fn captcha_with_form(html: &str) -> Captcha {
    let forms = xrenew::form::extract_forms(html, None);
    Captcha {
        form: forms.into_iter().next().expect("form"),
        image: None,
        cloudflare: None,
        url: PAGE_URL.to_string(),
    }
}

#[test]
fn unavailable_phrase_beats_success_phrase() {
    let body = "<html><section>案内</section>\
        手続きが完了しました が、利用期限の1日前 まではお待ちください</html>";
    match classify_extend_response(PAGE_URL, body) {
        Ok(ExtendResponse::Failure(m)) => assert_eq!(m, "案内"),
        other => panic!("unexpected: {:?}", other),
    }
}

#[test]
fn success_phrase_reports_the_section_message() {
    let body = "<html><section> 延長 が \n 完了しました </section></html>";
    match classify_extend_response(PAGE_URL, body) {
        Ok(ExtendResponse::Success(m)) => assert_eq!(m, "延長 が 完了しました"),
        other => panic!("unexpected: {:?}", other),
    }
}

#[test]
fn success_without_section_uses_the_fallback() {
    let body = "<html>成功しました</html>";
    match classify_extend_response(PAGE_URL, body) {
        Ok(ExtendResponse::Success(m)) => assert_eq!(m, "Extend successful"),
        other => panic!("unexpected: {:?}", other),
    }
}

#[test]
fn captcha_marker_yields_the_gate() {
    let body = "<html>画像認証 を入力してください\
        <img src=\"data:image/png;base64,QUJD\">\
        <div class=\"box cf-turnstile\" data-sitekey=\"sk-1\"></div>\
        <form action=\"/extend/do\"><input type=\"hidden\" name=\"token\" value=\"t\"></form>\
        </html>";
    match classify_extend_response(PAGE_URL, body) {
        Ok(ExtendResponse::CaptchaRequired(c)) => {
            assert_eq!(c.url, PAGE_URL);
            assert_eq!(c.image.as_deref(), Some("data:image/png;base64,QUJD"));
            assert_eq!(c.cloudflare.as_deref(), Some("sk-1"));
            assert!(c.form.action.as_deref().unwrap().contains("/extend/do"));
        },
        other => panic!("unexpected: {:?}", other),
    }
}

#[test]
fn captcha_marker_without_form_is_parse_error() {
    let body = "<html>画像認証</html>";
    match classify_extend_response(PAGE_URL, body) {
        Err(ExtendError::ParseError(m)) => assert_eq!(m, "Captcha required but no image found"),
        other => panic!("unexpected: {:?}", other),
    }
}

#[test]
fn an_unmarked_page_is_parse_error() {
    match classify_extend_response(PAGE_URL, "<html>こんにちは</html>") {
        Err(ExtendError::ParseError(m)) => assert_eq!(m, "Extend failed"),
        other => panic!("unexpected: {:?}", other),
    }
}

#[test]
fn the_extend_form_avoids_the_change_form() {
    let body = "<form action=\"/extend/change/index\"></form>\
        <form action=\"/extend/confirm\"><input name=\"a\" value=\"1\"></form>";
    let f = find_extend_form("https://e.com/", body).expect("form");
    assert_eq!(f.action.as_deref(), Some("https://e.com/extend/confirm"));
}

#[test]
fn no_extend_form_is_parse_error() {
    match find_extend_form("https://e.com/", "<form action=\"/other\"></form>") {
        Err(ExtendError::ParseError(m)) => assert_eq!(m, "No valid extend form found"),
        other => panic!("unexpected: {:?}", other),
    }
}

#[test]
fn base64_image_splits_the_data_url() {
    let mut c = captcha_with_form("<form action=\"/do\"></form>");
    c.image = Some("data:image/png;base64,QUJDRA==".to_string());
    assert_eq!(c.mime_type().as_deref(), Some("image/png"));
    assert_eq!(c.base64_image().as_deref(), Some("QUJDRA=="));
    assert!(c.has_image());
}

#[test]
fn a_plain_image_source_has_no_payload() {
    let mut c = captcha_with_form("<form action=\"/do\"></form>");
    c.image = Some("/static/captcha.png".to_string());
    assert_eq!(c.base64_image(), None);
    assert_eq!(c.mime_type(), None);
    c.image = None;
    assert!(!c.has_image());
    assert_eq!(c.base64_image(), None);
}

#[test]
fn the_code_lands_in_the_auth_code_field() {
    let c = captcha_with_form(
        "<form action=\"/do\">\
         <input type=\"hidden\" name=\"token\" value=\"t\">\
         <input name=\"auth_code\" value=\"\"></form>",
    );
    let ps = build_captcha_params(&c, Some(1234), None).expect("params");
    assert_eq!(ps.get("auth_code").map(String::as_str), Some("1234"));
    assert_eq!(ps.get("token").map(String::as_str), Some("t"));
}

#[test]
fn without_auth_code_the_first_code_like_field_takes_it() {
    let c = captcha_with_form(
        "<form action=\"/do\">\
         <input type=\"hidden\" name=\"plain\" value=\"p\">\
         <input name=\"image_code\" value=\"\"></form>",
    );
    let ps = build_captcha_params(&c, Some(7), None).expect("params");
    assert_eq!(ps.get("image_code").map(String::as_str), Some("7"));
    assert_eq!(ps.get("plain").map(String::as_str), Some("p"));
}

#[test]
fn a_negative_code_is_spelled_with_its_sign() {
    let c = captcha_with_form(
        "<form action=\"/do\"><input name=\"auth_code\" value=\"\"></form>",
    );
    let ps = build_captcha_params(&c, Some(-52), None).expect("params");
    assert_eq!(ps.get("auth_code").map(String::as_str), Some("-52"));
}

#[test]
fn no_code_like_field_is_parse_error() {
    let c = captcha_with_form(
        "<form action=\"/do\"><input name=\"plain\" value=\"p\"></form>",
    );
    match build_captcha_params(&c, Some(1), None) {
        Err(ExtendError::ParseError(m)) => {
            assert_eq!(m, "Captcha code field not found in form")
        },
        other => panic!("unexpected: {:?}", other),
    }
}

#[test]
fn a_token_lands_under_the_challenge_response_name() {
    let c = captcha_with_form(
        "<form action=\"/do\"><input name=\"token\" value=\"t\"></form>",
    );
    let ps = build_captcha_params(&c, None, Some("tok-123".to_string())).expect("params");
    assert_eq!(ps.get("cf-turnstile-response").map(String::as_str), Some("tok-123"));
}

#[test]
fn a_rejected_code_is_parse_error() {
    let body = "<html>入力された認証コードが正しくありません 完了しました</html>";
    match classify_captcha_response(body) {
        Err(ExtendError::ParseError(m)) => assert_eq!(m, "Invalid captcha code"),
        other => panic!("unexpected: {:?}", other),
    }
}

#[test]
fn the_completion_notice_is_reported_verbatim() {
    let body = "<html><section>ほか</section>利用期限の更新手続きが完了しました</html>";
    match classify_captcha_response(body) {
        Ok(CaptchaResponse::Success(m)) => {
            assert_eq!(m, "利用期限の更新手続きが完了しました")
        },
        other => panic!("unexpected: {:?}", other),
    }
}

#[test]
fn captcha_response_checks_unavailable_first() {
    let body = "<html><section>まだ</section>継続される場合は 完了しました</html>";
    match classify_captcha_response(body) {
        Ok(CaptchaResponse::Failure(m)) => assert_eq!(m, "まだ"),
        other => panic!("unexpected: {:?}", other),
    }
}

#[test]
fn an_unmarked_captcha_response_is_parse_error() {
    match classify_captcha_response("<html>?</html>") {
        Err(ExtendError::ParseError(m)) => assert_eq!(m, "Captcha submission failed"),
        other => panic!("unexpected: {:?}", other),
    }
}
