use xrenew::discovery::get_server_id;
use xrenew::page::get_captcha_image;
use xrenew::page::get_cloudflare_challenge;
use xrenew::page::get_mailaddress;
use xrenew::page::get_message;

#[test]
fn no_marker_heading_means_no_server() {
    let html = "<html><h3>ご利用中のサービス</h3><table>\
        <tr><td><a href=\"/detail?id=42\">x</a></td></tr></table></html>";
    assert_eq!(get_server_id(html), None);
}

#[test]
fn the_marker_heading_and_its_table_name_the_server() {
    let html = "<html>\
        <h3>その他</h3>\
        <h3>無料VPS</h3>\
        <table><tr><td><a href=\"/xapanel/xvps/server/detail?id=42\">server</a></td></tr></table>\
        </html>";
    assert_eq!(get_server_id(html).as_deref(), Some("42"));
}

#[test]
fn links_without_the_id_parameter_are_passed_over() {
    let html = "<h3>無料プラン</h3><table>\
        <a href=\"/help?page=2\">help</a>\
        <a href=\"/detail?plan=1&id=srv7\">srv</a></table>";
    assert_eq!(get_server_id(html).as_deref(), Some("srv7"));
}

#[test]
fn a_non_table_sibling_means_no_server() {
    let html = "<h3>無料プラン</h3><div>\
        <a href=\"/detail?id=42\">x</a></div>";
    assert_eq!(get_server_id(html), None);
}

#[test]
fn text_between_heading_and_table_is_ignored() {
    let html = "<h3>無料プラン</h3>\n  \n<table>\
        <a href=\"/detail?id=9\">x</a></table>";
    assert_eq!(get_server_id(html).as_deref(), Some("9"));
}

#[test]
fn query_values_are_form_decoded() {
    let html = "<h3>無料</h3><table>\
        <a href=\"/d?id=a%2Bb+c\">x</a></table>";
    assert_eq!(get_server_id(html).as_deref(), Some("a+b c"));
}

#[test]
fn the_first_section_message_is_collapsed() {
    let html = "<html><section>\
        <p> 更新 の   手続き </p>\n<p>が 完了 </p></section>\
        <section>second</section></html>";
    assert_eq!(get_message(html).as_deref(), Some("更新 の 手続き が 完了"));
}

#[test]
fn a_page_without_section_has_no_message() {
    assert_eq!(get_message("<html><div>plain</div></html>"), None);
    assert_eq!(get_message("<html><section>   </section></html>"), None);
}

#[test]
fn the_mail_address_is_trimmed() {
    let html = "<div id=\"mailaddress\">\n  a***b@example.com  \n</div>";
    assert_eq!(get_mailaddress(html).as_deref(), Some("a***b@example.com"));
    assert_eq!(get_mailaddress("<div id=\"other\">x</div>"), None);
}

#[test]
fn only_an_inline_image_counts_as_captcha_image() {
    let html = "<img src=\"/static/logo.png\">\
        <img src=\"data:image/png;base64,QQ==\">";
    assert_eq!(get_captcha_image(html).as_deref(), Some("data:image/png;base64,QQ=="));
    assert_eq!(get_captcha_image("<img src=\"/x.png\">"), None);
}

#[test]
fn the_challenge_key_comes_from_the_marked_container() {
    let html = "<div class=\"wrap\"></div>\
        <div class=\"wrap cf-turnstile extra\" data-sitekey=\"key-9\"></div>";
    assert_eq!(get_cloudflare_challenge(html).as_deref(), Some("key-9"));
}

#[test]
fn a_container_without_key_or_marker_yields_none() {
    assert_eq!(get_cloudflare_challenge("<div class=\"cf-turnstile\"></div>"), None);
    assert_eq!(
        get_cloudflare_challenge("<div class=\"cf-turnstile-like\" data-sitekey=\"k\"></div>"),
        None
    );
}
