use xrenew::form::classify_field;
use xrenew::form::extract_forms;
use xrenew::form::Field;
use xrenew::form::FieldType;

fn field(name: &str, ftype: &str) -> Field {
    Field { name: name.to_string(), ftype: ftype.to_string(), value: None }
}

#[test]
fn extracts_each_form_in_document_order() {
    let html = "<html><body>\
        <form action=\"/one\"><input name=\"a\"></form>\
        <p>between</p>\
        <form action=\"/two\"><input name=\"b\"></form>\
        <form action=\"/three\"></form>\
        </body></html>";
    let forms = extract_forms(html, None);
    assert_eq!(forms.len(), 3);
    assert_eq!(forms[0].action.as_deref(), Some("/one"));
    assert_eq!(forms[1].action.as_deref(), Some("/two"));
    assert_eq!(forms[2].action.as_deref(), Some("/three"));
}

#[test]
fn no_forms_yields_no_records() {
    let forms = extract_forms("<html><body><p>nothing here</p></body></html>", None);
    assert_eq!(forms.len(), 0);
}

#[test]
fn unnamed_fields_are_dropped() {
    let html = "<form action=\"/f\">\
        <input type=\"text\">\
        <input name=\"kept\" type=\"text\">\
        <textarea></textarea>\
        <select name=\"also_kept\"></select>\
        </form>";
    let forms = extract_forms(html, None);
    assert_eq!(forms.len(), 1);
    let names: Vec<&str> = forms[0].fields.iter().map(|f| f.name.as_str()).collect();
    assert_eq!(names, vec!["kept", "also_kept"]);
}

#[test]
fn field_type_defaults_to_tag_name() {
    let html = "<form><input name=\"a\"><textarea name=\"b\"></textarea>\
        <select name=\"c\"></select><input name=\"d\" type=\"password\"></form>";
    let forms = extract_forms(html, None);
    let f = &forms[0];
    assert_eq!(f.fields[0].ftype, "input");
    assert_eq!(f.fields[1].ftype, "textarea");
    assert_eq!(f.fields[2].ftype, "select");
    assert_eq!(f.fields[3].ftype, "password");
}

#[test]
fn field_value_defaults_to_absent() {
    let html = "<form><input name=\"a\"><input name=\"b\" value=\"x\">\
        <input name=\"c\" value=\"\"></form>";
    let forms = extract_forms(html, None);
    let f = &forms[0];
    assert_eq!(f.fields[0].value, None);
    assert_eq!(f.fields[1].value.as_deref(), Some("x"));
    assert_eq!(f.fields[2].value.as_deref(), Some(""));
}

#[test]
fn relative_action_resolves_against_base() {
    let html = "<form action=\"login/do\"><input name=\"a\"></form>";
    let forms = extract_forms(html, Some("https://example.com/app/index"));
    assert_eq!(forms[0].action.as_deref(), Some("https://example.com/app/login/do"));
}

#[test]
fn absolute_action_passes_through_base() {
    let html = "<form action=\"https://other.example.com/x\"></form>";
    let forms = extract_forms(html, Some("https://example.com/app/"));
    assert_eq!(forms[0].action.as_deref(), Some("https://other.example.com/x"));
}

#[test]
fn missing_action_stays_absent() {
    let forms = extract_forms("<form><input name=\"a\"></form>", Some("https://e.com/"));
    assert_eq!(forms[0].action, None);
}

#[test]
fn formaction_override_takes_precedence() {
    let html = "<form action=\"/plain\">\
        <button formaction=\"/override\">go</button>\
        <input name=\"a\"></form>";
    let forms = extract_forms(html, None);
    assert_eq!(forms[0].action.as_deref(), Some("/override"));
}

#[test]
fn submit_input_formaction_counts_as_override() {
    let html = "<form action=\"/plain\">\
        <input type=\"submit\" name=\"s\" formaction=\"/submit-here\"></form>";
    let forms = extract_forms(html, None);
    assert_eq!(forms[0].action.as_deref(), Some("/submit-here"));
}

#[test]
fn method_is_upper_cased() {
    let forms = extract_forms("<form method=\"post\"></form><form></form>", None);
    assert_eq!(forms[0].method.as_deref(), Some("POST"));
    assert_eq!(forms[1].method, None);
}

#[test]
fn comments_and_doctype_are_skipped() {
    let html = "<!DOCTYPE html><!-- <form action=\"/ghost\"></form> -->\
        <form action=\"/real\"></form>";
    let forms = extract_forms(html, None);
    assert_eq!(forms.len(), 1);
    assert_eq!(forms[0].action.as_deref(), Some("/real"));
}

#[test]
fn hidden_type_is_always_other() {
    let mut f = field("password_of_user", "hidden");
    assert_eq!(classify_field(&f), FieldType::Other);
    f.name = "username".to_string();
    assert_eq!(classify_field(&f), FieldType::Other);
}

#[test]
fn password_type_is_always_secret() {
    assert_eq!(classify_field(&field("anything", "password")), FieldType::Password);
    assert_eq!(classify_field(&field("", "password")), FieldType::Password);
}

#[test]
fn secret_names_beat_identifier_names() {
    assert_eq!(classify_field(&field("user_password", "text")), FieldType::Password);
    assert_eq!(classify_field(&field("PWD", "text")), FieldType::Password);
    assert_eq!(classify_field(&field("pass", "text")), FieldType::Password);
}

#[test]
fn identifier_names_are_recognised() {
    for n in ["username", "userid", "user", "id", "login", "email", "mail", "MailAddr"] {
        assert_eq!(classify_field(&field(n, "text")), FieldType::Id, "{}", n);
    }
}

#[test]
fn plain_fields_are_other() {
    assert_eq!(classify_field(&field("csrf_token", "text")), FieldType::Other);
    assert_eq!(classify_field(&field("", "text")), FieldType::Other);
}
