use xrenew::form::extract_forms;

#[test]
fn quoted_attribute_values_may_hold_spaces_and_brackets() {
    let html = "<form action='/a b' method=post>\
        <input name=\"q\" value=\"x > y\"></form>";
    let forms = extract_forms(html, None);
    assert_eq!(forms[0].action.as_deref(), Some("/a b"));
    assert_eq!(forms[0].method.as_deref(), Some("POST"));
    assert_eq!(forms[0].fields[0].value.as_deref(), Some("x > y"));
}

#[test]
fn unquoted_attribute_values_end_at_whitespace() {
    let html = "<form action=/go/here method=GET><input name=a value=plain></form>";
    let forms = extract_forms(html, None);
    assert_eq!(forms[0].action.as_deref(), Some("/go/here"));
    assert_eq!(forms[0].method.as_deref(), Some("GET"));
    assert_eq!(forms[0].fields[0].value.as_deref(), Some("plain"));
}

#[test]
fn tag_and_attribute_names_are_case_insensitive() {
    let html = "<FORM ACTION=\"/x\"><INPUT NAME=\"n\" TYPE=\"HIDDEN\"></FORM>";
    let forms = extract_forms(html, None);
    assert_eq!(forms.len(), 1);
    assert_eq!(forms[0].action.as_deref(), Some("/x"));
    assert_eq!(forms[0].fields[0].name, "n");
    assert_eq!(forms[0].fields[0].ftype, "HIDDEN");
}

#[test]
fn the_first_of_duplicate_attributes_wins() {
    let html = "<form action=\"/first\" action=\"/second\"></form>";
    let forms = extract_forms(html, None);
    assert_eq!(forms[0].action.as_deref(), Some("/first"));
}

#[test]
fn a_valueless_attribute_reads_as_empty() {
    let html = "<form><input name=\"cb\" type=\"checkbox\" value></form>";
    let forms = extract_forms(html, None);
    assert_eq!(forms[0].fields[0].value.as_deref(), Some(""));
}

#[test]
fn an_unclosed_form_runs_to_the_end_of_the_page() {
    let html = "<form action=\"/open\"><input name=\"a\"><p><input name=\"b\">";
    let forms = extract_forms(html, None);
    assert_eq!(forms.len(), 1);
    assert_eq!(forms[0].fields.len(), 2);
}

#[test]
fn two_adjacent_open_forms_both_count() {
    let html = "<form action=\"/one\"><form action=\"/two\"></form>";
    let forms = extract_forms(html, None);
    assert_eq!(forms.len(), 2);
    assert_eq!(forms[0].action.as_deref(), Some("/one"));
    assert_eq!(forms[1].action.as_deref(), Some("/two"));
}

#[test]
fn stray_angle_brackets_are_plain_text() {
    let html = "a < b <form action=\"/x\"></form>";
    let forms = extract_forms(html, None);
    assert_eq!(forms.len(), 1);
}

#[test]
fn fields_outside_the_form_do_not_join_it() {
    let html = "<input name=\"before\"><form action=\"/x\">\
        <input name=\"inside\"></form><input name=\"after\">";
    let forms = extract_forms(html, None);
    assert_eq!(forms.len(), 1);
    assert_eq!(forms[0].fields.len(), 1);
    assert_eq!(forms[0].fields[0].name, "inside");
}

#[test]
fn percent_escapes_decode_in_query_values() {
    let html = "<h3>無料</h3><table><a href=\"/d?id=%41%42c\">x</a></table>";
    assert_eq!(xrenew::discovery::get_server_id(html).as_deref(), Some("ABc"));
}
