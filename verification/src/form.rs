//! Form descriptors extracted from panel pages, and field classification.
use vstd::prelude::*;
use vstd::string::*;

use crate::html::attr_of;
use crate::html::attr_of_exec;
use crate::html::spec_tokens;
use crate::html::tokenize;
use crate::html::GTag;
use crate::html::GTok;
use crate::html::Tag;
use crate::html::Tok;
use crate::text::chars_to_string;
use crate::text::contains_str;
use crate::text::lower_seq;
use crate::text::lower_vec;
use crate::text::spec_contains;
use crate::text::to_chars;
use crate::text::upper_seq;
use crate::text::upper_vec;
use crate::text::vec_eq_str;

verus! {

// ---------------------------------------------------------------------------
// Data model
// ---------------------------------------------------------------------------

/// One field of a form: its name, its type (the `type` attribute, or the
/// element's tag name when absent), and its initial value, if any.
#[derive(Debug, Clone, PartialEq, Eq)]
pub struct Field {
    pub name: String,
    pub ftype: String,
    pub value: Option<String>,
}

/// Mathematical image of a field.
pub ghost struct GField {
    pub name: Seq<char>,
    pub ftype: Seq<char>,
    pub value: Option<Seq<char>>,
}

impl View for Field {
    type V = GField;

    open spec fn view(&self) -> GField {
        GField {
            name: self.name@,
            ftype: self.ftype@,
            value: match self.value {
                Some(v) => Some(v@),
                None => None,
            },
        }
    }
}

/// One form of a page: its (resolved) action, its upper-cased method, and
/// its named fields, in document order.
#[derive(Debug, Clone, PartialEq, Eq)]
pub struct Form {
    pub action: Option<String>,
    pub method: Option<String>,
    pub fields: Vec<Field>,
}

/// Mathematical image of a form.
pub ghost struct GForm {
    pub action: Option<Seq<char>>,
    pub method: Option<Seq<char>>,
    pub fields: Seq<GField>,
}

pub open spec fn fields_view(v: Seq<Field>) -> Seq<GField> {
    v.map_values(|f: Field| f@)
}

impl View for Form {
    type V = GForm;

    open spec fn view(&self) -> GForm {
        GForm {
            action: match self.action {
                Some(a) => Some(a@),
                None => None,
            },
            method: match self.method {
                Some(m) => Some(m@),
                None => None,
            },
            fields: fields_view(self.fields@),
        }
    }
}

pub open spec fn forms_view(v: Seq<Form>) -> Seq<GForm> {
    v.map_values(|f: Form| f@)
}

pub open spec fn opt_str_view(b: Option<&str>) -> Option<Seq<char>> {
    match b {
        Some(s) => Some(s@),
        None => None,
    }
}

// ---------------------------------------------------------------------------
// Resolving form actions
// ---------------------------------------------------------------------------

/// What resolving the reference `rel` against the absolute URL `base` yields:
/// the resolved absolute URL, or nothing when the two cannot be combined.
/// The result depends on the two texts alone.
pub uninterp spec fn joined_url(base: Seq<char>, rel: Seq<char>) -> Option<Seq<char>>;

/// Relies on `url::Url::parse` and `url::Url::join`: resolving `rel` against
/// `base` is a function of the two strings, written here `joined_url`; it
/// fails exactly when `joined_url` has no value.
#[verifier::external_body]
fn join_url_exec(base: &str, rel: &str) -> (r: Option<String>)
    ensures
        (match r {
            Some(u) => Some(u@),
            None => None,
        }) == joined_url(base@, rel@),
{
    let b = match url::Url::parse(base) {
        Ok(b) => b,
        Err(_) => {
            return None;
        },
    };
    match b.join(rel) {
        Ok(u) => Some(u.to_string()),
        Err(_) => None,
    }
}

/// A raw action resolved against an optional base URL: the resolved URL when
/// a base is given and the two combine, else the raw action verbatim.
pub open spec fn spec_resolve(a: Seq<char>, base: Option<Seq<char>>) -> Seq<char> {
    match base {
        None => a,
        Some(b) => match joined_url(b, a) {
            Some(u) => u,
            None => a,
        },
    }
}

fn resolve_exec(a: &Vec<char>, base: Option<&str>) -> (r: String)
    ensures
        r@ == spec_resolve(a@, opt_str_view(base)),
{
    match base {
        None => chars_to_string(a),
        Some(b) => {
            let rel = chars_to_string(a);
            match join_url_exec(b, rel.as_str()) {
                Some(u) => u,
                None => rel,
            }
        },
    }
}

// ---------------------------------------------------------------------------
// Token-level form queries
// ---------------------------------------------------------------------------

/// An element that contributes fields to a form.
pub open spec fn is_field_elem(name: Seq<char>) -> bool {
    name == "input"@ || name == "textarea"@ || name == "select"@
}

fn is_field_elem_exec(name: &Vec<char>) -> (r: bool)
    ensures
        r == is_field_elem(name@),
{
    vec_eq_str(name, "input") || vec_eq_str(name, "textarea") || vec_eq_str(name, "select")
}

/// A submit control: a button, or an input whose type is `submit`.
pub open spec fn is_submit_elem(t: GTag) -> bool {
    t.name == "button"@ || (t.name == "input"@ && attr_of(t.attrs, "type"@) == Some(
        "submit"@,
    ))
}

/// The field described by a named field element.
pub open spec fn field_of_tag(t: GTag) -> GField
    recommends
        attr_of(t.attrs, "name"@) is Some,
{
    GField {
        name: match attr_of(t.attrs, "name"@) {
            Some(n) => n,
            None => Seq::empty(),
        },
        ftype: match attr_of(t.attrs, "type"@) {
            Some(ty) => ty,
            None => t.name,
        },
        value: attr_of(t.attrs, "value"@),
    }
}

/// The fields of the form whose body is `ts[i..e]`: every field element that
/// carries a `name` attribute, in document order.
pub open spec fn spec_fields(ts: Seq<GTok>, i: int, e: int) -> Seq<GField>
    decreases e - i,
    when 0 <= i <= e <= ts.len()
{
    if i >= e {
        Seq::empty()
    } else {
        let rest = spec_fields(ts, i + 1, e);
        match ts[i] {
            GTok::Open(t) => if is_field_elem(t.name) && attr_of(t.attrs, "name"@) is Some {
                seq![field_of_tag(t)] + rest
            } else {
                rest
            },
            _ => rest,
        }
    }
}

/// The first submit control in `ts[i..e]` that carries a `formaction`
/// attribute, and that attribute's value.
pub open spec fn spec_submit_formaction(ts: Seq<GTok>, i: int, e: int) -> Option<Seq<char>>
    decreases e - i,
    when 0 <= i <= e <= ts.len()
{
    if i >= e {
        None
    } else {
        match ts[i] {
            GTok::Open(t) => if is_submit_elem(t) && attr_of(t.attrs, "formaction"@) is Some {
                attr_of(t.attrs, "formaction"@)
            } else {
                spec_submit_formaction(ts, i + 1, e)
            },
            _ => spec_submit_formaction(ts, i + 1, e),
        }
    }
}

/// The first field element in `ts[i..e]` that carries a `formaction`
/// attribute, and that attribute's value.
pub open spec fn spec_field_formaction(ts: Seq<GTok>, i: int, e: int) -> Option<Seq<char>>
    decreases e - i,
    when 0 <= i <= e <= ts.len()
{
    if i >= e {
        None
    } else {
        match ts[i] {
            GTok::Open(t) => if is_field_elem(t.name) && attr_of(t.attrs, "formaction"@)
                is Some {
                attr_of(t.attrs, "formaction"@)
            } else {
                spec_field_formaction(ts, i + 1, e)
            },
            _ => spec_field_formaction(ts, i + 1, e),
        }
    }
}

/// A submit control's override action for the form body `ts[i..e]`, if any:
/// submit controls are consulted first, then field elements.
pub open spec fn spec_formaction(ts: Seq<GTok>, i: int, e: int) -> Option<Seq<char>>
    recommends
        0 <= i <= e <= ts.len(),
{
    match spec_submit_formaction(ts, i, e) {
        Some(fa) => Some(fa),
        None => spec_field_formaction(ts, i, e),
    }
}

/// End of a form region: the first token at or after `i` that opens or
/// closes a `form`, else the token count.
pub open spec fn spec_form_end(ts: Seq<GTok>, i: int) -> int
    decreases ts.len() - i,
    when 0 <= i <= ts.len()
{
    if i >= ts.len() {
        ts.len() as int
    } else if (ts[i] matches GTok::Close(n) && n == "form"@) || (ts[i] matches GTok::Open(t)
        && t.name == "form"@) {
        i
    } else {
        spec_form_end(ts, i + 1)
    }
}

pub proof fn lemma_spec_form_end(ts: Seq<GTok>, i: int)
    requires
        0 <= i <= ts.len(),
    ensures
        i <= spec_form_end(ts, i) <= ts.len(),
        spec_form_end(ts, i) < ts.len() ==> ((ts[spec_form_end(ts, i)] matches GTok::Close(n)
            && n == "form"@) || (ts[spec_form_end(ts, i)] matches GTok::Open(t) && t.name
            == "form"@)),
    decreases ts.len() - i,
{
    if i < ts.len() && !((ts[i] matches GTok::Close(n) && n == "form"@) || (
    ts[i] matches GTok::Open(t) && t.name == "form"@)) {
        lemma_spec_form_end(ts, i + 1);
    }
}

/// The form described by its opening tag `tag` and its body `ts[i..e]`.
pub open spec fn spec_make_form(
    tag: GTag,
    ts: Seq<GTok>,
    i: int,
    e: int,
    base: Option<Seq<char>>,
) -> GForm
    recommends
        0 <= i <= e <= ts.len(),
{
    GForm {
        action: match spec_formaction(ts, i, e) {
            Some(fa) => Some(spec_resolve(fa, base)),
            None => match attr_of(tag.attrs, "action"@) {
                Some(a) => Some(spec_resolve(a, base)),
                None => None,
            },
        },
        method: match attr_of(tag.attrs, "method"@) {
            Some(m) => Some(upper_seq(m)),
            None => None,
        },
        fields: spec_fields(ts, i, e),
    }
}

/// The forms of the token run `ts`, from position `i` on, in document order.
pub open spec fn spec_forms_from(ts: Seq<GTok>, i: int, base: Option<Seq<char>>) -> Seq<
    GForm,
>
    decreases ts.len() - i,
    when 0 <= i <= ts.len()
    via spec_forms_from_dec
{
    if i >= ts.len() {
        Seq::empty()
    } else {
        match ts[i] {
            GTok::Open(t) => if t.name == "form"@ {
                let e = spec_form_end(ts, i + 1);
                let f = spec_make_form(t, ts, i + 1, e, base);
                let next = if e < ts.len() && (ts[e] matches GTok::Close(n)) {
                    e + 1
                } else {
                    e
                };
                seq![f] + spec_forms_from(ts, next, base)
            } else {
                spec_forms_from(ts, i + 1, base)
            },
            _ => spec_forms_from(ts, i + 1, base),
        }
    }
}

#[via_fn]
proof fn spec_forms_from_dec(ts: Seq<GTok>, i: int, base: Option<Seq<char>>) {
    if 0 <= i < ts.len() {
        lemma_spec_form_end(ts, i + 1);
    }
}

/// The forms of the page `h`, resolved against `base`.
pub open spec fn spec_extract_forms(h: Seq<char>, base: Option<Seq<char>>) -> Seq<GForm> {
    spec_forms_from(spec_tokens(h), 0, base)
}

// ---------------------------------------------------------------------------
// Executable extraction
// ---------------------------------------------------------------------------

fn fields_of_region(toks: &Vec<Tok>, i: usize, e: usize) -> (r: Vec<Field>)
    requires
        i <= e <= toks@.len(),
    ensures
        fields_view(r@) == spec_fields(crate::html::toks_view(toks@), i as int, e as int),
    decreases e - i,
{
    let ghost ts = crate::html::toks_view(toks@);
    if i >= e {
        let r: Vec<Field> = Vec::new();
        proof {
            assert(fields_view(r@) =~= spec_fields(ts, i as int, e as int));
        }
        r
    } else {
        proof {
            assert(ts[i as int] == toks@[i as int]@);
        }
        let found: Option<Field> = match &toks[i] {
            Tok::Open(t) => {
                if is_field_elem_exec(&t.name) {
                    match attr_of_exec(&t.attrs, "name") {
                        Some(n) => {
                            let ftype = match attr_of_exec(&t.attrs, "type") {
                                Some(ty) => chars_to_string(&ty),
                                None => chars_to_string(&t.name),
                            };
                            let value = match attr_of_exec(&t.attrs, "value") {
                                Some(v) => Some(chars_to_string(&v)),
                                None => None,
                            };
                            Some(Field { name: chars_to_string(&n), ftype, value })
                        },
                        None => None,
                    }
                } else {
                    None
                }
            },
            _ => None,
        };
        let mut rest = fields_of_region(toks, i + 1, e);
        match found {
            Some(f) => {
                proof {
                    let m = fields_view(rest@.insert(0, f));
                    let n = seq![f@] + fields_view(rest@);
                    assert forall|k: int| 0 <= k < m.len() implies m[k] == n[k] by {
                        if k == 0 {
                            assert(rest@.insert(0, f)[0] == f);
                        } else {
                            assert(rest@.insert(0, f)[k] == rest@[k - 1]);
                        }
                    }
                    assert(m =~= n);
                }
                rest.insert(0, f);
                rest
            },
            None => rest,
        }
    }
}

fn is_submit_elem_exec(t: &Tag) -> (r: bool)
    ensures
        r == is_submit_elem(t@),
{
    if vec_eq_str(&t.name, "button") {
        return true;
    }
    if vec_eq_str(&t.name, "input") {
        match attr_of_exec(&t.attrs, "type") {
            Some(ty) => vec_eq_str(&ty, "submit"),
            None => false,
        }
    } else {
        false
    }
}

fn submit_formaction_exec(toks: &Vec<Tok>, i: usize, e: usize) -> (r: Option<Vec<char>>)
    requires
        i <= e <= toks@.len(),
    ensures
        (match r {
            Some(v) => Some(v@),
            None => None,
        }) == spec_submit_formaction(crate::html::toks_view(toks@), i as int, e as int),
    decreases e - i,
{
    let ghost ts = crate::html::toks_view(toks@);
    if i >= e {
        return None;
    }
    proof {
        assert(ts[i as int] == toks@[i as int]@);
    }
    match &toks[i] {
        Tok::Open(t) => {
            if is_submit_elem_exec(t) {
                match attr_of_exec(&t.attrs, "formaction") {
                    Some(fa) => Some(fa),
                    None => submit_formaction_exec(toks, i + 1, e),
                }
            } else {
                submit_formaction_exec(toks, i + 1, e)
            }
        },
        _ => submit_formaction_exec(toks, i + 1, e),
    }
}

fn field_formaction_exec(toks: &Vec<Tok>, i: usize, e: usize) -> (r: Option<Vec<char>>)
    requires
        i <= e <= toks@.len(),
    ensures
        (match r {
            Some(v) => Some(v@),
            None => None,
        }) == spec_field_formaction(crate::html::toks_view(toks@), i as int, e as int),
    decreases e - i,
{
    let ghost ts = crate::html::toks_view(toks@);
    if i >= e {
        return None;
    }
    proof {
        assert(ts[i as int] == toks@[i as int]@);
    }
    match &toks[i] {
        Tok::Open(t) => {
            if is_field_elem_exec(&t.name) {
                match attr_of_exec(&t.attrs, "formaction") {
                    Some(fa) => Some(fa),
                    None => field_formaction_exec(toks, i + 1, e),
                }
            } else {
                field_formaction_exec(toks, i + 1, e)
            }
        },
        _ => field_formaction_exec(toks, i + 1, e),
    }
}

fn form_end_exec(toks: &Vec<Tok>, i: usize) -> (r: usize)
    requires
        i <= toks@.len(),
    ensures
        r as int == spec_form_end(crate::html::toks_view(toks@), i as int),
        i <= r <= toks@.len(),
{
    let ghost ts = crate::html::toks_view(toks@);
    let mut j: usize = i;
    while j < toks.len()
        invariant
            i <= j <= toks@.len(),
            ts == crate::html::toks_view(toks@),
            spec_form_end(ts, i as int) == spec_form_end(ts, j as int),
        decreases toks@.len() - j,
    {
        proof {
            assert(ts[j as int] == toks@[j as int]@);
        }
        let stop = match &toks[j] {
            Tok::Close(n) => vec_eq_str(n, "form"),
            Tok::Open(t) => vec_eq_str(&t.name, "form"),
            _ => false,
        };
        if stop {
            proof {
                assert(spec_form_end(ts, j as int) == j as int);
            }
            return j;
        }
        j = j + 1;
    }
    j
}

fn make_form_exec(toks: &Vec<Tok>, tag: &Tag, i: usize, e: usize, base: Option<&str>) -> (r:
    Form)
    requires
        i <= e <= toks@.len(),
    ensures
        r@ == spec_make_form(
            tag@,
            crate::html::toks_view(toks@),
            i as int,
            e as int,
            opt_str_view(base),
        ),
{
    let fa = match submit_formaction_exec(toks, i, e) {
        Some(fa) => Some(fa),
        None => field_formaction_exec(toks, i, e),
    };
    let action = match fa {
        Some(fa) => Some(resolve_exec(&fa, base)),
        None => match attr_of_exec(&tag.attrs, "action") {
            Some(a) => Some(resolve_exec(&a, base)),
            None => None,
        },
    };
    let method = match attr_of_exec(&tag.attrs, "method") {
        Some(m) => Some(chars_to_string(&upper_vec(&m))),
        None => None,
    };
    let fields = fields_of_region(toks, i, e);
    Form { action, method, fields }
}

/// The forms of `html`, in document order.  Each form's action is taken from
/// a submit control's `formaction` override when one exists, else from the
/// form's own `action` attribute, and is resolved against `base_url` when
/// one is given; its method is upper-cased; its fields are the `input`,
/// `textarea` and `select` descendants that carry a `name` attribute.
/// Malformed markup is never an error: it simply yields fewer forms.
pub fn extract_forms(html: &str, base_url: Option<&str>) -> (r: Vec<Form>)
    ensures
        forms_view(r@) == spec_extract_forms(html@, opt_str_view(base_url)),
{
    let cs = to_chars(html);
    let toks = tokenize(&cs);
    let ghost ts = crate::html::toks_view(toks@);
    let ghost b = opt_str_view(base_url);
    let mut out: Vec<Form> = Vec::new();
    let mut i: usize = 0;
    while i < toks.len()
        invariant
            i <= toks@.len(),
            ts == crate::html::toks_view(toks@),
            b == opt_str_view(base_url),
            ts == spec_tokens(html@),
            forms_view(out@) + spec_forms_from(ts, i as int, b) =~= spec_forms_from(ts, 0, b),
        decreases toks@.len() - i,
    {
        proof {
            assert(ts[i as int] == toks@[i as int]@);
        }
        let is_form_open = match &toks[i] {
            Tok::Open(t) => vec_eq_str(&t.name, "form"),
            _ => false,
        };
        if is_form_open {
            let e = form_end_exec(&toks, i + 1);
            proof {
                lemma_spec_form_end(ts, i + 1);
            }
            let f = match &toks[i] {
                Tok::Open(t) => make_form_exec(&toks, t, i + 1, e, base_url),
                _ => Form { action: None, method: None, fields: Vec::new() },
            };
            let ghost prev = out@;
            out.push(f);
            proof {
                assert(forms_view(out@) =~= forms_view(prev) + seq![f@]) by {
                    let m = forms_view(prev.push(f));
                    let n = forms_view(prev) + seq![f@];
                    assert forall|k: int| 0 <= k < m.len() implies m[k] == n[k] by {
                        if k < prev.len() {
                            assert(prev.push(f)[k] == prev[k]);
                        } else {
                            assert(prev.push(f)[k] == f);
                        }
                    }
                }
            }
            let next = if e < toks.len() {
                let is_close = match &toks[e] {
                    Tok::Close(_) => true,
                    _ => false,
                };
                if is_close {
                    e + 1
                } else {
                    e
                }
            } else {
                e
            };
            proof {
                assert(ts[e as int] == toks@[e as int]@ || e as int == ts.len());
                assert(spec_forms_from(ts, i as int, b) == seq![f@] + spec_forms_from(
                    ts,
                    next as int,
                    b,
                ));
                assert(forms_view(out@) + spec_forms_from(ts, next as int, b)
                    =~= spec_forms_from(ts, 0, b));
            }
            i = next;
        } else {
            i = i + 1;
        }
    }
    proof {
        assert(spec_forms_from(ts, i as int, b) =~= Seq::<GForm>::empty());
        assert(forms_view(out@) =~= spec_forms_from(ts, 0, b));
    }
    out
}

// ---------------------------------------------------------------------------
// Picking a form out of a page
// ---------------------------------------------------------------------------

/// A form whose action holds the login token.
pub open spec fn is_login_form(f: GForm) -> bool {
    f.action matches Some(a) && spec_contains(a, "login"@)
}

/// A form whose action holds the submission token.
pub open spec fn is_do_form(f: GForm) -> bool {
    f.action matches Some(a) && spec_contains(a, "/do"@)
}

/// A form whose action holds the renewal token and not the plan-change one.
pub open spec fn is_extend_form(f: GForm) -> bool {
    f.action matches Some(a) && spec_contains(a, "extend"@) && !spec_contains(a, "change"@)
}

pub open spec fn spec_pick_login_form(fs: Seq<GForm>) -> Option<GForm>
    decreases fs.len(),
{
    if fs.len() == 0 {
        None
    } else if is_login_form(fs[0]) {
        Some(fs[0])
    } else {
        spec_pick_login_form(fs.skip(1))
    }
}

pub open spec fn spec_pick_do_form(fs: Seq<GForm>) -> Option<GForm>
    decreases fs.len(),
{
    if fs.len() == 0 {
        None
    } else if is_do_form(fs[0]) {
        Some(fs[0])
    } else {
        spec_pick_do_form(fs.skip(1))
    }
}

pub open spec fn spec_pick_extend_form(fs: Seq<GForm>) -> Option<GForm>
    decreases fs.len(),
{
    if fs.len() == 0 {
        None
    } else if is_extend_form(fs[0]) {
        Some(fs[0])
    } else {
        spec_pick_extend_form(fs.skip(1))
    }
}

fn form_action_has(f: &Form, token: &str) -> (r: bool)
    ensures
        r == (f@.action matches Some(a) && spec_contains(a, token@)),
{
    match &f.action {
        Some(a) => contains_str(&to_chars(a.as_str()), token),
        None => false,
    }
}

/// The first form whose action holds the login token.
pub fn pick_login_form(forms: Vec<Form>) -> (r: Option<Form>)
    ensures
        (match r {
            Some(f) => Some(f@),
            None => None,
        }) == spec_pick_login_form(forms_view(forms@)),
{
    let ghost fs = forms_view(forms@);
    let n = forms.len();
    let mut j: usize = 0;
    let mut hit: bool = false;
    proof {
        assert(fs.skip(0) =~= fs);
    }
    while j < n && !hit
        invariant
            j <= n,
            n == forms@.len(),
            fs == forms_view(forms@),
            hit ==> j < n && spec_pick_login_form(fs) == Some(fs[j as int]),
            !hit ==> spec_pick_login_form(fs) == spec_pick_login_form(fs.skip(j as int)),
        decreases n - j + (if hit { 0int } else { 1int }),
    {
        let ghost rest = fs.skip(j as int);
        proof {
            assert(rest[0] == forms@[j as int]@);
            assert(rest.skip(1) =~= fs.skip(j + 1));
        }
        if form_action_has(&forms[j], "login") {
            hit = true;
        } else {
            j = j + 1;
        }
    }
    if hit {
        let mut forms = forms;
        let f = forms.remove(j);
        Some(f)
    } else {
        proof {
            assert(fs.skip(j as int) =~= Seq::<GForm>::empty());
        }
        None
    }
}

/// The first form whose action holds the submission token.
pub fn pick_do_form(forms: Vec<Form>) -> (r: Option<Form>)
    ensures
        (match r {
            Some(f) => Some(f@),
            None => None,
        }) == spec_pick_do_form(forms_view(forms@)),
{
    let ghost fs = forms_view(forms@);
    let n = forms.len();
    let mut j: usize = 0;
    let mut hit: bool = false;
    proof {
        assert(fs.skip(0) =~= fs);
    }
    while j < n && !hit
        invariant
            j <= n,
            n == forms@.len(),
            fs == forms_view(forms@),
            hit ==> j < n && spec_pick_do_form(fs) == Some(fs[j as int]),
            !hit ==> spec_pick_do_form(fs) == spec_pick_do_form(fs.skip(j as int)),
        decreases n - j + (if hit { 0int } else { 1int }),
    {
        let ghost rest = fs.skip(j as int);
        proof {
            assert(rest[0] == forms@[j as int]@);
            assert(rest.skip(1) =~= fs.skip(j + 1));
        }
        if form_action_has(&forms[j], "/do") {
            hit = true;
        } else {
            j = j + 1;
        }
    }
    if hit {
        let mut forms = forms;
        let f = forms.remove(j);
        Some(f)
    } else {
        proof {
            assert(fs.skip(j as int) =~= Seq::<GForm>::empty());
        }
        None
    }
}

/// The first form whose action holds the renewal token and not the
/// plan-change one.
pub fn pick_extend_form(forms: Vec<Form>) -> (r: Option<Form>)
    ensures
        (match r {
            Some(f) => Some(f@),
            None => None,
        }) == spec_pick_extend_form(forms_view(forms@)),
{
    let ghost fs = forms_view(forms@);
    let n = forms.len();
    let mut j: usize = 0;
    let mut hit: bool = false;
    proof {
        assert(fs.skip(0) =~= fs);
    }
    while j < n && !hit
        invariant
            j <= n,
            n == forms@.len(),
            fs == forms_view(forms@),
            hit ==> j < n && spec_pick_extend_form(fs) == Some(fs[j as int]),
            !hit ==> spec_pick_extend_form(fs) == spec_pick_extend_form(fs.skip(j as int)),
        decreases n - j + (if hit { 0int } else { 1int }),
    {
        let ghost rest = fs.skip(j as int);
        proof {
            assert(rest[0] == forms@[j as int]@);
            assert(rest.skip(1) =~= fs.skip(j + 1));
        }
        if form_action_has(&forms[j], "extend") && !form_action_has(&forms[j], "change") {
            hit = true;
        } else {
            j = j + 1;
        }
    }
    if hit {
        let mut forms = forms;
        let f = forms.remove(j);
        Some(f)
    } else {
        proof {
            assert(fs.skip(j as int) =~= Seq::<GForm>::empty());
        }
        None
    }
}

// ---------------------------------------------------------------------------
// Field classification
// ---------------------------------------------------------------------------

/// How a field takes part in a login submission.
#[derive(Debug, PartialEq, Eq, Structural)]
pub enum FieldType {
    Other,
    Id,
    Password,
}

/// A lower-cased field name that suggests a secret.
pub open spec fn has_secret_word(n: Seq<char>) -> bool {
    spec_contains(n, "pass"@) || spec_contains(n, "password"@) || spec_contains(n, "pwd"@)
}

/// A lower-cased field name that suggests an account identifier.
pub open spec fn has_id_word(n: Seq<char>) -> bool {
    spec_contains(n, "user"@) || spec_contains(n, "userid"@) || spec_contains(n, "username"@)
        || spec_contains(n, "id"@) || spec_contains(n, "login"@) || spec_contains(n, "email"@)
        || spec_contains(n, "mail"@)
}

/// The classification rules, in order: a hidden field is never touched; a
/// password type or a secret-suggesting name makes a secret; an
/// identifier-suggesting name makes an identifier; anything else is left as
/// it is.
pub open spec fn spec_classify(f: GField) -> FieldType {
    if f.ftype == "hidden"@ {
        FieldType::Other
    } else if has_secret_word(lower_seq(f.name)) || f.ftype == "password"@ {
        FieldType::Password
    } else if has_id_word(lower_seq(f.name)) {
        FieldType::Id
    } else {
        FieldType::Other
    }
}

/// Classify one field for login submission.
pub fn classify_field(field: &Field) -> (r: FieldType)
    ensures
        r == spec_classify(field@),
{
    let t = to_chars(field.ftype.as_str());
    if vec_eq_str(&t, "hidden") {
        return FieldType::Other;
    }
    let name = lower_vec(&to_chars(field.name.as_str()));
    if contains_str(&name, "pass") || contains_str(&name, "password") || contains_str(
        &name,
        "pwd",
    ) || vec_eq_str(&t, "password") {
        return FieldType::Password;
    }
    if contains_str(&name, "user") || contains_str(&name, "userid") || contains_str(
        &name,
        "username",
    ) || contains_str(&name, "id") || contains_str(&name, "login") || contains_str(
        &name,
        "email",
    ) || contains_str(&name, "mail") {
        return FieldType::Id;
    }
    FieldType::Other
}

/// A field whose type is `hidden` is never filled, whatever its name.
pub proof fn lemma_classify_hidden(f: GField)
    requires
        f.ftype == "hidden"@,
    ensures
        spec_classify(f) == FieldType::Other,
{
}

/// A field whose type is `password` always takes the secret.
pub proof fn lemma_classify_password_type(f: GField)
    requires
        f.ftype == "password"@,
    ensures
        spec_classify(f) == FieldType::Password,
{
    reveal_strlit("password");
    reveal_strlit("hidden");
    assert("password"@.len() == 8);
    assert("hidden"@.len() == 6);
    assert(f.ftype != "hidden"@);
}

// ---------------------------------------------------------------------------
// Form extraction counts its elements exactly
// ---------------------------------------------------------------------------

/// How many tokens from `i` on open a `form` element.
pub open spec fn count_form_opens(ts: Seq<GTok>, i: int) -> int
    decreases ts.len() - i,
    when 0 <= i <= ts.len()
{
    if i >= ts.len() {
        0
    } else {
        let rest = count_form_opens(ts, i + 1);
        if ts[i] matches GTok::Open(t) && t.name == "form"@ {
            1 + rest
        } else {
            rest
        }
    }
}

proof fn lemma_form_end_count(ts: Seq<GTok>, i: int)
    requires
        0 <= i <= ts.len(),
    ensures
        count_form_opens(ts, i) == count_form_opens(ts, spec_form_end(ts, i)),
    decreases ts.len() - i,
{
    if i < ts.len() && !((ts[i] matches GTok::Close(n) && n == "form"@) || (
    ts[i] matches GTok::Open(t) && t.name == "form"@)) {
        lemma_form_end_count(ts, i + 1);
    }
}

/// A page with `n` form elements yields exactly `n` form records, in their
/// document order.
pub proof fn lemma_form_count(ts: Seq<GTok>, i: int, base: Option<Seq<char>>)
    requires
        0 <= i <= ts.len(),
    ensures
        spec_forms_from(ts, i, base).len() == count_form_opens(ts, i),
    decreases ts.len() - i,
{
    if i < ts.len() {
        if ts[i] matches GTok::Open(t) && t.name == "form"@ {
            let e = spec_form_end(ts, i + 1);
            lemma_spec_form_end(ts, i + 1);
            lemma_form_end_count(ts, i + 1);
            if e < ts.len() && (ts[e] matches GTok::Close(n)) {
                lemma_form_count(ts, e + 1, base);
            } else {
                lemma_form_count(ts, e, base);
            }
        } else {
            lemma_form_count(ts, i + 1, base);
        }
    }
}

/// Extraction of a whole page yields one record per `form` element.
pub proof fn lemma_extract_forms_count(h: Seq<char>, base: Option<Seq<char>>)
    ensures
        spec_extract_forms(h, base).len() == count_form_opens(spec_tokens(h), 0),
{
    lemma_form_count(spec_tokens(h), 0, base);
}

/// How many tokens in `ts[i..e]` are field elements carrying a name.
pub open spec fn count_named_fields(ts: Seq<GTok>, i: int, e: int) -> int
    decreases e - i,
    when 0 <= i <= e <= ts.len()
{
    if i >= e {
        0
    } else {
        let rest = count_named_fields(ts, i + 1, e);
        if ts[i] matches GTok::Open(t) && is_field_elem(t.name) && attr_of(t.attrs, "name"@)
            is Some {
            1 + rest
        } else {
            rest
        }
    }
}

/// A form's fields are exactly its named field elements: one lacking a
/// `name` attribute contributes nothing.
pub proof fn lemma_fields_named(ts: Seq<GTok>, i: int, e: int)
    requires
        0 <= i <= e <= ts.len(),
    ensures
        spec_fields(ts, i, e).len() == count_named_fields(ts, i, e),
    decreases e - i,
{
    if i < e {
        lemma_fields_named(ts, i + 1, e);
    }
}

} // verus!
