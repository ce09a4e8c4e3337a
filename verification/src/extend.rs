//! The renewal flow: picking the renewal form, reading the submission's
//! outcome, detecting a captcha challenge, and submitting a solved captcha.
use vstd::prelude::*;
use vstd::string::*;

use crate::form::extract_forms;
use crate::form::pick_do_form;
use crate::form::pick_extend_form;
use crate::form::spec_extract_forms;
use crate::form::spec_pick_do_form;
use crate::form::spec_pick_extend_form;
use crate::form::Form;
use crate::form::GField;
use crate::form::GForm;
use crate::html::find_sub;
use crate::html::find_sub_exec;
use crate::page::get_captcha_image;
use crate::page::get_cloudflare_challenge;
use crate::page::get_message;
use crate::page::spec_captcha_image;
use crate::page::spec_challenge_key;
use crate::page::spec_message;
use crate::params::spec_get;
use crate::params::spec_set;
use crate::params::Params;
use crate::text::chars_to_string;
use crate::text::contains_str;
use crate::text::copy_range;
use crate::text::spec_contains;
use crate::text::to_chars;

verus! {

/// The renewal page, taking the server's identifier as a query parameter.
pub const EXTEND_URL: &'static str =
    "https://secure.xserver.ne.jp/xapanel/xvps/server/freevps/extend/index";

/// Why a renewal step could not run.
#[derive(Debug, Clone, PartialEq, Eq)]
pub enum ExtendError {
    RequestError(String),
    ParseError(&'static str),
}

/// A captcha challenge: the form to answer, the inline image and challenge key
/// found beside it, and the page's URL.
#[derive(Debug, Clone, PartialEq, Eq)]
pub struct Captcha {
    pub form: Form,
    pub image: Option<String>,
    pub cloudflare: Option<String>,
    pub url: String,
}

/// Where a renewal submission ended.
#[derive(Debug)]
pub enum ExtendResponse {
    Success(String),
    Failure(String),
    CaptchaRequired(Captcha),
}

/// Where a captcha submission ended.
#[derive(Debug, Clone, PartialEq, Eq)]
pub enum CaptchaResponse {
    Success(String),
    Failure(String),
}

// ---------------------------------------------------------------------------
// The captcha's artifacts
// ---------------------------------------------------------------------------

/// Where the base64 payload of a data URL starts: right after the first
/// `;base64,`.
pub open spec fn spec_base64_payload(img: Seq<char>) -> Option<Seq<char>> {
    let p = find_sub(img, ";base64,"@, 0);
    if p < img.len() {
        Some(img.subrange(p + 8, img.len() as int))
    } else {
        None
    }
}

/// The media type named by a data URL: what stands before the first `;`,
/// without the `data:` scheme prefix.
pub open spec fn spec_mime_of(img: Seq<char>) -> Option<Seq<char>> {
    let p = crate::html::scan_char(img, 0, ';');
    if p == img.len() {
        None
    } else {
        let head = img.subrange(0, p);
        if crate::text::spec_starts_with(head, "data:"@) {
            Some(head.subrange(5, head.len() as int))
        } else {
            Some(head)
        }
    }
}

impl Captcha {
    /// Whether an inline image was found beside the captcha form.
    pub fn has_image(&self) -> (r: bool)
        ensures
            r == (self.image is Some),
    {
        match &self.image {
            Some(_) => true,
            None => false,
        }
    }

    /// The base64 payload of the inline image, if the image is a well-formed
    /// data URL.
    pub fn base64_image(&self) -> (r: Option<String>)
        ensures
            (match r {
                Some(v) => Some(v@),
                None => None,
            }) == (match self.image {
                Some(img) => spec_base64_payload(img@),
                None => None,
            }),
    {
        let img = match &self.image {
            Some(img) => img,
            None => {
                return None;
            },
        };
        let cs = to_chars(img.as_str());
        let pat = to_chars(";base64,");
        proof {
            reveal_strlit(";base64,");
        }
        let p = find_sub_exec(&cs, &pat, 0);
        if p < cs.len() {
            proof {
                crate::html::lemma_find_sub_match(cs@, pat@, 0);
            }
            Some(chars_to_string(&copy_range(&cs, p + 8, cs.len())))
        } else {
            None
        }
    }

    /// The media type of the inline image, if it names one.
    pub fn mime_type(&self) -> (r: Option<String>)
        ensures
            (match r {
                Some(v) => Some(v@),
                None => None,
            }) == (match self.image {
                Some(img) => spec_mime_of(img@),
                None => None,
            }),
    {
        let img = match &self.image {
            Some(img) => img,
            None => {
                return None;
            },
        };
        let cs = to_chars(img.as_str());
        let p = crate::html::scan_char_exec(&cs, 0, ';');
        if p == cs.len() {
            return None;
        }
        let head = copy_range(&cs, 0, p);
        if crate::text::starts_with_chars(&head, "data:") {
            proof {
                reveal_strlit("data:");
            }
            Some(chars_to_string(&copy_range(&head, 5, head.len())))
        } else {
            Some(chars_to_string(&head))
        }
    }

    /// The challenge key found beside the captcha form, if any.
    pub fn cloudflare_challenge(&self) -> (r: Option<&String>)
        ensures
            (match r {
                Some(v) => Some(v@),
                None => None,
            }) == (match self.cloudflare {
                Some(c) => Some(c@),
                None => None::<Seq<char>>,
            }),
    {
        match &self.cloudflare {
            Some(c) => Some(c),
            None => None,
        }
    }
}

// ---------------------------------------------------------------------------
// Picking the renewal form
// ---------------------------------------------------------------------------

/// The renewal form of the renewal page: the first form whose action holds
/// the renewal token and not the plan-change one.
pub fn find_extend_form(final_url: &str, body: &str) -> (r: Result<Form, ExtendError>)
    ensures
        (match spec_pick_extend_form(spec_extract_forms(body@, Some(final_url@))) {
            Some(f) => r matches Ok(g) && g@ == f,
            None => r matches Err(ExtendError::ParseError(m)) && m@
                == "No valid extend form found"@,
        }),
{
    let forms = extract_forms(body, Some(final_url));
    match pick_extend_form(forms) {
        Some(f) => Ok(f),
        None => Err(ExtendError::ParseError("No valid extend form found")),
    }
}

// ---------------------------------------------------------------------------
// Submission parameters
// ---------------------------------------------------------------------------

/// The parameters a plain form submission sends: every field's value, an
/// absent value sending the empty string, later duplicates overwriting
/// earlier ones.
pub open spec fn spec_all_params_from(
    ps: Seq<(Seq<char>, Seq<char>)>,
    fields: Seq<GField>,
    i: int,
) -> Seq<(Seq<char>, Seq<char>)>
    decreases fields.len() - i,
    when 0 <= i <= fields.len()
{
    if i >= fields.len() {
        ps
    } else {
        let v = (match fields[i].value {
            Some(v) => v,
            None => Seq::empty(),
        });
        spec_all_params_from(spec_set(ps, fields[i].name, v), fields, i + 1)
    }
}

pub open spec fn spec_all_params(f: GForm) -> Seq<(Seq<char>, Seq<char>)> {
    spec_all_params_from(Seq::empty(), f.fields, 0)
}

/// Copy a form's field values into a submission.
pub fn build_all_params(form: &Form) -> (r: Params)
    ensures
        r@ == spec_all_params(form@),
{
    let ghost fields = form@.fields;
    let mut ps = Params::new();
    let mut i: usize = 0;
    while i < form.fields.len()
        invariant
            i <= form.fields@.len(),
            fields == form@.fields,
            fields.len() == form.fields@.len(),
            spec_all_params_from(ps@, fields, i as int) == spec_all_params(form@),
        decreases form.fields.len() - i,
    {
        proof {
            assert(fields[i as int] == form.fields@[i as int]@);
        }
        let field = &form.fields[i];
        let v: String = match &field.value {
            Some(v) => v.clone(),
            None => String::new(),
        };
        ps.set(field.name.clone(), v);
        i = i + 1;
    }
    ps
}

// ---------------------------------------------------------------------------
// Reading a renewal submission's outcome
// ---------------------------------------------------------------------------

/// A phrase that says the renewal is not yet available.
pub open spec fn has_unavailable_phrase(t: Seq<char>) -> bool {
    spec_contains(t, "以降にお試し"@) || spec_contains(t, "継続される場合は"@)
        || spec_contains(t, "利用期限の1日前"@)
}

/// A phrase that says an operation went through.
pub open spec fn has_success_phrase(t: Seq<char>) -> bool {
    spec_contains(t, "完了しました"@) || spec_contains(t, "成功しました"@)
}

/// The phrase that marks an image-captcha step.
pub open spec fn has_captcha_marker(t: Seq<char>) -> bool {
    spec_contains(t, "画像認証"@)
}

/// How a renewal response classifies, in strict priority order: an
/// unavailable phrase beats a success phrase, which beats the captcha
/// marker; anything else is unrecognised.
pub enum ExtendClass {
    Unavailable,
    Done,
    Gated,
    Unrecognised,
}

pub open spec fn spec_extend_class(t: Seq<char>) -> ExtendClass {
    if has_unavailable_phrase(t) {
        ExtendClass::Unavailable
    } else if has_success_phrase(t) {
        ExtendClass::Done
    } else if has_captcha_marker(t) {
        ExtendClass::Gated
    } else {
        ExtendClass::Unrecognised
    }
}

/// The unavailable phrases are checked before the success phrases: a page
/// holding both reports a failure.
pub proof fn lemma_unavailable_beats_success(t: Seq<char>)
    requires
        has_unavailable_phrase(t),
    ensures
        spec_extend_class(t) == ExtendClass::Unavailable,
{
}

/// The message reported for a page, with a fallback.
pub open spec fn spec_message_or(h: Seq<char>, d: Seq<char>) -> Seq<char> {
    match spec_message(h) {
        Some(m) => m,
        None => d,
    }
}

fn message_or(body: &str, fallback: &str) -> (r: String)
    ensures
        r@ == spec_message_or(body@, fallback@),
{
    match get_message(body) {
        Some(m) => m,
        None => String::from_str(fallback),
    }
}

/// Map a renewal submission's response page to its outcome.  An unavailable
/// phrase reports failure and a success phrase reports success, each with
/// the page's message; the captcha marker yields the captcha challenge, built
/// from the page's submission form, inline image and challenge key; a page
/// with none of these, or with the marker but no submission form, is
/// unrecognised.
pub fn classify_extend_response(final_url: &str, body: &str) -> (r: Result<
    ExtendResponse,
    ExtendError,
>)
    ensures
        spec_extend_class(body@) == ExtendClass::Unavailable ==> (r matches Ok(
        ExtendResponse::Failure(m)) && m@ == spec_message_or(body@, "Extend unavailable"@)),
        spec_extend_class(body@) == ExtendClass::Done ==> (r matches Ok(
        ExtendResponse::Success(m)) && m@ == spec_message_or(body@, "Extend successful"@)),
        spec_extend_class(body@) == ExtendClass::Gated ==> (match spec_pick_do_form(
            spec_extract_forms(body@, Some(final_url@)),
        ) {
            Some(f) => r matches Ok(ExtendResponse::CaptchaRequired(c)) && c.form@ == f && (
            match c.image {
                Some(v) => Some(v@),
                None => None,
            }) == spec_captcha_image(body@) && (match c.cloudflare {
                Some(v) => Some(v@),
                None => None,
            }) == spec_challenge_key(body@) && c.url@ == final_url@,
            None => r matches Err(ExtendError::ParseError(m)) && m@
                == "Captcha required but no image found"@,
        }),
        spec_extend_class(body@) == ExtendClass::Unrecognised ==> (r matches Err(
        ExtendError::ParseError(m)) && m@ == "Extend failed"@),
{
    let text = to_chars(body);
    if contains_str(&text, "以降にお試し") || contains_str(&text, "継続される場合は")
        || contains_str(&text, "利用期限の1日前") {
        return Ok(ExtendResponse::Failure(message_or(body, "Extend unavailable")));
    }
    if contains_str(&text, "完了しました") || contains_str(&text, "成功しました") {
        return Ok(ExtendResponse::Success(message_or(body, "Extend successful")));
    }
    if contains_str(&text, "画像認証") {
        let forms = extract_forms(body, Some(final_url));
        match pick_do_form(forms) {
            Some(f) => {
                let image = get_captcha_image(body);
                let cloudflare = get_cloudflare_challenge(body);
                return Ok(
                    ExtendResponse::CaptchaRequired(
                        Captcha {
                            form: f,
                            image,
                            cloudflare,
                            url: String::from_str(final_url),
                        },
                    ),
                );
            },
            None => {
                return Err(ExtendError::ParseError("Captcha required but no image found"));
            },
        }
    }
    Err(ExtendError::ParseError("Extend failed"))
}

// ---------------------------------------------------------------------------
// Writing a solved captcha into the submission
// ---------------------------------------------------------------------------

/// The decimal digits of `n`.
pub open spec fn spec_u32_digits(n: nat) -> Seq<char>
    decreases n,
{
    let d = ((n % 10) + ('0' as nat)) as u8 as char;
    if n < 10 {
        seq![d]
    } else {
        spec_u32_digits(n / 10) + seq![d]
    }
}

/// The decimal spelling of `n`, with a sign when negative.
pub open spec fn spec_i32_str(n: int) -> Seq<char> {
    if n >= 0 {
        spec_u32_digits(n as nat)
    } else {
        seq!['-'] + spec_u32_digits((-n) as nat)
    }
}

fn u32_digits(n: u32) -> (r: Vec<char>)
    ensures
        r@ == spec_u32_digits(n as nat),
    decreases n,
{
    let d: char = ((n % 10) as u8 + ('0' as u8)) as char;
    if n < 10 {
        let mut v: Vec<char> = Vec::new();
        v.push(d);
        proof {
            assert(v@ =~= spec_u32_digits(n as nat));
        }
        v
    } else {
        let mut v = u32_digits(n / 10);
        v.push(d);
        proof {
            assert(v@ =~= spec_u32_digits(n as nat));
        }
        v
    }
}

/// Spell a solver code in decimal.
pub fn i32_to_string(n: i32) -> (r: String)
    ensures
        r@ == spec_i32_str(n as int),
{
    if n >= 0 {
        chars_to_string(&u32_digits(n as u32))
    } else {
        let m: u32 = ((-(n as i64)) as u32);
        let mut v: Vec<char> = Vec::new();
        v.push('-');
        let mut rest = u32_digits(m);
        v.append(&mut rest);
        proof {
            assert(v@ =~= spec_i32_str(n as int));
        }
        chars_to_string(&v)
    }
}

/// Position of the first parameter whose name holds `code` or `auth`, else
/// the parameter count.
pub open spec fn spec_code_key_at(ps: Seq<(Seq<char>, Seq<char>)>, i: int) -> int
    decreases ps.len() - i,
    when 0 <= i <= ps.len()
{
    if i >= ps.len() {
        ps.len() as int
    } else if spec_contains(ps[i].0, "code"@) || spec_contains(ps[i].0, "auth"@) {
        i
    } else {
        spec_code_key_at(ps, i + 1)
    }
}

proof fn lemma_spec_code_key_at(ps: Seq<(Seq<char>, Seq<char>)>, i: int)
    requires
        0 <= i <= ps.len(),
    ensures
        i <= spec_code_key_at(ps, i) <= ps.len(),
    decreases ps.len() - i,
{
    if i < ps.len() && !(spec_contains(ps[i].0, "code"@) || spec_contains(ps[i].0, "auth"@)) {
        lemma_spec_code_key_at(ps, i + 1);
    }
}

/// Where a numeric code lands in the captcha submission: under `auth_code`
/// when that name is present, else under the first name holding `code` or
/// `auth`; with no such name the submission cannot be built.
pub open spec fn spec_with_code(ps: Seq<(Seq<char>, Seq<char>)>, code: Seq<char>) -> Option<
    Seq<(Seq<char>, Seq<char>)>,
> {
    if spec_get(ps, "auth_code"@) is Some {
        Some(spec_set(ps, "auth_code"@, code))
    } else {
        let j = spec_code_key_at(ps, 0);
        if j < ps.len() {
            Some(ps.update(j, (ps[j].0, code)))
        } else {
            None
        }
    }
}

/// The full captcha submission: the challenge form's values; a numeric code, if
/// one was solved, written into its code field; a challenge token, if one
/// was solved, under the challenge response name.
pub open spec fn spec_captcha_params(
    f: GForm,
    code: Option<int>,
    token: Option<Seq<char>>,
) -> Option<Seq<(Seq<char>, Seq<char>)>> {
    let base = spec_all_params(f);
    let with_code = (match code {
        Some(n) => spec_with_code(base, spec_i32_str(n)),
        None => Some(base),
    });
    match with_code {
        Some(ps) => Some(
            match token {
                Some(t) => spec_set(ps, "cf-turnstile-response"@, t),
                None => ps,
            },
        ),
        None => None,
    }
}

/// Build the captcha submission for the challenge form.
pub fn build_captcha_params(captcha: &Captcha, code: Option<i32>, turnstile: Option<String>)
    -> (r: Result<Params, ExtendError>)
    ensures
        (match spec_captcha_params(
            captcha.form@,
            match code {
                Some(n) => Some(n as int),
                None => None,
            },
            match turnstile {
                Some(t) => Some(t@),
                None => None,
            },
        ) {
            Some(ps) => r matches Ok(p) && p@ == ps,
            None => r matches Err(ExtendError::ParseError(m)) && m@
                == "Captcha code field not found in form"@,
        }),
{
    let mut ps = build_all_params(&captcha.form);
    match code {
        Some(n) => {
            let code_str = i32_to_string(n);
            let has_auth_code = match ps.get("auth_code") {
                Some(_) => true,
                None => false,
            };
            if has_auth_code {
                ps.set(String::from_str("auth_code"), code_str);
            } else {
                let ghost base = ps@;
                let mut j: usize = 0;
                let n_pairs = ps.len();
                let mut hit: bool = false;
                while j < n_pairs && !hit
                    invariant
                        j <= n_pairs,
                        n_pairs == ps@.len(),
                        ps@ == base,
                        hit ==> j < n_pairs && spec_code_key_at(base, 0) == j as int,
                        !hit ==> spec_code_key_at(base, 0) == spec_code_key_at(
                            base,
                            j as int,
                        ),
                    decreases n_pairs - j + (if hit {
                        0int
                    } else {
                        1int
                    }),
                {
                    let name = to_chars(ps.pairs[j].0.as_str());
                    if contains_str(&name, "code") || contains_str(&name, "auth") {
                        hit = true;
                    } else {
                        j = j + 1;
                    }
                }
                if !hit {
                    proof {
                        lemma_spec_code_key_at(base, 0);
                    }
                    return Err(ExtendError::ParseError("Captcha code field not found in form"));
                }
                let old_key = ps.pairs[j].0.clone();
                let ghost before = ps@;
                ps.pairs.set(j, (old_key, code_str));
                proof {
                    assert(ps@ =~= before.update(j as int, (before[j as int].0, code_str@)));
                }
            }
        },
        None => {},
    }
    match turnstile {
        Some(t) => {
            ps.set(String::from_str("cf-turnstile-response"), t);
        },
        None => {},
    }
    Ok(ps)
}

// ---------------------------------------------------------------------------
// Reading a captcha submission's outcome
// ---------------------------------------------------------------------------

/// How a captcha response classifies, in strict priority order: a rejected
/// code first, then the unavailable phrases, then the exact completion
/// notice, then the general success phrases.
pub enum CaptchaClass {
    Rejected,
    Unavailable,
    Completed,
    Done,
    Unrecognised,
}

pub open spec fn spec_captcha_class(t: Seq<char>) -> CaptchaClass {
    if spec_contains(t, "入力された認証コードが正しくありません"@) {
        CaptchaClass::Rejected
    } else if has_unavailable_phrase(t) {
        CaptchaClass::Unavailable
    } else if spec_contains(t, "利用期限の更新手続きが完了しました"@) {
        CaptchaClass::Completed
    } else if has_success_phrase(t) {
        CaptchaClass::Done
    } else {
        CaptchaClass::Unrecognised
    }
}

/// Map a captcha submission's response page to its outcome.
pub fn classify_captcha_response(body: &str) -> (r: Result<CaptchaResponse, ExtendError>)
    ensures
        spec_captcha_class(body@) == CaptchaClass::Rejected ==> (r matches Err(
        ExtendError::ParseError(m)) && m@ == "Invalid captcha code"@),
        spec_captcha_class(body@) == CaptchaClass::Unavailable ==> (r matches Ok(
        CaptchaResponse::Failure(m)) && m@ == spec_message_or(body@, "Extend unavailable"@)),
        spec_captcha_class(body@) == CaptchaClass::Completed ==> (r matches Ok(
        CaptchaResponse::Success(m)) && m@
            == "利用期限の更新手続きが完了しました"@),
        spec_captcha_class(body@) == CaptchaClass::Done ==> (r matches Ok(
        CaptchaResponse::Success(m)) && m@ == spec_message_or(body@, "Extend successful"@)),
        spec_captcha_class(body@) == CaptchaClass::Unrecognised ==> (r matches Err(
        ExtendError::ParseError(m)) && m@ == "Captcha submission failed"@),
{
    let text = to_chars(body);
    if contains_str(&text, "入力された認証コードが正しくありません") {
        return Err(ExtendError::ParseError("Invalid captcha code"));
    }
    if contains_str(&text, "以降にお試し") || contains_str(&text, "継続される場合は")
        || contains_str(&text, "利用期限の1日前") {
        return Ok(CaptchaResponse::Failure(message_or(body, "Extend unavailable")));
    }
    if contains_str(&text, "利用期限の更新手続きが完了しました") {
        return Ok(
            CaptchaResponse::Success(
                String::from_str("利用期限の更新手続きが完了しました"),
            ),
        );
    }
    if contains_str(&text, "完了しました") || contains_str(&text, "成功しました") {
        return Ok(CaptchaResponse::Success(message_or(body, "Extend successful")));
    }
    Err(ExtendError::ParseError("Captcha submission failed"))
}

} // verus!
