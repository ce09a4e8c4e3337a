//! Queries over whole panel pages: the first section's message text, the
//! masked mail address, an embedded captcha image and a challenge key.
use vstd::prelude::*;
use vstd::string::*;

use crate::html::attr_of;
use crate::html::attr_of_exec;
use crate::html::spec_tokens;
use crate::html::tokenize;
use crate::html::toks_view;
use crate::html::GTok;
use crate::html::Tok;
use crate::text::chars_to_string;
use crate::text::contains_str;
use crate::text::lemma_join_empty;
use crate::text::lemma_words_nonempty;
use crate::text::lemma_join_append;
use crate::text::collapse_ws_exec;
use crate::text::spec_contains;
use crate::text::spec_join_words;
use crate::text::spec_trim;
use crate::text::spec_words;
use crate::text::to_chars;
use crate::text::trim_exec;
use crate::text::vec_eq_str;
use crate::text::words_vec;

verus! {

// ---------------------------------------------------------------------------
// Finding elements in a token run
// ---------------------------------------------------------------------------

/// First token at or after `i` that opens an element called `name`, else the
/// token count.
pub open spec fn find_open_named(ts: Seq<GTok>, i: int, name: Seq<char>) -> int
    decreases ts.len() - i,
    when 0 <= i <= ts.len()
{
    if i >= ts.len() {
        ts.len() as int
    } else if ts[i] matches GTok::Open(t) && t.name == name {
        i
    } else {
        find_open_named(ts, i + 1, name)
    }
}

pub proof fn lemma_find_open_named(ts: Seq<GTok>, i: int, name: Seq<char>)
    requires
        0 <= i <= ts.len(),
    ensures
        i <= find_open_named(ts, i, name) <= ts.len(),
    decreases ts.len() - i,
{
    if i < ts.len() && !(ts[i] matches GTok::Open(t) && t.name == name) {
        lemma_find_open_named(ts, i + 1, name);
    }
}

pub fn find_open_named_exec(toks: &Vec<Tok>, i: usize, name: &str) -> (r: usize)
    requires
        i <= toks@.len(),
    ensures
        r as int == find_open_named(toks_view(toks@), i as int, name@),
        i <= r <= toks@.len(),
{
    let ghost ts = toks_view(toks@);
    let mut j: usize = i;
    while j < toks.len()
        invariant
            i <= j <= toks@.len(),
            ts == toks_view(toks@),
            find_open_named(ts, i as int, name@) == find_open_named(ts, j as int, name@),
        decreases toks@.len() - j,
    {
        proof {
            assert(ts[j as int] == toks@[j as int]@);
        }
        let hit = match &toks[j] {
            Tok::Open(t) => vec_eq_str(&t.name, name),
            _ => false,
        };
        if hit {
            return j;
        }
        j = j + 1;
    }
    j
}

/// First token at or after `i` that closes an element called `name`, else
/// the token count.
pub open spec fn find_close_named(ts: Seq<GTok>, i: int, name: Seq<char>) -> int
    decreases ts.len() - i,
    when 0 <= i <= ts.len()
{
    if i >= ts.len() {
        ts.len() as int
    } else if ts[i] matches GTok::Close(n) && n == name {
        i
    } else {
        find_close_named(ts, i + 1, name)
    }
}

pub proof fn lemma_find_close_named(ts: Seq<GTok>, i: int, name: Seq<char>)
    requires
        0 <= i <= ts.len(),
    ensures
        i <= find_close_named(ts, i, name) <= ts.len(),
    decreases ts.len() - i,
{
    if i < ts.len() && !(ts[i] matches GTok::Close(n) && n == name) {
        lemma_find_close_named(ts, i + 1, name);
    }
}

pub fn find_close_named_exec(toks: &Vec<Tok>, i: usize, name: &str) -> (r: usize)
    requires
        i <= toks@.len(),
    ensures
        r as int == find_close_named(toks_view(toks@), i as int, name@),
        i <= r <= toks@.len(),
{
    let ghost ts = toks_view(toks@);
    let mut j: usize = i;
    while j < toks.len()
        invariant
            i <= j <= toks@.len(),
            ts == toks_view(toks@),
            find_close_named(ts, i as int, name@) == find_close_named(ts, j as int, name@),
        decreases toks@.len() - j,
    {
        proof {
            assert(ts[j as int] == toks@[j as int]@);
        }
        let hit = match &toks[j] {
            Tok::Close(n) => vec_eq_str(n, name),
            _ => false,
        };
        if hit {
            return j;
        }
        j = j + 1;
    }
    j
}

/// First token at or after `i` that is not a text run, else the token count.
pub open spec fn next_non_text(ts: Seq<GTok>, i: int) -> int
    decreases ts.len() - i,
    when 0 <= i <= ts.len()
{
    if i >= ts.len() {
        ts.len() as int
    } else if ts[i] matches GTok::Text(b) {
        next_non_text(ts, i + 1)
    } else {
        i
    }
}

pub proof fn lemma_next_non_text(ts: Seq<GTok>, i: int)
    requires
        0 <= i <= ts.len(),
    ensures
        i <= next_non_text(ts, i) <= ts.len(),
    decreases ts.len() - i,
{
    if i < ts.len() && (ts[i] matches GTok::Text(b)) {
        lemma_next_non_text(ts, i + 1);
    }
}

pub fn next_non_text_exec(toks: &Vec<Tok>, i: usize) -> (r: usize)
    requires
        i <= toks@.len(),
    ensures
        r as int == next_non_text(toks_view(toks@), i as int),
        i <= r <= toks@.len(),
{
    let ghost ts = toks_view(toks@);
    let mut j: usize = i;
    while j < toks.len()
        invariant
            i <= j <= toks@.len(),
            ts == toks_view(toks@),
            next_non_text(ts, i as int) == next_non_text(ts, j as int),
        decreases toks@.len() - j,
    {
        proof {
            assert(ts[j as int] == toks@[j as int]@);
        }
        let is_text = match &toks[j] {
            Tok::Text(_) => true,
            _ => false,
        };
        if !is_text {
            return j;
        }
        j = j + 1;
    }
    j
}

// ---------------------------------------------------------------------------
// Text of a region
// ---------------------------------------------------------------------------

/// The words of all text runs in `ts[i..e]`, in order.
pub open spec fn region_words(ts: Seq<GTok>, i: int, e: int) -> Seq<Seq<char>>
    decreases e - i,
    when 0 <= i <= e <= ts.len()
{
    if i >= e {
        Seq::empty()
    } else {
        let rest = region_words(ts, i + 1, e);
        match ts[i] {
            GTok::Text(b) => spec_words(b) + rest,
            _ => rest,
        }
    }
}

/// The flattened, whitespace-collapsed text of `ts[i..e]`.
pub open spec fn region_text(ts: Seq<GTok>, i: int, e: int) -> Seq<char>
    recommends
        0 <= i <= e <= ts.len(),
{
    spec_join_words(region_words(ts, i, e))
}

/// Every word of a region is non-empty.
proof fn lemma_region_words_nonempty(ts: Seq<GTok>, i: int, e: int)
    requires
        0 <= i <= e <= ts.len(),
    ensures
        forall|k: int|
            0 <= k < region_words(ts, i, e).len() ==> #[trigger] region_words(ts, i, e)[k].len()
                >= 1,
    decreases e - i,
{
    if i < e {
        lemma_region_words_nonempty(ts, i + 1, e);
        let ws = region_words(ts, i, e);
        let rest = region_words(ts, i + 1, e);
        match ts[i] {
            GTok::Text(b) => {
                lemma_words_nonempty(b, 0);
                assert forall|k: int| 0 <= k < ws.len() implies #[trigger] ws[k].len() >= 1 by {
                    if k < spec_words(b).len() {
                        assert(ws[k] == spec_words(b)[k]);
                    } else {
                        assert(ws[k] == rest[k - spec_words(b).len()]);
                    }
                }
            },
            _ => {},
        }
    }
}

/// Collect the collapsed text of `ts[i..e]`.
fn region_text_exec(toks: &Vec<Tok>, i: usize, e: usize) -> (r: Vec<char>)
    requires
        i <= e <= toks@.len(),
    ensures
        r@ == region_text(toks_view(toks@), i as int, e as int),
    decreases e - i,
{
    let ghost ts = toks_view(toks@);
    if i >= e {
        let r: Vec<char> = Vec::new();
        proof {
            assert(region_words(ts, i as int, e as int) =~= Seq::<Seq<char>>::empty());
        }
        r
    } else {
        proof {
            assert(ts[i as int] == toks@[i as int]@);
        }
        let here: Option<Vec<char>> = match &toks[i] {
            Tok::Text(b) => Some(collapse_ws_exec(b)),
            _ => None,
        };
        let mut rest = region_text_exec(toks, i + 1, e);
        match here {
            Some(mut c) => {
                let ghost b = (match toks@[i as int] {
                    Tok::Text(bb) => bb@,
                    _ => Seq::empty(),
                });
                proof {
                    lemma_words_nonempty(b, 0);
                    lemma_join_empty(spec_words(b));
                    lemma_region_words_nonempty(ts, i + 1, e as int);
                    lemma_join_empty(region_words(ts, i + 1, e as int));
                    lemma_join_append(spec_words(b), region_words(ts, i + 1, e as int));
                }
                if c.len() == 0 {
                    proof {
                        assert(spec_words(b).len() == 0);
                        assert(spec_words(b) + region_words(ts, i + 1, e as int)
                            =~= region_words(ts, i + 1, e as int));
                    }
                    rest
                } else if rest.len() == 0 {
                    proof {
                        assert(region_words(ts, i + 1, e as int).len() == 0);
                    }
                    c
                } else {
                    c.push(' ');
                    c.append(&mut rest);
                    proof {
                        assert(c@ =~= region_text(ts, i as int, e as int));
                    }
                    c
                }
            },
            None => rest,
        }
    }
}

// ---------------------------------------------------------------------------
// The first section's message
// ---------------------------------------------------------------------------

/// The message of a page: the flattened, whitespace-collapsed text of the
/// first `section` element, when there is one and its text is not empty.
pub open spec fn spec_message(h: Seq<char>) -> Option<Seq<char>> {
    let ts = spec_tokens(h);
    let o = find_open_named(ts, 0, "section"@);
    if o == ts.len() {
        None
    } else {
        let e = find_close_named(ts, o + 1, "section"@);
        let txt = region_text(ts, o + 1, e);
        if txt.len() == 0 {
            None
        } else {
            Some(txt)
        }
    }
}

/// The first `section` element's collapsed text, if any.
pub fn get_message(html: &str) -> (r: Option<String>)
    ensures
        (match r {
            Some(m) => Some(m@),
            None => None,
        }) == spec_message(html@),
{
    let cs = to_chars(html);
    let toks = tokenize(&cs);
    let o = find_open_named_exec(&toks, 0, "section");
    if o == toks.len() {
        return None;
    }
    proof {
        lemma_find_open_named(toks_view(toks@), 0, "section"@);
    }
    let e = find_close_named_exec(&toks, o + 1, "section");
    let txt = region_text_exec(&toks, o + 1, e);
    if txt.len() == 0 {
        None
    } else {
        Some(chars_to_string(&txt))
    }
}

// ---------------------------------------------------------------------------
// The masked mail address
// ---------------------------------------------------------------------------

/// First element at or after `i` whose `id` attribute is `mailaddress`.
pub open spec fn find_mail_elem(ts: Seq<GTok>, i: int) -> int
    decreases ts.len() - i,
    when 0 <= i <= ts.len()
{
    if i >= ts.len() {
        ts.len() as int
    } else if ts[i] matches GTok::Open(t) && attr_of(t.attrs, "id"@) == Some("mailaddress"@) {
        i
    } else {
        find_mail_elem(ts, i + 1)
    }
}

proof fn lemma_find_mail_elem(ts: Seq<GTok>, i: int)
    requires
        0 <= i <= ts.len(),
    ensures
        i <= find_mail_elem(ts, i) <= ts.len(),
    decreases ts.len() - i,
{
    if i < ts.len() && !(ts[i] matches GTok::Open(t) && attr_of(t.attrs, "id"@) == Some(
        "mailaddress"@,
    )) {
        lemma_find_mail_elem(ts, i + 1);
    }
}

/// The first text run in `ts[i..e]`, if any.
pub open spec fn first_text(ts: Seq<GTok>, i: int, e: int) -> Option<Seq<char>>
    decreases e - i,
    when 0 <= i <= e <= ts.len()
{
    if i >= e {
        None
    } else {
        match ts[i] {
            GTok::Text(b) => Some(b),
            _ => first_text(ts, i + 1, e),
        }
    }
}

fn first_text_exec(toks: &Vec<Tok>, i: usize, e: usize) -> (r: Option<Vec<char>>)
    requires
        i <= e <= toks@.len(),
    ensures
        (match r {
            Some(b) => Some(b@),
            None => None,
        }) == first_text(toks_view(toks@), i as int, e as int),
    decreases e - i,
{
    let ghost ts = toks_view(toks@);
    if i >= e {
        return None;
    }
    proof {
        assert(ts[i as int] == toks@[i as int]@);
    }
    match &toks[i] {
        Tok::Text(b) => Some(crate::text::copy_range(b, 0, b.len())),
        _ => first_text_exec(toks, i + 1, e),
    }
}

/// The masked destination hint of a two-factor page: the trimmed first text
/// of the element whose `id` is `mailaddress`.
pub open spec fn spec_mailaddress(h: Seq<char>) -> Option<Seq<char>> {
    let ts = spec_tokens(h);
    let j = find_mail_elem(ts, 0);
    if j == ts.len() {
        None
    } else {
        let name = (match ts[j] {
            GTok::Open(t) => t.name,
            _ => Seq::empty(),
        });
        let e = find_close_named(ts, j + 1, name);
        match first_text(ts, j + 1, e) {
            Some(b) => Some(spec_trim(b)),
            None => None,
        }
    }
}

/// The masked mail address shown on a two-factor page, if any.
pub fn get_mailaddress(html: &str) -> (r: Option<String>)
    ensures
        (match r {
            Some(m) => Some(m@),
            None => None,
        }) == spec_mailaddress(html@),
{
    let cs = to_chars(html);
    let toks = tokenize(&cs);
    let ghost ts = toks_view(toks@);
    let mut j: usize = 0;
    while j < toks.len()
        invariant
            j <= toks@.len(),
            ts == toks_view(toks@),
            ts == spec_tokens(html@),
            find_mail_elem(ts, 0) == find_mail_elem(ts, j as int),
        decreases toks@.len() - j,
    {
        proof {
            assert(ts[j as int] == toks@[j as int]@);
        }
        let hit = match &toks[j] {
            Tok::Open(t) => match attr_of_exec(&t.attrs, "id") {
                Some(v) => vec_eq_str(&v, "mailaddress"),
                None => false,
            },
            _ => false,
        };
        if hit {
            proof {
                assert(find_mail_elem(ts, 0) == j as int);
            }
            match &toks[j] {
                Tok::Open(t) => {
                    proof {
                        assert(ts[j as int] == toks@[j as int]@);
                        assert(ts[j as int] == GTok::Open(t@));
                    }
                    let e = find_close_vec_exec(&toks, j + 1, &t.name);
                    let ft = first_text_exec(&toks, j + 1, e);
                    proof {
                        let jm = find_mail_elem(ts, 0);
                        assert(jm == j as int);
                        assert(jm < ts.len());
                        let nm = (match ts[jm] {
                            GTok::Open(tt) => tt.name,
                            _ => Seq::empty(),
                        });
                        assert(nm == t.name@);
                        assert(e as int == find_close_named(ts, jm + 1, nm));
                    }
                    match ft {
                        Some(b) => {
                            proof {
                                assert(first_text(ts, j + 1, e as int) == Some(b@));
                                assert(spec_mailaddress(html@) == Some(spec_trim(b@)));
                            }
                            return Some(chars_to_string(&trim_exec(&b)));
                        },
                        None => {
                            proof {
                                assert(first_text(ts, j + 1, e as int) == None::<Seq<char>>);
                                assert(spec_mailaddress(html@) == None::<Seq<char>>);
                            }
                            return None;
                        },
                    }
                },
                _ => {
                    return None;
                },
            }
        }
        j = j + 1;
    }
    proof {
        assert(find_mail_elem(ts, j as int) == ts.len());
    }
    None
}

// ---------------------------------------------------------------------------
// Captcha artifacts
// ---------------------------------------------------------------------------

/// The `src` of the first image whose source is inline base64 data, from
/// position `i` on.
pub open spec fn find_captcha_image(ts: Seq<GTok>, i: int) -> Option<Seq<char>>
    decreases ts.len() - i,
    when 0 <= i <= ts.len()
{
    if i >= ts.len() {
        None
    } else if ts[i] matches GTok::Open(t) && t.name == "img"@ && (attr_of(t.attrs, "src"@)
        matches Some(src) && spec_contains(src, "base64"@)) {
        attr_of((match ts[i] {
            GTok::Open(t) => t.attrs,
            _ => Seq::empty(),
        }), "src"@)
    } else {
        find_captcha_image(ts, i + 1)
    }
}

/// The embedded base64 image of a captcha page, if any.
pub open spec fn spec_captcha_image(h: Seq<char>) -> Option<Seq<char>> {
    find_captcha_image(spec_tokens(h), 0)
}

/// The `src` of the first `img` element holding inline base64 data.
pub fn get_captcha_image(html: &str) -> (r: Option<String>)
    ensures
        (match r {
            Some(v) => Some(v@),
            None => None,
        }) == spec_captcha_image(html@),
{
    let cs = to_chars(html);
    let toks = tokenize(&cs);
    let ghost ts = toks_view(toks@);
    let mut j: usize = 0;
    while j < toks.len()
        invariant
            j <= toks@.len(),
            ts == toks_view(toks@),
            ts == spec_tokens(html@),
            find_captcha_image(ts, 0) == find_captcha_image(ts, j as int),
        decreases toks@.len() - j,
    {
        proof {
            assert(ts[j as int] == toks@[j as int]@);
        }
        let found: Option<Vec<char>> = match &toks[j] {
            Tok::Open(t) => {
                if vec_eq_str(&t.name, "img") {
                    match attr_of_exec(&t.attrs, "src") {
                        Some(v) => {
                            if contains_str(&v, "base64") {
                                Some(v)
                            } else {
                                None
                            }
                        },
                        None => None,
                    }
                } else {
                    None
                }
            },
            _ => None,
        };
        match found {
            Some(v) => {
                return Some(chars_to_string(&v));
            },
            None => {},
        }
        j = j + 1;
    }
    None
}

// ---------------------------------------------------------------------------
// The challenge container's site key
// ---------------------------------------------------------------------------

/// First `div` at or after `i` whose class list holds `cf-turnstile`.
pub open spec fn find_challenge_div(ts: Seq<GTok>, i: int) -> int
    decreases ts.len() - i,
    when 0 <= i <= ts.len()
{
    if i >= ts.len() {
        ts.len() as int
    } else if ts[i] matches GTok::Open(t) && t.name == "div"@ && (attr_of(t.attrs, "class"@)
        matches Some(cv) && spec_words(cv).contains("cf-turnstile"@)) {
        i
    } else {
        find_challenge_div(ts, i + 1)
    }
}

/// The challenge site key of a captcha page: the `data-sitekey` attribute of
/// the first challenge container, if both exist.
pub open spec fn spec_challenge_key(h: Seq<char>) -> Option<Seq<char>> {
    let ts = spec_tokens(h);
    let j = find_challenge_div(ts, 0);
    if j == ts.len() {
        None
    } else {
        attr_of((match ts[j] {
            GTok::Open(t) => t.attrs,
            _ => Seq::empty(),
        }), "data-sitekey"@)
    }
}

/// Whether a class attribute's word list holds the given token.
fn has_class_token(cv: &Vec<char>, token: &str) -> (r: bool)
    ensures
        r == spec_words(cv@).contains(token@),
{
    let ws = words_vec(cv);
    let ghost sw = spec_words(cv@);
    let mut i: usize = 0;
    while i < ws.len()
        invariant
            i <= ws@.len(),
            sw == spec_words(cv@),
            ws@.map_values(|w: Vec<char>| w@) == sw,
            forall|k: int| 0 <= k < i ==> sw[k] != token@,
        decreases ws.len() - i,
    {
        proof {
            assert(sw[i as int] == ws@[i as int]@);
        }
        if vec_eq_str(&ws[i], token) {
            proof {
                assert(sw.contains(token@));
            }
            return true;
        }
        i = i + 1;
    }
    proof {
        assert(forall|k: int| 0 <= k < sw.len() ==> sw[k] != token@);
        assert(!sw.contains(token@));
    }
    false
}

/// The first challenge container's `data-sitekey`, if any.
pub fn get_cloudflare_challenge(html: &str) -> (r: Option<String>)
    ensures
        (match r {
            Some(v) => Some(v@),
            None => None,
        }) == spec_challenge_key(html@),
{
    let cs = to_chars(html);
    let toks = tokenize(&cs);
    let ghost ts = toks_view(toks@);
    let mut j: usize = 0;
    while j < toks.len()
        invariant
            j <= toks@.len(),
            ts == toks_view(toks@),
            ts == spec_tokens(html@),
            find_challenge_div(ts, 0) == find_challenge_div(ts, j as int),
        decreases toks@.len() - j,
    {
        proof {
            assert(ts[j as int] == toks@[j as int]@);
        }
        let hit = match &toks[j] {
            Tok::Open(t) => {
                if vec_eq_str(&t.name, "div") {
                    match attr_of_exec(&t.attrs, "class") {
                        Some(cv) => has_class_token(&cv, "cf-turnstile"),
                        None => false,
                    }
                } else {
                    false
                }
            },
            _ => false,
        };
        if hit {
            proof {
                assert(find_challenge_div(ts, 0) == j as int);
            }
            match &toks[j] {
                Tok::Open(t) => {
                    match attr_of_exec(&t.attrs, "data-sitekey") {
                        Some(v) => {
                            return Some(chars_to_string(&v));
                        },
                        None => {
                            return None;
                        },
                    }
                },
                _ => {
                    return None;
                },
            }
        }
        j = j + 1;
    }
    None
}

/// As `find_close_named_exec`, for an element name held as characters.
pub fn find_close_vec_exec(toks: &Vec<Tok>, i: usize, name: &Vec<char>) -> (r: usize)
    requires
        i <= toks@.len(),
    ensures
        r as int == find_close_named(toks_view(toks@), i as int, name@),
        i <= r <= toks@.len(),
{
    let ghost ts = toks_view(toks@);
    let mut j: usize = i;
    while j < toks.len()
        invariant
            i <= j <= toks@.len(),
            ts == toks_view(toks@),
            find_close_named(ts, i as int, name@) == find_close_named(ts, j as int, name@),
        decreases toks@.len() - j,
    {
        proof {
            assert(ts[j as int] == toks@[j as int]@);
        }
        let hit = match &toks[j] {
            Tok::Close(n) => crate::text::vec_eq_vec(n, name),
            _ => false,
        };
        if hit {
            return j;
        }
        j = j + 1;
    }
    j
}

} // verus!
