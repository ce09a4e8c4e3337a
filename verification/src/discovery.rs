//! Finding the managed server's identifier on the dashboard page.
//!
//! The dashboard lists the trial plan under a heading; the table that
//! follows it links to the server's pages, and the link's `id` query
//! parameter names the server.
use vstd::prelude::*;
use vstd::string::*;

use crate::html::attr_of;
use crate::html::attr_of_exec;
use crate::html::scan_char;
use crate::html::scan_char_exec;
use crate::html::spec_tokens;
use crate::html::tokenize;
use crate::html::toks_view;
use crate::html::GTok;
use crate::html::Tok;
use crate::page::find_close_named;
use crate::page::find_close_named_exec;
use crate::page::lemma_find_close_named;
use crate::page::next_non_text;
use crate::page::next_non_text_exec;
use crate::text::chars_to_string;
use crate::text::contains_str;
use crate::text::copy_range;
use crate::text::spec_contains;
use crate::text::to_chars;
use crate::text::vec_eq_str;

verus! {

// ---------------------------------------------------------------------------
// Decoding query strings
// ---------------------------------------------------------------------------

pub open spec fn is_hex(c: char) -> bool {
    ('0' <= c && c <= '9') || ('a' <= c && c <= 'f') || ('A' <= c && c <= 'F')
}

pub open spec fn hex_val(c: char) -> int {
    if '0' <= c && c <= '9' {
        c as int - '0' as int
    } else if 'a' <= c && c <= 'f' {
        c as int - 'a' as int + 10
    } else if 'A' <= c && c <= 'F' {
        c as int - 'A' as int + 10
    } else {
        0
    }
}

fn is_hex_exec(c: char) -> (r: bool)
    ensures
        r == is_hex(c),
{
    ('0' <= c && c <= '9') || ('a' <= c && c <= 'f') || ('A' <= c && c <= 'F')
}

fn hex_val_exec(c: char) -> (r: u8)
    requires
        is_hex(c),
    ensures
        r as int == hex_val(c),
        r < 16,
{
    if '0' <= c && c <= '9' {
        (c as u8) - ('0' as u8)
    } else if 'a' <= c && c <= 'f' {
        (c as u8) - ('a' as u8) + 10
    } else {
        (c as u8) - ('A' as u8) + 10
    }
}

/// A percent-escaped ASCII byte at position `i`, decodable to one character.
pub open spec fn is_escape_at(s: Seq<char>, i: int) -> bool {
    0 <= i && i + 3 <= s.len() && s[i] == '%' && is_hex(s[i + 1]) && is_hex(s[i + 2])
        && hex_val(s[i + 1]) * 16 + hex_val(s[i + 2]) < 128
}

/// The form decoding of `s[i..]`: `+` becomes a space, an ASCII percent
/// escape becomes its character, anything else stays.
pub open spec fn spec_decode_from(s: Seq<char>, i: int) -> Seq<char>
    decreases s.len() - i,
    when 0 <= i <= s.len()
{
    if i >= s.len() {
        Seq::empty()
    } else if s[i] == '+' {
        seq![' '] + spec_decode_from(s, i + 1)
    } else if is_escape_at(s, i) {
        seq![(((hex_val(s[i + 1]) * 16 + hex_val(s[i + 2])) as u8) as char)]
            + spec_decode_from(s, i + 3)
    } else {
        seq![s[i]] + spec_decode_from(s, i + 1)
    }
}

pub open spec fn spec_decode(s: Seq<char>) -> Seq<char> {
    spec_decode_from(s, 0)
}

/// Executable form decoding, mirroring `spec_decode`.
pub fn decode_exec(s: &Vec<char>) -> (r: Vec<char>)
    ensures
        r@ == spec_decode(s@),
{
    let mut out: Vec<char> = Vec::new();
    let mut i: usize = 0;
    proof {
        assert(out@ + spec_decode_from(s@, 0) =~= spec_decode(s@));
    }
    while i < s.len()
        invariant
            i <= s@.len(),
            out@ + spec_decode_from(s@, i as int) =~= spec_decode(s@),
        decreases s@.len() - i,
    {
        let ghost before = out@;
        if s[i] == '+' {
            out.push(' ');
            i = i + 1;
        } else if s[i] == '%' && s.len() - i >= 3 && is_hex_exec(s[i + 1]) && is_hex_exec(
            s[i + 2],
        ) && (hex_val_exec(s[i + 1]) as u16) * 16 + (hex_val_exec(s[i + 2]) as u16) < 128 {
            let b: u8 = hex_val_exec(s[i + 1]) * 16 + hex_val_exec(s[i + 2]);
            out.push(b as char);
            i = i + 3;
        } else {
            proof {
                assert(!is_escape_at(s@, i as int));
            }
            out.push(s[i]);
            i = i + 1;
        }
        proof {
            assert(out@ + spec_decode_from(s@, i as int) =~= spec_decode(s@));
        }
    }
    proof {
        assert(spec_decode_from(s@, i as int) =~= Seq::<char>::empty());
        assert(out@ =~= spec_decode(s@));
    }
    out
}

/// First position of `c` in `s[i..e]`, else `e`.
pub open spec fn scan_char_before(s: Seq<char>, i: int, c: char, e: int) -> int
    decreases e - i,
    when 0 <= i <= e <= s.len()
{
    if i < e && s[i] != c {
        scan_char_before(s, i + 1, c, e)
    } else {
        i
    }
}

pub proof fn lemma_scan_char_before(s: Seq<char>, i: int, c: char, e: int)
    requires
        0 <= i <= e <= s.len(),
    ensures
        i <= scan_char_before(s, i, c, e) <= e,
    decreases e - i,
{
    if i < e && s[i] != c {
        lemma_scan_char_before(s, i + 1, c, e);
    }
}

fn scan_char_before_exec(s: &Vec<char>, i: usize, c: char, e: usize) -> (r: usize)
    requires
        i <= e <= s@.len(),
    ensures
        r as int == scan_char_before(s@, i as int, c, e as int),
        i <= r <= e,
{
    let mut j: usize = i;
    while j < e && s[j] != c
        invariant
            i <= j <= e <= s@.len(),
            scan_char_before(s@, i as int, c, e as int) == scan_char_before(
                s@,
                j as int,
                c,
                e as int,
            ),
        decreases e - j,
    {
        j = j + 1;
    }
    proof {
        lemma_scan_char_before(s@, j as int, c, e as int);
    }
    j
}

/// The decoded value of the first pair in `s[i..e]` whose decoded key is
/// `key`, if any.
pub open spec fn lookup_pairs(s: Seq<char>, i: int, e: int, key: Seq<char>) -> Option<
    Seq<char>,
>
    decreases e - i,
    when 0 <= i <= e <= s.len()
    via lookup_pairs_dec
{
    if i >= e {
        None
    } else {
        let amp = scan_char_before(s, i, '&', e);
        let eq = scan_char_before(s, i, '=', amp);
        let k = spec_decode(s.subrange(i, eq));
        let v = if eq < amp {
            spec_decode(s.subrange(eq + 1, amp))
        } else {
            Seq::empty()
        };
        if k == key {
            Some(v)
        } else {
            let next = if amp < e {
                amp + 1
            } else {
                e
            };
            lookup_pairs(s, next, e, key)
        }
    }
}

#[via_fn]
proof fn lookup_pairs_dec(s: Seq<char>, i: int, e: int, key: Seq<char>) {
    if 0 <= i < e <= s.len() {
        lemma_scan_char_before(s, i, '&', e);
    }
}

fn lookup_pairs_exec(s: &Vec<char>, i: usize, e: usize, key: &str) -> (r: Option<Vec<char>>)
    requires
        i <= e <= s@.len(),
    ensures
        (match r {
            Some(v) => Some(v@),
            None => None,
        }) == lookup_pairs(s@, i as int, e as int, key@),
    decreases e - i,
{
    if i >= e {
        return None;
    }
    let amp = scan_char_before_exec(s, i, '&', e);
    let eq = scan_char_before_exec(s, i, '=', amp);
    let k = decode_exec(&copy_range(s, i, eq));
    let v = if eq < amp {
        decode_exec(&copy_range(s, eq + 1, amp))
    } else {
        Vec::new()
    };
    proof {
        if eq >= amp {
            assert(v@ =~= Seq::<char>::empty());
        }
    }
    if vec_eq_str(&k, key) {
        Some(v)
    } else {
        let next = if amp < e {
            amp + 1
        } else {
            e
        };
        lookup_pairs_exec(s, next, e, key)
    }
}

/// The decoded value of the query parameter `key` in the reference `href`,
/// if `href` has a query and holds the parameter.
pub open spec fn spec_query_param(href: Seq<char>, key: Seq<char>) -> Option<Seq<char>> {
    let q = scan_char(href, 0, '?');
    if q == href.len() {
        None
    } else {
        let e = scan_char(href, q + 1, '#');
        lookup_pairs(href, q + 1, e, key)
    }
}

/// Look a query parameter up in a reference.
pub fn query_param(href: &Vec<char>, key: &str) -> (r: Option<Vec<char>>)
    ensures
        (match r {
            Some(v) => Some(v@),
            None => None,
        }) == spec_query_param(href@, key@),
{
    let q = scan_char_exec(href, 0, '?');
    if q == href.len() {
        return None;
    }
    let e = scan_char_exec(href, q + 1, '#');
    lookup_pairs_exec(href, q + 1, e, key)
}

// ---------------------------------------------------------------------------
// The dashboard heading and its table
// ---------------------------------------------------------------------------

/// Whether some text run in `ts[i..e]` holds the trial-plan marker.
pub open spec fn region_has_marker(ts: Seq<GTok>, i: int, e: int) -> bool
    decreases e - i,
    when 0 <= i <= e <= ts.len()
{
    if i >= e {
        false
    } else {
        let here = (ts[i] matches GTok::Text(b) && spec_contains(b, "無料"@));
        here || region_has_marker(ts, i + 1, e)
    }
}

fn region_has_marker_exec(toks: &Vec<Tok>, i: usize, e: usize) -> (r: bool)
    requires
        i <= e <= toks@.len(),
    ensures
        r == region_has_marker(toks_view(toks@), i as int, e as int),
    decreases e - i,
{
    let ghost ts = toks_view(toks@);
    if i >= e {
        return false;
    }
    proof {
        assert(ts[i as int] == toks@[i as int]@);
    }
    let here = match &toks[i] {
        Tok::Text(b) => contains_str(b, "無料"),
        _ => false,
    };
    if here {
        true
    } else {
        region_has_marker_exec(toks, i + 1, e)
    }
}

/// First `h3` heading at or after `i` whose text holds the trial-plan
/// marker, else the token count.  Headings without the marker are skipped
/// whole.
pub open spec fn find_marker_heading(ts: Seq<GTok>, i: int) -> int
    decreases ts.len() - i,
    when 0 <= i <= ts.len()
    via find_marker_heading_dec
{
    if i >= ts.len() {
        ts.len() as int
    } else if ts[i] matches GTok::Open(t) && t.name == "h3"@ {
        let e = find_close_named(ts, i + 1, "h3"@);
        if region_has_marker(ts, i + 1, e) {
            i
        } else {
            let next = if e < ts.len() {
                e + 1
            } else {
                e
            };
            find_marker_heading(ts, next)
        }
    } else {
        find_marker_heading(ts, i + 1)
    }
}

#[via_fn]
proof fn find_marker_heading_dec(ts: Seq<GTok>, i: int) {
    if 0 <= i < ts.len() {
        lemma_find_close_named(ts, i + 1, "h3"@);
    }
}

pub proof fn lemma_find_marker_heading(ts: Seq<GTok>, i: int)
    requires
        0 <= i <= ts.len(),
    ensures
        i <= find_marker_heading(ts, i) <= ts.len(),
    decreases ts.len() - i,
{
    if i < ts.len() {
        if ts[i] matches GTok::Open(t) && t.name == "h3"@ {
            let e = find_close_named(ts, i + 1, "h3"@);
            lemma_find_close_named(ts, i + 1, "h3"@);
            if !region_has_marker(ts, i + 1, e) {
                if e < ts.len() {
                    lemma_find_marker_heading(ts, e + 1);
                } else {
                    lemma_find_marker_heading(ts, e);
                }
            }
        } else {
            lemma_find_marker_heading(ts, i + 1);
        }
    }
}

fn find_marker_heading_exec(toks: &Vec<Tok>, i: usize) -> (r: usize)
    requires
        i <= toks@.len(),
    ensures
        r as int == find_marker_heading(toks_view(toks@), i as int),
        i <= r <= toks@.len(),
    decreases toks@.len() - i,
{
    let ghost ts = toks_view(toks@);
    proof {
        lemma_find_marker_heading(ts, i as int);
    }
    if i >= toks.len() {
        return i;
    }
    proof {
        assert(ts[i as int] == toks@[i as int]@);
    }
    let is_h3 = match &toks[i] {
        Tok::Open(t) => vec_eq_str(&t.name, "h3"),
        _ => false,
    };
    if is_h3 {
        let e = find_close_named_exec(toks, i + 1, "h3");
        if region_has_marker_exec(toks, i + 1, e) {
            i
        } else {
            let next = if e < toks.len() {
                e + 1
            } else {
                e
            };
            find_marker_heading_exec(toks, next)
        }
    } else {
        find_marker_heading_exec(toks, i + 1)
    }
}

/// The first link in `ts[i..e]` that carries an `id` query parameter, and
/// that parameter's decoded value.
pub open spec fn first_link_id(ts: Seq<GTok>, i: int, e: int) -> Option<Seq<char>>
    decreases e - i,
    when 0 <= i <= e <= ts.len()
{
    if i >= e {
        None
    } else {
        let here = (match ts[i] {
            GTok::Open(t) => if t.name == "a"@ {
                match attr_of(t.attrs, "href"@) {
                    Some(href) => spec_query_param(href, "id"@),
                    None => None,
                }
            } else {
                None
            },
            _ => None,
        });
        match here {
            Some(v) => Some(v),
            None => first_link_id(ts, i + 1, e),
        }
    }
}

fn first_link_id_exec(toks: &Vec<Tok>, i: usize, e: usize) -> (r: Option<Vec<char>>)
    requires
        i <= e <= toks@.len(),
    ensures
        (match r {
            Some(v) => Some(v@),
            None => None,
        }) == first_link_id(toks_view(toks@), i as int, e as int),
    decreases e - i,
{
    let ghost ts = toks_view(toks@);
    if i >= e {
        return None;
    }
    proof {
        assert(ts[i as int] == toks@[i as int]@);
    }
    let here: Option<Vec<char>> = match &toks[i] {
        Tok::Open(t) => {
            if vec_eq_str(&t.name, "a") {
                match attr_of_exec(&t.attrs, "href") {
                    Some(href) => query_param(&href, "id"),
                    None => None,
                }
            } else {
                None
            }
        },
        _ => None,
    };
    match here {
        Some(v) => Some(v),
        None => first_link_id_exec(toks, i + 1, e),
    }
}

// ---------------------------------------------------------------------------
// The server identifier
// ---------------------------------------------------------------------------

/// The server identifier on a dashboard: take the first trial-plan heading;
/// when the element right after it (ignoring bare text) is a table, the
/// first link in that table carrying an `id` query parameter names the
/// server.  In every other shape there is none.
pub open spec fn spec_server_id(ts: Seq<GTok>) -> Option<Seq<char>> {
    let j = find_marker_heading(ts, 0);
    if j >= ts.len() {
        None
    } else {
        let e = find_close_named(ts, j + 1, "h3"@);
        if e >= ts.len() {
            None
        } else {
            let k = next_non_text(ts, e + 1);
            if k < ts.len() && (ts[k] matches GTok::Open(t) && t.name == "table"@) {
                let te = find_close_named(ts, k + 1, "table"@);
                first_link_id(ts, k + 1, te)
            } else {
                None
            }
        }
    }
}

/// The server identifier named by a dashboard page, if any.
pub open spec fn spec_server_id_page(h: Seq<char>) -> Option<Seq<char>> {
    spec_server_id(spec_tokens(h))
}

/// Find the managed server's identifier on the dashboard page.
pub fn get_server_id(html: &str) -> (r: Option<String>)
    ensures
        (match r {
            Some(v) => Some(v@),
            None => None,
        }) == spec_server_id_page(html@),
{
    let cs = to_chars(html);
    let toks = tokenize(&cs);
    let ghost ts = toks_view(toks@);
    let j = find_marker_heading_exec(&toks, 0);
    if j >= toks.len() {
        return None;
    }
    let e = find_close_named_exec(&toks, j + 1, "h3");
    if e >= toks.len() {
        return None;
    }
    let k = next_non_text_exec(&toks, e + 1);
    if k >= toks.len() {
        return None;
    }
    proof {
        assert(ts[k as int] == toks@[k as int]@);
    }
    let is_table = match &toks[k] {
        Tok::Open(t) => vec_eq_str(&t.name, "table"),
        _ => false,
    };
    if !is_table {
        return None;
    }
    let te = find_close_named_exec(&toks, k + 1, "table");
    match first_link_id_exec(&toks, k + 1, te) {
        Some(v) => Some(chars_to_string(&v)),
        None => None,
    }
}

/// A dashboard none of whose headings holds the trial-plan marker names no
/// server.
pub proof fn lemma_no_marker_no_server(ts: Seq<GTok>)
    requires
        forall|j: int|
            0 <= j < ts.len() && (#[trigger] ts[j] matches GTok::Open(t) && t.name == "h3"@)
                ==> !region_has_marker(ts, j + 1, find_close_named(ts, j + 1, "h3"@)),
    ensures
        spec_server_id(ts) is None,
{
    lemma_skip_all(ts, 0);
}

proof fn lemma_skip_all(ts: Seq<GTok>, i: int)
    requires
        0 <= i <= ts.len(),
        forall|j: int|
            0 <= j < ts.len() && (#[trigger] ts[j] matches GTok::Open(t) && t.name == "h3"@)
                ==> !region_has_marker(ts, j + 1, find_close_named(ts, j + 1, "h3"@)),
    ensures
        find_marker_heading(ts, i) == ts.len(),
    decreases ts.len() - i,
{
    if i < ts.len() {
        if ts[i] matches GTok::Open(t) && t.name == "h3"@ {
            let e = find_close_named(ts, i + 1, "h3"@);
            lemma_find_close_named(ts, i + 1, "h3"@);
            if e < ts.len() {
                lemma_skip_all(ts, e + 1);
            } else {
                lemma_skip_all(ts, e);
            }
        } else {
            lemma_skip_all(ts, i + 1);
        }
    }
}

} // verus!
