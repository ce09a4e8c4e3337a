//! A small scanner for the markup subset that the panel pages use.
//!
//! The scanner turns a page into a flat run of tokens: opening tags with
//! their attributes, closing tags, and text runs.  Comments, doctypes and
//! processing instructions are skipped.  Tag and attribute names are
//! lower-cased; attribute values keep their spelling.  Malformed markup is
//! never an error: the scanner always produces some token run, and later
//! queries simply find fewer matches in it.
use vstd::prelude::*;
use vstd::string::*;

use crate::text::copy_range;
use crate::text::is_alpha;
use crate::text::is_alpha_exec;
use crate::text::is_space;
use crate::text::is_space_exec;
use crate::text::lower_seq;
use crate::text::lower_vec;
use crate::text::match_at;
use crate::text::match_at_exec;

verus! {

// ---------------------------------------------------------------------------
// Tokens
// ---------------------------------------------------------------------------

/// One attribute of a tag.  A valueless attribute carries the empty value.
pub struct Attr {
    pub name: Vec<char>,
    pub value: Vec<char>,
}

/// Mathematical image of an attribute.
pub ghost struct GAttr {
    pub name: Seq<char>,
    pub value: Seq<char>,
}

impl View for Attr {
    type V = GAttr;

    open spec fn view(&self) -> GAttr {
        GAttr { name: self.name@, value: self.value@ }
    }
}

/// An opening tag with its attributes.
pub struct Tag {
    pub name: Vec<char>,
    pub attrs: Vec<Attr>,
}

/// Mathematical image of an opening tag.
pub ghost struct GTag {
    pub name: Seq<char>,
    pub attrs: Seq<GAttr>,
}

pub open spec fn attrs_view(v: Seq<Attr>) -> Seq<GAttr> {
    v.map_values(|a: Attr| a@)
}

impl View for Tag {
    type V = GTag;

    open spec fn view(&self) -> GTag {
        GTag { name: self.name@, attrs: attrs_view(self.attrs@) }
    }
}

/// One token of a scanned page.
pub enum Tok {
    Open(Tag),
    Close(Vec<char>),
    Text(Vec<char>),
}

/// Mathematical image of a token.
pub ghost enum GTok {
    Open(GTag),
    Close(Seq<char>),
    Text(Seq<char>),
}

impl View for Tok {
    type V = GTok;

    open spec fn view(&self) -> GTok {
        match self {
            Tok::Open(t) => GTok::Open(t@),
            Tok::Close(n) => GTok::Close(n@),
            Tok::Text(b) => GTok::Text(b@),
        }
    }
}

pub open spec fn toks_view(v: Seq<Tok>) -> Seq<GTok> {
    v.map_values(|t: Tok| t@)
}

// ---------------------------------------------------------------------------
// Character classes and scans
// ---------------------------------------------------------------------------

/// Characters allowed in a tag name.
pub open spec fn is_name_char(c: char) -> bool {
    is_alpha(c) || ('0' <= c && c <= '9') || c == '-' || c == '_' || c == ':'
}

pub fn is_name_char_exec(c: char) -> (r: bool)
    ensures
        r == is_name_char(c),
{
    is_alpha_exec(c) || ('0' <= c && c <= '9') || c == '-' || c == '_' || c == ':'
}

/// Characters allowed in an attribute name.
pub open spec fn is_attr_char(c: char) -> bool {
    !is_space(c) && c != '>' && c != '=' && c != '/' && c != '"' && c != '\''
}

pub fn is_attr_char_exec(c: char) -> (r: bool)
    ensures
        r == is_attr_char(c),
{
    !is_space_exec(c) && c != '>' && c != '=' && c != '/' && c != '"' && c != '\''
}

/// First position at or after `i` holding `c`, else the length.
pub open spec fn scan_char(s: Seq<char>, i: int, c: char) -> int
    decreases s.len() - i,
    when 0 <= i <= s.len()
{
    if i < s.len() && s[i] != c {
        scan_char(s, i + 1, c)
    } else {
        i
    }
}

pub proof fn lemma_scan_char(s: Seq<char>, i: int, c: char)
    requires
        0 <= i <= s.len(),
    ensures
        i <= scan_char(s, i, c) <= s.len(),
    decreases s.len() - i,
{
    if i < s.len() && s[i] != c {
        lemma_scan_char(s, i + 1, c);
    }
}

pub fn scan_char_exec(s: &Vec<char>, i: usize, c: char) -> (r: usize)
    requires
        i <= s@.len(),
    ensures
        r == scan_char(s@, i as int, c),
        i <= r <= s@.len(),
{
    let mut j: usize = i;
    while j < s.len() && s[j] != c
        invariant
            i <= j <= s@.len(),
            scan_char(s@, i as int, c) == scan_char(s@, j as int, c),
        decreases s@.len() - j,
    {
        j = j + 1;
    }
    proof {
        lemma_scan_char(s@, j as int, c);
    }
    j
}

/// End of the run of tag-name characters beginning at `i`.
pub open spec fn scan_name_end(s: Seq<char>, i: int) -> int
    decreases s.len() - i,
    when 0 <= i <= s.len()
{
    if i < s.len() && is_name_char(s[i]) {
        scan_name_end(s, i + 1)
    } else {
        i
    }
}

pub proof fn lemma_scan_name_end(s: Seq<char>, i: int)
    requires
        0 <= i <= s.len(),
    ensures
        i <= scan_name_end(s, i) <= s.len(),
    decreases s.len() - i,
{
    if i < s.len() && is_name_char(s[i]) {
        lemma_scan_name_end(s, i + 1);
    }
}

pub fn scan_name_end_exec(s: &Vec<char>, i: usize) -> (r: usize)
    requires
        i <= s@.len(),
    ensures
        r == scan_name_end(s@, i as int),
        i <= r <= s@.len(),
{
    let mut j: usize = i;
    while j < s.len() && is_name_char_exec(s[j])
        invariant
            i <= j <= s@.len(),
            scan_name_end(s@, i as int) == scan_name_end(s@, j as int),
        decreases s@.len() - j,
    {
        j = j + 1;
    }
    proof {
        lemma_scan_name_end(s@, j as int);
    }
    j
}

/// End of the run of attribute-name characters beginning at `i`.
pub open spec fn scan_attr_end(s: Seq<char>, i: int) -> int
    decreases s.len() - i,
    when 0 <= i <= s.len()
{
    if i < s.len() && is_attr_char(s[i]) {
        scan_attr_end(s, i + 1)
    } else {
        i
    }
}

pub proof fn lemma_scan_attr_end(s: Seq<char>, i: int)
    requires
        0 <= i <= s.len(),
    ensures
        i <= scan_attr_end(s, i) <= s.len(),
    decreases s.len() - i,
{
    if i < s.len() && is_attr_char(s[i]) {
        lemma_scan_attr_end(s, i + 1);
    }
}

pub fn scan_attr_end_exec(s: &Vec<char>, i: usize) -> (r: usize)
    requires
        i <= s@.len(),
    ensures
        r == scan_attr_end(s@, i as int),
        i <= r <= s@.len(),
{
    let mut j: usize = i;
    while j < s.len() && is_attr_char_exec(s[j])
        invariant
            i <= j <= s@.len(),
            scan_attr_end(s@, i as int) == scan_attr_end(s@, j as int),
        decreases s@.len() - j,
    {
        j = j + 1;
    }
    proof {
        lemma_scan_attr_end(s@, j as int);
    }
    j
}

/// End of an unquoted attribute value beginning at `i`.
pub open spec fn scan_unquoted_end(s: Seq<char>, i: int) -> int
    decreases s.len() - i,
    when 0 <= i <= s.len()
{
    if i < s.len() && !is_space(s[i]) && s[i] != '>' {
        scan_unquoted_end(s, i + 1)
    } else {
        i
    }
}

pub proof fn lemma_scan_unquoted_end(s: Seq<char>, i: int)
    requires
        0 <= i <= s.len(),
    ensures
        i <= scan_unquoted_end(s, i) <= s.len(),
    decreases s.len() - i,
{
    if i < s.len() && !is_space(s[i]) && s[i] != '>' {
        lemma_scan_unquoted_end(s, i + 1);
    }
}

pub fn scan_unquoted_end_exec(s: &Vec<char>, i: usize) -> (r: usize)
    requires
        i <= s@.len(),
    ensures
        r == scan_unquoted_end(s@, i as int),
        i <= r <= s@.len(),
{
    let mut j: usize = i;
    while j < s.len() && !is_space_exec(s[j]) && s[j] != '>'
        invariant
            i <= j <= s@.len(),
            scan_unquoted_end(s@, i as int) == scan_unquoted_end(s@, j as int),
        decreases s@.len() - j,
    {
        j = j + 1;
    }
    proof {
        lemma_scan_unquoted_end(s@, j as int);
    }
    j
}

/// End of the run of whitespace beginning at `i`.
pub open spec fn scan_ws(s: Seq<char>, i: int) -> int
    decreases s.len() - i,
    when 0 <= i <= s.len()
{
    if i < s.len() && is_space(s[i]) {
        scan_ws(s, i + 1)
    } else {
        i
    }
}

pub proof fn lemma_scan_ws(s: Seq<char>, i: int)
    requires
        0 <= i <= s.len(),
    ensures
        i <= scan_ws(s, i) <= s.len(),
    decreases s.len() - i,
{
    if i < s.len() && is_space(s[i]) {
        lemma_scan_ws(s, i + 1);
    }
}

pub fn scan_ws_exec(s: &Vec<char>, i: usize) -> (r: usize)
    requires
        i <= s@.len(),
    ensures
        r == scan_ws(s@, i as int),
        i <= r <= s@.len(),
{
    let mut j: usize = i;
    while j < s.len() && is_space_exec(s[j])
        invariant
            i <= j <= s@.len(),
            scan_ws(s@, i as int) == scan_ws(s@, j as int),
        decreases s@.len() - j,
    {
        j = j + 1;
    }
    proof {
        lemma_scan_ws(s@, j as int);
    }
    j
}

/// First position at or after `i` where `p` occurs, else the length.
pub open spec fn find_sub(s: Seq<char>, p: Seq<char>, i: int) -> int
    decreases s.len() - i,
    when 0 <= i <= s.len() && p.len() >= 1
{
    if i + p.len() <= s.len() {
        if match_at(s, p, i) {
            i
        } else {
            find_sub(s, p, i + 1)
        }
    } else {
        s.len() as int
    }
}

pub proof fn lemma_find_sub(s: Seq<char>, p: Seq<char>, i: int)
    requires
        0 <= i <= s.len(),
        p.len() >= 1,
    ensures
        i <= find_sub(s, p, i) <= s.len(),
    decreases s.len() - i,
{
    if i + p.len() <= s.len() && !match_at(s, p, i) {
        lemma_find_sub(s, p, i + 1);
    }
}

pub fn find_sub_exec(s: &Vec<char>, p: &Vec<char>, i: usize) -> (r: usize)
    requires
        i <= s@.len(),
        p@.len() >= 1,
    ensures
        r == find_sub(s@, p@, i as int),
        i <= r <= s@.len(),
{
    let sl = s.len();
    let pl = p.len();
    if pl > sl {
        return sl;
    }
    let last = sl - pl;
    let mut j: usize = i;
    while j <= last && !match_at_exec(s, p, j)
        invariant
            i <= j <= s@.len(),
            sl == s@.len(),
            pl == p@.len(),
            1 <= pl <= sl,
            last == sl - pl,
            find_sub(s@, p@, i as int) == find_sub(s@, p@, j as int),
        decreases s@.len() - j,
    {
        j = j + 1;
    }
    proof {
        lemma_find_sub(s@, p@, j as int);
    }
    if j <= last {
        j
    } else {
        proof {
            assert(find_sub(s@, p@, j as int) == s@.len());
        }
        sl
    }
}

/// When a pattern search stops before the end, the pattern occurs there.
pub proof fn lemma_find_sub_match(s: Seq<char>, p: Seq<char>, i: int)
    requires
        0 <= i <= s.len(),
        p.len() >= 1,
    ensures
        find_sub(s, p, i) < s.len() ==> match_at(s, p, find_sub(s, p, i)),
    decreases s.len() - i,
{
    if i + p.len() <= s.len() && !match_at(s, p, i) {
        lemma_find_sub_match(s, p, i + 1);
    }
}

/// A whitespace scan stops at the end or on a non-space character.
pub proof fn lemma_scan_ws_stop(s: Seq<char>, i: int)
    requires
        0 <= i <= s.len(),
    ensures
        scan_ws(s, i) < s.len() ==> !is_space(s[scan_ws(s, i)]),
    decreases s.len() - i,
{
    if i < s.len() && is_space(s[i]) {
        lemma_scan_ws_stop(s, i + 1);
    }
}

// ---------------------------------------------------------------------------
// Attribute lists
// ---------------------------------------------------------------------------

/// The attributes of a tag whose name ends just before `i`, together with
/// the position right after the closing `>` of the tag (or the length when
/// the tag never closes).  Stray punctuation between attributes is skipped.
pub open spec fn spec_attrs(s: Seq<char>, i: int) -> (Seq<GAttr>, int)
    decreases s.len() - i,
    when 0 <= i <= s.len()
    via spec_attrs_dec
{
    let j = scan_ws(s, i);
    if j >= s.len() {
        (Seq::empty(), s.len() as int)
    } else if s[j] == '>' {
        (Seq::empty(), j + 1)
    } else if s[j] == '/' || s[j] == '=' || s[j] == '"' || s[j] == '\'' {
        spec_attrs(s, j + 1)
    } else {
        let ne = scan_attr_end(s, j);
        let name = lower_seq(s.subrange(j, ne));
        if ne < s.len() && s[ne] == '=' {
            if ne + 1 < s.len() && (s[ne + 1] == '"' || s[ne + 1] == '\'') {
                let ve = scan_char(s, ne + 2, s[ne + 1]);
                let value = s.subrange(ne + 2, ve);
                let next = if ve == s.len() {
                    s.len() as int
                } else {
                    ve + 1
                };
                let r = spec_attrs(s, next);
                (seq![GAttr { name, value }] + r.0, r.1)
            } else {
                let ve = scan_unquoted_end(s, ne + 1);
                let value = s.subrange(ne + 1, ve);
                let r = spec_attrs(s, ve);
                (seq![GAttr { name, value }] + r.0, r.1)
            }
        } else {
            let r = spec_attrs(s, ne);
            (seq![GAttr { name, value: Seq::empty() }] + r.0, r.1)
        }
    }
}

#[via_fn]
proof fn spec_attrs_dec(s: Seq<char>, i: int) {
    lemma_scan_ws(s, i);
    lemma_scan_ws_stop(s, i);
    let j = scan_ws(s, i);
    if j < s.len() && s[j] != '>' && !(s[j] == '/' || s[j] == '=' || s[j] == '"' || s[j]
        == '\'') {
        assert(is_attr_char(s[j]));
        lemma_scan_attr_end(s, j + 1);
        let ne = scan_attr_end(s, j);
        assert(ne == scan_attr_end(s, j + 1));
        assert(ne >= j + 1);
        if ne < s.len() && s[ne] == '=' {
            if ne + 1 < s.len() && (s[ne + 1] == '"' || s[ne + 1] == '\'') {
                lemma_scan_char(s, ne + 2, s[ne + 1]);
            } else {
                lemma_scan_unquoted_end(s, ne + 1);
            }
        }
    }
}

/// Bounds on the stopping position of `spec_attrs`.
pub proof fn lemma_spec_attrs_end(s: Seq<char>, i: int)
    requires
        0 <= i <= s.len(),
    ensures
        i <= spec_attrs(s, i).1 <= s.len(),
    decreases s.len() - i,
{
    lemma_scan_ws(s, i);
    lemma_scan_ws_stop(s, i);
    let j = scan_ws(s, i);
    if j >= s.len() {
    } else if s[j] == '>' {
    } else if s[j] == '/' || s[j] == '=' || s[j] == '"' || s[j] == '\'' {
        lemma_spec_attrs_end(s, j + 1);
    } else {
        assert(is_attr_char(s[j]));
        lemma_scan_attr_end(s, j + 1);
        let ne = scan_attr_end(s, j);
        assert(ne == scan_attr_end(s, j + 1));
        assert(ne >= j + 1);
        if ne < s.len() && s[ne] == '=' {
            if ne + 1 < s.len() && (s[ne + 1] == '"' || s[ne + 1] == '\'') {
                lemma_scan_char(s, ne + 2, s[ne + 1]);
                let ve = scan_char(s, ne + 2, s[ne + 1]);
                let next = if ve == s.len() {
                    s.len() as int
                } else {
                    ve + 1
                };
                lemma_spec_attrs_end(s, next);
            } else {
                lemma_scan_unquoted_end(s, ne + 1);
                lemma_spec_attrs_end(s, scan_unquoted_end(s, ne + 1));
            }
        } else {
            lemma_spec_attrs_end(s, ne);
        }
    }
}

proof fn lemma_attrs_view_insert0(v: Seq<Attr>, a: Attr)
    ensures
        attrs_view(v.insert(0, a)) =~= seq![a@] + attrs_view(v),
{
    let m = attrs_view(v.insert(0, a));
    let n = seq![a@] + attrs_view(v);
    assert forall|k: int| 0 <= k < m.len() implies m[k] == n[k] by {
        if k == 0 {
            assert(v.insert(0, a)[0] == a);
        } else {
            assert(v.insert(0, a)[k] == v[k - 1]);
        }
    }
}

/// Executable attribute parser, mirroring `spec_attrs`.
pub fn parse_attrs(s: &Vec<char>, i: usize) -> (r: (Vec<Attr>, usize))
    requires
        i <= s@.len(),
    ensures
        attrs_view(r.0@) == spec_attrs(s@, i as int).0,
        r.1 as int == spec_attrs(s@, i as int).1,
        i <= r.1 <= s@.len(),
    decreases s@.len() - i,
{
    proof {
        lemma_spec_attrs_end(s@, i as int);
        lemma_scan_ws_stop(s@, i as int);
    }
    let j = scan_ws_exec(s, i);
    if j >= s.len() {
        let r: Vec<Attr> = Vec::new();
        proof {
            assert(attrs_view(r@) =~= spec_attrs(s@, i as int).0);
        }
        (r, s.len())
    } else if s[j] == '>' {
        let r: Vec<Attr> = Vec::new();
        proof {
            assert(attrs_view(r@) =~= spec_attrs(s@, i as int).0);
        }
        (r, j + 1)
    } else if s[j] == '/' || s[j] == '=' || s[j] == '"' || s[j] == '\'' {
        parse_attrs(s, j + 1)
    } else {
        proof {
            assert(is_attr_char(s@[j as int]));
        }
        let ne = scan_attr_end_exec(s, j);
        proof {
            lemma_scan_attr_end(s@, j + 1);
            assert(ne == scan_attr_end(s@, j + 1));
            assert(ne >= j + 1);
        }
        let name = lower_vec(&copy_range(s, j, ne));
        if ne < s.len() && s[ne] == '=' {
            let quoted = ne + 1 < s.len() && (s[ne + 1] == '"' || s[ne + 1] == '\'');
            if quoted {
                let q = s[ne + 1];
                let ve = scan_char_exec(s, ne + 2, q);
                let value = copy_range(s, ne + 2, ve);
                let next = if ve == s.len() {
                    s.len()
                } else {
                    ve + 1
                };
                let (mut rest, end) = parse_attrs(s, next);
                let a = Attr { name, value };
                proof {
                    lemma_attrs_view_insert0(rest@, a);
                }
                rest.insert(0, a);
                (rest, end)
            } else {
                let ve = scan_unquoted_end_exec(s, ne + 1);
                let value = copy_range(s, ne + 1, ve);
                let (mut rest, end) = parse_attrs(s, ve);
                let a = Attr { name, value };
                proof {
                    lemma_attrs_view_insert0(rest@, a);
                }
                rest.insert(0, a);
                (rest, end)
            }
        } else {
            let value: Vec<char> = Vec::new();
            let (mut rest, end) = parse_attrs(s, ne);
            let a = Attr { name, value };
            proof {
                lemma_attrs_view_insert0(rest@, a);
                assert(a@.value =~= Seq::<char>::empty());
            }
            rest.insert(0, a);
            (rest, end)
        }
    }
}

// ---------------------------------------------------------------------------
// Tokens of a page
// ---------------------------------------------------------------------------

/// The token beginning at position `i` (`None` for skipped constructs such
/// as comments), together with the position where the next token begins.
pub open spec fn spec_next(s: Seq<char>, i: int) -> (Option<GTok>, int)
    recommends
        0 <= i < s.len(),
{
    if s[i] != '<' {
        let e = scan_char(s, i + 1, '<');
        (Some(GTok::Text(s.subrange(i, e))), e)
    } else if i + 4 <= s.len() && s[i + 1] == '!' && s[i + 2] == '-' && s[i + 3] == '-' {
        let e = find_sub(s, seq!['-', '-', '>'], i + 4);
        (None, if e == s.len() { s.len() as int } else { e + 3 })
    } else if i + 1 < s.len() && (s[i + 1] == '!' || s[i + 1] == '?') {
        let e = scan_char(s, i + 1, '>');
        (None, if e == s.len() { s.len() as int } else { e + 1 })
    } else if i + 1 < s.len() && s[i + 1] == '/' {
        let ne = scan_name_end(s, i + 2);
        let name = lower_seq(s.subrange(i + 2, ne));
        let e = scan_char(s, ne, '>');
        (Some(GTok::Close(name)), if e == s.len() { s.len() as int } else { e + 1 })
    } else if i + 1 < s.len() && is_alpha(s[i + 1]) {
        let ne = scan_name_end(s, i + 1);
        let name = lower_seq(s.subrange(i + 1, ne));
        let r = spec_attrs(s, ne);
        (Some(GTok::Open(GTag { name, attrs: r.0 })), r.1)
    } else {
        (Some(GTok::Text(seq![s[i]])), i + 1)
    }
}

/// Every token consumes at least one character.
pub proof fn lemma_spec_next(s: Seq<char>, i: int)
    requires
        0 <= i < s.len(),
    ensures
        i < spec_next(s, i).1 <= s.len(),
{
    if s[i] != '<' {
        lemma_scan_char(s, i + 1, '<');
    } else if i + 4 <= s.len() && s[i + 1] == '!' && s[i + 2] == '-' && s[i + 3] == '-' {
        lemma_find_sub(s, seq!['-', '-', '>'], i + 4);
        lemma_find_sub_match(s, seq!['-', '-', '>'], i + 4);
    } else if i + 1 < s.len() && (s[i + 1] == '!' || s[i + 1] == '?') {
        lemma_scan_char(s, i + 1, '>');
    } else if i + 1 < s.len() && s[i + 1] == '/' {
        lemma_scan_name_end(s, i + 2);
        lemma_scan_char(s, scan_name_end(s, i + 2), '>');
    } else if i + 1 < s.len() && is_alpha(s[i + 1]) {
        lemma_scan_name_end(s, i + 2);
        let ne = scan_name_end(s, i + 1);
        assert(ne == scan_name_end(s, i + 2));
        assert(ne >= i + 2);
        lemma_spec_attrs_end(s, ne);
    } else {
    }
}

/// All tokens of `s`, from position `i` on.
pub open spec fn spec_tokenize(s: Seq<char>, i: int) -> Seq<GTok>
    decreases s.len() - i,
    when 0 <= i <= s.len()
    via spec_tokenize_dec
{
    if i >= s.len() {
        Seq::empty()
    } else {
        let r = spec_next(s, i);
        match r.0 {
            Some(t) => seq![t] + spec_tokenize(s, r.1),
            None => spec_tokenize(s, r.1),
        }
    }
}

#[via_fn]
proof fn spec_tokenize_dec(s: Seq<char>, i: int) {
    if 0 <= i < s.len() {
        lemma_spec_next(s, i);
    }
}

/// All tokens of `s`.
pub open spec fn spec_tokens(s: Seq<char>) -> Seq<GTok> {
    spec_tokenize(s, 0)
}

/// Executable scanner step, mirroring `spec_next`.
fn next_token(s: &Vec<char>, i: usize) -> (r: (Option<Tok>, usize))
    requires
        i < s@.len(),
    ensures
        (match r.0 {
            Some(t) => Some(t@),
            None => None,
        }) == spec_next(s@, i as int).0,
        r.1 as int == spec_next(s@, i as int).1,
        i < r.1 <= s@.len(),
{
    proof {
        lemma_spec_next(s@, i as int);
    }
    let sl = s.len();
    if s[i] != '<' {
        let e = scan_char_exec(s, i + 1, '<');
        (Some(Tok::Text(copy_range(s, i, e))), e)
    } else if sl - i >= 4 && s[i + 1] == '!' && s[i + 2] == '-' && s[i + 3] == '-' {
        let mut pat: Vec<char> = Vec::new();
        pat.push('-');
        pat.push('-');
        pat.push('>');
        proof {
            assert(pat@ =~= seq!['-', '-', '>']);
        }
        let e = find_sub_exec(s, &pat, i + 4);
        if e == sl {
            (None, sl)
        } else {
            proof {
                lemma_find_sub_match(s@, pat@, i + 4);
            }
            (None, e + 3)
        }
    } else if i + 1 < s.len() && (s[i + 1] == '!' || s[i + 1] == '?') {
        let e = scan_char_exec(s, i + 1, '>');
        (None, if e == s.len() { s.len() } else { e + 1 })
    } else if i + 1 < s.len() && s[i + 1] == '/' {
        let ne = scan_name_end_exec(s, i + 2);
        let name = lower_vec(&copy_range(s, i + 2, ne));
        let e = scan_char_exec(s, ne, '>');
        (Some(Tok::Close(name)), if e == s.len() { s.len() } else { e + 1 })
    } else if i + 1 < s.len() && is_alpha_exec(s[i + 1]) {
        let ne = scan_name_end_exec(s, i + 1);
        let name = lower_vec(&copy_range(s, i + 1, ne));
        let (attrs, end) = parse_attrs(s, ne);
        (Some(Tok::Open(Tag { name, attrs })), end)
    } else {
        let mut b: Vec<char> = Vec::new();
        b.push(s[i]);
        proof {
            assert(b@ =~= seq![s@[i as int]]);
        }
        (Some(Tok::Text(b)), i + 1)
    }
}

proof fn lemma_toks_view_push(v: Seq<Tok>, t: Tok)
    ensures
        toks_view(v.push(t)) =~= toks_view(v) + seq![t@],
{
    let m = toks_view(v.push(t));
    let n = toks_view(v) + seq![t@];
    assert forall|k: int| 0 <= k < m.len() implies m[k] == n[k] by {
        if k < v.len() {
            assert(v.push(t)[k] == v[k]);
        } else {
            assert(v.push(t)[k] == t);
        }
    }
}

/// Scan a page into its tokens.
pub fn tokenize(s: &Vec<char>) -> (r: Vec<Tok>)
    ensures
        toks_view(r@) == spec_tokens(s@),
{
    let mut toks: Vec<Tok> = Vec::new();
    let mut i: usize = 0;
    while i < s.len()
        invariant
            i <= s@.len(),
            toks_view(toks@) + spec_tokenize(s@, i as int) =~= spec_tokens(s@),
        decreases s@.len() - i,
    {
        let (t, n) = next_token(s, i);
        let ghost prev = toks@;
        match t {
            Some(tok) => {
                proof {
                    lemma_toks_view_push(prev, tok);
                }
                toks.push(tok);
            },
            None => {},
        }
        i = n;
        proof {
            assert(toks_view(toks@) + spec_tokenize(s@, i as int) =~= spec_tokens(s@));
        }
    }
    proof {
        assert(spec_tokenize(s@, i as int) =~= Seq::<GTok>::empty());
        assert(toks_view(toks@) =~= toks_view(toks@) + spec_tokenize(s@, i as int));
    }
    toks
}

// ---------------------------------------------------------------------------
// Attribute lookup
// ---------------------------------------------------------------------------

/// The value of the first attribute called `name`, if any.
pub open spec fn attr_of(attrs: Seq<GAttr>, name: Seq<char>) -> Option<Seq<char>>
    decreases attrs.len(),
{
    if attrs.len() == 0 {
        None
    } else if attrs[0].name == name {
        Some(attrs[0].value)
    } else {
        attr_of(attrs.skip(1), name)
    }
}

/// Executable attribute lookup, for an ASCII attribute name.
pub fn attr_of_exec(attrs: &Vec<Attr>, name: &str) -> (r: Option<Vec<char>>)
    ensures
        (match r {
            Some(v) => Some(v@),
            None => None,
        }) == attr_of(attrs_view(attrs@), name@),
{
    let mut i: usize = 0;
    proof {
        assert(attrs_view(attrs@).skip(0) =~= attrs_view(attrs@));
    }
    while i < attrs.len()
        invariant
            i <= attrs@.len(),
            attr_of(attrs_view(attrs@), name@) == attr_of(
                attrs_view(attrs@).skip(i as int),
                name@,
            ),
        decreases attrs.len() - i,
    {
        let ghost rest = attrs_view(attrs@).skip(i as int);
        proof {
            assert(rest[0] == attrs@[i as int]@);
            assert(rest.skip(1) =~= attrs_view(attrs@).skip(i + 1));
        }
        if crate::text::vec_eq_str(&attrs[i].name, name) {
            let v = copy_range(&attrs[i].value, 0, attrs[i].value.len());
            return Some(v);
        }
        i = i + 1;
    }
    proof {
        assert(attr_of(attrs_view(attrs@).skip(i as int), name@) == None::<Seq<char>>);
    }
    None
}

} // verus!
