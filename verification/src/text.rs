use vstd::prelude::*;
use vstd::string::*;

verus! {

// ---------------------------------------------------------------------------
// Characters
// ---------------------------------------------------------------------------

/// Lower-case an ASCII letter; other characters are unchanged.
pub open spec fn lower_char(c: char) -> char {
    if 'A' <= c && c <= 'Z' {
        ((c as u8) + 32) as char
    } else {
        c
    }
}

/// Upper-case an ASCII letter; other characters are unchanged.
pub open spec fn upper_char(c: char) -> char {
    if 'a' <= c && c <= 'z' {
        ((c as u8) - 32) as char
    } else {
        c
    }
}

pub fn lower_char_exec(c: char) -> (r: char)
    ensures
        r == lower_char(c),
{
    if 'A' <= c && c <= 'Z' {
        ((c as u8) + 32) as char
    } else {
        c
    }
}

pub fn upper_char_exec(c: char) -> (r: char)
    ensures
        r == upper_char(c),
{
    if 'a' <= c && c <= 'z' {
        ((c as u8) - 32) as char
    } else {
        c
    }
}

/// ASCII whitespace, as it separates words and attributes in markup.
pub open spec fn is_space(c: char) -> bool {
    c == ' ' || c == '\t' || c == '\n' || c == '\r'
}

pub fn is_space_exec(c: char) -> (r: bool)
    ensures
        r == is_space(c),
{
    c == ' ' || c == '\t' || c == '\n' || c == '\r'
}

pub open spec fn is_alpha(c: char) -> bool {
    ('a' <= c && c <= 'z') || ('A' <= c && c <= 'Z')
}

pub fn is_alpha_exec(c: char) -> (r: bool)
    ensures
        r == is_alpha(c),
{
    ('a' <= c && c <= 'z') || ('A' <= c && c <= 'Z')
}

// ---------------------------------------------------------------------------
// Sequences of characters
// ---------------------------------------------------------------------------

pub open spec fn lower_seq(s: Seq<char>) -> Seq<char> {
    s.map_values(|c: char| lower_char(c))
}

pub open spec fn upper_seq(s: Seq<char>) -> Seq<char> {
    s.map_values(|c: char| upper_char(c))
}

pub fn lower_vec(v: &Vec<char>) -> (r: Vec<char>)
    ensures
        r@ == lower_seq(v@),
{
    let mut r: Vec<char> = Vec::new();
    let mut i: usize = 0;
    while i < v.len()
        invariant
            i <= v.len(),
            r@ =~= lower_seq(v@).subrange(0, i as int),
        decreases v.len() - i,
    {
        r.push(lower_char_exec(v[i]));
        i = i + 1;
    }
    proof {
        assert(r@ =~= lower_seq(v@));
    }
    r
}

pub fn upper_vec(v: &Vec<char>) -> (r: Vec<char>)
    ensures
        r@ == upper_seq(v@),
{
    let mut r: Vec<char> = Vec::new();
    let mut i: usize = 0;
    while i < v.len()
        invariant
            i <= v.len(),
            r@ =~= upper_seq(v@).subrange(0, i as int),
        decreases v.len() - i,
    {
        r.push(upper_char_exec(v[i]));
        i = i + 1;
    }
    proof {
        assert(r@ =~= upper_seq(v@));
    }
    r
}

/// The characters of a `&str`, as a vector.
pub fn to_chars(s: &str) -> (r: Vec<char>)
    ensures
        r@ == s@,
{
    let n = s.unicode_len();
    let mut r: Vec<char> = Vec::new();
    let mut i: usize = 0;
    while i < n
        invariant
            i <= n,
            n == s@.len(),
            r@ == s@.subrange(0, i as int),
        decreases n - i,
    {
        r.push(s.get_char(i));
        i = i + 1;
        proof {
            assert(r@ =~= s@.subrange(0, i as int));
        }
    }
    proof {
        assert(r@ =~= s@);
    }
    r
}

/// Relies on std's `String::from_iter` over `char`s: the string holds exactly
/// the given characters, in order.
#[verifier::external_body]
pub fn chars_to_string(v: &Vec<char>) -> (r: String)
    ensures
        r@ == v@,
{
    v.iter().collect()
}

/// Equality of a character vector and a string slice.
pub fn vec_eq_str(v: &Vec<char>, s: &str) -> (r: bool)
    ensures
        r == (v@ == s@),
{
    let n = s.unicode_len();
    if v.len() != n {
        proof {
            assert(v@.len() != s@.len());
        }
        return false;
    }
    let mut i: usize = 0;
    while i < n
        invariant
            i <= n,
            n == s@.len(),
            v@.len() == n,
            forall|j: int| 0 <= j < i ==> v@[j] == s@[j],
        decreases n - i,
    {
        if v[i] != s.get_char(i) {
            return false;
        }
        i = i + 1;
    }
    proof {
        assert(v@ =~= s@);
    }
    true
}

pub fn vec_eq_vec(a: &Vec<char>, b: &Vec<char>) -> (r: bool)
    ensures
        r == (a@ == b@),
{
    if a.len() != b.len() {
        proof {
            assert(a@.len() != b@.len());
        }
        return false;
    }
    let mut i: usize = 0;
    while i < a.len()
        invariant
            i <= a.len(),
            a@.len() == b@.len(),
            forall|j: int| 0 <= j < i ==> a@[j] == b@[j],
        decreases a.len() - i,
    {
        if a[i] != b[i] {
            return false;
        }
        i = i + 1;
    }
    proof {
        assert(a@ =~= b@);
    }
    true
}

// ---------------------------------------------------------------------------
// Prefix and substring search
// ---------------------------------------------------------------------------

pub open spec fn spec_starts_with(t: Seq<char>, p: Seq<char>) -> bool {
    p.len() <= t.len() && t.subrange(0, p.len() as int) == p
}

pub fn starts_with_chars(t: &Vec<char>, p: &str) -> (r: bool)
    ensures
        r == spec_starts_with(t@, p@),
{
    let n = p.unicode_len();
    if n > t.len() {
        return false;
    }
    let mut i: usize = 0;
    while i < n
        invariant
            i <= n,
            n == p@.len(),
            n <= t@.len(),
            forall|j: int| 0 <= j < i ==> t@[j] == p@[j],
        decreases n - i,
    {
        if t[i] != p.get_char(i) {
            proof {
                assert(t@.subrange(0, p@.len() as int)[i as int] != p@[i as int]);
            }
            return false;
        }
        i = i + 1;
    }
    proof {
        assert(t@.subrange(0, p@.len() as int) =~= p@);
    }
    true
}

/// The pattern occurs in `t` at position `i`.
pub open spec fn match_at(t: Seq<char>, p: Seq<char>, i: int) -> bool {
    0 <= i && i + p.len() <= t.len() && t.subrange(i, i + p.len()) == p
}

/// The pattern occurs somewhere in `t`.
pub open spec fn spec_contains(t: Seq<char>, p: Seq<char>) -> bool {
    exists|i: int| match_at(t, p, i)
}

pub fn match_at_exec(t: &Vec<char>, p: &Vec<char>, i: usize) -> (r: bool)
    requires
        i + p@.len() <= t@.len(),
    ensures
        r == match_at(t@, p@, i as int),
{
    let tl = t.len();
    let mut j: usize = 0;
    while j < p.len()
        invariant
            j <= p@.len(),
            i + p@.len() <= t@.len(),
            tl == t@.len(),
            forall|k: int| 0 <= k < j ==> t@[i + k] == p@[k],
        decreases p.len() - j,
    {
        if t[i + j] != p[j] {
            proof {
                assert(t@.subrange(i as int, i + p@.len())[j as int] == t@[i + j]);
            }
            return false;
        }
        j = j + 1;
    }
    proof {
        assert(t@.subrange(i as int, i + p@.len()) =~= p@);
    }
    true
}

/// Whether `p` occurs as a contiguous run inside `t`.
pub fn contains_chars(t: &Vec<char>, p: &Vec<char>) -> (r: bool)
    ensures
        r == spec_contains(t@, p@),
{
    if p.len() == 0 {
        proof {
            assert(match_at(t@, p@, 0)) by {
                assert(t@.subrange(0, 0) =~= p@);
            }
        }
        return true;
    }
    if p.len() > t.len() {
        proof {
            assert(forall|i: int| match_at(t@, p@, i) ==> i + p@.len() <= t@.len());
        }
        return false;
    }
    let last = t.len() - p.len();
    let tl = t.len();
    let mut i: usize = 0;
    while i <= last
        invariant
            i <= last + 1,
            last == t@.len() - p@.len(),
            tl == t@.len(),
            1 <= p@.len() <= t@.len(),
            forall|k: int| 0 <= k < i ==> !match_at(t@, p@, k),
        decreases last - i + 1,
    {
        if match_at_exec(t, p, i) {
            return true;
        }
        i = i + 1;
    }
    proof {
        assert(forall|k: int| match_at(t@, p@, k) ==> 0 <= k <= last);
    }
    false
}

/// Whether the string `p` occurs inside `t`.
pub fn contains_str(t: &Vec<char>, p: &str) -> (r: bool)
    ensures
        r == spec_contains(t@, p@),
{
    let pv = to_chars(p);
    contains_chars(t, &pv)
}

// ---------------------------------------------------------------------------
// Whitespace-collapsed words
// ---------------------------------------------------------------------------

/// End of the run of non-space characters beginning at `i`.
pub open spec fn scan_word_end(s: Seq<char>, i: int) -> int
    decreases s.len() - i,
    when 0 <= i <= s.len()
{
    if i < s.len() && !is_space(s[i]) {
        scan_word_end(s, i + 1)
    } else {
        i
    }
}

/// End of the run of space characters beginning at `i`.
pub open spec fn scan_space_end(s: Seq<char>, i: int) -> int
    decreases s.len() - i,
    when 0 <= i <= s.len()
{
    if i < s.len() && is_space(s[i]) {
        scan_space_end(s, i + 1)
    } else {
        i
    }
}

pub proof fn lemma_scan_word_end(s: Seq<char>, i: int)
    requires
        0 <= i <= s.len(),
    ensures
        i <= scan_word_end(s, i) <= s.len(),
    decreases s.len() - i,
{
    if i < s.len() && !is_space(s[i]) {
        lemma_scan_word_end(s, i + 1);
    }
}

pub proof fn lemma_scan_space_end(s: Seq<char>, i: int)
    requires
        0 <= i <= s.len(),
    ensures
        i <= scan_space_end(s, i) <= s.len(),
    decreases s.len() - i,
{
    if i < s.len() && is_space(s[i]) {
        lemma_scan_space_end(s, i + 1);
    }
}

/// The maximal non-space runs of `s`, from position `i` on.
pub open spec fn spec_words_from(s: Seq<char>, i: int) -> Seq<Seq<char>>
    decreases s.len() - i,
    when 0 <= i <= s.len()
    via spec_words_from_dec
{
    if i >= s.len() {
        Seq::empty()
    } else if is_space(s[i]) {
        spec_words_from(s, scan_space_end(s, i + 1))
    } else {
        let e = scan_word_end(s, i + 1);
        seq![s.subrange(i, e)] + spec_words_from(s, e)
    }
}

#[via_fn]
proof fn spec_words_from_dec(s: Seq<char>, i: int) {
    if 0 <= i < s.len() {
        if is_space(s[i]) {
            lemma_scan_space_end(s, i + 1);
        } else {
            lemma_scan_word_end(s, i + 1);
        }
    }
}

pub open spec fn spec_words(s: Seq<char>) -> Seq<Seq<char>> {
    spec_words_from(s, 0)
}

/// Words joined by single spaces.
pub open spec fn spec_join_words(ws: Seq<Seq<char>>) -> Seq<char>
    decreases ws.len(),
{
    if ws.len() == 0 {
        Seq::empty()
    } else if ws.len() == 1 {
        ws[0]
    } else {
        ws[0] + seq![' '] + spec_join_words(ws.skip(1))
    }
}

/// `s` with every run of whitespace collapsed to one space and the ends trimmed.
pub open spec fn collapse_ws(s: Seq<char>) -> Seq<char> {
    spec_join_words(spec_words(s))
}

fn scan_word_end_exec(s: &Vec<char>, i: usize) -> (r: usize)
    requires
        i <= s@.len(),
    ensures
        r == scan_word_end(s@, i as int),
        i <= r <= s@.len(),
    decreases s@.len() - i,
{
    if i < s.len() && !is_space_exec(s[i]) {
        scan_word_end_exec(s, i + 1)
    } else {
        i
    }
}

fn scan_space_end_exec(s: &Vec<char>, i: usize) -> (r: usize)
    requires
        i <= s@.len(),
    ensures
        r == scan_space_end(s@, i as int),
        i <= r <= s@.len(),
    decreases s@.len() - i,
{
    if i < s.len() && is_space_exec(s[i]) {
        scan_space_end_exec(s, i + 1)
    } else {
        i
    }
}

pub fn copy_range(s: &Vec<char>, from: usize, to: usize) -> (r: Vec<char>)
    requires
        from <= to <= s@.len(),
    ensures
        r@ == s@.subrange(from as int, to as int),
{
    let mut r: Vec<char> = Vec::new();
    let mut i: usize = from;
    while i < to
        invariant
            from <= i <= to <= s@.len(),
            r@ =~= s@.subrange(from as int, i as int),
        decreases to - i,
    {
        r.push(s[i]);
        i = i + 1;
        proof {
            assert(r@ =~= s@.subrange(from as int, i as int));
        }
    }
    r
}

/// Every word produced by `spec_words_from` is non-empty.
pub proof fn lemma_words_nonempty(s: Seq<char>, i: int)
    requires
        0 <= i <= s.len(),
    ensures
        forall|k: int|
            0 <= k < spec_words_from(s, i).len() ==> #[trigger] spec_words_from(s, i)[k].len()
                >= 1,
    decreases s.len() - i,
{
    if i >= s.len() {
    } else if is_space(s[i]) {
        let e2 = scan_space_end(s, i + 1);
        lemma_scan_space_end(s, i + 1);
        lemma_words_nonempty(s, e2);
        let ws = spec_words_from(s, i);
        assert(ws == spec_words_from(s, e2));
        assert forall|k: int| 0 <= k < ws.len() implies #[trigger] ws[k].len() >= 1 by {
            assert(ws[k] == spec_words_from(s, e2)[k]);
        }
    } else {
        let e = scan_word_end(s, i + 1);
        lemma_scan_word_end(s, i + 1);
        lemma_words_nonempty(s, e);
        let ws = spec_words_from(s, i);
        let tail = spec_words_from(s, e);
        assert(ws == seq![s.subrange(i, e)] + tail);
        assert forall|k: int| 0 <= k < ws.len() implies #[trigger] ws[k].len() >= 1 by {
            if k == 0 {
                assert(ws[0] == s.subrange(i, e));
                assert(s.subrange(i, e).len() == e - i >= 1);
            } else {
                assert(ws[k] == tail[k - 1]);
                assert(tail[k - 1].len() >= 1);
            }
        }
    }
}

/// Joining non-empty words yields the empty sequence only for no words at all.
pub proof fn lemma_join_empty(ws: Seq<Seq<char>>)
    requires
        forall|k: int| 0 <= k < ws.len() ==> #[trigger] ws[k].len() >= 1,
    ensures
        (spec_join_words(ws).len() == 0) <==> (ws.len() == 0),
    decreases ws.len(),
{
    if ws.len() >= 2 {
        assert(spec_join_words(ws).len() >= ws[0].len() + 1);
    }
}

fn collapse_ws_from(s: &Vec<char>, i: usize) -> (r: Vec<char>)
    requires
        i <= s@.len(),
    ensures
        r@ == spec_join_words(spec_words_from(s@, i as int)),
    decreases s@.len() - i,
{
    if i >= s.len() {
        Vec::new()
    } else if is_space_exec(s[i]) {
        let e = scan_space_end_exec(s, i + 1);
        collapse_ws_from(s, e)
    } else {
        let e = scan_word_end_exec(s, i + 1);
        let mut out = copy_range(s, i, e);
        let mut rest = collapse_ws_from(s, e);
        proof {
            lemma_scan_word_end(s@, i + 1);
            lemma_words_nonempty(s@, e as int);
            lemma_join_empty(spec_words_from(s@, e as int));
        }
        let ghost ws = spec_words_from(s@, i as int);
        let ghost tail = spec_words_from(s@, e as int);
        if rest.len() == 0 {
            proof {
                assert(tail.len() == 0);
                assert(ws =~= seq![s@.subrange(i as int, e as int)] + tail);
                assert(ws.len() == 1);
                assert(out@ == ws[0]);
            }
            out
        } else {
            out.push(' ');
            out.append(&mut rest);
            proof {
                assert(tail.len() >= 1);
                assert(ws =~= seq![s@.subrange(i as int, e as int)] + tail);
                assert(ws.len() >= 2);
                assert(ws.skip(1) =~= tail);
                assert(out@ =~= ws[0] + seq![' '] + spec_join_words(ws.skip(1)));
            }
            out
        }
    }
}

/// `s` with whitespace collapsed, as `collapse_ws`.
pub fn collapse_ws_exec(s: &Vec<char>) -> (r: Vec<char>)
    ensures
        r@ == collapse_ws(s@),
{
    collapse_ws_from(s, 0)
}

// ---------------------------------------------------------------------------
// Trimming
// ---------------------------------------------------------------------------

/// `s` without leading or trailing whitespace.
pub open spec fn spec_trim(s: Seq<char>) -> Seq<char> {
    let b = scan_space_end(s, 0);
    if b == s.len() {
        Seq::empty()
    } else {
        let e = trim_end_from(s, s.len() as int);
        s.subrange(b, e)
    }
}

/// Position after the last non-space character before `i`.
pub open spec fn trim_end_from(s: Seq<char>, i: int) -> int
    decreases i,
    when 0 <= i <= s.len()
{
    if i > 0 && is_space(s[i - 1]) {
        trim_end_from(s, i - 1)
    } else {
        i
    }
}

pub proof fn lemma_trim_end_from(s: Seq<char>, i: int)
    requires
        0 <= i <= s.len(),
    ensures
        0 <= trim_end_from(s, i) <= i,
    decreases i,
{
    if i > 0 && is_space(s[i - 1]) {
        lemma_trim_end_from(s, i - 1);
    }
}

fn trim_end_from_exec(s: &Vec<char>, i: usize) -> (r: usize)
    requires
        i <= s@.len(),
    ensures
        r == trim_end_from(s@, i as int),
        r <= i,
    decreases i,
{
    if i > 0 && is_space_exec(s[i - 1]) {
        trim_end_from_exec(s, i - 1)
    } else {
        i
    }
}

/// A space scan stops at the end or on a non-space character.
proof fn lemma_scan_space_end_stop(s: Seq<char>, i: int)
    requires
        0 <= i <= s.len(),
    ensures
        scan_space_end(s, i) < s.len() ==> !is_space(s[scan_space_end(s, i)]),
    decreases s.len() - i,
{
    if i < s.len() && is_space(s[i]) {
        lemma_scan_space_end_stop(s, i + 1);
    }
}

/// Every position from a trim scan's stopping point up to its start holds a space.
proof fn lemma_trim_end_all(s: Seq<char>, i: int, j: int)
    requires
        0 <= i <= s.len(),
        trim_end_from(s, i) <= j < i,
    ensures
        is_space(s[j]),
    decreases i,
{
    lemma_trim_end_from(s, i);
    if i > 0 && is_space(s[i - 1]) {
        if j < i - 1 {
            lemma_trim_end_all(s, i - 1, j);
        }
    }
}

pub fn trim_exec(s: &Vec<char>) -> (r: Vec<char>)
    ensures
        r@ == spec_trim(s@),
{
    let b = scan_space_end_exec(s, 0);
    if b == s.len() {
        Vec::new()
    } else {
        let e = trim_end_from_exec(s, s.len());
        proof {
            lemma_trim_end_from(s@, s@.len() as int);
            lemma_scan_space_end_stop(s@, 0);
            assert(!is_space(s@[b as int]));
            if e <= b {
                lemma_trim_end_all(s@, s@.len() as int, b as int);
                assert(false);
            }
        }
        copy_range(s, b, e)
    }
}

/// How a join splits over the two halves of a word list.
pub proof fn lemma_join_append(ws1: Seq<Seq<char>>, ws2: Seq<Seq<char>>)
    ensures
        ws1.len() == 0 ==> spec_join_words(ws1 + ws2) == spec_join_words(ws2),
        ws2.len() == 0 ==> spec_join_words(ws1 + ws2) == spec_join_words(ws1),
        ws1.len() > 0 && ws2.len() > 0 ==> spec_join_words(ws1 + ws2) == spec_join_words(ws1)
            + seq![' '] + spec_join_words(ws2),
    decreases ws1.len(),
{
    if ws1.len() == 0 {
        assert(ws1 + ws2 =~= ws2);
    } else if ws2.len() == 0 {
        assert(ws1 + ws2 =~= ws1);
    } else if ws1.len() == 1 {
        assert((ws1 + ws2).len() >= 2);
        assert((ws1 + ws2)[0] == ws1[0]);
        assert((ws1 + ws2).skip(1) =~= ws2);
    } else {
        lemma_join_append(ws1.skip(1), ws2);
        assert((ws1 + ws2)[0] == ws1[0]);
        assert((ws1 + ws2).skip(1) =~= ws1.skip(1) + ws2);
        assert(spec_join_words(ws1 + ws2) == ws1[0] + seq![' '] + spec_join_words(
            ws1.skip(1) + ws2,
        ));
        assert(ws1[0] + seq![' '] + (spec_join_words(ws1.skip(1)) + seq![' ']
            + spec_join_words(ws2)) =~= (ws1[0] + seq![' '] + spec_join_words(ws1.skip(1)))
            + seq![' '] + spec_join_words(ws2));
    }
}

/// The words of a text, as a vector of vectors.
pub fn words_vec(s: &Vec<char>) -> (r: Vec<Vec<char>>)
    ensures
        r@.map_values(|w: Vec<char>| w@) == spec_words(s@),
{
    let mut out: Vec<Vec<char>> = Vec::new();
    let mut i: usize = 0;
    proof {
        assert(out@.map_values(|w: Vec<char>| w@) + spec_words_from(s@, 0)
            =~= spec_words_from(s@, 0));
    }
    while i < s.len()
        invariant
            i <= s@.len(),
            out@.map_values(|w: Vec<char>| w@) + spec_words_from(s@, i as int) =~= spec_words(
                s@,
            ),
        decreases s@.len() - i,
    {
        if is_space_exec(s[i]) {
            let e = scan_space_end_exec(s, i + 1);
            i = e;
        } else {
            let e = scan_word_end_exec(s, i + 1);
            let w = copy_range(s, i, e);
            let ghost prev = out@;
            out.push(w);
            proof {
                let f = |w: Vec<char>| w@;
                let m = prev.push(w).map_values(f);
                let n = prev.map_values(f) + seq![w@];
                assert forall|k: int| 0 <= k < m.len() implies m[k] == n[k] by {
                    if k < prev.len() {
                        assert(prev.push(w)[k] == prev[k]);
                    } else {
                        assert(prev.push(w)[k] == w);
                    }
                }
                assert(m =~= n);
            }
            i = e;
            proof {
                assert(out@.map_values(|w: Vec<char>| w@) + spec_words_from(s@, i as int)
                    =~= spec_words(s@));
            }
        }
    }
    proof {
        assert(spec_words_from(s@, i as int) =~= Seq::<Seq<char>>::empty());
        assert(out@.map_values(|w: Vec<char>| w@) =~= spec_words(s@));
    }
    out
}

} // verus!
