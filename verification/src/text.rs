//! Character-sequence utilities with exact specifications: substring tests,
//! replacement, splitting into pieces, trimming and path components. Text is
//! handled as `Vec<char>`, whose view is the `Seq<char>` of a `String`.

use vstd::prelude::*;
use crate::outside::push_char;

verus! {

/// A `Vec<char>`'s deep view is its view.
pub broadcast proof fn lemma_chars_deep_view(w: Vec<char>)
    ensures
        #[trigger] w.deep_view() == w@,
{
    assert(w.deep_view() =~= w@);
}

/// The characters of a string.
pub fn chars_of(s: &str) -> (v: Vec<char>)
    ensures
        v@ == s@,
{
    let mut v: Vec<char> = Vec::new();
    for c in it: s.chars()
        invariant
            v@ == it.seq().take(it.index()),
            it.seq() == s@,
    {
        v.push(c);
    }
    v
}

/// The string made of the characters `cs`.
pub fn string_of(cs: &[char]) -> (s: String)
    ensures
        s@ == cs@,
{
    let mut s = String::new();
    let mut i: usize = 0;
    while i < cs.len()
        invariant
            i <= cs.len(),
            s@ == cs@.take(i as int),
        decreases cs.len() - i,
    {
        push_char(&mut s, cs[i]);
        assert(cs@.take(i as int + 1) =~= cs@.take(i as int).push(cs[i as int]));
        i = i + 1;
    }
    assert(cs@.take(cs.len() as int) =~= cs@);
    s
}

/// Equality of two character sequences.
pub fn eq_chars(a: &[char], b: &[char]) -> (r: bool)
    ensures
        r == (a@ == b@),
{
    if a.len() != b.len() {
        return false;
    }
    let mut i: usize = 0;
    while i < a.len()
        invariant
            a.len() == b.len(),
            i <= a.len(),
            forall|j: int| 0 <= j < i ==> a@[j] == b@[j],
        decreases a.len() - i,
    {
        if a[i] != b[i] {
            return false;
        }
        i = i + 1;
    }
    assert(a@ =~= b@);
    true
}

/// Equality of a character sequence with a string literal.
pub fn eq_str(a: &[char], lit: &str) -> (r: bool)
    ensures
        r == (a@ == lit@),
{
    let l = chars_of(lit);
    eq_chars(a, l.as_slice())
}

// ── Prefix, suffix and substring ────────────────────────────────────────────

pub open spec fn starts_with_spec(s: Seq<char>, p: Seq<char>) -> bool {
    p.len() <= s.len() && s.subrange(0, p.len() as int) == p
}

pub open spec fn ends_with_spec(s: Seq<char>, p: Seq<char>) -> bool {
    p.len() <= s.len() && s.subrange(s.len() - p.len(), s.len() as int) == p
}

/// `p` occurs in `s` at position `i`.
pub open spec fn occurs_at(s: Seq<char>, p: Seq<char>, i: int) -> bool {
    0 <= i && i + p.len() <= s.len() && s.subrange(i, i + p.len()) == p
}

pub open spec fn contains_spec(s: Seq<char>, p: Seq<char>) -> bool {
    exists|i: int| #[trigger] occurs_at(s, p, i)
}

fn matches_at(s: &[char], p: &[char], i: usize) -> (r: bool)
    requires
        i <= s.len(),
    ensures
        r == occurs_at(s@, p@, i as int),
{
    if p.len() > s.len() - i {
        return false;
    }
    let mut j: usize = 0;
    while j < p.len()
        invariant
            i + p.len() <= s.len(),
            j <= p.len(),
            forall|k: int| 0 <= k < j ==> s@[i + k] == p@[k],
        decreases p.len() - j,
    {
        if s[i + j] != p[j] {
            assert(s@.subrange(i as int, i + p.len())[j as int] != p@[j as int]);
            return false;
        }
        j = j + 1;
    }
    assert(s@.subrange(i as int, i + p.len()) =~= p@);
    true
}

pub fn starts_with(s: &[char], p: &[char]) -> (r: bool)
    ensures
        r == starts_with_spec(s@, p@),
{
    matches_at(s, p, 0)
}

pub fn starts_with_str(s: &[char], lit: &str) -> (r: bool)
    ensures
        r == starts_with_spec(s@, lit@),
{
    let l = chars_of(lit);
    starts_with(s, l.as_slice())
}

pub fn ends_with(s: &[char], p: &[char]) -> (r: bool)
    ensures
        r == ends_with_spec(s@, p@),
{
    if p.len() > s.len() {
        return false;
    }
    matches_at(s, p, s.len() - p.len())
}

pub fn ends_with_str(s: &[char], lit: &str) -> (r: bool)
    ensures
        r == ends_with_spec(s@, lit@),
{
    let l = chars_of(lit);
    ends_with(s, l.as_slice())
}

pub fn contains(s: &[char], p: &[char]) -> (r: bool)
    ensures
        r == contains_spec(s@, p@),
{
    if p.len() > s.len() {
        assert forall|i: int| !occurs_at(s@, p@, i) by {}
        return false;
    }
    if p.len() == 0 {
        assert(s@.subrange(0, 0) =~= p@);
        assert(occurs_at(s@, p@, 0));
        return true;
    }
    let mut i: usize = 0;
    while i <= s.len() - p.len()
        invariant
            0 < p.len() <= s.len(),
            i <= s.len() - p.len() + 1,
            forall|k: int| 0 <= k < i ==> !occurs_at(s@, p@, k),
        decreases s.len() - p.len() + 1 - i,
    {
        if matches_at(s, p, i) {
            return true;
        }
        i = i + 1;
    }
    assert forall|k: int| !occurs_at(s@, p@, k) by {
        if 0 <= k < i {
        }
    }
    false
}

pub fn contains_str(s: &[char], lit: &str) -> (r: bool)
    ensures
        r == contains_spec(s@, lit@),
{
    let l = chars_of(lit);
    contains(s, l.as_slice())
}

pub open spec fn has_char(s: Seq<char>, c: char) -> bool {
    exists|i: int| 0 <= i < s.len() && s[i] == c
}

pub fn contains_char(s: &[char], c: char) -> (r: bool)
    ensures
        r == has_char(s@, c),
{
    let mut i: usize = 0;
    while i < s.len()
        invariant
            i <= s.len(),
            forall|k: int| 0 <= k < i ==> s@[k] != c,
        decreases s.len() - i,
    {
        if s[i] == c {
            return true;
        }
        i = i + 1;
    }
    false
}

/// Index of the first occurrence of `c` in `s`, if any.
pub open spec fn first_index_of(s: Seq<char>, c: char) -> Option<int>
    decreases s.len(),
{
    if s.len() == 0 {
        None
    } else if s[0] == c {
        Some(0)
    } else {
        match first_index_of(s.drop_first(), c) {
            Some(k) => Some(k + 1),
            None => None,
        }
    }
}

pub fn find_char(s: &[char], c: char) -> (r: Option<usize>)
    ensures
        r matches Some(k) ==> first_index_of(s@, c) == Some(k as int),
        r is None ==> first_index_of(s@, c) is None,
{
    let mut i: usize = 0;
    assert(s@.skip(0) =~= s@);
    while i < s.len()
        invariant
            i <= s.len(),
            forall|k: int| 0 <= k < i ==> s@[k] != c,
            first_index_of(s@, c) == (match first_index_of(s@.skip(i as int), c) {
                Some(k) => Some(k + i),
                None => None,
            }),
        decreases s.len() - i,
    {
        assert(s@.skip(i as int).drop_first() =~= s@.skip(i as int + 1));
        if s[i] == c {
            return Some(i);
        }
        i = i + 1;
    }
    None
}

// ── Replacement ─────────────────────────────────────────────────────────────

/// `str::replace`: every non-overlapping occurrence of a non-empty `pat`,
/// scanned from the left, replaced by `rep`.
pub open spec fn replace_all(s: Seq<char>, pat: Seq<char>, rep: Seq<char>) -> Seq<char>
    decreases s.len(),
{
    if pat.len() == 0 || s.len() == 0 {
        s
    } else if starts_with_spec(s, pat) {
        rep + replace_all(s.skip(pat.len() as int), pat, rep)
    } else {
        seq![s[0]] + replace_all(s.drop_first(), pat, rep)
    }
}

pub fn replace(s: &[char], pat: &[char], rep: &[char]) -> (r: Vec<char>)
    requires
        pat.len() > 0,
    ensures
        r@ == replace_all(s@, pat@, rep@),
{
    let mut out: Vec<char> = Vec::new();
    let mut i: usize = 0;
    assert(s@.skip(0) =~= s@);
    assert(out@ + replace_all(s@.skip(0), pat@, rep@) =~= replace_all(s@, pat@, rep@));
    while i < s.len()
        invariant
            pat.len() > 0,
            i <= s.len(),
            out@ + replace_all(s@.skip(i as int), pat@, rep@) == replace_all(s@, pat@, rep@),
        decreases s.len() - i,
    {
        let ghost rest = s@.skip(i as int);
        if matches_at(s, pat, i) {
            assert(rest.subrange(0, pat@.len() as int) =~= s@.subrange(i as int, i + pat@.len()));
            assert(rest.skip(pat@.len() as int) =~= s@.skip(i + pat@.len()));
            let mut j: usize = 0;
            let ghost out0 = out@;
            while j < rep.len()
                invariant
                    j <= rep.len(),
                    out@ == out0 + rep@.take(j as int),
                decreases rep.len() - j,
            {
                out.push(rep[j]);
                assert(rep@.take(j as int + 1) =~= rep@.take(j as int).push(rep@[j as int]));
                j = j + 1;
            }
            assert(rep@.take(rep.len() as int) =~= rep@);
            assert(out@ + replace_all(s@.skip(i + pat@.len()), pat@, rep@) =~= out0 + (rep@
                + replace_all(rest.skip(pat@.len() as int), pat@, rep@)));
            i = i + pat.len();
        } else {
            assert(!starts_with_spec(rest, pat@)) by {
                if starts_with_spec(rest, pat@) {
                    assert(rest.subrange(0, pat@.len() as int) =~= s@.subrange(
                        i as int,
                        i + pat@.len(),
                    ));
                }
            }
            assert(rest.drop_first() =~= s@.skip(i + 1));
            let ghost out0 = out@;
            out.push(s[i]);
            assert(out@ + replace_all(s@.skip(i + 1), pat@, rep@) =~= out0 + (seq![rest[0]]
                + replace_all(rest.drop_first(), pat@, rep@)));
            i = i + 1;
        }
    }
    assert(out@ + replace_all(s@.skip(i as int), pat@, rep@) =~= out@);
    out
}

pub fn replace_str(s: &[char], pat: &str, rep: &str) -> (r: Vec<char>)
    requires
        pat@.len() > 0,
    ensures
        r@ == replace_all(s@, pat@, rep@),
{
    let p = chars_of(pat);
    let r = chars_of(rep);
    replace(s, p.as_slice(), r.as_slice())
}

// ── Character classes, trimming and splitting ───────────────────────────────

/// The character classes the text functions split and trim on.
#[derive(Clone, Copy, PartialEq, Eq, Structural)]
pub enum CharClass {
    /// Unicode `White_Space` (what `char::is_whitespace` tests).
    Whitespace,
    /// `;`, `&`, `|`: the shell separators a probe command is split on.
    ProbeSeparator,
    /// `"`, `'`, `(`, `)`: what a shell word is cleaned of.
    ShellQuote,
    /// `ShellQuote` and `;`.
    ShellQuoteOrSemicolon,
}

pub open spec fn is_unicode_whitespace(c: char) -> bool {
    let u = c as u32;
    (0x09 <= u <= 0x0D) || u == 0x20 || u == 0x85 || u == 0xA0 || u == 0x1680 || (0x2000 <= u
        <= 0x200A) || u == 0x2028 || u == 0x2029 || u == 0x202F || u == 0x205F || u == 0x3000
}

pub open spec fn in_class(c: char, k: CharClass) -> bool {
    match k {
        CharClass::Whitespace => is_unicode_whitespace(c),
        CharClass::ProbeSeparator => c == ';' || c == '&' || c == '|',
        CharClass::ShellQuote => c == '"' || c == '\'' || c == '(' || c == ')',
        CharClass::ShellQuoteOrSemicolon => c == '"' || c == '\'' || c == '(' || c == ')' || c
            == ';',
    }
}

pub fn char_in_class(c: char, k: CharClass) -> (r: bool)
    ensures
        r == in_class(c, k),
{
    match k {
        CharClass::Whitespace => {
            let u = c as u32;
            (0x09 <= u && u <= 0x0D) || u == 0x20 || u == 0x85 || u == 0xA0 || u == 0x1680 || (
            0x2000 <= u && u <= 0x200A) || u == 0x2028 || u == 0x2029 || u == 0x202F || u
                == 0x205F || u == 0x3000
        },
        CharClass::ProbeSeparator => c == ';' || c == '&' || c == '|',
        CharClass::ShellQuote => c == '"' || c == '\'' || c == '(' || c == ')',
        CharClass::ShellQuoteOrSemicolon => c == '"' || c == '\'' || c == '(' || c == ')' || c
            == ';',
    }
}

pub open spec fn trim_start_spec(s: Seq<char>, k: CharClass) -> Seq<char>
    decreases s.len(),
{
    if s.len() > 0 && in_class(s[0], k) {
        trim_start_spec(s.drop_first(), k)
    } else {
        s
    }
}

pub open spec fn trim_end_spec(s: Seq<char>, k: CharClass) -> Seq<char>
    decreases s.len(),
{
    if s.len() > 0 && in_class(s.last(), k) {
        trim_end_spec(s.drop_last(), k)
    } else {
        s
    }
}

/// `s` without its leading and trailing characters of class `k`
/// (`str::trim_matches`; `str::trim` for whitespace).
pub open spec fn trim_spec(s: Seq<char>, k: CharClass) -> Seq<char> {
    trim_end_spec(trim_start_spec(s, k), k)
}

pub fn trim(s: &[char], k: CharClass) -> (r: Vec<char>)
    ensures
        r@ == trim_spec(s@, k),
{
    let mut a: usize = 0;
    assert(s@.skip(0) =~= s@);
    while a < s.len() && char_in_class(s[a], k)
        invariant
            a <= s.len(),
            trim_start_spec(s@.skip(a as int), k) == trim_start_spec(s@, k),
        decreases s.len() - a,
    {
        assert(s@.skip(a as int).drop_first() =~= s@.skip(a as int + 1));
        a = a + 1;
    }
    assert(trim_start_spec(s@.skip(a as int), k) == s@.skip(a as int));
    let mut b: usize = s.len();
    while b > a && char_in_class(s[b - 1], k)
        invariant
            a <= b <= s.len(),
            trim_start_spec(s@, k) == s@.skip(a as int),
            trim_end_spec(s@.subrange(a as int, b as int), k) == trim_spec(s@, k),
        decreases b - a,
    {
        assert(s@.subrange(a as int, b as int).drop_last() =~= s@.subrange(a as int, b - 1));
        b = b - 1;
    }
    assert(s@.skip(a as int) =~= s@.subrange(a as int, s.len() as int));
    let mut out: Vec<char> = Vec::new();
    let mut i: usize = a;
    while i < b
        invariant
            a <= i <= b <= s.len(),
            out@ == s@.subrange(a as int, i as int),
        decreases b - i,
    {
        out.push(s[i]);
        assert(s@.subrange(a as int, i + 1) =~= s@.subrange(a as int, i as int).push(s@[i as int]));
        i = i + 1;
    }
    out
}

/// `cur` as a piece, unless it is empty.
pub open spec fn flush(cur: Seq<char>) -> Seq<Seq<char>> {
    if cur.len() == 0 {
        seq![]
    } else {
        seq![cur]
    }
}

/// Splitting `rest` on characters of class `k` when the piece `cur` is
/// already under way; empty pieces are dropped.
pub open spec fn pieces_acc(cur: Seq<char>, rest: Seq<char>, k: CharClass) -> Seq<Seq<char>>
    decreases rest.len(),
{
    if rest.len() == 0 {
        flush(cur)
    } else if in_class(rest[0], k) {
        flush(cur) + pieces_acc(seq![], rest.drop_first(), k)
    } else {
        pieces_acc(cur.push(rest[0]), rest.drop_first(), k)
    }
}

/// The maximal runs of characters outside class `k`, in order
/// (`str::split_whitespace` for whitespace).
pub open spec fn pieces(s: Seq<char>, k: CharClass) -> Seq<Seq<char>> {
    pieces_acc(seq![], s, k)
}

pub fn split_pieces(s: &[char], k: CharClass) -> (r: Vec<Vec<char>>)
    ensures
        r.deep_view() == pieces(s@, k),
{
    broadcast use lemma_chars_deep_view;

    let mut out: Vec<Vec<char>> = Vec::new();
    let mut cur: Vec<char> = Vec::new();
    let mut i: usize = 0;
    assert(s@.skip(0) =~= s@);
    assert(cur@ =~= seq![]);
    assert(out.deep_view() =~= seq![]);
    assert(out.deep_view() + pieces_acc(cur@, s@.skip(0), k) =~= pieces(s@, k));
    while i < s.len()
        invariant
            i <= s.len(),
            out.deep_view() + pieces_acc(cur@, s@.skip(i as int), k) == pieces(s@, k),
        decreases s.len() - i,
    {
        let ghost rest = s@.skip(i as int);
        assert(rest.drop_first() =~= s@.skip(i as int + 1));
        let ghost old_out = out.deep_view();
        if char_in_class(s[i], k) {
            if cur.len() > 0 {
                let ghost cw = cur@;
                out.push(cur);
                assert(out@[out.len() - 1].deep_view() == cw);
                assert(out.deep_view() =~= old_out + seq![cw]);
            } else {
                assert(out.deep_view() =~= old_out + flush(cur@));
            }
            assert(old_out + (flush(cur@) + pieces_acc(seq![], rest.drop_first(), k)) =~= (old_out
                + flush(cur@)) + pieces_acc(seq![], rest.drop_first(), k));
            cur = Vec::new();
            assert(cur@ =~= seq![]);
        } else {
            cur.push(s[i]);
        }
        i = i + 1;
    }
    let ghost old_out = out.deep_view();
    if cur.len() > 0 {
        let ghost cw = cur@;
        out.push(cur);
        assert(out@[out.len() - 1].deep_view() == cw);
        assert(out.deep_view() =~= old_out + seq![cw]);
    } else {
        assert(old_out + flush(cur@) =~= old_out);
    }
    out
}

// ── Path components and joining ─────────────────────────────────────────────

pub open spec fn is_path_separator(c: char) -> bool {
    c == '/' || c == '\\'
}

/// The text after the last `/` or `\` of `s`, or `s` itself when it holds
/// neither (`s.rsplit(['/', '\\']).next()`).
pub open spec fn last_component(s: Seq<char>) -> Seq<char>
    decreases s.len(),
{
    if s.len() == 0 {
        s
    } else if is_path_separator(s.last()) {
        seq![]
    } else {
        last_component(s.drop_last()).push(s.last())
    }
}

pub fn file_name(s: &[char]) -> (r: Vec<char>)
    ensures
        r@ == last_component(s@),
{
    let mut b: usize = s.len();
    assert(s@.take(b as int) =~= s@);
    assert(s@.subrange(b as int, s.len() as int) =~= seq![]);
    assert(last_component(s@) =~= last_component(s@.take(b as int)) + s@.subrange(b as int, s.len() as int));
    while b > 0 && !(s[b - 1] == '/' || s[b - 1] == '\\')
        invariant
            b <= s.len(),
            last_component(s@) == last_component(s@.take(b as int)) + s@.subrange(
                b as int,
                s.len() as int,
            ),
        decreases b,
    {
        assert(s@.take(b as int).drop_last() =~= s@.take(b - 1));
        assert(s@.subrange(b - 1, s.len() as int) =~= seq![s@[b - 1]] + s@.subrange(
            b as int,
            s.len() as int,
        ));
        assert(last_component(s@.take(b - 1)).push(s@[b - 1]) + s@.subrange(
            b as int,
            s.len() as int,
        ) =~= last_component(s@.take(b - 1)) + s@.subrange(b - 1, s.len() as int));
        b = b - 1;
    }
    assert(last_component(s@.take(b as int)) =~= seq![]);
    let mut out: Vec<char> = Vec::new();
    let mut i: usize = b;
    while i < s.len()
        invariant
            b <= i <= s.len(),
            out@ == s@.subrange(b as int, i as int),
        decreases s.len() - i,
    {
        out.push(s[i]);
        assert(s@.subrange(b as int, i + 1) =~= s@.subrange(b as int, i as int).push(s@[i as int]));
        i = i + 1;
    }
    assert(last_component(s@) =~= out@);
    out
}

/// The words of `ws` joined with one space between each two
/// (`[..].join(" ")`).
pub open spec fn join_spaced(ws: Seq<Seq<char>>) -> Seq<char>
    decreases ws.len(),
{
    if ws.len() == 0 {
        seq![]
    } else if ws.len() == 1 {
        ws[0]
    } else {
        join_spaced(ws.drop_last()) + seq![' '] + ws.last()
    }
}

pub fn join_with_spaces(ws: &[String]) -> (r: String)
    ensures
        r@ == join_spaced(ws.deep_view()),
{
    let mut out: Vec<char> = Vec::new();
    let mut i: usize = 0;
    while i < ws.len()
        invariant
            i <= ws.len(),
            out@ == join_spaced(ws.deep_view().take(i as int)),
        decreases ws.len() - i,
    {
        let w = chars_of(ws[i].as_str());
        let ghost before = out@;
        if i > 0 {
            out.push(' ');
        }
        let mut j: usize = 0;
        while j < w.len()
            invariant
                j <= w.len(),
                out@ == (if i > 0 {
                    before + seq![' ']
                } else {
                    before
                }) + w@.take(j as int),
            decreases w.len() - j,
        {
            out.push(w[j]);
            assert(w@.take(j as int + 1) =~= w@.take(j as int).push(w@[j as int]));
            j = j + 1;
        }
        assert(w@.take(w.len() as int) =~= w@);
        assert(ws.deep_view().take(i + 1).drop_last() =~= ws.deep_view().take(i as int));
        if i == 0 {
            assert(join_spaced(ws.deep_view().take(0)) =~= seq![]);
            assert(out@ =~= join_spaced(ws.deep_view().take(1)));
        }
        i = i + 1;
    }
    assert(ws.deep_view().take(ws.len() as int) =~= ws.deep_view());
    string_of(out.as_slice())
}

// ── JSON string literals ────────────────────────────────────────────────────

/// Bytes `serde_json` writes for one character inside a string literal.
pub open spec fn json_char_len(c: char) -> nat {
    if c == '"' || c == '\\' || c == '\u{8}' || c == '\u{c}' || c == '\n' || c == '\r' || c
        == '\t' {
        2
    } else if (c as u32) < 0x20 {
        6
    } else if (c as u32) < 0x80 {
        1
    } else if (c as u32) < 0x800 {
        2
    } else if (c as u32) < 0x10000 {
        3
    } else {
        4
    }
}

/// Bytes of the JSON string literal `serde_json` writes for the text `s`,
/// quotes included.
pub open spec fn json_quoted_len(s: Seq<char>) -> nat
    decreases s.len(),
{
    if s.len() == 0 {
        2
    } else {
        json_quoted_len(s.drop_last()) + json_char_len(s.last())
    }
}

proof fn lemma_pieces_acc_split(cur: Seq<char>, a: Seq<char>, c: char, b: Seq<char>, k: CharClass)
    requires
        in_class(c, k),
    ensures
        pieces_acc(cur, a.push(c) + b, k) == pieces_acc(cur, a, k) + pieces(b, k),
    decreases a.len(),
{
    let x = a.push(c) + b;
    if a.len() == 0 {
        assert(x[0] == c);
        assert(x.drop_first() =~= b);
        assert(pieces_acc(cur, x, k) == flush(cur) + pieces_acc(seq![], b, k));
    } else {
        let a1 = a.drop_first();
        assert(x[0] == a[0]);
        assert(x.drop_first() =~= a1.push(c) + b);
        if in_class(a[0], k) {
            lemma_pieces_acc_split(seq![], a1, c, b, k);
            assert(pieces_acc(cur, x, k) == flush(cur) + pieces_acc(seq![], a1.push(c) + b, k));
            assert(pieces_acc(cur, a, k) == flush(cur) + pieces_acc(seq![], a1, k));
            assert(flush(cur) + (pieces_acc(seq![], a1, k) + pieces(b, k)) =~= (flush(cur)
                + pieces_acc(seq![], a1, k)) + pieces(b, k));
        } else {
            lemma_pieces_acc_split(cur.push(a[0]), a1, c, b, k);
        }
    }
}

/// Splitting at a separator: the pieces of `a`, a character of class `k`,
/// then `b`, are the pieces of `a` followed by those of `b`.
pub proof fn pieces_split_at_separator(a: Seq<char>, c: char, b: Seq<char>, k: CharClass)
    requires
        in_class(c, k),
    ensures
        pieces(a.push(c) + b, k) == pieces(a, k) + pieces(b, k),
{
    lemma_pieces_acc_split(seq![], a, c, b, k);
}

proof fn lemma_pieces_acc_whole(cur: Seq<char>, s: Seq<char>, k: CharClass)
    requires
        forall|i: int| 0 <= i < s.len() ==> !in_class(#[trigger] s[i], k),
    ensures
        pieces_acc(cur, s, k) == flush(cur + s),
    decreases s.len(),
{
    if s.len() == 0 {
        assert(cur + s =~= cur);
    } else {
        let s1 = s.drop_first();
        assert(!in_class(s[0], k));
        assert forall|i: int| 0 <= i < s1.len() implies !in_class(#[trigger] s1[i], k) by {
            assert(s1[i] == s[i + 1]);
        }
        lemma_pieces_acc_whole(cur.push(s[0]), s1, k);
        assert(cur.push(s[0]) + s1 =~= cur + s);
    }
}

/// A text without characters of class `k` is one piece (none if empty).
pub proof fn pieces_without_separator(s: Seq<char>, k: CharClass)
    requires
        forall|i: int| 0 <= i < s.len() ==> !in_class(#[trigger] s[i], k),
    ensures
        pieces(s, k) == flush(s),
{
    lemma_pieces_acc_whole(seq![], s, k);
    assert(seq![] + s =~= s);
}

} // verus!
