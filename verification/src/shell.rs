//! Static analysis of shell command text: tokenizing into words, finding the
//! files a command writes, and recognizing commands that can write files in
//! ways the target parsers do not capture.
//!
//! FORGE's guard and SENTINEL's guard use two slightly different dialects:
//! SENTINEL also trims `;` off words, scans a whole command (rather than each
//! `&&`/`||`/`;`/`|` segment) for write-capable executables, and treats fewer
//! interpreters as opaque writers.

use vstd::prelude::*;
use crate::text::{lemma_chars_deep_view, starts_with_spec, starts_with_str, chars_of, eq_str, contains_str, contains_spec, trim, trim_spec, CharClass, replace_str, replace_all, split_pieces, pieces, first_index_of, find_char, has_char, contains_char};
use crate::outside::{to_lowercase, unicode_lowercase};

verus! {

broadcast use lemma_chars_deep_view;

/// Which guard's tokenizing and write-detection rules apply.
#[derive(Clone, Copy, PartialEq, Eq, Structural)]
pub enum Dialect {
    Forge,
    Sentinel,
}

// ── Literal lists ────────────────────────────────────────────────────────────

/// The views of a list of string literals.
pub open spec fn strs_view(l: Seq<&str>) -> Seq<Seq<char>> {
    l.map_values(|s: &str| s@)
}

/// `w` equals one of the literals in `list`.
pub fn one_of(w: &[char], list: &[&str]) -> (r: bool)
    ensures
        r == strs_view(list@).contains(w@),
{
    let mut i: usize = 0;
    while i < list.len()
        invariant
            i <= list.len(),
            forall|j: int| 0 <= j < i ==> list@[j]@ != w@,
        decreases list.len() - i,
    {
        if eq_str(w, list[i]) {
            assert(strs_view(list@)[i as int] == w@);
            return true;
        }
        i = i + 1;
    }
    assert(!strs_view(list@).contains(w@)) by {
        if strs_view(list@).contains(w@) {
            let j = choose|j: int| 0 <= j < strs_view(list@).len() && strs_view(list@)[j] == w@;
            assert(list@[j]@ == w@);
        }
    }
    false
}

/// `s` contains one of the literals in `list` as a substring.
pub fn contains_one_of(s: &[char], list: &[&str]) -> (r: bool)
    ensures
        r == exists|j: int| 0 <= j < list@.len() && #[trigger] contains_spec(s@, list@[j]@),
{
    let mut i: usize = 0;
    while i < list.len()
        invariant
            i <= list.len(),
            forall|j: int| 0 <= j < i ==> !#[trigger] contains_spec(s@, list@[j]@),
        decreases list.len() - i,
    {
        if contains_str(s, list[i]) {
            return true;
        }
        i = i + 1;
    }
    false
}

// ── Words ────────────────────────────────────────────────────────────────────

pub open spec fn quote_class(d: Dialect) -> CharClass {
    match d {
        Dialect::Forge => CharClass::ShellQuote,
        Dialect::Sentinel => CharClass::ShellQuoteOrSemicolon,
    }
}

/// A word without its surrounding quotes and parentheses (and, for
/// SENTINEL, semicolons).
pub open spec fn clean_word_spec(w: Seq<char>, d: Dialect) -> Seq<char> {
    trim_spec(w, quote_class(d))
}

pub fn clean_shell_word(w: &[char], d: Dialect) -> (r: Vec<char>)
    ensures
        r@ == clean_word_spec(w@, d),
{
    let k = match d {
        Dialect::Forge => CharClass::ShellQuote,
        Dialect::Sentinel => CharClass::ShellQuoteOrSemicolon,
    };
    trim(w, k)
}

pub open spec fn redir_marker() -> Seq<char> {
    "__OPENFLOWS_REDIR__"@
}

/// The command with each redirection operator replaced by a standalone
/// marker word and each `|` and `;` surrounded by spaces.
pub open spec fn spaced_command(cmd: Seq<char>) -> Seq<char> {
    replace_all(
        replace_all(
            replace_all(replace_all(cmd, ">>"@, " __OPENFLOWS_REDIR__ "@), ">"@, " __OPENFLOWS_REDIR__ "@),
            "|"@,
            " | "@,
        ),
        ";"@,
        " ; "@,
    )
}

pub open spec fn map_word(w: Seq<char>, d: Dialect) -> Seq<char> {
    if w == redir_marker() {
        ">"@
    } else {
        clean_word_spec(w, d)
    }
}

/// The raw pieces mapped to words (the marker becomes `>`, others are
/// cleaned), dropping the words that clean to nothing.
pub open spec fn words_from(raw: Seq<Seq<char>>, d: Dialect) -> Seq<Seq<char>>
    decreases raw.len(),
{
    if raw.len() == 0 {
        seq![]
    } else {
        let m = map_word(raw[0], d);
        (if m.len() == 0 {
            seq![]
        } else {
            seq![m]
        }) + words_from(raw.drop_first(), d)
    }
}

/// The words of a shell command.
pub open spec fn shell_words_spec(cmd: Seq<char>, d: Dialect) -> Seq<Seq<char>> {
    words_from(pieces(spaced_command(cmd), CharClass::Whitespace), d)
}

pub fn shell_words(cmd: &[char], d: Dialect) -> (ws: Vec<Vec<char>>)
    ensures
        ws.deep_view() == shell_words_spec(cmd@, d),
{
    proof {
        reveal_strlit(">>");
        reveal_strlit(">");
        reveal_strlit("|");
        reveal_strlit(";");
    }
    let s1 = replace_str(cmd, ">>", " __OPENFLOWS_REDIR__ ");
    let s2 = replace_str(s1.as_slice(), ">", " __OPENFLOWS_REDIR__ ");
    let s3 = replace_str(s2.as_slice(), "|", " | ");
    let s4 = replace_str(s3.as_slice(), ";", " ; ");
    let raw = split_pieces(s4.as_slice(), CharClass::Whitespace);
    let ghost rv = raw.deep_view();
    let mut out: Vec<Vec<char>> = Vec::new();
    let mut i: usize = 0;
    assert(rv.skip(0) =~= rv);
    assert(out.deep_view() =~= seq![]);
    while i < raw.len()
        invariant
            i <= raw.len(),
            rv == raw.deep_view(),
            out.deep_view() + words_from(rv.skip(i as int), d) == words_from(rv, d),
        decreases raw.len() - i,
    {
        assert(rv.skip(i as int).drop_first() =~= rv.skip(i as int + 1));
        assert(rv[i as int] == raw[i as int]@);
        let m = if eq_str(raw[i].as_slice(), "__OPENFLOWS_REDIR__") {
            chars_of(">")
        } else {
            clean_shell_word(raw[i].as_slice(), d)
        };
        let ghost old_out = out.deep_view();
        let ghost mw = m@;
        if m.len() > 0 {
            out.push(m);
            assert(out@[out.len() - 1].deep_view() == mw);
            assert(out.deep_view() =~= old_out + seq![mw]);
            assert(old_out + (seq![mw] + words_from(rv.skip(i + 1), d)) =~= old_out + seq![mw]
                + words_from(rv.skip(i + 1), d));
        } else {
            assert(old_out + (seq![] + words_from(rv.skip(i + 1), d)) =~= old_out + words_from(
                rv.skip(i + 1),
                d,
            ));
        }
        i = i + 1;
    }
    assert(out.deep_view() + words_from(rv.skip(i as int), d) =~= out.deep_view());
    out
}

// ── Word predicates ──────────────────────────────────────────────────────────

pub open spec fn is_separator_spec(w: Seq<char>) -> bool {
    w == "|"@ || w == ";"@ || w == "&&"@ || w == "||"@
}

pub fn is_shell_separator(w: &[char]) -> (r: bool)
    ensures
        r == is_separator_spec(w@),
{
    eq_str(w, "|") || eq_str(w, ";") || eq_str(w, "&&") || eq_str(w, "||")
}

/// `w` starts with `-`.
pub open spec fn dashed(w: Seq<char>) -> bool {
    w.len() > 0 && w[0] == '-'
}

pub fn is_dashed(w: &[char]) -> (r: bool)
    ensures
        r == dashed(w@),
{
    w.len() > 0 && w[0] == '-'
}

/// A wrapper option: a leading dash and more than the dash alone.
pub open spec fn is_option_spec(w: Seq<char>) -> bool {
    w.len() > 1 && w[0] == '-'
}

pub fn is_option_token(w: &[char]) -> (r: bool)
    ensures
        r == is_option_spec(w@),
{
    w.len() > 1 && w[0] == '-'
}

/// `VAR=value`: an `=` after a non-empty name holding neither `-` nor `/`.
pub open spec fn is_env_assignment_spec(w: Seq<char>) -> bool {
    match first_index_of(w, '=') {
        Some(k) => k > 0 && !has_char(w.take(k), '-') && !has_char(w.take(k), '/'),
        None => false,
    }
}

proof fn lemma_first_index_bound(s: Seq<char>, c: char)
    ensures
        first_index_of(s, c) matches Some(k) ==> 0 <= k < s.len() && s[k] == c,
    decreases s.len(),
{
    if s.len() > 0 && s[0] != c {
        lemma_first_index_bound(s.drop_first(), c);
    }
}

pub fn is_env_assignment(w: &[char]) -> (r: bool)
    ensures
        r == is_env_assignment_spec(w@),
{
    proof {
        lemma_first_index_bound(w@, '=');
    }
    match find_char(w, '=') {
        Some(k) => {
            if k == 0 {
                return false;
            }
            let name = &w[0..k];
            assert(name@ =~= w@.take(k as int));
            !contains_char(name, '-') && !contains_char(name, '/')
        },
        None => false,
    }
}

pub open spec fn forwarding_wrappers() -> Seq<Seq<char>> {
    seq!["nohup"@, "nice"@, "sudo"@, "env"@, "setsid"@, "time"@, "command"@]
}

pub open spec fn wrapper_options_with_arg() -> Seq<Seq<char>> {
    seq![
        "-u"@,
        "--user"@,
        "-g"@,
        "--group"@,
        "-C"@,
        "--chroot"@,
        "-p"@,
        "--prompt"@,
        "-D"@,
        "--chdir"@,
        "-n"@,
        "--adjustment"@,
        "-S"@,
        "--set-home"@,
        "-o"@,
        "--output"@,
    ]
}

fn is_forwarding_wrapper(w: &[char]) -> (r: bool)
    ensures
        r == forwarding_wrappers().contains(w@),
{
    let list = ["nohup", "nice", "sudo", "env", "setsid", "time", "command"];
    assert(strs_view(list@) =~= forwarding_wrappers());
    one_of(w, &list)
}


fn is_wrapper_option_with_arg(w: &[char]) -> (r: bool)
    ensures
        r == wrapper_options_with_arg().contains(w@),
{
    let list = [
        "-u",
        "--user",
        "-g",
        "--group",
        "-C",
        "--chroot",
        "-p",
        "--prompt",
        "-D",
        "--chdir",
        "-n",
        "--adjustment",
        "-S",
        "--set-home",
        "-o",
        "--output",
    ];
    assert(strs_view(list@) =~= wrapper_options_with_arg());
    one_of(w, &list)
}

/// Index of the real executable in `seg`, scanning from `i` past forwarding
/// wrappers, the value-taking wrapper options with their values, other
/// options and `VAR=value` assignments; the last index when nothing is left
/// (`len - 1`, saturating at 0).
pub open spec fn resolve_from(seg: Seq<Seq<char>>, i: int) -> int
    decreases seg.len() + 1 - i,
{
    if i < 0 || i >= seg.len() {
        if seg.len() > 0 {
            seg.len() - 1
        } else {
            0
        }
    } else if forwarding_wrappers().contains(seg[i]) {
        resolve_from(seg, i + 1)
    } else if wrapper_options_with_arg().contains(seg[i]) {
        resolve_from(seg, i + 2)
    } else if is_option_spec(seg[i]) || is_env_assignment_spec(seg[i]) {
        resolve_from(seg, i + 1)
    } else {
        i
    }
}

proof fn lemma_resolve_bound(seg: Seq<Seq<char>>, i: int)
    requires
        0 <= i,
    ensures
        seg.len() > 0 ==> 0 <= resolve_from(seg, i) < seg.len(),
        seg.len() == 0 ==> resolve_from(seg, i) == 0,
    decreases seg.len() + 1 - i,
{
    if i < seg.len() {
        if forwarding_wrappers().contains(seg[i]) {
            lemma_resolve_bound(seg, i + 1);
        } else if wrapper_options_with_arg().contains(seg[i]) {
            lemma_resolve_bound(seg, i + 2);
        } else if is_option_spec(seg[i]) || is_env_assignment_spec(seg[i]) {
            lemma_resolve_bound(seg, i + 1);
        }
    }
}

/// Resolve the index of the real executable after a forwarding-wrapper
/// prefix (`sudo -u root git ...`, `env SOME=1 git ...`).
pub fn resolve_executable_index(seg: &[Vec<char>]) -> (idx: usize)
    ensures
        idx == resolve_from(seg.deep_view(), 0),
        seg.len() > 0 ==> idx < seg.len(),
{
    let ghost sv = seg.deep_view();
    proof {
        lemma_resolve_bound(sv, 0);
    }
    let mut i: usize = 0;
    while i < seg.len()
        invariant
            sv == seg.deep_view(),
            i <= seg.len() + 1,
            resolve_from(sv, i as int) == resolve_from(sv, 0),
        decreases seg.len() + 1 - i,
    {
        assert(sv[i as int] == seg@[i as int]@);
        let w = seg[i].as_slice();
        if is_forwarding_wrapper(w) {
            i = i + 1;
            continue;
        }
        if is_wrapper_option_with_arg(w) {
            // skip the option and its separate value token
            if i + 1 < seg.len() {
                i = i + 2;
            } else {
                assert(resolve_from(sv, i + 2) == resolve_from(sv, seg.len() as int));
                i = seg.len();
            }
            continue;
        }
        if is_option_token(w) || is_env_assignment(w) {
            i = i + 1;
            continue;
        }
        return i;
    }
    if seg.len() > 0 {
        seg.len() - 1
    } else {
        0
    }
}

// ── Write-capable commands ───────────────────────────────────────────────────

pub open spec fn git_write_subcommands() -> Seq<Seq<char>> {
    seq![
        "checkout"@,
        "restore"@,
        "reset"@,
        "stash"@,
        "rm"@,
        "mv"@,
        "apply"@,
        "am"@,
        "merge"@,
        "rebase"@,
        "cherry-pick"@,
        "clean"@,
        "pull"@,
    ]
}

pub open spec fn shell_interpreters() -> Seq<Seq<char>> {
    seq!["sh"@, "bash"@, "zsh"@, "ksh"@, "dash"@]
}

/// `-o`, `-O` or an option starting with `--output`.
pub open spec fn is_output_flag(w: Seq<char>) -> bool {
    w == "-o"@ || w == "-O"@ || starts_with_spec(w, "--output"@)
}

pub open spec fn has_output_flag(ws: Seq<Seq<char>>) -> bool {
    exists|j: int| 0 <= j < ws.len() && #[trigger] is_output_flag(ws[j])
}

/// The first word of `rest` that is neither an option nor a separator
/// (empty if there is none): `git`'s subcommand.
pub open spec fn first_positional(rest: Seq<Seq<char>>) -> Seq<char>
    decreases rest.len(),
{
    if rest.len() == 0 {
        Seq::empty()
    } else if !dashed(rest[0]) && !is_separator_spec(rest[0]) {
        rest[0]
    } else {
        first_positional(rest.drop_first())
    }
}

/// Whether one command segment can write files in a way the target parsers
/// do not capture (FORGE: per segment, relative to the resolved executable).
pub open spec fn segment_write_capable_spec(seg: Seq<Seq<char>>) -> bool {
    let idx = resolve_from(seg, 0);
    let cmd = seg[idx];
    let rest = seg.skip(idx + 1);
    if cmd == "dd"@ {
        true
    } else if cmd == "curl"@ || cmd == "wget"@ {
        has_output_flag(rest)
    } else if cmd == "git"@ {
        git_write_subcommands().contains(first_positional(rest))
    } else if shell_interpreters().contains(cmd) {
        rest.contains("-c"@)
    } else {
        false
    }
}

fn has_output_flag_exec(ws: &[Vec<char>]) -> (r: bool)
    ensures
        r == has_output_flag(ws.deep_view()),
{
    let mut i: usize = 0;
    while i < ws.len()
        invariant
            i <= ws.len(),
            forall|j: int| 0 <= j < i ==> !#[trigger] is_output_flag(ws.deep_view()[j]),
        decreases ws.len() - i,
    {
        assert(ws.deep_view()[i as int] == ws@[i as int]@);
        let w = ws[i].as_slice();
        if eq_str(w, "-o") || eq_str(w, "-O") || starts_with_str(w, "--output") {
            assert(is_output_flag(ws.deep_view()[i as int]));
            return true;
        }
        i = i + 1;
    }
    false
}

fn contains_word(ws: &[Vec<char>], lit: &str) -> (r: bool)
    ensures
        r == ws.deep_view().contains(lit@),
{
    let mut i: usize = 0;
    while i < ws.len()
        invariant
            i <= ws.len(),
            forall|j: int| 0 <= j < i ==> ws.deep_view()[j] != lit@,
        decreases ws.len() - i,
    {
        assert(ws.deep_view()[i as int] == ws@[i as int]@);
        if eq_str(ws[i].as_slice(), lit) {
            return true;
        }
        i = i + 1;
    }
    false
}

fn first_positional_exec(rest: &[Vec<char>]) -> (r: Vec<char>)
    ensures
        r@ == first_positional(rest.deep_view()),
{
    let ghost rv = rest.deep_view();
    let mut i: usize = 0;
    assert(rv.skip(0) =~= rv);
    while i < rest.len()
        invariant
            i <= rest.len(),
            rv == rest.deep_view(),
            first_positional(rv.skip(i as int)) == first_positional(rv),
        decreases rest.len() - i,
    {
        assert(rv.skip(i as int).drop_first() =~= rv.skip(i as int + 1));
        assert(rv[i as int] == rest@[i as int]@);
        let w = rest[i].as_slice();
        if !is_dashed(w) && !is_shell_separator(w) {
            return rest[i].clone();
        }
        i = i + 1;
    }
    Vec::new()
}

fn is_git_write_subcommand(w: &[char]) -> (r: bool)
    ensures
        r == git_write_subcommands().contains(w@),
{
    let list = [
        "checkout",
        "restore",
        "reset",
        "stash",
        "rm",
        "mv",
        "apply",
        "am",
        "merge",
        "rebase",
        "cherry-pick",
        "clean",
        "pull",
    ];
    assert(strs_view(list@) =~= git_write_subcommands());
    one_of(w, &list)
}

fn is_shell_interpreter(w: &[char]) -> (r: bool)
    ensures
        r == shell_interpreters().contains(w@),
{
    let list = ["sh", "bash", "zsh", "ksh", "dash"];
    assert(strs_view(list@) =~= shell_interpreters());
    one_of(w, &list)
}

/// Can one command segment write a file in a way the redirection / operand
/// parsers do not capture?
pub fn segment_is_write_capable(seg: &[Vec<char>]) -> (r: bool)
    requires
        seg.len() > 0,
    ensures
        r == segment_write_capable_spec(seg.deep_view()),
{
    let idx = resolve_executable_index(seg);
    assert(seg.deep_view()[idx as int] == seg@[idx as int]@);
    let cmd = seg[idx].as_slice();
    let rest = &seg[idx + 1..seg.len()];
    assert(rest.deep_view() =~= seg.deep_view().skip(idx + 1));
    if eq_str(cmd, "dd") {
        true
    } else if eq_str(cmd, "curl") || eq_str(cmd, "wget") {
        has_output_flag_exec(rest)
    } else if eq_str(cmd, "git") {
        let sub = first_positional_exec(rest);
        is_git_write_subcommand(sub.as_slice())
    } else if is_shell_interpreter(cmd) {
        contains_word(rest, "-c")
    } else {
        false
    }
}

/// Splitting `rest` into `&&`/`||`/`;`/`|` segments when the segment `cur`
/// is under way: does some non-empty segment hold a write-capable command?
pub open spec fn any_segment_write_capable(cur: Seq<Seq<char>>, rest: Seq<Seq<char>>) -> bool
    decreases rest.len(),
{
    if rest.len() == 0 {
        cur.len() > 0 && segment_write_capable_spec(cur)
    } else if is_separator_spec(rest[0]) {
        (cur.len() > 0 && segment_write_capable_spec(cur)) || any_segment_write_capable(
            seq![],
            rest.drop_first(),
        )
    } else {
        any_segment_write_capable(cur.push(rest[0]), rest.drop_first())
    }
}

/// FORGE: some segment of the command holds a write-capable command.
pub open spec fn forge_write_capable_spec(cmd: Seq<char>) -> bool {
    let ws = shell_words_spec(cmd, Dialect::Forge);
    ws.len() > 0 && any_segment_write_capable(seq![], ws)
}

/// SENTINEL: the command's resolved executable (over all of its words) is
/// write-capable.
pub open spec fn sentinel_write_capable_words(ws: Seq<Seq<char>>) -> bool {
    if ws.len() == 0 {
        false
    } else {
        let idx = resolve_from(ws, 0);
        let cmd = ws[idx];
        let next = if idx + 1 < ws.len() {
            ws[idx + 1]
        } else {
            Seq::empty()
        };
        if cmd == "dd"@ {
            true
        } else if cmd == "curl"@ || cmd == "wget"@ {
            has_output_flag(ws)
        } else if cmd == "git"@ {
            git_write_subcommands().contains(next)
        } else if shell_interpreters().contains(cmd) {
            ws.contains("-c"@)
        } else {
            false
        }
    }
}

pub open spec fn write_capable_spec(cmd: Seq<char>, d: Dialect) -> bool {
    match d {
        Dialect::Forge => forge_write_capable_spec(cmd),
        Dialect::Sentinel => sentinel_write_capable_words(shell_words_spec(cmd, Dialect::Sentinel)),
    }
}

fn forge_write_capable(cmd: &[char]) -> (r: bool)
    ensures
        r == forge_write_capable_spec(cmd@),
{
    let words = shell_words(cmd, Dialect::Forge);
    let ghost ws = words.deep_view();
    if words.len() == 0 {
        return false;
    }
    let mut start: usize = 0;
    let mut i: usize = 0;
    assert(ws.subrange(0, 0) =~= seq![]);
    assert(ws.skip(0) =~= ws);
    while i < words.len()
        invariant
            ws == words.deep_view(),
            ws == shell_words_spec(cmd@, Dialect::Forge),
            ws.len() > 0,
            start <= i <= words.len(),
            any_segment_write_capable(ws.subrange(start as int, i as int), ws.skip(i as int))
                == any_segment_write_capable(seq![], ws),
        decreases words.len() - i,
    {
        let ghost rest = ws.skip(i as int);
        assert(rest.drop_first() =~= ws.skip(i + 1));
        assert(ws[i as int] == words@[i as int]@);
        if is_shell_separator(words[i].as_slice()) {
            if i > start {
                let seg = &words[start..i];
                assert(seg.deep_view() =~= ws.subrange(start as int, i as int));
                if segment_is_write_capable(seg) {
                    assert(rest[0] == ws[i as int]);
                    assert(any_segment_write_capable(ws.subrange(start as int, i as int), rest));
                    assert(any_segment_write_capable(seq![], ws));
                    return true;
                }
            }
            start = i + 1;
            assert(ws.subrange(start as int, i + 1) =~= seq![]);
        } else {
            assert(ws.subrange(start as int, i as int).push(ws[i as int]) =~= ws.subrange(
                start as int,
                i + 1,
            ));
        }
        i = i + 1;
    }
    if i > start {
        let seg = &words[start..i];
        assert(seg.deep_view() =~= ws.subrange(start as int, i as int));
        segment_is_write_capable(seg)
    } else {
        false
    }
}

fn sentinel_write_capable(cmd: &[char]) -> (r: bool)
    ensures
        r == sentinel_write_capable_words(shell_words_spec(cmd@, Dialect::Sentinel)),
{
    let words = shell_words(cmd, Dialect::Sentinel);
    let ghost ws = words.deep_view();
    if words.len() == 0 {
        return false;
    }
    let ws_slice = words.as_slice();
    assert(ws_slice.deep_view() =~= ws);
    let idx = resolve_executable_index(ws_slice);
    assert(ws[idx as int] == words@[idx as int]@);
    let cmd_w = words[idx].as_slice();
    let next: Vec<char> = if idx + 1 < words.len() {
        assert(ws[idx + 1] == words@[idx + 1]@);
        words[idx + 1].clone()
    } else {
        Vec::new()
    };
    if eq_str(cmd_w, "dd") {
        true
    } else if eq_str(cmd_w, "curl") || eq_str(cmd_w, "wget") {
        has_output_flag_exec(words.as_slice())
    } else if eq_str(cmd_w, "git") {
        is_git_write_subcommand(next.as_slice())
    } else if is_shell_interpreter(cmd_w) {
        contains_word(words.as_slice(), "-c")
    } else {
        false
    }
}

/// Detect commands whose own syntax can write files in a way the
/// redirection / operand parsers do not capture (`dd of=`, `curl -o`,
/// `wget -O`, `git checkout`/`git restore`, a nested `sh -c`, ...).
pub fn is_write_capable_command(cmd: &[char], d: Dialect) -> (r: bool)
    ensures
        r == write_capable_spec(cmd@, d),
{
    match d {
        Dialect::Forge => forge_write_capable(cmd),
        Dialect::Sentinel => sentinel_write_capable(cmd),
    }
}

// ── Write targets ────────────────────────────────────────────────────────────

/// The three parsers that find the files a command writes.
#[derive(Clone, Copy, PartialEq, Eq, Structural)]
pub enum TargetKind {
    /// `> file`, `>> file`, `2> file`, ...
    Redirection,
    /// `tee file ...`
    Tee,
    /// The destination of `cp`/`mv`/`install`, the operands of
    /// `touch`/`mkdir`/`rm`/`truncate`.
    Operand,
}

pub open spec fn redirection_ops() -> Seq<Seq<char>> {
    seq![">"@, ">>"@, "1>"@, "1>>"@, "2>"@, "2>>"@]
}

/// The cleaned `rest` of an operator word, unless `rest` is empty.
pub open spec fn attached_target(rest: Seq<char>, d: Dialect) -> Seq<Seq<char>> {
    if rest.len() > 0 {
        seq![clean_word_spec(rest, d)]
    } else {
        seq![]
    }
}

/// The redirection target introduced by word `i`.
pub open spec fn redirection_at(ws: Seq<Seq<char>>, i: int, d: Dialect) -> Seq<Seq<char>> {
    let op = ws[i];
    if redirection_ops().contains(op) {
        if i + 1 < ws.len() {
            seq![clean_word_spec(ws[i + 1], d)]
        } else {
            seq![]
        }
    } else if starts_with_spec(op, ">>"@) {
        attached_target(op.skip(2), d)
    } else if starts_with_spec(op, ">"@) {
        attached_target(op.skip(1), d)
    } else if starts_with_spec(op, "1>"@) || starts_with_spec(op, "2>"@) {
        attached_target(op.skip(2), d)
    } else {
        seq![]
    }
}

/// `tee`'s file arguments from word `j` on, skipping options, up to the
/// next separator.
pub open spec fn tee_args(ws: Seq<Seq<char>>, j: int, d: Dialect) -> Seq<Seq<char>>
    decreases ws.len() - j,
{
    if j < 0 || j >= ws.len() {
        seq![]
    } else if dashed(ws[j]) {
        tee_args(ws, j + 1, d)
    } else if is_separator_spec(ws[j]) {
        seq![]
    } else {
        seq![clean_word_spec(ws[j], d)] + tee_args(ws, j + 1, d)
    }
}

/// Index of the last word in `[lo, hi)` that is neither an option nor a
/// separator.
pub open spec fn last_operand(ws: Seq<Seq<char>>, lo: int, hi: int) -> Option<int>
    decreases hi - lo,
{
    if hi <= lo {
        None
    } else if !dashed(ws[hi - 1]) && !is_separator_spec(ws[hi - 1]) {
        Some(hi - 1)
    } else {
        last_operand(ws, lo, hi - 1)
    }
}

/// The non-option arguments from word `j` up to the next separator.
pub open spec fn plain_args(ws: Seq<Seq<char>>, j: int, d: Dialect) -> Seq<Seq<char>>
    decreases ws.len() - j,
{
    if j < 0 || j >= ws.len() {
        seq![]
    } else if is_separator_spec(ws[j]) {
        seq![]
    } else if dashed(ws[j]) {
        plain_args(ws, j + 1, d)
    } else {
        seq![clean_word_spec(ws[j], d)] + plain_args(ws, j + 1, d)
    }
}

pub open spec fn copy_commands() -> Seq<Seq<char>> {
    seq!["cp"@, "mv"@, "install"@]
}

pub open spec fn mutate_commands() -> Seq<Seq<char>> {
    seq!["touch"@, "mkdir"@, "rm"@, "truncate"@]
}

/// The operand targets introduced by word `i`.
pub open spec fn operand_at(ws: Seq<Seq<char>>, i: int, d: Dialect) -> Seq<Seq<char>> {
    if copy_commands().contains(ws[i]) {
        match last_operand(ws, i + 1, ws.len() as int) {
            Some(j) => seq![clean_word_spec(ws[j], d)],
            None => seq![],
        }
    } else if mutate_commands().contains(ws[i]) {
        plain_args(ws, i + 1, d)
    } else {
        seq![]
    }
}

pub open spec fn targets_at(ws: Seq<Seq<char>>, i: int, d: Dialect, kind: TargetKind) -> Seq<
    Seq<char>,
> {
    match kind {
        TargetKind::Redirection => redirection_at(ws, i, d),
        TargetKind::Tee => if ws[i] == "tee"@ {
            tee_args(ws, i + 1, d)
        } else {
            seq![]
        },
        TargetKind::Operand => operand_at(ws, i, d),
    }
}

/// The targets of one kind introduced by the first `n` words, in order.
pub open spec fn targets_upto(ws: Seq<Seq<char>>, n: int, d: Dialect, kind: TargetKind) -> Seq<
    Seq<char>,
>
    decreases n,
{
    if n <= 0 {
        seq![]
    } else {
        targets_upto(ws, n - 1, d, kind) + targets_at(ws, n - 1, d, kind)
    }
}

/// All explicit write targets: redirections, then `tee` files, then command
/// operands.
pub open spec fn all_targets(ws: Seq<Seq<char>>, d: Dialect) -> Seq<Seq<char>> {
    targets_upto(ws, ws.len() as int, d, TargetKind::Redirection) + targets_upto(
        ws,
        ws.len() as int,
        d,
        TargetKind::Tee,
    ) + targets_upto(ws, ws.len() as int, d, TargetKind::Operand)
}

fn push_clean(out: &mut Vec<Vec<char>>, w: &[char], d: Dialect)
    ensures
        final(out).deep_view() == old(out).deep_view().push(clean_word_spec(w@, d)),
{
    let c = clean_shell_word(w, d);
    let ghost cv = c@;
    out.push(c);
    assert(out@[out.len() - 1].deep_view() == cv);
    assert(out.deep_view() =~= old(out).deep_view().push(cv));
}

fn is_redirection_op(w: &[char]) -> (r: bool)
    ensures
        r == redirection_ops().contains(w@),
{
    let list = [">", ">>", "1>", "1>>", "2>", "2>>"];
    assert(strs_view(list@) =~= redirection_ops());
    one_of(w, &list)
}

fn skip_chars(w: &[char], n: usize) -> (r: Vec<char>)
    requires
        n <= w.len(),
    ensures
        r@ == w@.skip(n as int),
{
    let mut out: Vec<char> = Vec::new();
    let mut i: usize = n;
    while i < w.len()
        invariant
            n <= i <= w.len(),
            out@ == w@.subrange(n as int, i as int),
        decreases w.len() - i,
    {
        out.push(w[i]);
        assert(w@.subrange(n as int, i + 1) =~= w@.subrange(n as int, i as int).push(w@[i as int]));
        i = i + 1;
    }
    out
}

fn push_attached(out: &mut Vec<Vec<char>>, op: &[char], n: usize, d: Dialect)
    requires
        n <= op.len(),
    ensures
        final(out).deep_view() == old(out).deep_view() + attached_target(op@.skip(n as int), d),
{
    let rest = skip_chars(op, n);
    if rest.len() > 0 {
        push_clean(out, rest.as_slice(), d);
        assert(out.deep_view() =~= old(out).deep_view() + attached_target(op@.skip(n as int), d));
    } else {
        assert(old(out).deep_view() + attached_target(op@.skip(n as int), d) =~= old(
            out,
        ).deep_view());
    }
}

fn redirection_at_exec(ws: &[Vec<char>], i: usize, d: Dialect, out: &mut Vec<Vec<char>>)
    requires
        i < ws.len(),
    ensures
        final(out).deep_view() == old(out).deep_view() + redirection_at(ws.deep_view(), i as int, d),
{
    proof {
        reveal_strlit(">>");
        reveal_strlit(">");
        reveal_strlit("1>");
        reveal_strlit("2>");
    }
    let ghost wv = ws.deep_view();
    assert(wv[i as int] == ws@[i as int]@);
    let op = ws[i].as_slice();
    if is_redirection_op(op) {
        if i + 1 < ws.len() {
            assert(wv[i + 1] == ws@[i + 1]@);
            push_clean(out, ws[i + 1].as_slice(), d);
            assert(out.deep_view() =~= old(out).deep_view() + redirection_at(wv, i as int, d));
        } else {
            assert(out.deep_view() =~= old(out).deep_view() + redirection_at(wv, i as int, d));
        }
    } else if starts_with_str(op, ">>") {
        push_attached(out, op, 2, d);
    } else if starts_with_str(op, ">") {
        push_attached(out, op, 1, d);
    } else if starts_with_str(op, "1>") || starts_with_str(op, "2>") {
        push_attached(out, op, 2, d);
    } else {
        assert(out.deep_view() =~= old(out).deep_view() + redirection_at(wv, i as int, d));
    }
}

fn tee_args_exec(ws: &[Vec<char>], j0: usize, d: Dialect, out: &mut Vec<Vec<char>>)
    requires
        j0 <= ws.len(),
    ensures
        final(out).deep_view() == old(out).deep_view() + tee_args(ws.deep_view(), j0 as int, d),
{
    let ghost wv = ws.deep_view();
    let ghost out0 = out.deep_view();
    let mut j: usize = j0;
    while j < ws.len()
        invariant
            wv == ws.deep_view(),
            j0 <= j <= ws.len(),
            out.deep_view() + tee_args(wv, j as int, d) == out0 + tee_args(wv, j0 as int, d),
            out0 == old(out).deep_view(),
        decreases ws.len() - j,
    {
        assert(wv[j as int] == ws@[j as int]@);
        let w = ws[j].as_slice();
        if is_dashed(w) {
            j = j + 1;
            continue;
        }
        if is_shell_separator(w) {
            assert(out.deep_view() + tee_args(wv, j as int, d) =~= out.deep_view());
            return;
        }
        let ghost before = out.deep_view();
        push_clean(out, w, d);
        assert(before + tee_args(wv, j as int, d) =~= out.deep_view() + tee_args(wv, j + 1, d));
        j = j + 1;
    }
    assert(out.deep_view() + tee_args(wv, j as int, d) =~= out.deep_view());
}

fn plain_args_exec(ws: &[Vec<char>], j0: usize, d: Dialect, out: &mut Vec<Vec<char>>)
    requires
        j0 <= ws.len(),
    ensures
        final(out).deep_view() == old(out).deep_view() + plain_args(ws.deep_view(), j0 as int, d),
{
    let ghost wv = ws.deep_view();
    let ghost out0 = out.deep_view();
    let mut j: usize = j0;
    while j < ws.len()
        invariant
            wv == ws.deep_view(),
            j0 <= j <= ws.len(),
            out.deep_view() + plain_args(wv, j as int, d) == out0 + plain_args(wv, j0 as int, d),
            out0 == old(out).deep_view(),
        decreases ws.len() - j,
    {
        assert(wv[j as int] == ws@[j as int]@);
        let w = ws[j].as_slice();
        if is_shell_separator(w) {
            assert(out.deep_view() + plain_args(wv, j as int, d) =~= out.deep_view());
            return;
        }
        if is_dashed(w) {
            j = j + 1;
            continue;
        }
        let ghost before = out.deep_view();
        push_clean(out, w, d);
        assert(before + plain_args(wv, j as int, d) =~= out.deep_view() + plain_args(wv, j + 1, d));
        j = j + 1;
    }
    assert(out.deep_view() + plain_args(wv, j as int, d) =~= out.deep_view());
}

fn last_operand_exec(ws: &[Vec<char>], lo: usize) -> (r: Option<usize>)
    requires
        lo <= ws.len(),
    ensures
        r matches Some(j) ==> last_operand(ws.deep_view(), lo as int, ws.len() as int) == Some(
            j as int,
        ) && lo <= j < ws.len(),
        r is None ==> last_operand(ws.deep_view(), lo as int, ws.len() as int) is None,
{
    let ghost wv = ws.deep_view();
    let mut hi: usize = ws.len();
    while hi > lo
        invariant
            wv == ws.deep_view(),
            lo <= hi <= ws.len(),
            last_operand(wv, lo as int, hi as int) == last_operand(wv, lo as int, ws.len() as int),
        decreases hi - lo,
    {
        assert(wv[hi - 1] == ws@[hi - 1]@);
        let w = ws[hi - 1].as_slice();
        if !is_dashed(w) && !is_shell_separator(w) {
            return Some(hi - 1);
        }
        hi = hi - 1;
    }
    None
}

fn is_copy_command(w: &[char]) -> (r: bool)
    ensures
        r == copy_commands().contains(w@),
{
    let list = ["cp", "mv", "install"];
    assert(strs_view(list@) =~= copy_commands());
    one_of(w, &list)
}

fn is_mutate_command(w: &[char]) -> (r: bool)
    ensures
        r == mutate_commands().contains(w@),
{
    let list = ["touch", "mkdir", "rm", "truncate"];
    assert(strs_view(list@) =~= mutate_commands());
    one_of(w, &list)
}

fn targets_at_exec(ws: &[Vec<char>], i: usize, d: Dialect, kind: TargetKind, out: &mut Vec<
    Vec<char>,
>)
    requires
        i < ws.len(),
    ensures
        final(out).deep_view() == old(out).deep_view() + targets_at(
            ws.deep_view(),
            i as int,
            d,
            kind,
        ),
{
    let ghost wv = ws.deep_view();
    assert(wv[i as int] == ws@[i as int]@);
    match kind {
        TargetKind::Redirection => {
            redirection_at_exec(ws, i, d, out);
        },
        TargetKind::Tee => {
            if eq_str(ws[i].as_slice(), "tee") {
                tee_args_exec(ws, i + 1, d, out);
            } else {
                assert(out.deep_view() =~= old(out).deep_view() + targets_at(wv, i as int, d, kind));
            }
        },
        TargetKind::Operand => {
            let w = ws[i].as_slice();
            if is_copy_command(w) {
                match last_operand_exec(ws, i + 1) {
                    Some(j) => {
                        assert(wv[j as int] == ws@[j as int]@);
                        push_clean(out, ws[j].as_slice(), d);
                        assert(out.deep_view() =~= old(out).deep_view() + targets_at(
                            wv,
                            i as int,
                            d,
                            kind,
                        ));
                    },
                    None => {
                        assert(out.deep_view() =~= old(out).deep_view() + targets_at(
                            wv,
                            i as int,
                            d,
                            kind,
                        ));
                    },
                }
            } else if is_mutate_command(w) {
                plain_args_exec(ws, i + 1, d, out);
            } else {
                assert(out.deep_view() =~= old(out).deep_view() + targets_at(wv, i as int, d, kind));
            }
        },
    }
}

/// Append the targets of one kind found in the words, in order.
fn collect_targets(ws: &[Vec<char>], d: Dialect, kind: TargetKind, out: &mut Vec<Vec<char>>)
    ensures
        final(out).deep_view() == old(out).deep_view() + targets_upto(
            ws.deep_view(),
            ws.len() as int,
            d,
            kind,
        ),
{
    let ghost out0 = out.deep_view();
    let mut i: usize = 0;
    assert(out.deep_view() =~= out0 + targets_upto(ws.deep_view(), 0, d, kind));
    while i < ws.len()
        invariant
            i <= ws.len(),
            out.deep_view() == out0 + targets_upto(ws.deep_view(), i as int, d, kind),
        decreases ws.len() - i,
    {
        let ghost before = out.deep_view();
        targets_at_exec(ws, i, d, kind, out);
        assert(out.deep_view() =~= out0 + targets_upto(ws.deep_view(), i + 1, d, kind));
        i = i + 1;
    }
}

/// The redirection targets (`> f`, `>>f`, `2> f`, ...) among the words.
pub fn redirection_targets(words: &[Vec<char>], d: Dialect) -> (r: Vec<Vec<char>>)
    ensures
        r.deep_view() == targets_upto(words.deep_view(), words.len() as int, d, TargetKind::Redirection),
{
    let mut out: Vec<Vec<char>> = Vec::new();
    assert(out.deep_view() =~= seq![]);
    collect_targets(words, d, TargetKind::Redirection, &mut out);
    assert(out.deep_view() =~= targets_upto(words.deep_view(), words.len() as int, d, TargetKind::Redirection));
    out
}

/// The files written by `tee` among the words.
pub fn tee_targets(words: &[Vec<char>], d: Dialect) -> (r: Vec<Vec<char>>)
    ensures
        r.deep_view() == targets_upto(words.deep_view(), words.len() as int, d, TargetKind::Tee),
{
    let mut out: Vec<Vec<char>> = Vec::new();
    assert(out.deep_view() =~= seq![]);
    collect_targets(words, d, TargetKind::Tee, &mut out);
    assert(out.deep_view() =~= targets_upto(words.deep_view(), words.len() as int, d, TargetKind::Tee));
    out
}

/// The destinations of copy commands (`cp`, `mv`, `install`: the last
/// operand) and the operands of mutating commands (`touch`, `mkdir`, `rm`,
/// `truncate`) among the words.
pub fn command_operand_targets(words: &[Vec<char>], d: Dialect) -> (r: Vec<Vec<char>>)
    ensures
        r.deep_view() == targets_upto(words.deep_view(), words.len() as int, d, TargetKind::Operand),
{
    let mut out: Vec<Vec<char>> = Vec::new();
    assert(out.deep_view() =~= seq![]);
    collect_targets(words, d, TargetKind::Operand, &mut out);
    assert(out.deep_view() =~= targets_upto(words.deep_view(), words.len() as int, d, TargetKind::Operand));
    out
}

/// The interpreters and tools whose writes cannot be told from the command
/// text (substrings of the lowercased command).
pub open spec fn opaque_writers(d: Dialect) -> Seq<&'static str> {
    match d {
        Dialect::Forge => seq![
            "python ",
            "python3 ",
            "node ",
            "cargo fmt",
            "git apply",
            "apply_patch",
            "sed -i",
            "perl -i",
        ],
        Dialect::Sentinel => seq!["git apply", "apply_patch", "sed -i", "perl -i"],
    }
}

pub open spec fn mentions_opaque_writer(lower_cmd: Seq<char>, d: Dialect) -> bool {
    exists|j: int|
        0 <= j < opaque_writers(d).len() && #[trigger] contains_spec(
            lower_cmd,
            opaque_writers(d)[j]@,
        )
}

/// The files a command writes: `Some(targets)` when they can be read off the
/// command text (possibly none), `None` when the command may write in ways
/// the parsers cannot see (an interpreter or patch tool, or a write-capable
/// command).
pub open spec fn write_targets_spec(cmd: Seq<char>, d: Dialect) -> Option<Seq<Seq<char>>> {
    let ws = shell_words_spec(cmd, d);
    if ws.len() == 0 {
        Some(seq![])
    } else if all_targets(ws, d).len() > 0 {
        Some(all_targets(ws, d))
    } else if mentions_opaque_writer(unicode_lowercase(cmd), d) {
        None
    } else if write_capable_spec(cmd, d) {
        None
    } else {
        Some(seq![])
    }
}

pub fn shell_write_targets(cmd: &[char], d: Dialect) -> (r: Option<Vec<Vec<char>>>)
    ensures
        match r {
            Some(t) => write_targets_spec(cmd@, d) == Some(t.deep_view()),
            None => write_targets_spec(cmd@, d) is None,
        },
{
    let words = shell_words(cmd, d);
    if words.len() == 0 {
        let e: Vec<Vec<char>> = Vec::new();
        assert(e.deep_view() =~= seq![]);
        return Some(e);
    }
    let ws = words.as_slice();
    assert(ws.deep_view() =~= words.deep_view());
    let mut targets: Vec<Vec<char>> = Vec::new();
    assert(targets.deep_view() =~= seq![]);
    collect_targets(ws, d, TargetKind::Redirection, &mut targets);
    collect_targets(ws, d, TargetKind::Tee, &mut targets);
    collect_targets(ws, d, TargetKind::Operand, &mut targets);
    assert(targets.deep_view() =~= all_targets(words.deep_view(), d));
    if targets.len() > 0 {
        return Some(targets);
    }
    let lower = to_lowercase(cmd);
    let opaque = match d {
        Dialect::Forge => {
            let list = [
                "python ",
                "python3 ",
                "node ",
                "cargo fmt",
                "git apply",
                "apply_patch",
                "sed -i",
                "perl -i",
            ];
            assert(list@ =~= opaque_writers(d));
            contains_one_of(lower.as_slice(), &list)
        },
        Dialect::Sentinel => {
            let list = ["git apply", "apply_patch", "sed -i", "perl -i"];
            assert(list@ =~= opaque_writers(d));
            contains_one_of(lower.as_slice(), &list)
        },
    };
    if opaque {
        return None;
    }
    if is_write_capable_command(cmd, d) {
        return None;
    }
    let e: Vec<Vec<char>> = Vec::new();
    assert(e.deep_view() =~= seq![]);
    Some(e)
}

proof fn lemma_plain_args_keeps(ws: Seq<Seq<char>>, j: int, k: int, d: Dialect)
    requires
        0 <= j <= k < ws.len(),
        forall|m: int| j <= m <= k ==> !is_separator_spec(#[trigger] ws[m]),
        !dashed(ws[k]),
    ensures
        plain_args(ws, j, d).contains(clean_word_spec(ws[k], d)),
    decreases k - j,
{
    assert(!is_separator_spec(ws[j]));
    if j == k {
        assert(plain_args(ws, j, d)[0] == clean_word_spec(ws[k], d));
    } else {
        lemma_plain_args_keeps(ws, j + 1, k, d);
        let r = plain_args(ws, j + 1, d);
        let x = clean_word_spec(ws[k], d);
        let idx = choose|idx: int| 0 <= idx < r.len() && r[idx] == x;
        if !dashed(ws[j]) {
            assert(plain_args(ws, j, d)[idx + 1] == r[idx]);
        }
    }
}

proof fn lemma_targets_upto_keeps(
    ws: Seq<Seq<char>>,
    n: int,
    i: int,
    d: Dialect,
    kind: TargetKind,
    x: Seq<char>,
)
    requires
        0 <= i < n,
        targets_at(ws, i, d, kind).contains(x),
    ensures
        targets_upto(ws, n, d, kind).contains(x),
    decreases n,
{
    let prev = targets_upto(ws, n - 1, d, kind);
    let here = targets_at(ws, n - 1, d, kind);
    if i == n - 1 {
        let idx = choose|idx: int| 0 <= idx < here.len() && here[idx] == x;
        assert((prev + here)[prev.len() + idx] == x);
    } else {
        lemma_targets_upto_keeps(ws, n - 1, i, d, kind, x);
        let idx = choose|idx: int| 0 <= idx < prev.len() && prev[idx] == x;
        assert((prev + here)[idx] == x);
    }
}

proof fn lemma_plain_args_from(ws: Seq<Seq<char>>, j: int, d: Dialect, x: Seq<char>)
    requires
        0 <= j,
        plain_args(ws, j, d).contains(x),
    ensures
        exists|m: int|
            j <= m < ws.len() && !dashed(#[trigger] ws[m]) && x == clean_word_spec(ws[m], d) && forall|
                q: int,
            | j <= q <= m ==> !is_separator_spec(#[trigger] ws[q]),
    decreases ws.len() - j,
{
    if j < ws.len() && !is_separator_spec(ws[j]) {
        let r = plain_args(ws, j + 1, d);
        if !dashed(ws[j]) && x == clean_word_spec(ws[j], d) {
            assert(forall|q: int| j <= q <= j ==> !is_separator_spec(#[trigger] ws[q]));
        } else {
            if dashed(ws[j]) {
                assert(r.contains(x));
            } else {
                let idx = choose|idx: int| 0 <= idx < plain_args(ws, j, d).len() && plain_args(ws, j, d)[idx] == x;
                assert(idx > 0);
                assert(r[idx - 1] == x);
            }
            lemma_plain_args_from(ws, j + 1, d, x);
            let m = choose|m: int|
                j + 1 <= m < ws.len() && !dashed(#[trigger] ws[m]) && x == clean_word_spec(ws[m], d)
                    && forall|q: int| j + 1 <= q <= m ==> !is_separator_spec(#[trigger] ws[q]);
            assert(forall|q: int| j <= q <= m ==> !is_separator_spec(#[trigger] ws[q]));
        }
    }
}

/// The operands `touch`, `mkdir`, `rm` and `truncate` write, read from word
/// `j` on: exactly the cleaned non-option words before the next separator.
pub proof fn plain_operands_are_the_non_options(ws: Seq<Seq<char>>, j: int, d: Dialect, x: Seq<char>)
    requires
        0 <= j,
    ensures
        plain_args(ws, j, d).contains(x) <==> exists|m: int|
            j <= m < ws.len() && !dashed(#[trigger] ws[m]) && x == clean_word_spec(ws[m], d) && forall|
                q: int,
            | j <= q <= m ==> !is_separator_spec(#[trigger] ws[q]),
{
    if plain_args(ws, j, d).contains(x) {
        lemma_plain_args_from(ws, j, d, x);
    }
    if exists|m: int|
        j <= m < ws.len() && !dashed(#[trigger] ws[m]) && x == clean_word_spec(ws[m], d) && forall|
            q: int,
        | j <= q <= m ==> !is_separator_spec(#[trigger] ws[q]) {
        let m = choose|m: int|
            j <= m < ws.len() && !dashed(#[trigger] ws[m]) && x == clean_word_spec(ws[m], d) && forall|
                q: int,
            | j <= q <= m ==> !is_separator_spec(#[trigger] ws[q]);
        lemma_plain_args_keeps(ws, j, m, d);
    }
}

/// `touch`, `mkdir`, `rm` and `truncate` write every operand that is not an
/// option, up to the next separator, whatever options come before it: the
/// write targets of `rm -rf src/legacy` include `src/legacy`.
pub proof fn mutating_commands_write_all_their_operands(cmd: Seq<char>, d: Dialect, i: int, k: int)
    requires
        0 <= i < k < shell_words_spec(cmd, d).len(),
        mutate_commands().contains(shell_words_spec(cmd, d)[i]),
        forall|m: int| i < m <= k ==> !is_separator_spec(#[trigger] shell_words_spec(cmd, d)[m]),
        !dashed(shell_words_spec(cmd, d)[k]),
    ensures
        write_targets_spec(cmd, d) matches Some(t) && t.contains(
            clean_word_spec(shell_words_spec(cmd, d)[k], d),
        ),
{
    let ws = shell_words_spec(cmd, d);
    let x = clean_word_spec(ws[k], d);
    reveal_strlit("cp");
    reveal_strlit("mv");
    reveal_strlit("install");
    reveal_strlit("touch");
    reveal_strlit("mkdir");
    reveal_strlit("rm");
    reveal_strlit("truncate");
    assert(!copy_commands().contains(ws[i])) by {
        if copy_commands().contains(ws[i]) {
            let a = choose|a: int| 0 <= a < copy_commands().len() && copy_commands()[a] == ws[i];
            let b = choose|b: int| 0 <= b < mutate_commands().len() && mutate_commands()[b] == ws[i];
            assert(copy_commands()[a][0] != mutate_commands()[b][0]
                || copy_commands()[a].len() != mutate_commands()[b].len());
        }
    }
    lemma_plain_args_keeps(ws, i + 1, k, d);
    assert(targets_at(ws, i, d, TargetKind::Operand) == plain_args(ws, i + 1, d));
    lemma_targets_upto_keeps(ws, ws.len() as int, i, d, TargetKind::Operand, x);
    let r = targets_upto(ws, ws.len() as int, d, TargetKind::Redirection);
    let t = targets_upto(ws, ws.len() as int, d, TargetKind::Tee);
    let o = targets_upto(ws, ws.len() as int, d, TargetKind::Operand);
    let idx = choose|idx: int| 0 <= idx < o.len() && o[idx] == x;
    assert(all_targets(ws, d) == r + t + o);
    assert((r + t + o)[r.len() + t.len() + idx] == x);
    assert(all_targets(ws, d).len() > 0);
}

} // verus!
