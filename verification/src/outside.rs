//! Calls into std functions that vstd leaves unspecified and into the outside
//! crates (serde_json, chrono, uuid). Each item here is trusted: its contract
//! is believed by Verus, not proved.

use vstd::prelude::*;
use crate::protocol::is_uuid_v4_text;
use crate::text::json_quoted_len;

verus! {

/// Appends `c` to `s` (`String::push`, documented as "Appends the given char
/// to the end of this String").
#[verifier::external_body]
pub(crate) fn push_char(s: &mut String, c: char)
    ensures
        final(s)@ == old(s)@.push(c),
{
    s.push(c);
}

/// The Unicode lowercase mapping of a character sequence, as computed by
/// `str::to_lowercase`.
pub uninterp spec fn unicode_lowercase(s: Seq<char>) -> Seq<char>;

/// `str::to_lowercase` on the string made of `s`. The mapping follows the
/// Unicode tables (one char may map to several); the contract only names the
/// result as a function of the input.
#[verifier::external_body]
pub(crate) fn to_lowercase(s: &[char]) -> (r: Vec<char>)
    ensures
        r@ == unicode_lowercase(s@),
{
    let text: String = s.iter().collect();
    text.to_lowercase().chars().collect()
}

/// `serde_json::to_string` applied to a `&str`, measured in bytes (0 if
/// serialization reported an error, which it never does for `&str`): the
/// two quotes, a two-byte escape for `"`, `\`, backspace, form feed, line
/// feed, carriage return and tab, a six-byte `\u00XX` escape for the other
/// control characters below U+0020, and the UTF-8 encoding of every other
/// character (serde_json's `format_escaped_str` and its `ESCAPE` table). The
/// result is a `String` length, so it is at most `isize::MAX`.
#[verifier::external_body]
pub(crate) fn json_string_byte_len(s: &str) -> (n: usize)
    ensures
        n == json_quoted_len(s@),
        n <= isize::MAX,
{
    serde_json::to_string(s).map(|j| j.len()).unwrap_or(0)
}

/// The text of field `field` in the JSON value that `text` parses to, as
/// serde_json reads it: `None` when `text` is not valid JSON, is not an
/// object, has no such field, or the field holds something else than a
/// string. (A function of its arguments alone; serde_json keeps the last of
/// repeated keys.)
pub uninterp spec fn json_text_field(text: Seq<char>, field: Seq<char>) -> Option<Seq<char>>;

/// `serde_json::from_str::<Value>(text)`, then `Value::get(field)` and the
/// string it holds, if any. Only the result is named; the JSON grammar is
/// serde_json's.
#[verifier::external_body]
pub(crate) fn json_field_text(text: &str, field: &str) -> (r: Option<String>)
    ensures
        match r {
            Some(v) => json_text_field(text@, field@) == Some(v@),
            None => json_text_field(text@, field@) is None,
        },
{
    match serde_json::from_str::<serde_json::Value>(text) {
        Ok(v) => match v.get(field) {
            Some(serde_json::Value::String(p)) => Some(p.clone()),
            _ => None,
        },
        Err(_) => None,
    }
}

/// Current Unix time in seconds (`chrono::Utc::now().timestamp()`). Depends
/// on the clock, so nothing is stated about the value.
#[verifier::external_body]
pub(crate) fn now_unix_seconds() -> (t: i64) {
    chrono::Utc::now().timestamp()
}

/// A fresh random task id (`uuid::Uuid::new_v4().to_string()`). The value
/// is random; what holds of every outcome is its form: uuid's `Display` is
/// the lowercase hyphenated form (`fmt.rs`, `format_hyphenated`), 36
/// characters, and `new_v4` fixes the version digit to `4` and the variant
/// digit to one of `8`, `9`, `a`, `b` (`v4.rs`).
#[verifier::external_body]
pub(crate) fn new_task_id() -> (id: String)
    ensures
        is_uuid_v4_text(id@),
{
    uuid::Uuid::new_v4().to_string()
}

} // verus!
