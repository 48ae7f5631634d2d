//! Bounding the context injected into a model session: a text over the
//! model-context byte limit is cut on a character boundary and marked.

use vstd::prelude::*;
use vstd::string::StringExecFns;
use vstd::string::StringSliceAdditionalSpecFns;
use vstd::utf8::{encode_utf8, encode_utf8_valid_utf8, is_char_boundary, is_ascii_chars, is_ascii_chars_encode_utf8};

verus! {

/// Most bytes of context handed to a model session.
pub const MODEL_CONTEXT_BYTE_LIMIT: usize = 16_384;

/// Appended to a context that was cut.
pub const TRIM_MARKER: &'static str = "...[trimmed to model_context limit]";

/// The last character boundary of `b` at or before `i`.
pub open spec fn last_boundary(b: Seq<u8>, i: int) -> int
    decreases i,
{
    if i <= 0 {
        0
    } else if is_char_boundary(b, i) {
        i
    } else {
        last_boundary(b, i - 1)
    }
}

/// The bytes of the trimmed context: the text itself when it fits, else its
/// longest prefix ending on a character boundary that leaves room for the
/// marker, followed by the marker.
pub open spec fn trimmed_bytes(b: Seq<u8>, marker: Seq<u8>) -> Seq<u8> {
    if b.len() <= MODEL_CONTEXT_BYTE_LIMIT {
        b
    } else {
        b.subrange(0, last_boundary(b, MODEL_CONTEXT_BYTE_LIMIT - marker.len())) + marker
    }
}

proof fn lemma_last_boundary(b: Seq<u8>, i: int)
    requires
        vstd::utf8::valid_utf8(b),
        0 <= i <= b.len(),
    ensures
        0 <= last_boundary(b, i) <= i,
        is_char_boundary(b, last_boundary(b, i)),
    decreases i,
{
    if i > 0 && !is_char_boundary(b, i) {
        lemma_last_boundary(b, i - 1);
    } else if i <= 0 {
        vstd::utf8::is_char_boundary_start_end_of_seq(b);
    }
}

/// Cap a context at `MODEL_CONTEXT_BYTE_LIMIT` bytes. A longer text is cut at
/// the last character boundary that leaves room for `TRIM_MARKER`, which is
/// appended, so the result is valid UTF-8 and never over the limit.
pub fn trim_to_limit(s: &str) -> (r: String)
    ensures
        encode_utf8(r@) == trimmed_bytes(s.spec_bytes(), encode_utf8(TRIM_MARKER@)),
        encode_utf8(r@).len() <= MODEL_CONTEXT_BYTE_LIMIT,
        s.spec_bytes().len() <= MODEL_CONTEXT_BYTE_LIMIT ==> r@ == s@,
{
    let ghost b = s.spec_bytes();
    let bytes = s.as_bytes();
    let len = bytes.len();
    if len <= MODEL_CONTEXT_BYTE_LIMIT {
        return String::from_str(s);
    }
    proof {
        reveal_strlit("...[trimmed to model_context limit]");
        assert(is_ascii_chars(TRIM_MARKER@));
        is_ascii_chars_encode_utf8(TRIM_MARKER@);
        encode_utf8_valid_utf8(s@);
    }
    let marker_len = TRIM_MARKER.len();
    assert(marker_len == 35);
    let budget: usize = MODEL_CONTEXT_BYTE_LIMIT - marker_len;
    let mut cut: usize = budget;
    while cut > 0 && !s.is_char_boundary(cut)
        invariant
            cut <= budget,
            budget < len,
            len == b.len(),
            b == s.spec_bytes(),
            vstd::utf8::valid_utf8(b),
            last_boundary(b, budget as int) == last_boundary(b, cut as int),
        decreases cut,
    {
        cut = cut - 1;
    }
    proof {
        lemma_last_boundary(b, cut as int);
    }
    let (head, _) = s.split_at(cut);
    let mut out = String::from_str(head);
    out.append(TRIM_MARKER);
    proof {
        assert(head.spec_bytes() =~= b.subrange(0, cut as int));
        crate::executor::lemma_encode_concat(head@, TRIM_MARKER@);
    }
    out
}

} // verus!
