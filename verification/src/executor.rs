//! The decisions of the Forge-side sandbox executor: which task id a run
//! reports under, the exit code it records, the bounded output tails it keeps,
//! the result it builds and the store writes that mirror it.
//!
//! Spawning the command, the timeout, reading its output and killing its
//! process group are done around this module, which is handed their outcome.

use vstd::prelude::*;
use vstd::string::StringExecFns;
use vstd::string::StringSliceAdditionalSpecFns;
use vstd::utf8::{
    encode_utf8, encode_utf8_valid_utf8, is_char_boundary, is_char_boundary_iff_not_is_continuation_byte,
    is_char_boundary_start_end_of_seq, pop_first_scalar, valid_utf8, valid_utf8_split,
};
use crate::keys::audit_task_key_spec;
use crate::outside::new_task_id;
use crate::protocol::{ExecutorInfo, VerifyProgressEvent, VerifyResult, VerifyResultView};
use crate::protocol::is_uuid_v4_text;

verus! {

// ── Decimal text ────────────────────────────────────────────────────────────

/// The decimal digit for `d` (0..=9).
pub open spec fn digit_char(d: int) -> char {
    if d == 0 {
        '0'
    } else if d == 1 {
        '1'
    } else if d == 2 {
        '2'
    } else if d == 3 {
        '3'
    } else if d == 4 {
        '4'
    } else if d == 5 {
        '5'
    } else if d == 6 {
        '6'
    } else if d == 7 {
        '7'
    } else if d == 8 {
        '8'
    } else {
        '9'
    }
}

/// The decimal notation of `n`, without leading zeros.
pub open spec fn decimal(n: nat) -> Seq<char>
    decreases n,
{
    if n < 10 {
        seq![digit_char(n as int)]
    } else {
        decimal(n / 10).push(digit_char((n % 10) as int))
    }
}

fn digit_of(d: u64) -> (c: char)
    requires
        d < 10,
    ensures
        c == digit_char(d as int),
{
    if d == 0 {
        '0'
    } else if d == 1 {
        '1'
    } else if d == 2 {
        '2'
    } else if d == 3 {
        '3'
    } else if d == 4 {
        '4'
    } else if d == 5 {
        '5'
    } else if d == 6 {
        '6'
    } else if d == 7 {
        '7'
    } else if d == 8 {
        '8'
    } else {
        '9'
    }
}

fn push_decimal(n: u64, out: &mut Vec<char>)
    ensures
        final(out)@ == old(out)@ + decimal(n as nat),
    decreases n,
{
    if n >= 10 {
        push_decimal(n / 10, out);
    }
    out.push(digit_of(n % 10));
    proof {
        if n >= 10 {
            assert(decimal(n as nat) == decimal((n / 10) as nat).push(digit_char((n % 10) as int)));
        }
    }
}

/// The decimal notation of `n`.
pub fn decimal_text(n: u64) -> (s: String)
    ensures
        s@ == decimal(n as nat),
{
    let mut digits: Vec<char> = Vec::new();
    push_decimal(n, &mut digits);
    assert(digits@ =~= decimal(n as nat));
    crate::text::string_of(digits.as_slice())
}

// ── Bounded output tails ────────────────────────────────────────────────────

/// The first newline byte at or after `i` (the length if there is none).
pub open spec fn first_newline_from(b: Seq<u8>, i: int) -> int
    decreases b.len() - i,
{
    if i < 0 || i >= b.len() {
        b.len() as int
    } else if b[i] == 10 {
        i
    } else {
        first_newline_from(b, i + 1)
    }
}

/// Some byte at or after `i` is a newline.
pub open spec fn has_newline_from(b: Seq<u8>, i: int) -> bool {
    exists|k: int| i <= k < b.len() && #[trigger] b[k] == 10
}

/// The bytes kept of an output of bytes `b` under a cap of `max` bytes: all
/// of it when it fits, else what follows the first newline of its last
/// `max` bytes (whole lines only).
pub open spec fn tail_bytes(b: Seq<u8>, max: nat) -> Seq<u8> {
    if b.len() <= max {
        b
    } else {
        b.subrange(first_newline_from(b, b.len() - max) + 1, b.len() as int)
    }
}

/// The output may be cut to `max` bytes: it fits, or its last `max` bytes
/// hold a newline to cut after.
pub open spec fn tail_cuttable(b: Seq<u8>, max: nat) -> bool {
    b.len() <= max || has_newline_from(b, b.len() - max)
}

proof fn lemma_first_newline(b: Seq<u8>, i: int)
    requires
        0 <= i,
        has_newline_from(b, i),
    ensures
        i <= first_newline_from(b, i) < b.len(),
        b[first_newline_from(b, i)] == 10,
    decreases b.len() - i,
{
    if b[i] != 10 {
        let k = choose|k: int| i <= k < b.len() && #[trigger] b[k] == 10;
        assert(k != i);
        assert(has_newline_from(b, i + 1));
        lemma_first_newline(b, i + 1);
    }
}

/// In valid UTF-8, the position right after a newline byte starts a
/// character (or is the end).
proof fn lemma_after_newline_is_boundary(b: Seq<u8>, i: int)
    requires
        valid_utf8(b),
        0 < i <= b.len(),
        b[i - 1] == 10,
    ensures
        is_char_boundary(b, i),
{
    if i == b.len() {
        is_char_boundary_start_end_of_seq(b);
    } else {
        is_char_boundary_iff_not_is_continuation_byte(b, i - 1);
        valid_utf8_split(b, i - 1);
        let c = b.subrange(i - 1, b.len() as int);
        assert(c[0] == 10);
        assert(valid_utf8(c));
        assert(pop_first_scalar(c) =~= b.subrange(i, b.len() as int));
        let d = b.subrange(i, b.len() as int);
        assert(valid_utf8(d));
        assert(d[0] == b[i]);
        is_char_boundary_iff_not_is_continuation_byte(b, i);
    }
}

/// Keep only the last `max_bytes` bytes of an output, cut after a line
/// boundary so that no partial first line is kept.
pub fn truncate_to_tail(s: &str, max_bytes: usize) -> (r: String)
    requires
        tail_cuttable(s.spec_bytes(), max_bytes as nat),
    ensures
        encode_utf8(r@) == tail_bytes(s.spec_bytes(), max_bytes as nat),
        encode_utf8(r@).len() <= max_bytes || r@ == s@,
        s.spec_bytes().len() <= max_bytes ==> r@ == s@,
{
    let ghost b = s.spec_bytes();
    let bytes = s.as_bytes();
    let len = bytes.len();
    if len <= max_bytes {
        return String::from_str(s);
    }
    let mut start: usize = len - max_bytes;
    proof {
        lemma_first_newline(b, start as int);
        encode_utf8_valid_utf8(s@);
    }
    while start > 0 && bytes[start] != 10u8
        invariant
            bytes@ == b,
            len == b.len(),
            len > max_bytes,
            len - max_bytes <= start < len,
            has_newline_from(b, start as int),
            first_newline_from(b, len - max_bytes) == first_newline_from(b, start as int),
            first_newline_from(b, start as int) < len,
        decreases len - start,
    {
        proof {
            let k = choose|k: int| start <= k < b.len() && #[trigger] b[k] == 10;
            assert(k != start);
            assert(has_newline_from(b, start + 1));
            lemma_first_newline(b, start + 1);
        }
        start = start + 1;
    }
    start = start + 1;
    proof {
        encode_utf8_valid_utf8(s@);
        lemma_after_newline_is_boundary(b, start as int);
    }
    let (_, tail) = s.split_at(start);
    let r = String::from_str(tail);
    proof {
        assert(tail.spec_bytes() =~= b.subrange(start as int, b.len() as int));
    }
    r
}

// ── Task ids and exit codes ─────────────────────────────────────────────────

/// The id a run reports under: the relay-assigned one whenever one is
/// supplied (as it stands, even when empty), else the fresh one.
pub open spec fn resolved_task_id(given: Option<Seq<char>>, fresh: Seq<char>) -> Seq<char> {
    match given {
        Some(id) => id,
        None => fresh,
    }
}

/// The id a run reports under, given a fresh id for the case that none was
/// assigned.
pub fn resolve_task_id(given: Option<&str>, fresh: String) -> (id: String)
    ensures
        id@ == resolved_task_id(
            match given {
                Some(s) => Some(s@),
                None => None,
            },
            fresh@,
        ),
{
    match given {
        Some(s) => String::from_str(s),
        None => fresh,
    }
}

/// The id a run reports under: the supplied one when there is one, else a
/// freshly drawn random UUID in its hyphenated lower-case form.
pub fn choose_task_id(given: Option<&str>) -> (id: String)
    ensures
        id@ == resolved_task_id(
            match given {
                Some(s) => Some(s@),
                None => None,
            },
            id@,
        ),
        given is None ==> is_uuid_v4_text(id@),
{
    match given {
        Some(s) => String::from_str(s),
        None => new_task_id(),
    }
}

/// The exit code recorded for a finished process: 0 on success, else the
/// process's own code (none when it was ended by a signal).
pub open spec fn recorded_exit_code(success: bool, code: Option<i32>) -> Option<i32> {
    if success {
        Some(0)
    } else {
        code
    }
}

pub fn exit_code_of(success: bool, code: Option<i32>) -> (r: Option<i32>)
    ensures
        r == recorded_exit_code(success, code),
{
    if success {
        Some(0)
    } else {
        code
    }
}

// ── Streaming output ────────────────────────────────────────────────────────

/// The progress event for a line read from the named stream (`"stderr"`
/// goes to stderr, anything else to stdout).
pub fn progress_event_for(stream_name: &str, line: String) -> (e: VerifyProgressEvent)
    ensures
        e.chunk_spec() == line@,
        (e is Stderr) <==> stream_name@ == "stderr"@,
{
    if crate::text::eq_str(crate::text::chars_of(stream_name).as_slice(), "stderr") {
        VerifyProgressEvent::Stderr { chunk: line }
    } else {
        VerifyProgressEvent::Stdout { chunk: line }
    }
}

/// Output text ending in a newline, or empty: what the line reader builds.
pub open spec fn is_line_output(s: Seq<char>) -> bool {
    s.len() == 0 || s.last() == '\n'
}

/// Whether `s` is empty or ends with a newline.
pub fn is_line_output_text(s: &str) -> (r: bool)
    ensures
        r == is_line_output(s@),
{
    let c = crate::text::chars_of(s);
    c.len() == 0 || c[c.len() - 1] == '\n'
}

/// Append a read line and its newline to the collected output.
pub fn append_line(output: &mut String, line: &str)
    ensures
        final(output)@ == old(output)@ + line@ + seq!['\n'],
        is_line_output(final(output)@),
{
    output.append(line);
    output.append("\n");
    proof {
        reveal_strlit("\n");
    }
}

// ── Results and the writes that mirror them ─────────────────────────────────

/// A value written to the store.
#[derive(Debug, Clone)]
pub enum StoreValue {
    /// A text, stored as is.
    Text(String),
    /// The JSON encoding of the run's result.
    ResultJson,
}

/// One store write: `value` under `key`.
#[derive(Debug, Clone)]
pub struct StoreWrite {
    pub key: String,
    pub value: StoreValue,
}

/// `ns:{tenant}:{key}`.
pub open spec fn ns_key(tenant: Seq<char>, key: Seq<char>) -> Seq<char> {
    "ns:"@ + tenant + ":"@ + key
}

/// `ns:{tenant}:{key}`, the tenant-namespaced form of a key.
pub fn namespaced_key(tenant: &str, key: &str) -> (k: String)
    ensures
        k@ == ns_key(tenant@, key@),
{
    let mut k = String::from_str("ns:");
    k.append(tenant);
    k.append(":");
    k.append(key);
    k
}

/// `audit:a2a:{task_id}:{suffix}`.
pub open spec fn audit_entry(task_id: Seq<char>, suffix: Seq<char>) -> Seq<char> {
    audit_task_key_spec(task_id) + ":"@ + suffix
}

/// `pair:{pair_id}:verification`.
pub open spec fn pair_verification(pair_id: Seq<char>) -> Seq<char> {
    crate::keys::verification_key_spec(pair_id)
}

fn ns_audit_entry(tenant: &str, task_id: &str, suffix: &str) -> (k: String)
    ensures
        k@ == ns_key(tenant@, audit_entry(task_id@, suffix@)),
{
    let entry = crate::keys::audit_task_subkey(task_id, suffix);
    namespaced_key(tenant, entry.as_str())
}

fn ns_verification(tenant: &str, pair_id: &str) -> (k: String)
    ensures
        k@ == ns_key(tenant@, pair_verification(pair_id@)),
{
    let key = crate::keys::verification_key(pair_id);
    namespaced_key(tenant, key.as_str())
}

/// The result of a run stopped at its timeout.
pub open spec fn timeout_result_spec(task_id: Seq<char>, workspace_id: Seq<char>, duration_ms: u64) -> VerifyResultView {
    VerifyResultView {
        task_id,
        exit_code: None,
        timed_out: true,
        duration_ms,
        stdout_ref: audit_entry(task_id, "stdout"@),
        stderr_ref: audit_entry(task_id, "stderr"@),
        artifacts: Seq::empty(),
        executor: ("forge"@, workspace_id),
    }
}

/// The text stored as the stderr of a timed-out run.
pub open spec fn timeout_note(timeout_secs: u64) -> Seq<char> {
    "[TIMEOUT] Command exceeded "@ + decimal(timeout_secs as nat) + "s limit"@
}

/// A run that hit its timeout: the result (no exit code, timed out) and the
/// writes that mirror it: the result under the pair's verification key and
/// a timeout note as the task's stderr.
pub fn timeout_record(
    tenant: &str,
    pair_id: &str,
    task_id: &str,
    workspace_id: &str,
    timeout_secs: u64,
    duration_ms: u64,
) -> (out: (VerifyResult, Vec<StoreWrite>))
    ensures
        out.0@ == timeout_result_spec(task_id@, workspace_id@, duration_ms),
        out.1@.len() == 2,
        out.1@[0].key@ == ns_key(tenant@, pair_verification(pair_id@)),
        out.1@[0].value is ResultJson,
        out.1@[1].key@ == ns_key(tenant@, audit_entry(task_id@, "stderr"@)),
        out.1@[1].value matches StoreValue::Text(t) && t@ == timeout_note(timeout_secs),
{
    let result = VerifyResult {
        task_id: String::from_str(task_id),
        exit_code: None,
        timed_out: true,
        duration_ms,
        stdout_ref: crate::keys::audit_task_subkey(task_id, "stdout"),
        stderr_ref: crate::keys::audit_task_subkey(task_id, "stderr"),
        artifacts: Vec::new(),
        executor: ExecutorInfo {
            role: String::from_str("forge"),
            workspace: String::from_str(workspace_id),
        },
    };
    assert(result@.artifacts =~= Seq::<(Seq<char>, Seq<char>)>::empty());
    let mut note = String::from_str("[TIMEOUT] Command exceeded ");
    let n = decimal_text(timeout_secs);
    note.append(n.as_str());
    note.append("s limit");
    let mut writes: Vec<StoreWrite> = Vec::new();
    writes.push(StoreWrite { key: ns_verification(tenant, pair_id), value: StoreValue::ResultJson });
    writes.push(
        StoreWrite {
            key: ns_audit_entry(tenant, task_id, "stderr"),
            value: StoreValue::Text(note),
        },
    );
    (result, writes)
}

/// Bytes kept of each output stream.
pub const OUTPUT_TAIL_BYTES: usize = 10240;

/// The result of a run that finished: its stdout/stderr references are the
/// tenant-namespaced audit keys the tails are stored under.
pub open spec fn completion_result_spec(
    tenant: Seq<char>,
    task_id: Seq<char>,
    workspace_id: Seq<char>,
    exit_code: Option<i32>,
    duration_ms: u64,
) -> VerifyResultView {
    VerifyResultView {
        task_id,
        exit_code,
        timed_out: false,
        duration_ms,
        stdout_ref: ns_key(tenant, audit_entry(task_id, "stdout"@)),
        stderr_ref: ns_key(tenant, audit_entry(task_id, "stderr"@)),
        artifacts: Seq::empty(),
        executor: ("forge"@, workspace_id),
    }
}

/// A run that finished with `exit_code`: the result and the writes that
/// store it: the last 10 KiB (whole lines) of stdout and of stderr under the
/// task's audit keys, then the result under the pair's verification key and
/// the task's `:result` audit key.
pub fn completion_record(
    tenant: &str,
    pair_id: &str,
    task_id: &str,
    workspace_id: &str,
    exit_code: Option<i32>,
    duration_ms: u64,
    stdout_text: &str,
    stderr_text: &str,
) -> (out: (VerifyResult, Vec<StoreWrite>))
    requires
        is_line_output(stdout_text@),
        is_line_output(stderr_text@),
    ensures
        out.0@ == completion_result_spec(tenant@, task_id@, workspace_id@, exit_code, duration_ms),
        out.1@.len() == 4,
        out.1@[0].key@ == ns_key(tenant@, audit_entry(task_id@, "stdout"@)),
        out.1@[0].value matches StoreValue::Text(t) && encode_utf8(t@) == tail_bytes(
            stdout_text.spec_bytes(),
            OUTPUT_TAIL_BYTES as nat,
        ),
        out.1@[1].key@ == ns_key(tenant@, audit_entry(task_id@, "stderr"@)),
        out.1@[1].value matches StoreValue::Text(t) && encode_utf8(t@) == tail_bytes(
            stderr_text.spec_bytes(),
            OUTPUT_TAIL_BYTES as nat,
        ),
        out.1@[2].key@ == ns_key(tenant@, pair_verification(pair_id@)),
        out.1@[2].value is ResultJson,
        out.1@[3].key@ == ns_key(tenant@, audit_entry(task_id@, "result"@)),
        out.1@[3].value is ResultJson,
{
    proof {
        lemma_line_output_cuttable(stdout_text, OUTPUT_TAIL_BYTES as nat);
        lemma_line_output_cuttable(stderr_text, OUTPUT_TAIL_BYTES as nat);
    }
    let stdout_key = ns_audit_entry(tenant, task_id, "stdout");
    let stderr_key = ns_audit_entry(tenant, task_id, "stderr");
    let stdout_tail = truncate_to_tail(stdout_text, OUTPUT_TAIL_BYTES);
    let stderr_tail = truncate_to_tail(stderr_text, OUTPUT_TAIL_BYTES);
    let result = VerifyResult {
        task_id: String::from_str(task_id),
        exit_code,
        timed_out: false,
        duration_ms,
        stdout_ref: stdout_key.clone(),
        stderr_ref: stderr_key.clone(),
        artifacts: Vec::new(),
        executor: ExecutorInfo {
            role: String::from_str("forge"),
            workspace: String::from_str(workspace_id),
        },
    };
    assert(result@.artifacts =~= Seq::<(Seq<char>, Seq<char>)>::empty());
    let mut writes: Vec<StoreWrite> = Vec::new();
    writes.push(StoreWrite { key: stdout_key, value: StoreValue::Text(stdout_tail) });
    writes.push(StoreWrite { key: stderr_key, value: StoreValue::Text(stderr_tail) });
    writes.push(StoreWrite { key: ns_verification(tenant, pair_id), value: StoreValue::ResultJson });
    writes.push(
        StoreWrite { key: ns_audit_entry(tenant, task_id, "result"), value: StoreValue::ResultJson },
    );
    (result, writes)
}

/// Encoding distributes over concatenation.
pub proof fn lemma_encode_concat(a: Seq<char>, c: Seq<char>)
    ensures
        encode_utf8(a + c) == encode_utf8(a) + encode_utf8(c),
    decreases a.len(),
{
    if a.len() == 0 {
        assert(a + c =~= c);
        assert(encode_utf8(a) =~= Seq::<u8>::empty());
        assert(encode_utf8(a) + encode_utf8(c) =~= encode_utf8(c));
    } else {
        assert((a + c).drop_first() =~= a.drop_first() + c);
        assert((a + c)[0] == a[0]);
        lemma_encode_concat(a.drop_first(), c);
        assert(encode_utf8(a + c) =~= encode_utf8(a) + encode_utf8(c));
    }
}

/// Output that ends in a newline can always be cut to a positive cap: its
/// last byte is a newline.
proof fn lemma_line_output_cuttable(s: &str, max: nat)
    requires
        is_line_output(s@),
        max > 0,
    ensures
        tail_cuttable(s.spec_bytes(), max),
{
    let b = s.spec_bytes();
    if b.len() > max {
        assert(s@.len() > 0);
        let init = s@.drop_last();
        assert(s@ =~= init + seq!['\n']);
        lemma_encode_concat(init, seq!['\n']);
        let nl = seq!['\n'];
        assert(vstd::utf8::is_ascii_chars(nl));
        vstd::utf8::is_ascii_chars_encode_utf8(nl);
        assert(nl[0] as u8 == encode_utf8(nl)[0]);
        assert(encode_utf8(nl) =~= seq![10u8]);
        assert(b[b.len() - 1] == 10);
        assert(has_newline_from(b, b.len() - max));
    }
}

} // verus!
