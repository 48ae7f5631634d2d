//! Values shared by the pre-tool-use guards: the decision a guard returns, the
//! parts of a tool call's input the guards read, and the durable ticket state.

use vstd::prelude::*;
use vstd::string::StringExecFns;
use crate::text::{chars_of, join_spaced, join_with_spaces};

verus! {

/// A hook's decision on a tool call.
#[derive(Debug, Clone)]
pub struct HookDecision {
    /// The tool call is refused.
    pub deny: bool,
    /// Why it is refused.
    pub reason: Option<String>,
    /// A replacement for the tool input, decided by the generic policy.
    pub rewrite: Option<String>,
    /// Guidance relayed to the model.
    pub model_context: Option<String>,
}

/// A decision as plain values.
pub struct DecisionView {
    pub deny: bool,
    pub reason: Option<Seq<char>>,
    pub rewrite: Option<Seq<char>>,
    pub model_context: Option<Seq<char>>,
}

pub open spec fn opt_view(o: Option<String>) -> Option<Seq<char>> {
    match o {
        Some(s) => Some(s@),
        None => None,
    }
}

impl View for HookDecision {
    type V = DecisionView;

    open spec fn view(&self) -> DecisionView {
        DecisionView {
            deny: self.deny,
            reason: opt_view(self.reason),
            rewrite: opt_view(self.rewrite),
            model_context: opt_view(self.model_context),
        }
    }
}

pub open spec fn observe_spec() -> DecisionView {
    DecisionView { deny: false, reason: None, rewrite: None, model_context: None }
}

pub open spec fn deny_spec(reason: Seq<char>) -> DecisionView {
    DecisionView { deny: true, reason: Some(reason), rewrite: None, model_context: None }
}

pub open spec fn with_context_spec(d: DecisionView, ctx: Seq<char>) -> DecisionView {
    DecisionView { model_context: Some(ctx), ..d }
}

impl HookDecision {
    /// Allow the call, adding nothing.
    pub fn observe() -> (d: HookDecision)
        ensures
            d@ == observe_spec(),
    {
        HookDecision { deny: false, reason: None, rewrite: None, model_context: None }
    }

    /// Refuse the call for `reason`.
    pub fn deny(reason: &str) -> (d: HookDecision)
        ensures
            d@ == deny_spec(reason@),
    {
        HookDecision {
            deny: true,
            reason: Some(String::from_str(reason)),
            rewrite: None,
            model_context: None,
        }
    }

    /// The same decision, carrying `ctx` as guidance for the model.
    pub fn with_model_context(self, ctx: String) -> (d: HookDecision)
        ensures
            d@ == with_context_spec(self@, ctx@),
    {
        HookDecision { model_context: Some(ctx), ..self }
    }
}

/// A field of the tool-call JSON object.
#[derive(Debug, Clone)]
pub enum JsonField {
    /// The key is not present.
    Absent,
    /// The key holds something other than a string.
    NotText,
    /// The key holds a string.
    Text(String),
}

/// What the guards read from a tool call's input JSON.
#[derive(Debug, Clone)]
pub struct ToolInput {
    /// `input["command"]`, when it is a string.
    pub command: Option<String>,
    /// The string elements of `input["argv"]`, when it is an array.
    pub argv: Option<Vec<String>>,
    /// The input itself, when it is a string.
    pub text: Option<String>,
    /// `input["path"]`.
    pub path: JsonField,
    /// `input["file_path"]`, when it is a string.
    pub file_path: Option<String>,
}

/// The command a shell/harness tool call runs: the `command` string, else
/// the `argv` strings joined by spaces, else the input itself as a string,
/// else nothing.
pub open spec fn command_text_spec(input: ToolInput) -> Seq<char> {
    match input.command {
        Some(c) => c@,
        None => match input.argv {
            Some(a) => join_spaced(a.deep_view()),
            None => match input.text {
                Some(t) => t@,
                None => Seq::empty(),
            },
        },
    }
}

pub fn command_text(input: &ToolInput) -> (c: Vec<char>)
    ensures
        c@ == command_text_spec(*input),
{
    match &input.command {
        Some(c) => chars_of(c.as_str()),
        None => match &input.argv {
            Some(a) => {
                let sl = a.as_slice();
                assert(sl.deep_view() =~= a.deep_view());
                let j = join_with_spaces(sl);
                chars_of(j.as_str())
            },
            None => match &input.text {
                Some(t) => chars_of(t.as_str()),
                None => Vec::new(),
            },
        },
    }
}

/// The `command` string of the input, or nothing.
pub open spec fn command_field_spec(input: ToolInput) -> Seq<char> {
    match input.command {
        Some(c) => c@,
        None => Seq::empty(),
    }
}

pub fn command_field(input: &ToolInput) -> (c: Vec<char>)
    ensures
        c@ == command_field_spec(*input),
{
    match &input.command {
        Some(c) => chars_of(c.as_str()),
        None => Vec::new(),
    }
}

/// The path a write tool targets: `path` when present (nothing if it is not
/// a string), else `file_path`, else nothing.
pub open spec fn target_path_spec(input: ToolInput) -> Seq<char> {
    match input.path {
        JsonField::Text(p) => p@,
        JsonField::NotText => Seq::empty(),
        JsonField::Absent => match input.file_path {
            Some(f) => f@,
            None => Seq::empty(),
        },
    }
}

pub fn target_path(input: &ToolInput) -> (p: Vec<char>)
    ensures
        p@ == target_path_spec(*input),
{
    match &input.path {
        JsonField::Text(p) => chars_of(p.as_str()),
        JsonField::NotText => Vec::new(),
        JsonField::Absent => match &input.file_path {
            Some(f) => chars_of(f.as_str()),
            None => Vec::new(),
        },
    }
}

/// The durable state of a ticket, as read from the shared store.
#[derive(Debug, Clone)]
pub struct TicketState {
    /// The FORGE phase recorded by `status set`, if any.
    pub phase: Option<String>,
    /// A plan has been uploaded.
    pub plan_exists: bool,
    /// SENTINEL approved the planning gate.
    pub gate_approved: bool,
}

/// ASCII lowercase of one character (`char::to_ascii_lowercase`).
pub open spec fn ascii_lower(c: char) -> char {
    if 'A' <= c <= 'Z' {
        ((c as u32) + 32) as char
    } else {
        c
    }
}

/// `str::eq_ignore_ascii_case`.
pub open spec fn eq_ignore_ascii_case_spec(a: Seq<char>, b: Seq<char>) -> bool {
    a.len() == b.len() && forall|i: int| 0 <= i < a.len() ==> ascii_lower(a[i]) == ascii_lower(b[i])
}

fn ascii_lower_exec(c: char) -> (r: char)
    ensures
        r == ascii_lower(c),
{
    if 'A' <= c && c <= 'Z' {
        let b = c as u8;
        assert(b == c as u32);
        ((b + 32) as char)
    } else {
        c
    }
}

pub fn eq_ignore_ascii_case(a: &str, b: &str) -> (r: bool)
    ensures
        r == eq_ignore_ascii_case_spec(a@, b@),
{
    let x = chars_of(a);
    let y = chars_of(b);
    if x.len() != y.len() {
        return false;
    }
    let mut i: usize = 0;
    while i < x.len()
        invariant
            x@ == a@,
            y@ == b@,
            x.len() == y.len(),
            i <= x.len(),
            forall|k: int| 0 <= k < i ==> ascii_lower(x@[k]) == ascii_lower(y@[k]),
        decreases x.len() - i,
    {
        if ascii_lower_exec(x[i]) != ascii_lower_exec(y[i]) {
            return false;
        }
        i = i + 1;
    }
    true
}

/// A write tool's target is its `path` text when the input has one, and its
/// `file_path` text when `path` is absent; a `path` that is not text names
/// nothing, whatever `file_path` says.
pub proof fn target_is_path_else_file_path(input: ToolInput)
    ensures
        input.path matches JsonField::Text(p) ==> target_path_spec(input) == p@,
        input.path is Absent && input.file_path is Some ==> target_path_spec(input)
            == input.file_path->0@,
        input.path is Absent && input.file_path is None ==> target_path_spec(input).len() == 0,
        input.path is NotText ==> target_path_spec(input).len() == 0,
{
}

} // verus!
