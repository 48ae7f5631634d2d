//! Stateful, phase-aware pre-tool-use guard for the FORGE lifecycle.
//!
//! The harness phases are authoritative: `planning -> building -> testing ->
//! review_ready`, with `blocked` as the failure escape hatch. Every tool call
//! is asked: is the agent doing exactly what its current phase says it should?
//!   - `planning`     — the first write must be the plan (PLAN.md / `plan write`).
//!   - `building`     — implementation; the plan must already exist.
//!   - `testing`      — verify; the plan must exist, source fixes permitted.
//!   - `review_ready` — writes denied; rework re-enters an earlier phase.
//!   - `blocked`      — only blocker report, read-only probes and an exact replan.
//!   - SENTINEL       — reviews read-only; all writes denied.

use vstd::prelude::*;
use vstd::string::StringExecFns;
use crate::hooks::{
    command_field, command_field_spec, command_text, command_text_spec, deny_spec,
    eq_ignore_ascii_case, eq_ignore_ascii_case_spec, observe_spec, target_path, target_path_spec,
    with_context_spec, DecisionView, HookDecision, TicketState, ToolInput,
};
use crate::outside::{to_lowercase, unicode_lowercase};
use crate::shell::{
    contains_one_of, one_of, shell_write_targets, strs_view, write_targets_spec, Dialect,
};
use crate::text::{
    chars_of, contains_spec, contains_str, ends_with_spec, ends_with_str, eq_str, file_name,
    last_component, lemma_chars_deep_view, pieces, split_pieces, trim, trim_spec, CharClass,
    in_class, pieces_split_at_separator, pieces_without_separator,
};

verus! {

broadcast use lemma_chars_deep_view;

/// The phases of a FORGE worker's lifecycle, in order.
pub open spec fn phases() -> Seq<Seq<char>> {
    seq!["planning"@, "building"@, "testing"@, "review_ready"@, "blocked"@]
}

/// True iff `phase` is a recognised FORGE lifecycle phase.
pub fn is_valid_phase(phase: &str) -> (r: bool)
    ensures
        r == phases().contains(phase@),
{
    let list = ["planning", "building", "testing", "review_ready", "blocked"];
    let p = chars_of(phase);
    assert(strs_view(list@) =~= phases());
    one_of(p.as_slice(), &list)
}

// ── Tool classification ──────────────────────────────────────────────────────

pub open spec fn write_tool_names() -> Seq<Seq<char>> {
    seq![
        "write"@,
        "edit"@,
        "create"@,
        "patch"@,
        "Write"@,
        "Edit"@,
        "Create"@,
        "Patch"@,
    ]
}

pub open spec fn shell_tool_names() -> Seq<Seq<char>> {
    seq!["bash"@, "sh"@, "shell"@, "execute"@, "exec"@]
}

/// A write-ish tool (the name as given, not lowercased).
pub open spec fn is_write_tool_spec(name: Seq<char>) -> bool {
    write_tool_names().contains(name)
}

/// The harness coordination CLI.
pub open spec fn is_harness_spec(name: Seq<char>) -> bool {
    contains_spec(unicode_lowercase(name), "harness"@)
}

/// A shell (Bash/exec) tool.
pub open spec fn is_shell_spec(name: Seq<char>) -> bool {
    shell_tool_names().contains(unicode_lowercase(name))
}

pub fn is_write_tool(name: &[char]) -> (r: bool)
    ensures
        r == is_write_tool_spec(name@),
{
    let list = ["write", "edit", "create", "patch", "Write", "Edit", "Create", "Patch"];
    assert(strs_view(list@) =~= write_tool_names());
    one_of(name, &list)
}

pub fn is_harness(name: &[char]) -> (r: bool)
    ensures
        r == is_harness_spec(name@),
{
    let lower = to_lowercase(name);
    contains_str(lower.as_slice(), "harness")
}

pub fn is_shell(name: &[char]) -> (r: bool)
    ensures
        r == is_shell_spec(name@),
{
    let lower = to_lowercase(name);
    let list = ["bash", "sh", "shell", "execute", "exec"];
    assert(strs_view(list@) =~= shell_tool_names());
    one_of(lower.as_slice(), &list)
}

// ── Shell writes ─────────────────────────────────────────────────────────────

/// Lifecycle artifacts FORGE may write in any phase (compared on the
/// lowercased file name).
pub open spec fn lifecycle_files() -> Seq<Seq<char>> {
    seq![
        "plan.md"@,
        "plan"@,
        "status.json"@,
        "blocker"@,
        "blocker.md"@,
        "blockers.md"@,
        "handoff.md"@,
        "final-review.md"@,
        "review.md"@,
        "review-report.md"@,
    ]
}

pub open spec fn is_lifecycle_file_name(file: Seq<char>) -> bool {
    lifecycle_files().contains(file) || ends_with_spec(file, "-eval.md"@)
}

pub open spec fn is_allowed_lifecycle_artifact_spec(path: Seq<char>) -> bool {
    is_lifecycle_file_name(last_component(unicode_lowercase(path)))
}

/// Whether a lowercased file name is a lifecycle artifact.
pub fn is_lifecycle_file(file: &[char]) -> (r: bool)
    ensures
        r == is_lifecycle_file_name(file@),
{
    let list = [
        "plan.md",
        "plan",
        "status.json",
        "blocker",
        "blocker.md",
        "blockers.md",
        "handoff.md",
        "final-review.md",
        "review.md",
        "review-report.md",
    ];
    assert(strs_view(list@) =~= lifecycle_files());
    one_of(file, &list) || ends_with_str(file, "-eval.md")
}

pub fn is_allowed_lifecycle_artifact(path: &[char]) -> (r: bool)
    ensures
        r == is_allowed_lifecycle_artifact_spec(path@),
{
    let lower = to_lowercase(path);
    let file = file_name(lower.as_slice());
    is_lifecycle_file(file.as_slice())
}

pub open spec fn shell_command_writes_spec(cmd: Seq<char>) -> bool {
    match write_targets_spec(cmd, Dialect::Forge) {
        Some(t) => t.len() > 0,
        None => true,
    }
}

pub fn shell_command_writes(cmd: &[char]) -> (r: bool)
    ensures
        r == shell_command_writes_spec(cmd@),
{
    match shell_write_targets(cmd, Dialect::Forge) {
        Some(t) => t.len() > 0,
        None => true,
    }
}

/// The command writes something other than a lifecycle artifact (or may
/// write in ways that cannot be read off its text).
pub open spec fn has_source_target(t: Seq<Seq<char>>) -> bool {
    exists|k: int| 0 <= k < t.len() && !#[trigger] is_allowed_lifecycle_artifact_spec(t[k])
}

pub open spec fn shell_writes_source_spec(cmd: Seq<char>) -> bool {
    match write_targets_spec(cmd, Dialect::Forge) {
        Some(t) => has_source_target(t),
        None => shell_command_writes_spec(cmd),
    }
}

pub fn shell_writes_source(cmd: &[char]) -> (r: bool)
    ensures
        r == shell_writes_source_spec(cmd@),
{
    match shell_write_targets(cmd, Dialect::Forge) {
        Some(t) => {
            let mut i: usize = 0;
            while i < t.len()
                invariant
                    i <= t.len(),
                    write_targets_spec(cmd@, Dialect::Forge) == Some(t.deep_view()),
                    forall|k: int| 0 <= k < i ==> #[trigger] is_allowed_lifecycle_artifact_spec(t.deep_view()[k]),
                decreases t.len() - i,
            {
                assert(t.deep_view()[i as int] == t@[i as int]@);
                if !is_allowed_lifecycle_artifact(t[i].as_slice()) {
                    let ghost tv = t.deep_view();
                    assert(!is_allowed_lifecycle_artifact_spec(tv[i as int]));
                    assert(has_source_target(tv));
                    return true;
                }
                i = i + 1;
            }
            false
        },
        None => shell_command_writes(cmd),
    }
}

pub open spec fn is_write_attempt_spec(tool: Seq<char>, input: ToolInput) -> bool {
    is_write_tool_spec(tool) || (is_shell_spec(tool) && shell_writes_source_spec(
        command_text_spec(input),
    ))
}

pub fn is_write_attempt(tool: &[char], input: &ToolInput) -> (r: bool)
    ensures
        r == is_write_attempt_spec(tool@, *input),
{
    if is_write_tool(tool) {
        return true;
    }
    if !is_shell(tool) {
        return false;
    }
    let c = command_text(input);
    shell_writes_source(c.as_slice())
}

// ── Probes and replans ───────────────────────────────────────────────────────

pub open spec fn probe_phrases() -> Seq<&'static str> {
    seq![
        "status get",
        "gate status",
        "dispatch read",
        "plan read",
        "plan write",
        "review read",
        "git status",
        "git diff",
    ]
}

/// A single shell segment is a recognised read-only probe.
pub open spec fn is_probe_segment_spec(seg: Seq<char>) -> bool {
    let c = unicode_lowercase(seg);
    (exists|j: int| 0 <= j < probe_phrases().len() && #[trigger] contains_spec(c, probe_phrases()[j]@))
        || c == "ls"@
}

pub fn is_probe_segment(seg: &[char]) -> (r: bool)
    ensures
        r == is_probe_segment_spec(seg@),
{
    let c = to_lowercase(seg);
    let list = [
        "status get",
        "gate status",
        "dispatch read",
        "plan read",
        "plan write",
        "review read",
        "git status",
        "git diff",
    ];
    assert(list@ =~= probe_phrases());
    contains_one_of(c.as_slice(), &list) || eq_str(c.as_slice(), "ls")
}

/// Split on `;`, `&`, `|`: every non-blank segment (after trimming
/// whitespace) is a probe, and there is at least one.
pub open spec fn is_probe_command_spec(cmd: Seq<char>) -> bool {
    let segs = pieces(cmd, CharClass::ProbeSeparator);
    &&& forall|k: int|
        0 <= k < segs.len() && trim_spec(#[trigger] segs[k], CharClass::Whitespace).len() > 0
            ==> is_probe_segment_spec(trim_spec(segs[k], CharClass::Whitespace))
    &&& exists|k: int|
        0 <= k < segs.len() && trim_spec(#[trigger] segs[k], CharClass::Whitespace).len() > 0
}

pub fn is_probe_command(cmd: &[char]) -> (r: bool)
    ensures
        r == is_probe_command_spec(cmd@),
{
    let segs = split_pieces(cmd, CharClass::ProbeSeparator);
    let ghost sv = segs.deep_view();
    let mut saw_probe = false;
    let mut i: usize = 0;
    while i < segs.len()
        invariant
            sv == segs.deep_view(),
            sv == pieces(cmd@, CharClass::ProbeSeparator),
            i <= segs.len(),
            forall|k: int|
                0 <= k < i && trim_spec(#[trigger] sv[k], CharClass::Whitespace).len() > 0
                    ==> is_probe_segment_spec(trim_spec(sv[k], CharClass::Whitespace)),
            saw_probe == exists|k: int|
                0 <= k < i && trim_spec(#[trigger] sv[k], CharClass::Whitespace).len() > 0,
        decreases segs.len() - i,
    {
        assert(sv[i as int] == segs@[i as int]@);
        let seg = trim(segs[i].as_slice(), CharClass::Whitespace);
        if seg.len() > 0 {
            if !is_probe_segment(seg.as_slice()) {
                return false;
            }
            saw_probe = true;
        }
        i = i + 1;
    }
    saw_probe
}

/// An exact return-to-planning (or blocked-hold) transition command.
pub open spec fn is_exact_replan_spec(cmd: Seq<char>) -> bool {
    let c = unicode_lowercase(trim_spec(cmd, CharClass::Whitespace));
    c == "openflows-harness status set planning"@ || c == "openflows-harness status set blocked"@
}

pub fn is_exact_replan(cmd: &[char]) -> (r: bool)
    ensures
        r == is_exact_replan_spec(cmd@),
{
    let t = trim(cmd, CharClass::Whitespace);
    let c = to_lowercase(t.as_slice());
    eq_str(c.as_slice(), "openflows-harness status set planning") || eq_str(
        c.as_slice(),
        "openflows-harness status set blocked",
    )
}

pub open spec fn recovery_phrases() -> Seq<&'static str> {
    seq![
        "plan write",
        "status set planning",
        "status set blocked",
        "status get",
        "plan read",
        "dispatch read",
    ]
}

/// Coordination commands that stay available when the durable state is
/// inconsistent (a `building` ticket without a plan).
pub open spec fn recovery_command(tool: Seq<char>, input: ToolInput) -> Seq<char> {
    let lower = unicode_lowercase(tool);
    if is_shell_spec(lower) || is_harness_spec(lower) {
        unicode_lowercase(command_text_spec(input))
    } else {
        Seq::empty()
    }
}

pub open spec fn is_plan_recovery_command_spec(tool: Seq<char>, input: ToolInput) -> bool {
    let command = recovery_command(tool, input);
    &&& command.len() > 0
    &&& contains_spec(command, "openflows-harness"@)
    &&& exists|j: int|
        0 <= j < recovery_phrases().len() && #[trigger] contains_spec(
            command,
            recovery_phrases()[j]@,
        )
}

pub fn is_plan_recovery_command(tool: &[char], input: &ToolInput) -> (r: bool)
    ensures
        r == is_plan_recovery_command_spec(tool@, *input),
{
    let lower = to_lowercase(tool);
    let command = if is_shell(lower.as_slice()) || is_harness(lower.as_slice()) {
        let t = command_text(input);
        to_lowercase(t.as_slice())
    } else {
        Vec::new()
    };
    if command.len() == 0 || !contains_str(command.as_slice(), "openflows-harness") {
        return false;
    }
    let list = [
        "plan write",
        "status set planning",
        "status set blocked",
        "status get",
        "plan read",
        "dispatch read",
    ];
    assert(list@ =~= recovery_phrases());
    contains_one_of(command.as_slice(), &list)
}

/// The write is to (or creates) the plan artifact: a tool whose name holds
/// `plan`, a target file named `plan.md`/`plan`, or a harness `plan write`.
pub open spec fn is_plan_write_spec(tool: Seq<char>, input: ToolInput) -> bool {
    ||| contains_spec(unicode_lowercase(tool), "plan"@)
    ||| ({
        let file = last_component(unicode_lowercase(target_path_spec(input)));
        file == "plan.md"@ || file == "plan"@
    })
    ||| (is_harness_spec(tool) && contains_spec(
        unicode_lowercase(command_field_spec(input)),
        "plan write"@,
    ))
}

pub fn is_plan_write(tool: &[char], input: &ToolInput) -> (r: bool)
    ensures
        r == is_plan_write_spec(tool@, *input),
{
    let lt = to_lowercase(tool);
    if contains_str(lt.as_slice(), "plan") {
        return true;
    }
    let p = target_path(input);
    let lp = to_lowercase(p.as_slice());
    let file = file_name(lp.as_slice());
    if eq_str(file.as_slice(), "plan.md") || eq_str(file.as_slice(), "plan") {
        return true;
    }
    if is_harness(tool) {
        let c = command_field(input);
        let lc = to_lowercase(c.as_slice());
        if contains_str(lc.as_slice(), "plan write") {
            return true;
        }
    }
    false
}

pub open spec fn blocker_files() -> Seq<Seq<char>> {
    seq!["status.json"@, "blocker"@, "blocker.md"@, "blockers.md"@]
}

/// A write targeting the blocker report (allowed while `blocked`).
pub open spec fn is_blocker_write_spec(input: ToolInput) -> bool {
    blocker_files().contains(last_component(unicode_lowercase(target_path_spec(input))))
}

pub fn is_blocker_write(input: &ToolInput) -> (r: bool)
    ensures
        r == is_blocker_write_spec(*input),
{
    let p = target_path(input);
    let lp = to_lowercase(p.as_slice());
    let file = file_name(lp.as_slice());
    let list = ["status.json", "blocker", "blocker.md", "blockers.md"];
    assert(strs_view(list@) =~= blocker_files());
    one_of(file.as_slice(), &list)
}

// ── Guidance ─────────────────────────────────────────────────────────────────

pub const SENTINEL_READONLY_GUIDANCE: &'static str = "You are SENTINEL, reviewing read-only. Your job is to review plans and PRs and submit verdicts — you must not write or edit source. Read the plan/PR, run read-only checks, and use `openflows-harness review submit` / `gate approve`.";

pub const PLANNING_NO_PLAN_GUIDANCE: &'static str = "FORGE planning phase: a plan does not exist yet. Run `/plan` now to analyze the ticket and write PLAN.md, then `openflows-harness plan write --file PLAN.md`, then `openflows-harness status set planning`, and HALT for SENTINEL gate approval before touching any source file.";

pub const PLANNING_GUIDANCE: &'static str = "FORGE planning phase: your plan is written and awaiting SENTINEL gate approval. Do not write source yet. Run `openflows-harness gate status --phase planning`; HALT for approval, then `status set building`.";

pub const BUILDING_NO_PLAN_GUIDANCE: &'static str = "FORGE is in the building phase but NO plan exists in the shared store. This is out of sequence. Stop and run `/plan` first: write PLAN.md, upload it with `openflows-harness plan write --file PLAN.md`, and obtain SENTINEL gate approval before continuing to build.";

pub const BUILDING_GUIDANCE: &'static str = "FORGE building phase: implement per PLAN.md. Write source and tests, run the test suite, and signal completion with `openflows-harness status set`.";

pub const TESTING_GUIDANCE: &'static str = "FORGE testing phase: you are verifying behavior. Run the test suite, fix failing tests, and only then `openflows-harness status set review_ready` and open the PR.";

pub const REVIEW_READY_GUIDANCE: &'static str = "FORGE review_ready phase: a PR is open and SENTINEL is reviewing it. Do not modify source while under review — rework must re-enter `status set planning`/`building` first.";

pub const BLOCKED_GUIDANCE: &'static str = "FORGE blocked phase: record an exact, answerable blocker (STATUS.json) and wait for NEXUS/human intervention. Do not write source or build.";

pub const GENERAL_GUIDANCE: &'static str = "Signal the harness phase with `openflows-harness status set <phase>` and work to the phase's contract. Valid phases: planning, building, testing, review_ready, blocked.";

/// The guidance for the model in a given phase.
pub open spec fn phase_guidance_spec(phase: Seq<char>, plan_exists: bool, role: Seq<char>) -> Seq<
    char,
> {
    if eq_ignore_ascii_case_spec(role, "sentinel"@) {
        SENTINEL_READONLY_GUIDANCE@
    } else if phase == "planning"@ {
        if !plan_exists {
            PLANNING_NO_PLAN_GUIDANCE@
        } else {
            PLANNING_GUIDANCE@
        }
    } else if phase == "building"@ {
        if !plan_exists {
            BUILDING_NO_PLAN_GUIDANCE@
        } else {
            BUILDING_GUIDANCE@
        }
    } else if phase == "testing"@ {
        TESTING_GUIDANCE@
    } else if phase == "review_ready"@ {
        REVIEW_READY_GUIDANCE@
    } else if phase == "blocked"@ {
        BLOCKED_GUIDANCE@
    } else {
        GENERAL_GUIDANCE@
    }
}

/// Phase-appropriate guidance for the model, relayed so the agent always
/// knows what its lifecycle expects.
pub fn phase_guidance(phase: &str, plan_exists: bool, role: &str) -> (g: String)
    ensures
        g@ == phase_guidance_spec(phase@, plan_exists, role@),
{
    if eq_ignore_ascii_case(role, "sentinel") {
        return String::from_str(SENTINEL_READONLY_GUIDANCE);
    }
    let p = chars_of(phase);
    let p = p.as_slice();
    if eq_str(p, "planning") {
        if !plan_exists {
            String::from_str(PLANNING_NO_PLAN_GUIDANCE)
        } else {
            String::from_str(PLANNING_GUIDANCE)
        }
    } else if eq_str(p, "building") {
        if !plan_exists {
            String::from_str(BUILDING_NO_PLAN_GUIDANCE)
        } else {
            String::from_str(BUILDING_GUIDANCE)
        }
    } else if eq_str(p, "testing") {
        String::from_str(TESTING_GUIDANCE)
    } else if eq_str(p, "review_ready") {
        String::from_str(REVIEW_READY_GUIDANCE)
    } else if eq_str(p, "blocked") {
        String::from_str(BLOCKED_GUIDANCE)
    } else {
        String::from_str(GENERAL_GUIDANCE)
    }
}

// ── The guard ────────────────────────────────────────────────────────────────

pub const SENTINEL_WRITE_DENIAL: &'static str = "openflows policy: SENTINEL reviews readonly — writes are blocked";

pub const PLANNING_DENIAL: &'static str = "openflows policy: FORGE is in the planning phase and must write PLAN.md (or `openflows-harness plan write`) before touching source";

pub const BUILDING_DENIAL: &'static str = "openflows policy: FORGE is in the building phase but no plan exists in the shared store. Write and upload a plan first: run `/plan`, then `openflows-harness plan write --file PLAN.md`.";

pub const TESTING_DENIAL: &'static str = "openflows policy: FORGE is in the testing phase but no plan exists. Leave testing: run `/plan` and get the plan approved before building.";

pub const REVIEW_READY_DENIAL: &'static str = "openflows policy: FORGE is in review_ready (PR under review). Do not modify source; for rework run `openflows-harness status set planning` (or `building`) first.";

pub const BLOCKED_DENIAL: &'static str = "openflows policy: FORGE is blocked. Only record a blocker (STATUS.json), probe state, or return to `status set planning`; do not write source or build.";

/// The phase recorded for the ticket, or `unset`.
pub open spec fn phase_of(st: TicketState) -> Seq<char> {
    match st.phase {
        Some(p) => p@,
        None => "unset"@,
    }
}

/// While blocked, a call is allowed iff it is a read-only probe, an exact
/// replan, or a blocker-report write.
pub open spec fn blocked_call_allowed(lower: Seq<char>, input: ToolInput) -> bool {
    let command = unicode_lowercase(command_text_spec(input));
    ||| (is_shell_spec(lower) && is_probe_command_spec(command) && !shell_writes_source_spec(
        command,
    ))
    ||| ((is_harness_spec(lower) || is_shell_spec(lower)) && is_exact_replan_spec(command))
    ||| (is_write_tool_spec(lower) && is_blocker_write_spec(input))
}

/// FORGE's decision once the ticket state is known (`lower` is the
/// lowercased tool name).
pub open spec fn forge_decision_spec(
    lower: Seq<char>,
    input: ToolInput,
    base: DecisionView,
    st: TicketState,
    role: Seq<char>,
) -> DecisionView {
    let phase = phase_of(st);
    let g = phase_guidance_spec(phase, st.plan_exists, role);
    if !is_write_tool_spec(lower) && !is_harness_spec(lower) && !is_shell_spec(lower) {
        base
    } else if phase == "planning"@ {
        if is_write_attempt_spec(lower, input) && !st.plan_exists && !is_plan_write_spec(
            lower,
            input,
        ) {
            with_context_spec(deny_spec(PLANNING_DENIAL@), g)
        } else {
            with_context_spec(observe_spec(), g)
        }
    } else if phase == "building"@ || phase == "testing"@ {
        if !st.plan_exists && !(is_plan_write_spec(lower, input) || is_plan_recovery_command_spec(
            lower,
            input,
        )) {
            with_context_spec(
                deny_spec(
                    if phase == "building"@ {
                        BUILDING_DENIAL@
                    } else {
                        TESTING_DENIAL@
                    },
                ),
                g,
            )
        } else {
            with_context_spec(observe_spec(), g)
        }
    } else if phase == "review_ready"@ {
        if is_write_attempt_spec(lower, input) {
            with_context_spec(deny_spec(REVIEW_READY_DENIAL@), g)
        } else {
            with_context_spec(observe_spec(), g)
        }
    } else if phase == "blocked"@ {
        if !blocked_call_allowed(lower, input) {
            with_context_spec(deny_spec(BLOCKED_DENIAL@), g)
        } else {
            with_context_spec(observe_spec(), g)
        }
    } else {
        with_context_spec(observe_spec(), g)
    }
}

/// The phase guard's decision. `ticket` is the state of the ticket the chat
/// belongs to (`None` when the chat resolves to no ticket); it is only
/// consulted for FORGE.
pub open spec fn phase_guard_spec(
    role: Seq<char>,
    tool: Seq<char>,
    input: ToolInput,
    base: DecisionView,
    ticket: Option<TicketState>,
) -> DecisionView {
    let lower = unicode_lowercase(tool);
    if base.deny || base.rewrite is Some {
        base
    } else if eq_ignore_ascii_case_spec(role, "sentinel"@) && is_write_attempt_spec(lower, input) {
        with_context_spec(
            deny_spec(SENTINEL_WRITE_DENIAL@),
            phase_guidance_spec(Seq::empty(), false, role),
        )
    } else if !eq_ignore_ascii_case_spec(role, "forge"@) {
        base
    } else {
        match ticket {
            None => base,
            Some(st) => forge_decision_spec(lower, input, base, st, role),
        }
    }
}

fn blocked_allowed(lower: &[char], input: &ToolInput) -> (r: bool)
    ensures
        r == blocked_call_allowed(lower@, *input),
{
    let t = command_text(input);
    let command = to_lowercase(t.as_slice());
    let c = command.as_slice();
    let shell = is_shell(lower);
    let is_readonly_probe = shell && is_probe_command(c) && !shell_writes_source(c);
    let is_replan = (is_harness(lower) || shell) && is_exact_replan(c);
    let is_blocker = is_write_tool(lower) && is_blocker_write(input);
    is_readonly_probe || is_replan || is_blocker
}

/// Stateful phase-aware guard. `base` is the generic policy decision already
/// computed; an existing denial or rewrite is never downgraded. Whenever a
/// phase rule applies, the decision carries the phase guidance for the model.
pub fn phase_guard(
    role: &str,
    tool_name: &str,
    input: &ToolInput,
    base: HookDecision,
    ticket: Option<&TicketState>,
) -> (d: HookDecision)
    ensures
        d@ == phase_guard_spec(
            role@,
            tool_name@,
            *input,
            base@,
            match ticket {
                Some(t) => Some(*t),
                None => None,
            },
        ),
{
    if base.deny || base.rewrite.is_some() {
        return base;
    }
    let tool = chars_of(tool_name);
    let lower = to_lowercase(tool.as_slice());
    let lower = lower.as_slice();

    // SENTINEL reviews read-only: deny all writes.
    if eq_ignore_ascii_case(role, "sentinel") && is_write_attempt(lower, input) {
        return HookDecision::deny(SENTINEL_WRITE_DENIAL).with_model_context(
            phase_guidance("", false, role),
        );
    }
    // Non-forge roles fall through to base.
    if !eq_ignore_ascii_case(role, "forge") {
        return base;
    }
    let st = match ticket {
        Some(st) => st,
        None => {
            return base;
        },
    };
    let phase: &str = match &st.phase {
        Some(p) => p.as_str(),
        None => "unset",
    };
    let guidance = phase_guidance(phase, st.plan_exists, role);
    let decision = HookDecision::observe();

    // Only write-ish tools and harness/shell coordination are gated.
    if !is_write_tool(lower) && !is_harness(lower) && !is_shell(lower) {
        return base;
    }
    let p = chars_of(phase);
    let p = p.as_slice();
    if eq_str(p, "planning") {
        if is_write_attempt(lower, input) && !st.plan_exists && !is_plan_write(lower, input) {
            // The first write must be the plan.
            return HookDecision::deny(PLANNING_DENIAL).with_model_context(guidance);
        }
        return decision.with_model_context(guidance);
    }
    if eq_str(p, "building") || eq_str(p, "testing") {
        if !st.plan_exists {
            if is_plan_write(lower, input) || is_plan_recovery_command(lower, input) {
                return decision.with_model_context(guidance);
            }
            // Out of sequence: building or testing before a plan was uploaded.
            let reason = if eq_str(p, "building") {
                BUILDING_DENIAL
            } else {
                TESTING_DENIAL
            };
            return HookDecision::deny(reason).with_model_context(guidance);
        }
        return decision.with_model_context(guidance);
    }
    if eq_str(p, "review_ready") {
        if is_write_attempt(lower, input) {
            // Under review: source must not change; re-enter an earlier phase.
            return HookDecision::deny(REVIEW_READY_DENIAL).with_model_context(guidance);
        }
        return decision.with_model_context(guidance);
    }
    if eq_str(p, "blocked") {
        if !blocked_allowed(lower, input) {
            return HookDecision::deny(BLOCKED_DENIAL).with_model_context(guidance);
        }
        return decision.with_model_context(guidance);
    }
    // Unknown or unset phase: attach general guidance, do not deny.
    decision.with_model_context(guidance)
}

// ── Laws ────────────────────────────────────────────────────────────────────

/// The phase guard never downgrades the generic policy: a denial or a
/// rewrite already decided is returned as is.
pub proof fn guard_keeps_base_denials(
    role: Seq<char>,
    tool: Seq<char>,
    input: ToolInput,
    base: DecisionView,
    ticket: Option<TicketState>,
)
    requires
        base.deny || base.rewrite is Some,
    ensures
        phase_guard_spec(role, tool, input, base, ticket) == base,
{
}

/// SENTINEL is read-only: every write attempt it makes is denied, whatever
/// the ticket state (unless the generic policy already rewrote the call).
pub proof fn sentinel_writes_are_denied(
    role: Seq<char>,
    tool: Seq<char>,
    input: ToolInput,
    base: DecisionView,
    ticket: Option<TicketState>,
)
    requires
        eq_ignore_ascii_case_spec(role, "sentinel"@),
        base.rewrite is None,
        is_write_attempt_spec(unicode_lowercase(tool), input),
    ensures
        phase_guard_spec(role, tool, input, base, ticket).deny,
{
}

/// Roles other than FORGE and SENTINEL are left to the generic policy.
pub proof fn other_roles_pass_through(
    role: Seq<char>,
    tool: Seq<char>,
    input: ToolInput,
    base: DecisionView,
    ticket: Option<TicketState>,
)
    requires
        !eq_ignore_ascii_case_spec(role, "sentinel"@),
        !eq_ignore_ascii_case_spec(role, "forge"@),
    ensures
        phase_guard_spec(role, tool, input, base, ticket) == base,
{
}

/// A FORGE call the generic policy allowed is denied in `review_ready`
/// exactly when it attempts a write.
pub proof fn review_ready_denies_exactly_writes(
    role: Seq<char>,
    tool: Seq<char>,
    input: ToolInput,
    base: DecisionView,
    st: TicketState,
)
    requires
        eq_ignore_ascii_case_spec(role, "forge"@),
        !base.deny,
        base.rewrite is None,
        phase_of(st) == "review_ready"@,
    ensures
        phase_guard_spec(role, tool, input, base, Some(st)).deny <==> is_write_attempt_spec(
            unicode_lowercase(tool),
            input,
        ),
{
    reveal_strlit("sentinel");
    reveal_strlit("forge");
    reveal_strlit("planning");
    reveal_strlit("review_ready");
    reveal_strlit("building");
    reveal_strlit("testing");
    assert("review_ready"@.len() == 12 && "planning"@.len() == 8 && "building"@.len() == 8);
    assert("testing"@.len() == 7);
    assert("review_ready"@ != "planning"@ && "review_ready"@ != "building"@);
    assert("review_ready"@ != "testing"@);
    assert(!eq_ignore_ascii_case_spec(role, "sentinel"@)) by {
        if eq_ignore_ascii_case_spec(role, "sentinel"@) {
            assert(role.len() == 5);
        }
    }
}

/// While planning, a FORGE write attempt other than the plan itself is
/// denied until a plan exists; once it exists nothing is denied.
pub proof fn planning_writes_wait_for_the_plan(
    role: Seq<char>,
    tool: Seq<char>,
    input: ToolInput,
    base: DecisionView,
    st: TicketState,
)
    requires
        eq_ignore_ascii_case_spec(role, "forge"@),
        !base.deny,
        base.rewrite is None,
        phase_of(st) == "planning"@,
    ensures
        phase_guard_spec(role, tool, input, base, Some(st)).deny <==> (is_write_attempt_spec(
            unicode_lowercase(tool),
            input,
        ) && !st.plan_exists && !is_plan_write_spec(unicode_lowercase(tool), input)),
{
    reveal_strlit("sentinel");
    reveal_strlit("forge");
    assert(!eq_ignore_ascii_case_spec(role, "sentinel"@)) by {
        if eq_ignore_ascii_case_spec(role, "sentinel"@) {
            assert(role.len() == 5);
        }
    }
    reveal_strlit("planning");
    reveal_strlit("review_ready");
    reveal_strlit("building");
    reveal_strlit("testing");
}

/// While blocked, a FORGE call on a write, harness or shell tool is denied
/// exactly when it is none of: a read-only probe, an exact replan, a
/// blocker-report write.
pub proof fn blocked_allows_only_escapes(
    role: Seq<char>,
    tool: Seq<char>,
    input: ToolInput,
    base: DecisionView,
    st: TicketState,
)
    requires
        eq_ignore_ascii_case_spec(role, "forge"@),
        !base.deny,
        base.rewrite is None,
        phase_of(st) == "blocked"@,
        is_write_tool_spec(unicode_lowercase(tool)) || is_harness_spec(unicode_lowercase(tool))
            || is_shell_spec(unicode_lowercase(tool)),
    ensures
        phase_guard_spec(role, tool, input, base, Some(st)).deny <==> !blocked_call_allowed(
            unicode_lowercase(tool),
            input,
        ),
{
    reveal_strlit("sentinel");
    reveal_strlit("forge");
    reveal_strlit("planning");
    reveal_strlit("blocked");
    reveal_strlit("building");
    reveal_strlit("testing");
    reveal_strlit("review_ready");
    assert("blocked"@.len() == 7 && "building"@.len() == 8 && "planning"@.len() == 8);
    assert("review_ready"@.len() == 12);
    assert("blocked"@[0] != "testing"@[0]);
    assert("blocked"@ != "testing"@);
    assert("blocked"@ != "planning"@);
    assert("blocked"@ != "building"@);
    assert("blocked"@ != "review_ready"@);
    assert(!eq_ignore_ascii_case_spec(role, "sentinel"@)) by {
        if eq_ignore_ascii_case_spec(role, "sentinel"@) {
            assert(role.len() == 5);
        }
    }
}

/// The command has no non-blank segment between `;`, `&`, `|`.
pub open spec fn blank_command(cmd: Seq<char>) -> bool {
    forall|k: int|
        0 <= k < pieces(cmd, CharClass::ProbeSeparator).len() ==> trim_spec(
            #[trigger] pieces(cmd, CharClass::ProbeSeparator)[k],
            CharClass::Whitespace,
        ).len() == 0
}

/// Probes compose through separators: `a`, then `;`, `&` or `|`, then `b`
/// is a read-only probe exactly when each side is a probe or blank and not
/// both are blank. A single segment that is not a probe (`cargo build` in
/// `git status && cargo build`) therefore makes the whole command no probe,
/// however many probe segments surround it.
pub proof fn probes_compose_through_separators(a: Seq<char>, sep: char, b: Seq<char>)
    requires
        sep == ';' || sep == '&' || sep == '|',
    ensures
        is_probe_command_spec(a.push(sep) + b) <==> ((is_probe_command_spec(a) || blank_command(a))
            && (is_probe_command_spec(b) || blank_command(b)) && !(blank_command(a)
            && blank_command(b))),
{
    let k = CharClass::ProbeSeparator;
    pieces_split_at_separator(a, sep, b, k);
    let sa = pieces(a, k);
    let sb = pieces(b, k);
    let sx = pieces(a.push(sep) + b, k);
    assert(sx == sa + sb);
    let w = CharClass::Whitespace;
    assert forall|i: int| 0 <= i < sa.len() implies #[trigger] sx[i] == sa[i] by {}
    assert forall|i: int| 0 <= i < sb.len() implies #[trigger] sx[sa.len() + i] == sb[i] by {}
    if is_probe_command_spec(a.push(sep) + b) {
        assert forall|i: int|
            0 <= i < sa.len() && trim_spec(#[trigger] sa[i], w).len() > 0 implies is_probe_segment_spec(
            trim_spec(sa[i], w),
        ) by {
            assert(sx[i] == sa[i]);
        }
        assert forall|i: int|
            0 <= i < sb.len() && trim_spec(#[trigger] sb[i], w).len() > 0 implies is_probe_segment_spec(
            trim_spec(sb[i], w),
        ) by {
            assert(sx[sa.len() + i] == sb[i]);
        }
        let j = choose|j: int| 0 <= j < sx.len() && trim_spec(#[trigger] sx[j], w).len() > 0;
        if j < sa.len() {
            assert(sx[j] == sa[j]);
        } else {
            assert(sx[j] == sb[j - sa.len()]);
        }
    }
    if (is_probe_command_spec(a) || blank_command(a)) && (is_probe_command_spec(b) || blank_command(
        b,
    )) && !(blank_command(a) && blank_command(b)) {
        assert forall|j: int|
            0 <= j < sx.len() && trim_spec(#[trigger] sx[j], w).len() > 0 implies is_probe_segment_spec(
            trim_spec(sx[j], w),
        ) by {
            if j < sa.len() {
                assert(sx[j] == sa[j]);
            } else {
                assert(sx[j] == sb[j - sa.len()]);
            }
        }
        if !blank_command(a) {
            let i = choose|i: int| 0 <= i < sa.len() && trim_spec(#[trigger] sa[i], w).len() > 0;
            assert(sx[i] == sa[i]);
        } else {
            let i = choose|i: int| 0 <= i < sb.len() && trim_spec(#[trigger] sb[i], w).len() > 0;
            assert(sx[sa.len() + i] == sb[i]);
        }
    }
}

/// A command without `;`, `&`, `|` is a probe exactly when, trimmed of
/// whitespace, it is a non-empty recognised probe segment.
pub proof fn single_segment_probe(s: Seq<char>)
    requires
        forall|i: int| 0 <= i < s.len() ==> !in_class(#[trigger] s[i], CharClass::ProbeSeparator),
    ensures
        is_probe_command_spec(s) <==> (trim_spec(s, CharClass::Whitespace).len() > 0
            && is_probe_segment_spec(trim_spec(s, CharClass::Whitespace))),
{
    pieces_without_separator(s, CharClass::ProbeSeparator);
    let segs = pieces(s, CharClass::ProbeSeparator);
    if s.len() == 0 {
        assert(segs.len() == 0);
        assert(trim_spec(s, CharClass::Whitespace).len() == 0);
    } else {
        assert(segs == seq![s]);
        assert(segs[0] == s);
    }
}

/// In planning, writing the plan file is always allowed, however the write
/// tool names it: when the input gives no `path` and its `file_path` ends in
/// `PLAN.md` (any letter case), FORGE's call is not denied, even before a
/// plan exists.
pub proof fn plan_file_write_allowed_in_planning(
    role: Seq<char>,
    tool: Seq<char>,
    input: ToolInput,
    base: DecisionView,
    st: TicketState,
    f: String,
)
    requires
        eq_ignore_ascii_case_spec(role, "forge"@),
        !base.deny,
        base.rewrite is None,
        phase_of(st) == "planning"@,
        input.path is Absent,
        input.file_path == Some(f),
        last_component(unicode_lowercase(f@)) == "plan.md"@,
    ensures
        is_plan_write_spec(unicode_lowercase(tool), input),
        !phase_guard_spec(role, tool, input, base, Some(st)).deny,
{
    assert(target_path_spec(input) == f@);
    planning_writes_wait_for_the_plan(role, tool, input, base, st);
}

} // verus!
