//! SENTINEL lifecycle: the phase-aware pre-tool-use guard for the reviewing role.
//!
//! SENTINEL has no phases of its own: its job is derived from the shared
//! ticket's durable state (what FORGE is doing):
//!   - `plan_gate` — FORGE is `planning` and SENTINEL has not signed off yet:
//!     review PLAN.md, then `gate approve`.
//!   - `pr_review` — FORGE is `review_ready`: review the diff, write the
//!     evaluation report, then `review submit`.
//!   - `idle` — nothing pending.
//! SENTINEL is read-only for source; only its review artifacts may be
//! written. A gate approval requires an uploaded plan, a review verdict
//! requires the evaluation report.

use vstd::prelude::*;
use vstd::string::StringExecFns;
use crate::hooks::{
    command_field, command_field_spec, command_text, command_text_spec, deny_spec,
    target_path, target_path_spec, with_context_spec, DecisionView, HookDecision, TicketState,
    ToolInput,
};
use crate::outside::{to_lowercase, unicode_lowercase};
use crate::shell::{one_of, shell_write_targets, strs_view, write_targets_spec, Dialect};
use crate::text::{
    chars_of, contains_spec, contains_str, ends_with_spec, ends_with_str, eq_str, file_name,
    last_component, lemma_chars_deep_view,
};

verus! {

broadcast use lemma_chars_deep_view;

/// SENTINEL's derived review job for the current shared ticket state.
#[derive(Debug, Clone, Copy, PartialEq, Eq, Structural)]
pub enum SentinelJob {
    PlanGateReview,
    PrReview,
    Idle,
}

pub open spec fn sentinel_job_spec(st: TicketState) -> SentinelJob {
    match st.phase {
        Some(p) => if p@ == "planning"@ && !st.gate_approved {
            SentinelJob::PlanGateReview
        } else if p@ == "review_ready"@ {
            SentinelJob::PrReview
        } else {
            SentinelJob::Idle
        },
        None => SentinelJob::Idle,
    }
}

/// Derive what review job SENTINEL should be doing from the ticket state.
pub fn sentinel_job(st: &TicketState) -> (job: SentinelJob)
    ensures
        job == sentinel_job_spec(*st),
{
    match &st.phase {
        Some(p) => {
            let p = chars_of(p.as_str());
            if eq_str(p.as_slice(), "planning") && !st.gate_approved {
                SentinelJob::PlanGateReview
            } else if eq_str(p.as_slice(), "review_ready") {
                SentinelJob::PrReview
            } else {
                SentinelJob::Idle
            }
        },
        None => SentinelJob::Idle,
    }
}

pub open spec fn review_files() -> Seq<Seq<char>> {
    seq!["eval.md"@, "final-review.md"@, "review.md"@, "review-report.md"@]
}

/// Files SENTINEL may write despite the read-only policy: its evaluation and
/// verdict artifacts (compared on the lowercased file name).
pub open spec fn is_review_artifact_spec(path: Seq<char>) -> bool {
    let file = last_component(unicode_lowercase(path));
    ends_with_spec(file, "-eval.md"@) || review_files().contains(file)
}

pub fn is_review_artifact(path: &[char]) -> (r: bool)
    ensures
        r == is_review_artifact_spec(path@),
{
    let lower = to_lowercase(path);
    let file = file_name(lower.as_slice());
    let list = ["eval.md", "final-review.md", "review.md", "review-report.md"];
    assert(strs_view(list@) =~= review_files());
    ends_with_str(file.as_slice(), "-eval.md") || one_of(file.as_slice(), &list)
}

pub open spec fn has_non_review_target(t: Seq<Seq<char>>) -> bool {
    exists|k: int| 0 <= k < t.len() && !#[trigger] is_review_artifact_spec(t[k])
}

/// The command writes something other than a review artifact, or may write
/// in ways that cannot be read off its text.
pub open spec fn sentinel_writes_source_spec(cmd: Seq<char>) -> bool {
    match write_targets_spec(cmd, Dialect::Sentinel) {
        Some(t) => has_non_review_target(t),
        None => true,
    }
}

pub fn shell_writes_source(cmd: &[char]) -> (r: bool)
    ensures
        r == sentinel_writes_source_spec(cmd@),
{
    match shell_write_targets(cmd, Dialect::Sentinel) {
        Some(t) => {
            let mut i: usize = 0;
            while i < t.len()
                invariant
                    i <= t.len(),
                    write_targets_spec(cmd@, Dialect::Sentinel) == Some(t.deep_view()),
                    forall|k: int| 0 <= k < i ==> #[trigger] is_review_artifact_spec(t.deep_view()[k]),
                decreases t.len() - i,
            {
                assert(t.deep_view()[i as int] == t@[i as int]@);
                if !is_review_artifact(t[i].as_slice()) {
                    let ghost tv = t.deep_view();
                    assert(!is_review_artifact_spec(tv[i as int]));
                    assert(has_non_review_target(tv));
                    return true;
                }
                i = i + 1;
            }
            false
        },
        None => true,
    }
}

pub const PLAN_GATE_GUIDANCE: &'static str = "SENTINEL plan-gate review: FORGE is in `planning` and awaits approval. Read PLAN.md, evaluate it against the ticket, then run `openflows-harness gate approve --phase planning`.";

pub const PR_REVIEW_GUIDANCE: &'static str = "SENTINEL PR review: FORGE is `review_ready` with a PR to review. Read the ticket + diff, write your evaluation report (*-eval.md / final-review.md), then `openflows-harness review submit --verdict approve|reject`.";

pub const IDLE_GUIDANCE: &'static str = "SENTINEL: no review is pending right now. Do not submit a gate approval or review verdict until FORGE signals `planning` or `review_ready`.";

pub open spec fn sentinel_guidance_spec(st: TicketState) -> Seq<char> {
    match sentinel_job_spec(st) {
        SentinelJob::PlanGateReview => PLAN_GATE_GUIDANCE@,
        SentinelJob::PrReview => PR_REVIEW_GUIDANCE@,
        SentinelJob::Idle => IDLE_GUIDANCE@,
    }
}

/// SENTINEL-level guidance injected so the model knows what job it is on.
pub fn sentinel_guidance(st: &TicketState) -> (g: String)
    ensures
        g@ == sentinel_guidance_spec(*st),
{
    match sentinel_job(st) {
        SentinelJob::PlanGateReview => String::from_str(PLAN_GATE_GUIDANCE),
        SentinelJob::PrReview => String::from_str(PR_REVIEW_GUIDANCE),
        SentinelJob::Idle => String::from_str(IDLE_GUIDANCE),
    }
}

pub const SOURCE_WRITE_DENIAL: &'static str = "openflows policy: SENTINEL reviews readonly — source writes are blocked (only *-eval.md / final-review.md review reports may be written)";

pub const SHELL_WRITE_DENIAL: &'static str = "openflows policy: SENTINEL reviews readonly — shell source writes are blocked (only review report artifacts may be written)";

pub const GATE_WITHOUT_PLAN_DENIAL: &'static str = "openflows policy: cannot approve the planning gate — no plan exists yet. Ask FORGE to run `/plan` and upload PLAN.md first.";

pub const REVIEW_WITHOUT_REPORT_DENIAL: &'static str = "openflows policy: cannot submit a review yet — write your evaluation report (*-eval.md / final-review.md) first, then `review submit`.";

pub const NO_REVIEW_PENDING_DENIAL: &'static str = "openflows policy: no PR review pending — do not submit a review verdict now.";

pub open spec fn write_tools() -> Seq<Seq<char>> {
    seq!["write"@, "edit"@, "create"@, "patch"@]
}

pub open spec fn shell_tools() -> Seq<Seq<char>> {
    seq!["bash"@, "sh"@, "shell"@, "exec"@]
}

/// SENTINEL's decision on a tool call. `report_exists` tells whether the
/// evaluation report for the ticket has been written; it is consulted only
/// for a `review submit` during a PR review.
pub open spec fn sentinel_phase_guard_spec(
    st: TicketState,
    tool: Seq<char>,
    input: ToolInput,
    base: DecisionView,
    report_exists: bool,
) -> DecisionView {
    let lower = unicode_lowercase(tool);
    let g = sentinel_guidance_spec(st);
    let job = sentinel_job_spec(st);
    let command = unicode_lowercase(command_field_spec(input));
    if write_tools().contains(lower) {
        if is_review_artifact_spec(target_path_spec(input)) {
            with_context_spec(base, g)
        } else {
            with_context_spec(deny_spec(SOURCE_WRITE_DENIAL@), g)
        }
    } else if shell_tools().contains(lower) && sentinel_writes_source_spec(
        command_text_spec(input),
    ) {
        with_context_spec(deny_spec(SHELL_WRITE_DENIAL@), g)
    } else if !contains_spec(lower, "harness"@) && !shell_tools().contains(lower) {
        base
    } else if contains_spec(command, "gate approve"@) && job == SentinelJob::PlanGateReview
        && !st.plan_exists {
        with_context_spec(deny_spec(GATE_WITHOUT_PLAN_DENIAL@), g)
    } else if contains_spec(command, "review submit"@) && job == SentinelJob::PrReview
        && !report_exists {
        with_context_spec(deny_spec(REVIEW_WITHOUT_REPORT_DENIAL@), g)
    } else if contains_spec(command, "review submit"@) && job != SentinelJob::PrReview && !(
    contains_spec(command, "gate approve"@) || contains_spec(command, "gate status"@)) {
        with_context_spec(deny_spec(NO_REVIEW_PENDING_DENIAL@), g)
    } else {
        with_context_spec(base, g)
    }
}

/// The decision depends on whether the evaluation report exists: the call
/// reaches the `review submit` check during a PR review.
pub open spec fn needs_report_check_spec(st: TicketState, tool: Seq<char>, input: ToolInput) -> bool {
    let lower = unicode_lowercase(tool);
    let command = unicode_lowercase(command_field_spec(input));
    &&& !write_tools().contains(lower)
    &&& !(shell_tools().contains(lower) && sentinel_writes_source_spec(command_text_spec(input)))
    &&& (contains_spec(lower, "harness"@) || shell_tools().contains(lower))
    &&& !(contains_spec(command, "gate approve"@) && sentinel_job_spec(st)
        == SentinelJob::PlanGateReview && !st.plan_exists)
    &&& contains_spec(command, "review submit"@)
    &&& sentinel_job_spec(st) == SentinelJob::PrReview
}

fn is_write_tool_name(lower: &[char]) -> (r: bool)
    ensures
        r == write_tools().contains(lower@),
{
    let list = ["write", "edit", "create", "patch"];
    assert(strs_view(list@) =~= write_tools());
    one_of(lower, &list)
}

fn is_shell_tool_name(lower: &[char]) -> (r: bool)
    ensures
        r == shell_tools().contains(lower@),
{
    let list = ["bash", "sh", "shell", "exec"];
    assert(strs_view(list@) =~= shell_tools());
    one_of(lower, &list)
}

/// Whether `sentinel_phase_guard`'s decision for this call depends on the
/// existence of the evaluation report (so the caller reads it from the store
/// only then).
pub fn needs_report_check(st: &TicketState, tool_name: &str, input: &ToolInput) -> (r: bool)
    ensures
        r == needs_report_check_spec(*st, tool_name@, *input),
{
    let tool = chars_of(tool_name);
    let lower = to_lowercase(tool.as_slice());
    let lower = lower.as_slice();
    if is_write_tool_name(lower) {
        return false;
    }
    let shell = is_shell_tool_name(lower);
    if shell {
        let t = command_text(input);
        if shell_writes_source(t.as_slice()) {
            return false;
        }
    }
    if !contains_str(lower, "harness") && !shell {
        return false;
    }
    let c = command_field(input);
    let command = to_lowercase(c.as_slice());
    let command = command.as_slice();
    let job = sentinel_job(st);
    if contains_str(command, "gate approve") && job == SentinelJob::PlanGateReview
        && !st.plan_exists {
        return false;
    }
    contains_str(command, "review submit") && job == SentinelJob::PrReview
}

/// SENTINEL-only phase-aware decision for a pre-tool-use dispatch: SENTINEL
/// is read-only (denies source writes) and must follow its review job.
pub fn sentinel_phase_guard(
    st: &TicketState,
    tool_name: &str,
    input: &ToolInput,
    base: HookDecision,
    report_exists: bool,
) -> (d: HookDecision)
    ensures
        d@ == sentinel_phase_guard_spec(*st, tool_name@, *input, base@, report_exists),
{
    let tool = chars_of(tool_name);
    let lower = to_lowercase(tool.as_slice());
    let lower = lower.as_slice();
    let guidance = sentinel_guidance(st);

    // Source writes are always denied; review artifacts are allowed.
    if is_write_tool_name(lower) {
        let path = target_path(input);
        if is_review_artifact(path.as_slice()) {
            return base.with_model_context(guidance);
        }
        return HookDecision::deny(SOURCE_WRITE_DENIAL).with_model_context(guidance);
    }
    let shell = is_shell_tool_name(lower);
    if shell {
        let t = command_text(input);
        if shell_writes_source(t.as_slice()) {
            return HookDecision::deny(SHELL_WRITE_DENIAL).with_model_context(guidance);
        }
    }
    // Only coordinate on review/harness tools.
    if !contains_str(lower, "harness") && !shell {
        return base;
    }
    let c = command_field(input);
    let command = to_lowercase(c.as_slice());
    let command = command.as_slice();
    let job = sentinel_job(st);

    // Gate approval requires an uploaded plan.
    if contains_str(command, "gate approve") && job == SentinelJob::PlanGateReview
        && !st.plan_exists {
        return HookDecision::deny(GATE_WITHOUT_PLAN_DENIAL).with_model_context(guidance);
    }
    // A review verdict requires the evaluation report to be written first.
    let submit = contains_str(command, "review submit");
    if submit && job == SentinelJob::PrReview && !report_exists {
        return HookDecision::deny(REVIEW_WITHOUT_REPORT_DENIAL).with_model_context(guidance);
    }
    // A verdict submitted outside the PR-review job is out of order.
    if submit && job != SentinelJob::PrReview && !(contains_str(command, "gate approve")
        || contains_str(command, "gate status")) {
        return HookDecision::deny(NO_REVIEW_PENDING_DENIAL).with_model_context(guidance);
    }
    base.with_model_context(guidance)
}

// ── Laws ────────────────────────────────────────────────────────────────────

/// SENTINEL's writes to anything but a review artifact are denied, whatever
/// the ticket state and the generic policy's decision.
pub proof fn sentinel_source_writes_denied(
    st: TicketState,
    tool: Seq<char>,
    input: ToolInput,
    base: DecisionView,
    report_exists: bool,
)
    requires
        write_tools().contains(unicode_lowercase(tool)),
        !is_review_artifact_spec(target_path_spec(input)),
    ensures
        sentinel_phase_guard_spec(st, tool, input, base, report_exists).deny,
{
}

/// A write of a review artifact is left to the generic policy.
pub proof fn sentinel_artifact_writes_follow_base(
    st: TicketState,
    tool: Seq<char>,
    input: ToolInput,
    base: DecisionView,
    report_exists: bool,
)
    requires
        write_tools().contains(unicode_lowercase(tool)),
        is_review_artifact_spec(target_path_spec(input)),
    ensures
        sentinel_phase_guard_spec(st, tool, input, base, report_exists).deny == base.deny,
{
}

/// Whether the evaluation report exists changes the decision only for the
/// calls `needs_report_check` singles out.
pub proof fn report_matters_only_when_checked(
    st: TicketState,
    tool: Seq<char>,
    input: ToolInput,
    base: DecisionView,
)
    requires
        !needs_report_check_spec(st, tool, input),
    ensures
        sentinel_phase_guard_spec(st, tool, input, base, true) == sentinel_phase_guard_spec(
            st,
            tool,
            input,
            base,
            false,
        ),
{
}

/// During a PR review, `review submit` is denied until the evaluation report
/// exists (unless an earlier rule already decided the call).
pub proof fn review_submit_waits_for_report(
    st: TicketState,
    tool: Seq<char>,
    input: ToolInput,
    base: DecisionView,
)
    requires
        needs_report_check_spec(st, tool, input),
    ensures
        sentinel_phase_guard_spec(st, tool, input, base, false).deny,
        sentinel_phase_guard_spec(st, tool, input, base, true) == with_context_spec(
            base,
            sentinel_guidance_spec(st),
        ),
{
}

/// `part` occurs in `text`.
pub open spec fn mentions(text: Seq<char>, part: Seq<char>) -> bool {
    exists|i: int| 0 <= i <= text.len() - part.len() && #[trigger] text.subrange(i, i + part.len()) == part
}

/// Each job's guidance names what SENTINEL does next: the plan-gate text the
/// approval command, the PR text the verdict command, the idle text that no
/// review is pending; and the three texts differ, so the guidance tells the
/// jobs apart.
pub proof fn guidance_names_the_next_step()
    ensures
        mentions(PLAN_GATE_GUIDANCE@, "gate approve --phase planning"@),
        mentions(PR_REVIEW_GUIDANCE@, "review submit"@),
        mentions(IDLE_GUIDANCE@, "no review is pending"@),
        PLAN_GATE_GUIDANCE@ != PR_REVIEW_GUIDANCE@,
        PLAN_GATE_GUIDANCE@ != IDLE_GUIDANCE@,
        PR_REVIEW_GUIDANCE@ != IDLE_GUIDANCE@,
{
    reveal_strlit("SENTINEL plan-gate review: FORGE is in `planning` and awaits approval. Read PLAN.md, evaluate it against the ticket, then run `openflows-harness gate approve --phase planning`.");
    reveal_strlit("SENTINEL PR review: FORGE is `review_ready` with a PR to review. Read the ticket + diff, write your evaluation report (*-eval.md / final-review.md), then `openflows-harness review submit --verdict approve|reject`.");
    reveal_strlit("SENTINEL: no review is pending right now. Do not submit a gate approval or review verdict until FORGE signals `planning` or `review_ready`.");
    reveal_strlit("gate approve --phase planning");
    reveal_strlit("review submit");
    reveal_strlit("no review is pending");
    assert(PLAN_GATE_GUIDANCE@.subrange(145int, 145int + "gate approve --phase planning"@.len()) =~= "gate approve --phase planning"@);
    assert(PR_REVIEW_GUIDANCE@.subrange(173int, 173int + "review submit"@.len()) =~= "review submit"@);
    assert(IDLE_GUIDANCE@.subrange(10int, 10int + "no review is pending"@.len()) =~= "no review is pending"@);
}

/// SENTINEL's job is the plan gate exactly while that gate is open: the
/// ticket is in `planning` and no approval is recorded. An approved gate
/// never puts it on the plan gate again. Its job is the PR exactly when the
/// ticket is `review_ready`.
pub proof fn plan_review_only_before_sign_off(st: TicketState)
    ensures
        (sentinel_job_spec(st) == SentinelJob::PlanGateReview) <==> (st.phase matches Some(p) && p@
            == "planning"@ && !st.gate_approved),
        st.gate_approved ==> sentinel_job_spec(st) != SentinelJob::PlanGateReview,
        (sentinel_job_spec(st) == SentinelJob::PrReview) <==> (st.phase matches Some(p) && p@
            == "review_ready"@),
{
    reveal_strlit("planning");
    reveal_strlit("review_ready");
    assert("planning"@ != "review_ready"@) by {
        assert("planning"@.len() != "review_ready"@.len());
    }
}

/// A review verdict is taken only during a PR review: outside that job, a
/// harness or shell call (not a write tool) whose command submits a review
/// and names no gate command is denied, whatever the base decision and
/// whether or not the report exists.
pub proof fn verdict_only_during_pr_review(
    st: TicketState,
    tool: Seq<char>,
    input: ToolInput,
    base: DecisionView,
    report_exists: bool,
)
    requires
        sentinel_job_spec(st) != SentinelJob::PrReview,
        !write_tools().contains(unicode_lowercase(tool)),
        contains_spec(unicode_lowercase(tool), "harness"@) || shell_tools().contains(
            unicode_lowercase(tool),
        ),
        contains_spec(unicode_lowercase(command_field_spec(input)), "review submit"@),
        !contains_spec(unicode_lowercase(command_field_spec(input)), "gate approve"@),
        !contains_spec(unicode_lowercase(command_field_spec(input)), "gate status"@),
    ensures
        sentinel_phase_guard_spec(st, tool, input, base, report_exists).deny,
{
}

} // verus!
