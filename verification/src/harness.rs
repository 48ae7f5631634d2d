//! The worker harness's rules over the shared store: which phases and
//! verdicts exist, which phase transitions need SENTINEL's gate approval, who
//! may approve a gate, and the tenant-namespaced keys of a ticket's records.
//!
//! Reading and writing the store is done around this module; it decides on
//! the values read.

use vstd::prelude::*;
use vstd::string::StringExecFns;
use crate::executor::{namespaced_key, ns_key};
use crate::guard::{is_valid_phase, phases};
use crate::hooks::{eq_ignore_ascii_case, eq_ignore_ascii_case_spec};
use crate::shell::{one_of, strs_view};
use crate::text::chars_of;
use crate::outside::{json_field_text, json_text_field};

verus! {

/// Valid phases for `status set`.
pub const VALID_PHASES: [&'static str; 5] = ["planning", "building", "testing", "review_ready", "blocked"];

/// Phases FORGE cannot leave without SENTINEL's sign-off recorded.
pub const GATED_PHASES: [&'static str; 1] = ["planning"];

/// Valid verdicts for `review submit`.
pub const VALID_VERDICTS: [&'static str; 2] = ["approve", "reject"];

pub open spec fn gated_phases() -> Seq<Seq<char>> {
    seq!["planning"@]
}

pub open spec fn verdicts() -> Seq<Seq<char>> {
    seq!["approve"@, "reject"@]
}

/// True iff leaving `phase` needs SENTINEL's gate approval.
pub fn is_gated_phase(phase: &str) -> (r: bool)
    ensures
        r == gated_phases().contains(phase@),
{
    let list = ["planning"];
    assert(strs_view(list@) =~= gated_phases());
    one_of(chars_of(phase).as_slice(), &list)
}

/// True iff `verdict` is a valid review verdict.
pub fn is_valid_verdict(verdict: &str) -> (r: bool)
    ensures
        r == verdicts().contains(verdict@),
{
    let list = ["approve", "reject"];
    assert(strs_view(list@) =~= verdicts());
    one_of(chars_of(verdict).as_slice(), &list)
}

/// Why the harness refused a command.
#[derive(Debug, Clone)]
pub enum HarnessError {
    /// `status set` with an unknown phase.
    InvalidPhase { phase: String },
    /// A ticket without a status entering another phase than `planning` or
    /// `blocked`.
    FreshTicketEntry { phase: String },
    /// Leaving a gated phase without SENTINEL's approval.
    GateNotApproved { from: String, to: String },
    /// A gate approval by another role than SENTINEL.
    NotApprover { role: String },
    /// A gate approval for a phase that is not gated.
    NotGated { phase: String },
    /// A gate approval while FORGE is in another phase.
    PhaseMismatch { phase: String, current: String },
    /// A gate approval before FORGE set any status.
    NoStatus { ticket: String, phase: String },
    /// `review submit` with an unknown verdict.
    InvalidVerdict { verdict: String },
}

/// The text of a harness error.
pub open spec fn harness_message(e: HarnessError) -> Seq<char> {
    match e {
        HarnessError::InvalidPhase { phase } => "Invalid phase '"@ + phase@
            + "'. Valid phases: planning, building, testing, review_ready, blocked"@,
        HarnessError::FreshTicketEntry { phase } => "Cannot enter '"@ + phase@
            + "' on a ticket without a status: a fresh ticket must enter via 'planning' (or 'blocked')."@,
        HarnessError::GateNotApproved { from, to } => "Cannot transition from '"@ + from@ + "' to '"@
            + to@ + "' without SENTINEL approval.\nSENTINEL must run: openflows-harness gate approve --phase "@
            + from@ + "\nThis ensures your plan is reviewed before implementation begins."@,
        HarnessError::NotApprover { role } => "Gate approval rejected: approver role '"@ + role@
            + "' is not SENTINEL. Only SENTINEL may approve a gated phase transition; FORGE/other roles are not authorized to approve their own plan."@,
        HarnessError::NotGated { phase } => "Phase '"@ + phase@
            + "' is not a gated phase. Gated phases: planning"@,
        HarnessError::PhaseMismatch { phase, current } => "Cannot approve '"@ + phase@
            + "' gate \u{2014} current phase is '"@ + current@ + "'. FORGE must be in the '"@ + phase@
            + "' phase to receive approval."@,
        HarnessError::NoStatus { ticket, phase } => "No status found for ticket "@ + ticket@
            + ". FORGE must set status to '"@ + phase@ + "' first."@,
        HarnessError::InvalidVerdict { verdict } => "Invalid verdict '"@ + verdict@
            + "'. Valid verdicts: approve, reject"@,
    }
}

fn concat2(a: &str, x: &String, b: &str) -> (m: String)
    ensures
        m@ == a@ + x@ + b@,
{
    let mut m = String::from_str(a);
    m.append(x.as_str());
    m.append(b);
    m
}

fn concat3(a: &str, x: &String, b: &str, y: &String, c: &str) -> (m: String)
    ensures
        m@ == a@ + x@ + b@ + y@ + c@,
{
    let mut m = concat2(a, x, b);
    m.append(y.as_str());
    m.append(c);
    m
}

impl HarnessError {
    /// The error's text.
    pub fn message(&self) -> (m: String)
        ensures
            m@ == harness_message(*self),
    {
        match self {
            HarnessError::InvalidPhase { phase } => concat2(
                "Invalid phase '",
                phase,
                "'. Valid phases: planning, building, testing, review_ready, blocked",
            ),
            HarnessError::FreshTicketEntry { phase } => concat2(
                "Cannot enter '",
                phase,
                "' on a ticket without a status: a fresh ticket must enter via 'planning' (or 'blocked').",
            ),
            HarnessError::GateNotApproved { from, to } => {
                let mut m = concat3(
                    "Cannot transition from '",
                    from,
                    "' to '",
                    to,
                    "' without SENTINEL approval.\nSENTINEL must run: openflows-harness gate approve --phase ",
                );
                m.append(from.as_str());
                m.append("\nThis ensures your plan is reviewed before implementation begins.");
                m
            },
            HarnessError::NotApprover { role } => concat2(
                "Gate approval rejected: approver role '",
                role,
                "' is not SENTINEL. Only SENTINEL may approve a gated phase transition; FORGE/other roles are not authorized to approve their own plan.",
            ),
            HarnessError::NotGated { phase } => concat2(
                "Phase '",
                phase,
                "' is not a gated phase. Gated phases: planning",
            ),
            HarnessError::PhaseMismatch { phase, current } => {
                let mut m = concat3(
                    "Cannot approve '",
                    phase,
                    "' gate \u{2014} current phase is '",
                    current,
                    "'. FORGE must be in the '",
                );
                m.append(phase.as_str());
                m.append("' phase to receive approval.");
                m
            },
            HarnessError::NoStatus { ticket, phase } => concat3(
                "No status found for ticket ",
                ticket,
                ". FORGE must set status to '",
                phase,
                "' first.",
            ),
            HarnessError::InvalidVerdict { verdict } => concat2(
                "Invalid verdict '",
                verdict,
                "'. Valid verdicts: approve, reject",
            ),
        }
    }
}

/// Only SENTINEL (any letter case) may approve a gated phase transition:
/// FORGE approving its own plan would bypass the review checkpoint.
pub fn authorize_gate_approver(role: &str) -> (r: Result<(), HarnessError>)
    ensures
        r is Ok <==> eq_ignore_ascii_case_spec(role@, "sentinel"@),
        r matches Err(HarnessError::NotApprover { role: x }) ==> x@ == role@,
        r is Err ==> r matches Err(HarnessError::NotApprover { .. }),
{
    if !eq_ignore_ascii_case(role, "sentinel") {
        return Err(HarnessError::NotApprover { role: String::from_str(role) });
    }
    Ok(())
}

/// Leaving `current` for `phase` needs a recorded gate approval: `current` is
/// gated and differs from `phase`.
pub open spec fn needs_gate_spec(current: Option<Seq<char>>, phase: Seq<char>) -> bool {
    match current {
        Some(c) => gated_phases().contains(c) && c != phase,
        None => false,
    }
}

pub open spec fn opt_seq(o: Option<&str>) -> Option<Seq<char>> {
    match o {
        Some(s) => Some(s@),
        None => None,
    }
}

/// The phases a ticket without a status may enter.
pub open spec fn entry_phases() -> Seq<Seq<char>> {
    seq!["planning"@, "blocked"@]
}

/// Whether moving from the current phase (as read from the ticket's status,
/// when it has one) to `phase` needs SENTINEL's sign-off on the current phase.
/// That sign-off is single-use: the transition consumes it.
pub fn needs_gate_approval(current: Option<&str>, phase: &str) -> (r: bool)
    ensures
        r == needs_gate_spec(opt_seq(current), phase@),
{
    match current {
        Some(c) => is_gated_phase(c) && !crate::text::eq_chars(
            chars_of(c).as_slice(),
            chars_of(phase).as_slice(),
        ),
        None => false,
    }
}

fn is_entry_phase(phase: &str) -> (r: bool)
    ensures
        r == entry_phases().contains(phase@),
{
    let list = ["planning", "blocked"];
    assert(strs_view(list@) =~= entry_phases());
    one_of(chars_of(phase).as_slice(), &list)
}

/// `status set`: the phase must be valid; a ticket without a status (`current`
/// is `None`: none recorded, or a record without a phase) must enter via
/// `planning` or `blocked`; and leaving a gated phase for another needs
/// SENTINEL's sign-off, which the transition then consumes. The flag says
/// whether an approval is recorded for the current phase; it is only read
/// when needed. An allowed transition answers whether it uses up that
/// approval (exactly when one was needed).
pub fn check_status_transition(phase: &str, current: Option<&str>, gate_approved: bool) -> (r:
    Result<bool, HarnessError>)
    ensures
        r is Ok <==> phases().contains(phase@) && (current is None ==> entry_phases().contains(
            phase@,
        )) && (needs_gate_spec(opt_seq(current), phase@) ==> gate_approved),
        r matches Ok(consumed) ==> consumed == needs_gate_spec(opt_seq(current), phase@),
        r matches Err(HarnessError::InvalidPhase { phase: p }) ==> p@ == phase@
            && !phases().contains(phase@),
        r matches Err(HarnessError::FreshTicketEntry { phase: p }) ==> p@ == phase@
            && phases().contains(phase@) && current is None && !entry_phases().contains(phase@),
        r matches Err(HarnessError::GateNotApproved { from, to }) ==> phases().contains(phase@)
            && opt_seq(current) == Some(from@) && to@ == phase@ && needs_gate_spec(
            opt_seq(current),
            phase@,
        ) && !gate_approved,
        r is Err ==> (r matches Err(HarnessError::InvalidPhase { .. }) || r matches Err(
            HarnessError::FreshTicketEntry { .. },
        ) || r matches Err(HarnessError::GateNotApproved { .. })),
{
    if !is_valid_phase(phase) {
        return Err(HarnessError::InvalidPhase { phase: String::from_str(phase) });
    }
    if current.is_none() && !is_entry_phase(phase) {
        return Err(HarnessError::FreshTicketEntry { phase: String::from_str(phase) });
    }
    let needed = needs_gate_approval(current, phase);
    if needed && !gate_approved {
        match current {
            Some(c) => {
                return Err(
                    HarnessError::GateNotApproved {
                        from: String::from_str(c),
                        to: String::from_str(phase),
                    },
                );
            },
            None => {},
        }
    }
    Ok(needed)
}

/// The ticket's status as read for a gate approval: none recorded, or a
/// record whose `phase` field (when it holds a text) is given.
#[derive(Debug, Clone)]
pub enum RecordedStatus {
    Missing,
    Present { phase: Option<String> },
}

/// The phase a stored status record gives: its `phase` field, when the
/// record parses as a JSON object whose `phase` is a text.
pub fn recorded_phase(record: &str) -> (p: Option<String>)
    ensures
        match p {
            Some(v) => json_text_field(record@, "phase"@) == Some(v@),
            None => json_text_field(record@, "phase"@) is None,
        },
{
    json_field_text(record, "phase")
}

/// The phase `status set` leaves from: that of the stored status record, if
/// there is one and it gives a phase (`None` otherwise, and the ticket then
/// counts as fresh).
pub fn current_phase(record: Option<&str>) -> (p: Option<String>)
    ensures
        match record {
            None => p is None,
            Some(t) => match p {
                Some(v) => json_text_field(t@, "phase"@) == Some(v@),
                None => json_text_field(t@, "phase"@) is None,
            },
        },
{
    match record {
        None => None,
        Some(t) => recorded_phase(t),
    }
}

/// The ticket's status as `gate approve` reads it from the stored record.
pub fn recorded_status(record: Option<&str>) -> (st: RecordedStatus)
    ensures
        match record {
            None => st is Missing,
            Some(t) => st matches RecordedStatus::Present { phase: p } && match p {
                Some(v) => json_text_field(t@, "phase"@) == Some(v@),
                None => json_text_field(t@, "phase"@) is None,
            },
        },
{
    match record {
        None => RecordedStatus::Missing,
        Some(t) => RecordedStatus::Present { phase: recorded_phase(t) },
    }
}

/// `gate approve`: the approver must be SENTINEL, the phase gated, and
/// FORGE's recorded status must be in that phase (a record without a
/// readable phase does not block).
pub fn check_gate_approval(ticket: &str, role: &str, phase: &str, status: &RecordedStatus) -> (r:
    Result<(), HarnessError>)
    ensures
        r is Ok <==> {
            &&& eq_ignore_ascii_case_spec(role@, "sentinel"@)
            &&& gated_phases().contains(phase@)
            &&& match status {
                RecordedStatus::Missing => false,
                RecordedStatus::Present { phase: p } => match p {
                    Some(cur) => cur@ == phase@,
                    None => true,
                },
            }
        },
        r matches Err(HarnessError::NotApprover { .. }) ==> !eq_ignore_ascii_case_spec(
            role@,
            "sentinel"@,
        ),
        r matches Err(HarnessError::NotGated { phase: p }) ==> p@ == phase@
            && eq_ignore_ascii_case_spec(role@, "sentinel"@) && !gated_phases().contains(phase@),
        r matches Err(HarnessError::NoStatus { ticket: t, phase: p }) ==> t@ == ticket@ && p@
            == phase@ && status is Missing,
        r matches Err(HarnessError::PhaseMismatch { phase: p, current }) ==> p@ == phase@ && (
        status matches RecordedStatus::Present { phase: Some(cur) } && cur@ == current@ && current@
            != phase@),
{
    match authorize_gate_approver(role) {
        Err(e) => {
            return Err(e);
        },
        Ok(()) => {},
    }
    if !is_gated_phase(phase) {
        return Err(HarnessError::NotGated { phase: String::from_str(phase) });
    }
    match status {
        RecordedStatus::Missing => Err(
            HarnessError::NoStatus { ticket: String::from_str(ticket), phase: String::from_str(phase) },
        ),
        RecordedStatus::Present { phase: recorded } => match recorded {
            Some(cur) => {
                if crate::text::eq_chars(chars_of(cur.as_str()).as_slice(), chars_of(phase).as_slice()) {
                    Ok(())
                } else {
                    Err(
                        HarnessError::PhaseMismatch {
                            phase: String::from_str(phase),
                            current: cur.clone(),
                        },
                    )
                }
            },
            None => Ok(()),
        },
    }
}

/// `review submit`: the verdict must be valid.
pub fn check_review_verdict(verdict: &str) -> (r: Result<(), HarnessError>)
    ensures
        r is Ok <==> verdicts().contains(verdict@),
        r matches Err(HarnessError::InvalidVerdict { verdict: v }) ==> v@ == verdict@,
        r is Err ==> r matches Err(HarnessError::InvalidVerdict { .. }),
{
    if !is_valid_verdict(verdict) {
        return Err(HarnessError::InvalidVerdict { verdict: String::from_str(verdict) });
    }
    Ok(())
}

// ── Keys ────────────────────────────────────────────────────────────────────

/// `ticket:{ticket}:{kind}:{role}`.
pub open spec fn ticket_key_spec(ticket: Seq<char>, kind: Seq<char>, role: Seq<char>) -> Seq<char> {
    "ticket:"@ + ticket + ":"@ + kind + ":"@ + role
}

/// `ticket:{ticket}:{kind}`.
pub open spec fn ticket_key_flat_spec(ticket: Seq<char>, kind: Seq<char>) -> Seq<char> {
    "ticket:"@ + ticket + ":"@ + kind
}

/// The key of a ticket's per-role record, e.g. its dispatch for a role.
pub fn ticket_key(ticket: &str, kind: &str, role: &str) -> (k: String)
    ensures
        k@ == ticket_key_spec(ticket@, kind@, role@),
{
    let mut k = ticket_key_flat(ticket, kind);
    k.append(":");
    k.append(role);
    k
}

/// The key of a ticket's record of one kind (status, pr, handoff, ...).
pub fn ticket_key_flat(ticket: &str, kind: &str) -> (k: String)
    ensures
        k@ == ticket_key_flat_spec(ticket@, kind@),
{
    let mut k = String::from_str("ticket:");
    k.append(ticket);
    k.append(":");
    k.append(kind);
    k
}

/// The key of a gate approval: `ticket:{ticket}:gate:{phase}`.
pub fn gate_key(ticket: &str, phase: &str) -> (k: String)
    ensures
        k@ == ticket_key_spec(ticket@, "gate"@, phase@),
{
    ticket_key(ticket, "gate", phase)
}

/// A tenant-namespaced key of the harness store: `ns:{tenant}:{key}`.
pub fn harness_key(tenant: &str, key: &str) -> (k: String)
    ensures
        k@ == ns_key(tenant@, key@),
{
    namespaced_key(tenant, key)
}

// ── Payloads ────────────────────────────────────────────────────────────────

/// Gate approval written by SENTINEL to let FORGE proceed.
#[derive(Debug, Clone)]
pub struct GateApproval {
    pub phase: String,
    pub approved_by: String,
    pub ts: u64,
    pub notes: Option<String>,
}

/// Work dispatched by the Controller to a worker.
#[derive(Debug, Clone)]
pub struct DispatchPayload {
    pub ticket_id: String,
    pub title: String,
    pub body: String,
    pub branch: Option<String>,
    pub contract_path: Option<String>,
}

/// A PR opened by FORGE.
#[derive(Debug, Clone)]
pub struct PrInfo {
    pub pr_number: u64,
    pub branch: String,
    pub title: String,
}

/// FORGE's handoff to SENTINEL.
#[derive(Debug, Clone)]
pub struct HandoffPayload {
    pub contract_md: String,
    pub notes: Option<String>,
}

/// SENTINEL's review.
#[derive(Debug, Clone)]
pub struct ReviewPayload {
    pub verdict: String,
    pub report: String,
    pub pr_number: Option<u64>,
}

/// VESSEL's record of a merge.
#[derive(Debug, Clone)]
pub struct MergePayload {
    pub pr_number: u64,
    pub sha: String,
    pub merged: bool,
}

// ── Laws ────────────────────────────────────────────────────────────────────

/// FORGE (in any letter case) can never approve a gate.
pub proof fn forge_cannot_approve(role: Seq<char>)
    requires
        eq_ignore_ascii_case_spec(role, "forge"@),
    ensures
        !eq_ignore_ascii_case_spec(role, "sentinel"@),
{
    reveal_strlit("forge");
    reveal_strlit("sentinel");
    if eq_ignore_ascii_case_spec(role, "sentinel"@) {
        assert(role.len() == 5);
        assert(role.len() == 8);
    }
}

/// A ticket without a status enters only via `planning` or `blocked`.
pub proof fn fresh_ticket_enters_via_planning_or_blocked(phase: Seq<char>)
    requires
        phase == "building"@ || phase == "testing"@ || phase == "review_ready"@,
    ensures
        !entry_phases().contains(phase),
{
    reveal_strlit("building");
    reveal_strlit("testing");
    reveal_strlit("review_ready");
    reveal_strlit("planning");
    reveal_strlit("blocked");
    if entry_phases().contains(phase) {
        let i = choose|i: int| 0 <= i < entry_phases().len() && entry_phases()[i] == phase;
        assert(entry_phases()[0] == "planning"@);
        assert(entry_phases()[1] == "blocked"@);
        assert(phase.len() == 8 || phase.len() == 7);
        if phase.len() == 8 {
            assert(phase[0] != "planning"@[0]);
        } else {
            assert(phase[0] != "blocked"@[0]);
        }
    }
}

/// Only leaving `planning` for another phase is gated: staying in a phase,
/// or leaving any other phase, never needs an approval.
pub proof fn only_leaving_planning_is_gated(current: Seq<char>, phase: Seq<char>)
    ensures
        needs_gate_spec(Some(current), phase) <==> current == "planning"@ && phase != current,
{
    assert(gated_phases().contains(current) <==> current == "planning"@) by {
        if gated_phases().contains(current) {
            let i = choose|i: int| 0 <= i < gated_phases().len() && gated_phases()[i] == current;
            assert(i == 0);
        }
        if current == "planning"@ {
            assert(gated_phases()[0] == current);
        }
    }
}

} // verus!
