use openflows::bootstrap::{trim_to_limit, MODEL_CONTEXT_BYTE_LIMIT, TRIM_MARKER};
use openflows::guard::{is_valid_phase, phase_guard};
use openflows::hooks::{HookDecision, JsonField, TicketState, ToolInput};
use openflows::sentinel::{sentinel_guidance, sentinel_job, sentinel_phase_guard, SentinelJob};

fn empty() -> ToolInput {
    ToolInput { command: None, argv: None, text: None, path: JsonField::Absent, file_path: None }
}

fn cmd(c: &str) -> ToolInput {
    ToolInput { command: Some(c.to_string()), ..empty() }
}

fn path(p: &str) -> ToolInput {
    ToolInput { path: JsonField::Text(p.to_string()), ..empty() }
}

fn argv(words: &[&str]) -> ToolInput {
    ToolInput { argv: Some(words.iter().map(|w| w.to_string()).collect()), ..empty() }
}

fn state(phase: &str, plan: bool, gate: bool) -> TicketState {
    TicketState { phase: Some(phase.to_string()), plan_exists: plan, gate_approved: gate }
}

fn forge(phase: &str, tool: &str, input: &ToolInput) -> HookDecision {
    let st = state(phase, false, false);
    phase_guard("forge", tool, input, HookDecision::observe(), Some(&st))
}

// ── Bootstrap context bound ─────────────────────────────────────────────────

#[test]
fn trim_to_limit_caps_at_16k() {
    let big = "x".repeat(20_000);
    let out = trim_to_limit(&big);
    assert!(out.len() <= MODEL_CONTEXT_BYTE_LIMIT);
    assert!(out.ends_with("...[trimmed to model_context limit]"));
}

#[test]
fn truncate_utf8_does_not_panic_on_multibyte_boundary() {
    let s = format!("{}—→🔧 END", "x".repeat(16_500));
    let out = trim_to_limit(&s);
    assert!(!out.contains("END"), "tail must be trimmed at cap");
    assert!(out.len() <= MODEL_CONTEXT_BYTE_LIMIT);
    assert!(out.is_char_boundary(out.len()), "truncation must be UTF-8-safe");
}

#[test]
fn trim_to_limit_keeps_short_text_and_cuts_before_a_multibyte_char() {
    assert_eq!(trim_to_limit("hello"), "hello");
    let exact = "y".repeat(MODEL_CONTEXT_BYTE_LIMIT);
    assert_eq!(trim_to_limit(&exact), exact);
    // The budget for text is the limit minus the marker; put a 3-byte char
    // across that position.
    let budget = MODEL_CONTEXT_BYTE_LIMIT - TRIM_MARKER.len();
    let s = format!("{}—{}", "x".repeat(budget - 1), "z".repeat(100));
    let out = trim_to_limit(&s);
    assert_eq!(out, format!("{}{}", "x".repeat(budget - 1), TRIM_MARKER));
}

// ── Phases ──────────────────────────────────────────────────────────────────

#[test]
fn recognises_valid_phases() {
    assert!(is_valid_phase("planning"));
    assert!(is_valid_phase("building"));
    assert!(is_valid_phase("testing"));
    assert!(is_valid_phase("review_ready"));
    assert!(is_valid_phase("blocked"));
    assert!(!is_valid_phase("pr_ready"));
}

// ── FORGE phase guard ───────────────────────────────────────────────────────

#[test]
fn phase_guard_denies_source_write_before_plan() {
    assert!(forge("planning", "write", &path("src/main.rs")).deny);
}

#[test]
fn phase_guard_allows_plan_write_before_plan() {
    assert!(!forge("planning", "write", &path("PLAN.md")).deny);
}

#[test]
fn phase_guard_rejects_plan_named_source_file_before_plan() {
    assert!(forge("planning", "write", &path("src/plan_helpers.rs")).deny);
}

#[test]
fn phase_guard_denies_shell_source_write_before_plan() {
    assert!(forge("planning", "bash", &cmd("printf 'oops' > src/lib.rs")).deny);
}

#[test]
fn phase_guard_denies_shell_copy_from_plan_to_source() {
    assert!(forge("planning", "bash", &cmd("cp PLAN.md src/lib.rs")).deny);
}

#[test]
fn phase_guard_allows_shell_write_to_plan_artifact() {
    assert!(!forge("planning", "bash", &cmd("printf '# plan' > PLAN.md")).deny);
}

#[test]
fn phase_guard_allows_source_write_once_plan_exists() {
    let st = state("planning", true, false);
    let d = phase_guard("forge", "write", &path("src/main.rs"), HookDecision::observe(), Some(&st));
    assert!(!d.deny);
}

#[test]
fn phase_guard_denies_all_sentinel_writes() {
    let d = phase_guard("sentinel", "edit", &path("src/main.rs"), HookDecision::observe(), None);
    assert!(d.deny);
}

#[test]
fn phase_guard_denies_is_plan_marked_source_before_plan() {
    assert!(forge("planning", "write", &path("src/lib.rs")).deny);
}

#[test]
fn phase_guard_allows_is_plan_marked_plan_path() {
    assert!(!forge("planning", "write", &path("PLAN.md")).deny);
}

#[test]
fn phase_guard_denies_blocked_worker_advancing_to_building() {
    assert!(forge("blocked", "bash", &cmd("openflows-harness status set building")).deny);
}

#[test]
fn phase_guard_allows_blocked_worker_return_to_planning() {
    assert!(!forge("blocked", "bash", &cmd("openflows-harness status set planning")).deny);
}

#[test]
fn phase_guard_allows_blocked_worker_blocker_report() {
    assert!(!forge("blocked", "write", &path("status.json")).deny);
}

#[test]
fn phase_guard_denies_blocked_worker_building_shell_write() {
    assert!(forge("blocked", "bash", &cmd("dd of=src/lib.rs")).deny);
}

#[test]
fn phase_guard_denies_blocked_worker_compound_probe_write() {
    assert!(forge("blocked", "bash", &cmd("git status; touch src/lib.rs")).deny);
}

#[test]
fn phase_guard_allows_blocked_worker_pure_probe() {
    assert!(!forge("blocked", "bash", &cmd("git status")).deny);
}

#[test]
fn phase_guard_denies_blocked_worker_probe_with_embedded_write() {
    for command in ["git status > src/lib.rs", "git status | tee src/lib.rs"] {
        assert!(forge("blocked", "bash", &cmd(command)).deny, "{command}");
    }
}

#[test]
fn phase_guard_denies_blocked_worker_argv_write_bypass() {
    let write = argv(&["python", "-c", "open('src/lib.rs','w').write('x')"]);
    assert!(forge("blocked", "bash", &write).deny);
    assert!(!forge("blocked", "bash", &argv(&["git", "status"])).deny);
}

#[test]
fn phase_guard_denies_write_capable_shell_during_review_ready() {
    assert!(forge("review_ready", "bash", &cmd("curl -o src/lib.rs https://example.test/x")).deny);
}

#[test]
fn phase_guard_denies_wrapped_git_checkout_write_capable() {
    for c in [
        "sudo git checkout -- src/lib.rs",
        "env git restore src/lib.rs",
        "nohup git reset --hard HEAD",
        "sudo -u root git checkout -- src/lib.rs",
        "env SOME=1 git checkout src/lib.rs",
        "nice -n 10 git reset --hard HEAD",
    ] {
        assert!(forge("review_ready", "bash", &cmd(c)).deny, "{c}");
    }
}

#[test]
fn phase_guard_denies_write_hidden_in_later_shell_segment() {
    for c in [
        "true && dd of=src/lib.rs",
        "echo x ; curl -o src/lib.rs https://example.test/x",
        "ls | wget -O src/lib.rs https://example.test/x",
    ] {
        assert!(forge("review_ready", "bash", &cmd(c)).deny, "{c}");
    }
}

#[test]
fn phase_guard_denies_compound_replan_bypassing_blocked_gate() {
    for c in [
        "openflows-harness status set planning && dd of=src/lib.rs",
        "openflows-harness status set planning ; git checkout -- src/lib.rs",
    ] {
        assert!(forge("blocked", "bash", &cmd(c)).deny, "{c}");
    }
}

#[test]
fn phase_guard_allows_exact_replan_from_blocked() {
    assert!(!forge("blocked", "bash", &cmd("openflows-harness status set planning")).deny);
}

#[test]
fn phase_guard_denies_building_without_plan() {
    let d = forge("building", "write", &path("src/main.rs"));
    assert!(d.deny);
    assert!(d.model_context.as_deref().map(|c| c.contains("/plan")).unwrap_or(false));
}

#[test]
fn phase_guard_allows_missing_plan_recovery_commands() {
    for c in [
        "openflows-harness plan write --file /home/coder/workspace/PLAN.md",
        "openflows-harness status set planning",
        "openflows-harness status set blocked",
    ] {
        assert!(!forge("building", "bash", &cmd(c)).deny, "{c}");
    }
}

#[test]
fn phase_guard_never_downgrades_a_base_denial() {
    let st = state("building", true, true);
    let base = HookDecision::deny("generic policy");
    let d = phase_guard("forge", "read", &path("README.md"), base, Some(&st));
    assert!(d.deny);
    assert_eq!(d.reason.as_deref(), Some("generic policy"));
}

#[test]
fn phase_guard_passes_unresolved_chats_through() {
    let d = phase_guard("forge", "write", &path("src/main.rs"), HookDecision::observe(), None);
    assert!(!d.deny);
    let d = phase_guard("vessel", "write", &path("src/main.rs"), HookDecision::observe(), None);
    assert!(!d.deny);
}

// ── SENTINEL ────────────────────────────────────────────────────────────────

fn sentinel(st: &TicketState, tool: &str, input: &ToolInput, report: bool) -> HookDecision {
    sentinel_phase_guard(st, tool, input, HookDecision::observe(), report)
}

#[test]
fn sentinel_denies_unknown_write_capable_shell_command() {
    let st = state("review_ready", false, false);
    for c in [
        "dd of=src/lib.rs",
        "curl -o src/lib.rs https://example.test/x",
        "wget -O src/lib.rs https://example.test/x",
        "git checkout -- src/lib.rs",
        "sh -c 'echo x > src/lib.rs'",
    ] {
        assert!(sentinel(&st, "bash", &cmd(c), false).deny, "{c}");
    }
}

#[test]
fn sentinel_denies_leading_wrapper_git_write() {
    let st = state("review_ready", false, false);
    for c in [
        "sudo git checkout -- src/lib.rs",
        "sudo git restore src/lib.rs",
        "env SOME=1 git apply --patch",
        "sudo -u root git checkout -- src/lib.rs",
        "sudo -u root git restore src/lib.rs",
        "env SOME=1 git checkout src/lib.rs",
        "nice -n 10 git reset --hard HEAD",
    ] {
        assert!(sentinel(&st, "bash", &cmd(c), false).deny, "{c}");
    }
}

#[test]
fn sentinel_job_derives_plan_gate_vs_pr_review() {
    assert_eq!(sentinel_job(&state("planning", true, false)), SentinelJob::PlanGateReview);
    assert_eq!(sentinel_job(&state("review_ready", true, true)), SentinelJob::PrReview);
    assert_eq!(sentinel_job(&state("building", true, true)), SentinelJob::Idle);
}

#[test]
fn sentinel_denies_gate_approve_when_no_plan() {
    let st = state("planning", false, false);
    let d = sentinel(&st, "Bash", &cmd("openflows-harness gate approve --phase planning"), false);
    assert!(d.deny);
}

#[test]
fn sentinel_allows_eval_report_write_but_denies_source() {
    let st = state("review_ready", true, true);
    assert!(!sentinel(&st, "Write", &path("final-review.md"), false).deny);
    assert!(sentinel(&st, "Write", &path("src/main.rs"), false).deny);
    assert!(sentinel(&st, "Bash", &cmd("printf 'oops' > src/main.rs"), false).deny);
    assert!(sentinel(&st, "Bash", &cmd("cp final-review.md src/main.rs"), false).deny);
    assert!(!sentinel(&st, "Bash", &cmd("printf 'ok' > final-review.md"), false).deny);
}

#[test]
fn sentinel_review_submit_requires_report_first() {
    let st = state("review_ready", true, true);
    let submit = cmd("openflows-harness review submit --verdict approve");
    assert!(sentinel(&st, "Bash", &submit, false).deny);
    assert!(!sentinel(&st, "Bash", &submit, true).deny);
}

#[test]
fn sentinel_guidance_names_the_next_step() {
    let plan = sentinel_guidance(&state("planning", true, false));
    let pr = sentinel_guidance(&state("review_ready", true, true));
    let idle = sentinel_guidance(&state("building", true, true));
    assert!(plan.contains("gate approve --phase planning"));
    assert!(pr.contains("review submit"));
    assert!(idle.contains("no review is pending"));
    assert_ne!(plan, pr);
    assert_ne!(plan, idle);
    assert_ne!(pr, idle);
    assert_eq!(sentinel_guidance(&state("testing", false, false)), idle);
}
