use openflows::harness::{
    authorize_gate_approver, check_gate_approval, current_phase, recorded_phase, recorded_status, check_review_verdict, check_status_transition,
    gate_key, harness_key, is_gated_phase, is_valid_verdict, needs_gate_approval, ticket_key,
    ticket_key_flat, HarnessError, RecordedStatus, GATED_PHASES, VALID_PHASES, VALID_VERDICTS,
};

#[test]
fn test_valid_phases() {
    assert!(VALID_PHASES.contains(&"planning"));
    assert!(VALID_PHASES.contains(&"building"));
    assert!(!VALID_PHASES.contains(&"invalid_phase"));
}

#[test]
fn test_valid_verdicts() {
    assert!(VALID_VERDICTS.contains(&"approve"));
    assert!(VALID_VERDICTS.contains(&"reject"));
    assert!(!VALID_VERDICTS.contains(&"maybe"));
}

#[test]
fn test_key_namespacing() {
    let tenant = "acme";
    let ticket = "T-42";
    let key = harness_key(tenant, &ticket_key(ticket, "dispatch", "forge"));
    assert_eq!(key, "ns:acme:ticket:T-42:dispatch:forge");
}

#[test]
fn test_gate_approver_accepts_sentinel_case_insensitive() {
    assert!(authorize_gate_approver("sentinel").is_ok());
    assert!(authorize_gate_approver("SENTINEL").is_ok());
    assert!(authorize_gate_approver("Sentinel").is_ok());
}

#[test]
fn test_gate_approver_rejects_forge_and_others() {
    assert!(authorize_gate_approver("forge").is_err());
    assert!(authorize_gate_approver("vessel").is_err());
    assert!(authorize_gate_approver("lore").is_err());
    assert!(authorize_gate_approver("").is_err());
    assert!(authorize_gate_approver("admin").is_err());
}

#[test]
fn gate_approver_error_names_the_role() {
    let e = authorize_gate_approver("forge").unwrap_err();
    assert!(matches!(e, HarnessError::NotApprover { ref role } if role == "forge"));
    assert!(e.message().starts_with("Gate approval rejected: approver role 'forge' is not SENTINEL."));
}

#[test]
fn phase_and_verdict_sets() {
    for p in VALID_PHASES {
        assert!(openflows::guard::is_valid_phase(p));
    }
    for g in GATED_PHASES {
        assert!(is_gated_phase(g));
    }
    assert!(!is_gated_phase("building"));
    for v in VALID_VERDICTS {
        assert!(is_valid_verdict(v));
    }
    assert!(!is_valid_verdict("Approve"));
    assert!(check_review_verdict("reject").is_ok());
    let e = check_review_verdict("maybe").unwrap_err();
    assert_eq!(e.message(), "Invalid verdict 'maybe'. Valid verdicts: approve, reject");
}

#[test]
fn leaving_planning_needs_the_gate() {
    assert!(needs_gate_approval(Some("planning"), "building"));
    assert!(!needs_gate_approval(Some("planning"), "planning"));
    assert!(!needs_gate_approval(Some("building"), "testing"));
    assert!(!needs_gate_approval(None, "building"));

    let e = check_status_transition("building", Some("planning"), false).unwrap_err();
    assert!(matches!(e, HarnessError::GateNotApproved { ref from, ref to } if from == "planning" && to == "building"));
    assert!(e.message().starts_with("Cannot transition from 'planning' to 'building' without SENTINEL approval."));
    assert!(matches!(check_status_transition("building", Some("planning"), true), Ok(true)));
    assert!(matches!(check_status_transition("planning", Some("planning"), false), Ok(false)));
    assert!(matches!(check_status_transition("testing", Some("building"), false), Ok(false)));
    let e = check_status_transition("building", None, true).unwrap_err();
    assert!(matches!(e, HarnessError::FreshTicketEntry { ref phase } if phase == "building"));
    assert_eq!(
        e.message(),
        "Cannot enter 'building' on a ticket without a status: a fresh ticket must enter via 'planning' (or 'blocked')."
    );
    assert!(check_status_transition("testing", None, false).is_err());
    assert!(check_status_transition("review_ready", None, false).is_err());
    assert!(check_status_transition("planning", None, false).is_ok());
    assert!(check_status_transition("blocked", None, false).is_ok());
    let e = check_status_transition("shipping", None, true).unwrap_err();
    assert_eq!(
        e.message(),
        "Invalid phase 'shipping'. Valid phases: planning, building, testing, review_ready, blocked"
    );
}

#[test]
fn gate_approval_rules() {
    let planning = RecordedStatus::Present { phase: Some("planning".to_string()) };
    assert!(check_gate_approval("T-1", "sentinel", "planning", &planning).is_ok());
    assert!(matches!(
        check_gate_approval("T-1", "forge", "planning", &planning),
        Err(HarnessError::NotApprover { .. })
    ));
    let e = check_gate_approval("T-1", "sentinel", "building", &planning).unwrap_err();
    assert_eq!(e.message(), "Phase 'building' is not a gated phase. Gated phases: planning");
    let e = check_gate_approval("T-1", "sentinel", "planning", &RecordedStatus::Missing).unwrap_err();
    assert_eq!(e.message(), "No status found for ticket T-1. FORGE must set status to 'planning' first.");
    let building = RecordedStatus::Present { phase: Some("building".to_string()) };
    let e = check_gate_approval("T-1", "sentinel", "planning", &building).unwrap_err();
    assert_eq!(
        e.message(),
        "Cannot approve 'planning' gate — current phase is 'building'. FORGE must be in the 'planning' phase to receive approval."
    );
    let unreadable = RecordedStatus::Present { phase: None };
    assert!(check_gate_approval("T-1", "SENTINEL", "planning", &unreadable).is_ok());
}

#[test]
fn ticket_keys() {
    assert_eq!(ticket_key_flat("T-9", "status"), "ticket:T-9:status");
    assert_eq!(ticket_key("T-9", "review", "sentinel"), "ticket:T-9:review:sentinel");
    assert_eq!(gate_key("T-9", "planning"), "ticket:T-9:gate:planning");
    assert_eq!(harness_key("t", "x"), "ns:t:x");
}

#[test]
fn stored_status_records_are_read_for_their_phase() {
    let rec = r#"{"phase":"planning","role":"forge","ts":1}"#;
    assert_eq!(recorded_phase(rec).as_deref(), Some("planning"));
    assert_eq!(recorded_phase(r#"{"role":"forge"}"#), None);
    assert_eq!(recorded_phase(r#"{"phase":3}"#), None);
    assert_eq!(recorded_phase("not json"), None);
    assert_eq!(recorded_phase(r#"["planning"]"#), None);
    assert_eq!(recorded_phase(r#"{"phase":"a\nb"}"#).as_deref(), Some("a\nb"));
    assert_eq!(current_phase(None), None);
    assert_eq!(current_phase(Some(rec)).as_deref(), Some("planning"));
    assert!(matches!(recorded_status(None), RecordedStatus::Missing));
    assert!(matches!(
        recorded_status(Some(rec)),
        RecordedStatus::Present { phase: Some(ref p) } if p == "planning"
    ));
    assert!(matches!(recorded_status(Some("{}")), RecordedStatus::Present { phase: None }));

    let st = recorded_status(Some(rec));
    assert!(check_gate_approval("T-1", "sentinel", "planning", &st).is_ok());
    let building = recorded_status(Some(r#"{"phase":"building"}"#));
    assert!(check_gate_approval("T-1", "sentinel", "planning", &building).is_err());
    let cur = current_phase(Some(rec));
    assert!(check_status_transition("building", cur.as_deref(), false).is_err());
}
