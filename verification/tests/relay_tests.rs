use openflows::events::{event_byte_len, EventBuffer};
use openflows::protocol::{
    ExecutorInfo, VerifyCwd, VerifyExpect, VerifyKind, VerifyProgressEvent, VerifyRequest,
    VerifyResult,
};
use openflows::relay::{
    cancelled_result, mirror_result_keys, submit_verify_request, task_request_key, A2ARelay,
    RelayError, TaskState, ValidationError,
};

fn sample_request() -> VerifyRequest {
    VerifyRequest {
        pair_id: "T-048".to_string(),
        kind: VerifyKind::Command,
        cwd: VerifyCwd::Repo,
        argv: vec!["cargo".into(), "test".into()],
        timeout_secs: 300,
        env_allowlist: vec![],
        expect: VerifyExpect { exit_code: Some(0), artifacts: vec![] },
    }
}

fn sample_result(task_id: &str) -> VerifyResult {
    VerifyResult {
        task_id: task_id.to_string(),
        exit_code: Some(0),
        timed_out: false,
        duration_ms: 42,
        stdout_ref: format!("audit:a2a:{}:stdout", task_id),
        stderr_ref: format!("audit:a2a:{}:stderr", task_id),
        artifacts: vec![],
        executor: ExecutorInfo { role: "forge".into(), workspace: "forge-T-048".into() },
    }
}

fn body_of(req: &VerifyRequest) -> String {
    format!(
        "{{\"pair_id\":\"{}\",\"argv\":{:?},\"timeout_secs\":{}}}",
        req.pair_id, req.argv, req.timeout_secs
    )
}

fn submit(relay: &mut A2ARelay, req: &VerifyRequest, requester: &str) -> Result<String, ValidationError> {
    let body = body_of(req);
    submit_verify_request(relay, req, &body, requester)
}

fn stdout(chunk: &str) -> VerifyProgressEvent {
    VerifyProgressEvent::Stdout { chunk: chunk.to_string() }
}

// ── Event buffer ────────────────────────────────────────────────────────────

#[test]
fn test_event_buffer_default_limits() {
    let buf = EventBuffer::new();
    assert_eq!(buf.max_events(), 1000);
    assert_eq!(buf.max_bytes(), 1_048_576);
}

#[test]
fn test_event_buffer_push_and_replay() {
    let mut buf = EventBuffer::new();
    let b1 = buf.push(stdout("line1"));
    let b2 = buf.push(VerifyProgressEvent::Stderr { chunk: "error".into() });
    assert_eq!(b1.seq, 0);
    assert_eq!(b2.seq, 1);
    assert_eq!(buf.current_seq(), 1);

    let all = buf.events_since(0);
    assert_eq!(all.len(), 2);
    assert_eq!(all[0].seq, 0);
    assert_eq!(all[1].seq, 1);

    let newer = buf.events_since(1);
    assert_eq!(newer.len(), 1);
    assert_eq!(newer[0].seq, 1);
}

#[test]
fn test_event_buffer_fifo_eviction() {
    let mut buf = EventBuffer::new();
    for i in 0..1100 {
        buf.push(stdout(&format!("line{}", i)));
    }
    let all = buf.events_since(0);
    assert!(all.len() <= 1000);
}

#[test]
fn event_buffer_evicts_oldest_first_at_the_count_limit() {
    let mut buf = EventBuffer::new();
    for i in 0..1100u64 {
        buf.push_at(stdout(&format!("line{}", i)), i as i64);
    }
    let all = buf.events_since(0);
    assert_eq!(all.len(), 1000);
    assert_eq!(all[0].seq, 100);
    assert_eq!(all[999].seq, 1099);
    assert_eq!(all[0].timestamp, 100);
    assert_eq!(buf.current_seq(), 1099);
    assert_eq!(buf.next_seq(), 1100);
}

#[test]
fn event_buffer_evicts_at_the_byte_limit() {
    let mut buf = EventBuffer::new();
    // Each event encodes as 28 bytes of frame plus the quoted chunk.
    let chunk = "x".repeat(100_000);
    for _ in 0..12 {
        buf.push(stdout(&chunk));
    }
    let all = buf.events_since(0);
    // 10 events of 100_030 bytes fit in 1 MiB; 11 do not.
    assert_eq!(all.len(), 10);
    assert_eq!(all[0].seq, 2);
    assert_eq!(all[9].seq, 11);
}

#[test]
fn event_buffer_counts_given_sizes() {
    let mut buf = EventBuffer::new();
    let a = buf.push_sized(stdout("a"), 1, 600_000);
    let b = buf.push_sized(stdout("b"), 2, 400_000);
    assert_eq!((a.seq, b.seq), (0, 1));
    assert_eq!(buf.events_since(0).len(), 2);
    // 600_000 + 400_000 + 48_577 > 1 MiB: the oldest goes.
    buf.push_sized(stdout("c"), 3, 48_577);
    let kept = buf.events_since(0);
    assert_eq!(kept.len(), 2);
    assert_eq!(kept[0].seq, 1);
    // One byte over the limit evicts the oldest again.
    buf.push_sized(stdout("d"), 4, 600_000);
    let kept = buf.events_since(0);
    assert_eq!(kept.iter().map(|e| e.seq).collect::<Vec<_>>(), vec![2, 3]);

    let mut full = EventBuffer::new();
    full.push_sized(stdout("x"), 0, 1_048_576);
    assert_eq!(full.events_since(0).len(), 1);
    full.push_sized(stdout("y"), 0, 1);
    let kept = full.events_since(0);
    assert_eq!(kept.len(), 1);
    assert_eq!(kept[0].seq, 1);
}

#[test]
fn event_buffer_starts_empty() {
    let buf = EventBuffer::default();
    assert_eq!(buf.current_seq(), 0);
    assert_eq!(buf.next_seq(), 0);
    assert!(buf.events_since(0).is_empty());
}

// ── Relay lifecycle ─────────────────────────────────────────────────────────

#[test]
fn test_relay_lifecycle_submit_claim_complete_get() {
    let mut relay = A2ARelay::new();
    let req = sample_request();

    let task_id = submit(&mut relay, &req, "T-048").unwrap();
    assert!(!task_id.is_empty());
    assert_eq!(relay.get_task_state(&task_id), Some(TaskState::Pending));

    let task_id2 = submit(&mut relay, &req, "T-048").unwrap();
    assert_eq!(task_id, task_id2);

    let claimed = relay.claim_next_task("T-048").unwrap();
    assert_eq!(claimed.task_id, task_id);
    assert_eq!(relay.get_task_state(&task_id), Some(TaskState::Running));

    assert!(relay.claim_next_task("T-048").is_none());

    relay.complete_task(&task_id, sample_result(&task_id)).unwrap();
    assert_eq!(relay.get_task_state(&task_id), Some(TaskState::Completed));

    let entry = relay.get_task(&task_id).unwrap();
    assert!(entry.result.is_some());
    assert_eq!(entry.result.unwrap().task_id, task_id);
}

#[test]
fn test_relay_claim_rejects_non_forge_role_via_validation() {
    let mut relay = A2ARelay::new();
    let req = sample_request();
    let task_id = submit(&mut relay, &req, "T-048").unwrap();

    let wrong_pair = VerifyRequest { pair_id: "T-999".to_string(), ..req.clone() };
    assert!(submit(&mut relay, &wrong_pair, "T-048").is_err());

    assert_eq!(relay.get_task_state(&task_id), Some(TaskState::Pending));
}

#[test]
fn claim_for_role_admits_only_forge() {
    let mut relay = A2ARelay::new();
    let req = sample_request();
    let task_id = submit(&mut relay, &req, "T-048").unwrap();
    assert!(matches!(relay.claim_for_role("T-048", "sentinel"), Err(RelayError::ClaimNotForge)));
    assert_eq!(relay.get_task_state(&task_id), Some(TaskState::Pending));
    let claimed = relay.claim_for_role("T-048", "FORGE").unwrap().unwrap();
    assert_eq!(claimed.task_id, task_id);
    assert_eq!(claimed.state, TaskState::Pending);
    assert!(relay.claim_for_role("T-048", "forge").unwrap().is_none());
    assert_eq!(
        RelayError::ClaimNotForge.message(),
        "tasks/claim is only available to the forge executor role"
    );
}

#[test]
fn claim_only_takes_tasks_of_the_pair() {
    let mut relay = A2ARelay::new();
    let req = sample_request();
    submit(&mut relay, &req, "T-048").unwrap();
    assert!(relay.claim_next_task("T-049").is_none());
    let other = VerifyRequest { pair_id: "T-049".to_string(), ..req.clone() };
    let other_id = submit(&mut relay, &other, "T-049").unwrap();
    assert_eq!(relay.claim_next_task("T-049").unwrap().task_id, other_id);
}

#[test]
fn distinct_bodies_get_distinct_tasks() {
    let mut relay = A2ARelay::new();
    let req = sample_request();
    let a = submit(&mut relay, &req, "T-048").unwrap();
    let longer = VerifyRequest { timeout_secs: 301, ..req.clone() };
    let b = submit(&mut relay, &longer, "T-048").unwrap();
    assert_ne!(a, b);
    assert_eq!(relay.list_tasks().len(), 2);
}

#[test]
fn submission_with_given_id_is_recorded() {
    let mut relay = A2ARelay::new();
    let req = sample_request();
    let id = relay.check_or_create_task_with_id(&req, "{}", "T-048", "fixed-1".to_string());
    assert_eq!(id, "fixed-1");
    let again = relay.check_or_create_task_with_id(&req, "{}", "T-048", "fixed-2".to_string());
    assert_eq!(again, "fixed-1");
    let entry = relay.get_task("fixed-1").unwrap();
    assert_eq!(entry.idempotency_key, "T-048:{}");
    assert_eq!(entry.requester, "T-048");
    assert_eq!(entry.state, TaskState::Pending);
    assert!(relay.get_task("fixed-2").is_none());
    assert_eq!(relay.current_event_seq("fixed-1"), 0);
}

#[test]
fn complete_unknown_task_fails() {
    let mut relay = A2ARelay::new();
    let err = relay.complete_task("nope", sample_result("nope")).unwrap_err();
    assert!(matches!(err, RelayError::TaskNotFound { ref task_id } if task_id == "nope"));
    assert_eq!(err.message(), "task not found: nope");
}

// ── Progress events ─────────────────────────────────────────────────────────

#[test]
fn test_replay_events_since_via_relay() {
    let mut relay = A2ARelay::new();
    let req = sample_request();
    let task_id = submit(&mut relay, &req, "T-048").unwrap();
    for i in 0..3 {
        relay.push_progress_event(&task_id, stdout(&format!("line{}", i))).unwrap();
    }
    let all = relay.replay_events_since(&task_id, 0);
    assert_eq!(all.len(), 3);
    let since = relay.replay_events_since(&task_id, 1);
    assert_eq!(since.len(), 2);
    assert_eq!(since[0].seq, 1);
    assert_eq!(since[1].seq, 2);
}

#[test]
fn test_resubscribe_with_event_replay() {
    let mut relay = A2ARelay::new();
    let req = sample_request();
    let task_id = submit(&mut relay, &req, "T-048").unwrap();
    for i in 0..5 {
        relay.push_progress_event(&task_id, stdout(&format!("line{}", i))).unwrap();
    }
    let replayed = relay.replay_events_since(&task_id, 2);
    assert_eq!(replayed.len(), 3);
    assert_eq!(replayed[0].seq, 2);
    assert_eq!(replayed[1].seq, 3);
    assert_eq!(replayed[2].seq, 4);
}

#[test]
fn test_current_event_seq() {
    let mut relay = A2ARelay::new();
    assert_eq!(relay.current_event_seq("nonexistent"), 0);
    let req = sample_request();
    let task_id = submit(&mut relay, &req, "T-048").unwrap();
    assert_eq!(relay.current_event_seq(&task_id), 0);
    relay.push_progress_event(&task_id, stdout("hello")).unwrap();
    assert_eq!(relay.current_event_seq(&task_id), 0);
    relay
        .push_progress_event(&task_id, VerifyProgressEvent::Stderr { chunk: "world".into() })
        .unwrap();
    assert_eq!(relay.current_event_seq(&task_id), 1);
}

#[test]
fn progress_for_unknown_task_gets_a_buffer() {
    let mut relay = A2ARelay::new();
    assert!(relay.replay_events_since("loose", 0).is_empty());
    let b = relay.push_progress_event("loose", stdout("x")).unwrap();
    assert_eq!(b.seq, 0);
    assert_eq!(relay.replay_events_since("loose", 0).len(), 1);
    assert!(relay.replay_events_since("loose", 1).is_empty());
}

// ── Cancel ──────────────────────────────────────────────────────────────────

#[test]
fn test_cancel_flag_and_is_cancelled() {
    let mut relay = A2ARelay::new();
    let task_id = "test-cancel-1";
    assert!(!relay.is_cancelled(task_id));
    relay.create_cancel_token(task_id);
    assert!(!relay.is_cancelled(task_id));
    assert!(relay.mark_cancelled(task_id));
    assert!(relay.is_cancelled(task_id));
    assert!(!relay.mark_cancelled(task_id));
}

#[test]
fn test_cancel_without_token_creates_one() {
    let mut relay = A2ARelay::new();
    let task_id = "test-cancel-2";
    assert!(!relay.mark_cancelled(task_id));
    assert!(relay.is_cancelled(task_id));
    let token = relay.create_cancel_token(task_id);
    assert!(token);
}

#[test]
fn test_cancel_through_lifecycle() {
    let mut relay = A2ARelay::new();
    let req = sample_request();
    let task_id = submit(&mut relay, &req, "T-048").unwrap();
    let claimed = relay.claim_next_task("T-048").unwrap();
    assert_eq!(claimed.task_id, task_id);
    assert_eq!(relay.get_task_state(&task_id), Some(TaskState::Running));
    relay.create_cancel_token(&task_id);
    relay.mark_cancelled(&task_id);
    assert!(relay.is_cancelled(&task_id));
    relay.complete_task(&task_id, sample_result(&task_id)).unwrap();
    assert_eq!(relay.get_task_state(&task_id), Some(TaskState::Completed));
}

#[test]
fn test_synthetic_cancel_result_transitions_state() {
    let mut relay = A2ARelay::new();
    let req = sample_request();
    let task_id = submit(&mut relay, &req, "T-048").unwrap();
    relay.claim_next_task("T-048");
    let cancelled = cancelled_result(&task_id, &req.pair_id);
    assert_eq!(cancelled.stdout_ref, format!("audit:a2a:{}:stdout", task_id));
    assert_eq!(cancelled.stderr_ref, format!("audit:a2a:{}:stderr", task_id));
    assert_eq!(cancelled.executor.role, "forge");
    assert_eq!(cancelled.executor.workspace, "unknown-T-048");
    assert_eq!(cancelled.duration_ms, 0);
    assert!(!cancelled.timed_out);
    relay.complete_task(&task_id, cancelled).unwrap();
    assert_eq!(relay.get_task_state(&task_id), Some(TaskState::Completed));
    let entry = relay.get_task(&task_id).unwrap();
    assert_eq!(entry.result.unwrap().exit_code, None);
}

#[test]
fn cancel_task_cancels_a_running_task_once() {
    let mut relay = A2ARelay::new();
    let req = sample_request();
    let task_id = submit(&mut relay, &req, "T-048").unwrap();
    relay.claim_next_task("T-048");
    relay.create_cancel_token(&task_id);

    let err = relay.cancel_task(&task_id, "T-999").unwrap_err();
    assert_eq!(
        err.message(),
        "tasks/cancel pair_id mismatch: task belongs to T-048 but caller claims T-999"
    );
    assert!(!relay.is_cancelled(&task_id));

    let first = relay.cancel_task(&task_id, "T-048").unwrap();
    assert!(first.newly_set);
    let res = first.completed.unwrap();
    assert_eq!(res.executor.workspace, "unknown-T-048");
    assert_eq!(relay.get_task_state(&task_id), Some(TaskState::Cancelled));
    let entry = relay.get_task(&task_id).unwrap();
    assert_eq!(entry.result.unwrap().task_id, task_id);

    let second = relay.cancel_task(&task_id, "T-048").unwrap();
    assert!(!second.newly_set);
    assert!(second.completed.is_none());
}

#[test]
fn cancel_task_of_unknown_id_only_sets_the_flag() {
    let mut relay = A2ARelay::new();
    let out = relay.cancel_task("ghost", "T-1").unwrap();
    assert_eq!(relay.get_task_state("ghost"), None);
    assert!(!out.newly_set);
    assert!(out.completed.is_none());
    assert!(relay.is_cancelled("ghost"));
    assert!(relay.get_task("ghost").is_none());
}

#[test]
fn complete_for_pair_checks_ids_and_pairs() {
    let mut relay = A2ARelay::new();
    let req = sample_request();
    let task_id = submit(&mut relay, &req, "T-048").unwrap();

    let err = relay.complete_for_pair(&task_id, "T-048", sample_result("other")).unwrap_err();
    assert_eq!(
        err.message(),
        format!("tasks/complete task_id mismatch: result carries other, request says {}", task_id)
    );
    let err = relay.complete_for_pair(&task_id, "T-777", sample_result(&task_id)).unwrap_err();
    assert!(matches!(err, RelayError::CompletePairMismatch { .. }));
    assert_eq!(relay.get_task_state(&task_id), Some(TaskState::Pending));

    relay.complete_for_pair(&task_id, "T-048", sample_result(&task_id)).unwrap();
    assert_eq!(relay.get_task_state(&task_id), Some(TaskState::Completed));

    let err = relay.complete_for_pair("missing", "T-048", sample_result("missing")).unwrap_err();
    assert!(matches!(err, RelayError::TaskNotFound { .. }));
}

// ── Validation ──────────────────────────────────────────────────────────────

#[test]
fn test_valid_verify_request_flow() {
    let relay = A2ARelay::new();
    let req = sample_request();
    assert!(relay.validate_verify_request(&req, "T-048").is_ok());
    assert!(relay.validate_verify_request(&req, "T-999").is_err());

    let bad_timeout = VerifyRequest { timeout_secs: 0, ..req.clone() };
    assert!(relay.validate_verify_request(&bad_timeout, "T-048").is_err());

    let huge_timeout = VerifyRequest { timeout_secs: 99999, ..req.clone() };
    assert!(relay.validate_verify_request(&huge_timeout, "T-048").is_err());

    let empty_argv = VerifyRequest { argv: vec![], ..req.clone() };
    assert!(relay.validate_verify_request(&empty_argv, "T-048").is_err());
}

#[test]
fn validation_errors_name_the_rule() {
    let relay = A2ARelay::new();
    let req = sample_request();
    let e = relay.validate_verify_request(&req, "T-999").unwrap_err();
    assert_eq!(e.message(), "pair_id mismatch: request says T-048, requester is T-999");
    let evil = VerifyRequest { argv: vec!["rm".into(), "-rf".into(), "/".into()], ..req.clone() };
    let e = relay.validate_verify_request(&evil, "T-048").unwrap_err();
    assert_eq!(e.message(), "command not allowlisted: rm -rf /");
    let zero = VerifyRequest { timeout_secs: 0, ..req.clone() };
    assert_eq!(
        relay.validate_verify_request(&zero, "T-048").unwrap_err().message(),
        "timeout_secs must be > 0"
    );
    let edge = VerifyRequest { timeout_secs: 3600, ..req.clone() };
    assert!(relay.validate_verify_request(&edge, "T-048").is_ok());
    let over = VerifyRequest { timeout_secs: 3601, ..req.clone() };
    assert_eq!(
        relay.validate_verify_request(&over, "T-048").unwrap_err().message(),
        "timeout_secs exceeds maximum (3600)"
    );
}

// ── Sessions and keys ───────────────────────────────────────────────────────

#[test]
fn sessions_register_replace_and_deregister() {
    let mut relay = A2ARelay::new();
    relay.register_session("T-1".into(), "forge".into(), "forge-T-1".into());
    relay.register_session("T-1".into(), "sentinel".into(), "sentinel-T-1".into());
    relay.register_session("T-1".into(), "forge".into(), "forge-T-1b".into());
    assert_eq!(relay.list_sessions().len(), 2);
    assert_eq!(relay.get_session("T-1", "forge").unwrap().workspace_id, "forge-T-1b");
    relay.deregister_session("T-1", "forge");
    assert!(relay.get_session("T-1", "forge").is_none());
    assert_eq!(relay.get_session("T-1", "sentinel").unwrap().workspace_id, "sentinel-T-1");
    relay.deregister_session("T-1", "forge");
    assert_eq!(relay.list_sessions().len(), 1);
}

#[test]
fn mirror_and_request_keys() {
    let (latest, audit) = mirror_result_keys(&sample_result("t7"));
    assert_eq!(latest, "pair:forge-T-048:verification");
    assert_eq!(audit, "audit:a2a:t7:result");
    assert_eq!(task_request_key("t7"), "audit:a2a:t7:request");
}

#[test]
fn event_size_counts_the_json_escapes() {
    let chunk = "a\"b\n\u{1}é";
    let quoted = serde_json::to_string(chunk).unwrap();
    assert_eq!(quoted.len(), 16);
    assert_eq!(event_byte_len(&VerifyProgressEvent::Stdout { chunk: chunk.into() }), 28 + 16);
    assert_eq!(event_byte_len(&VerifyProgressEvent::Stderr { chunk: String::new() }), 30);
}

#[test]
fn numbering_survives_eviction() {
    let mut buf = EventBuffer::new();
    for i in 0..1100u64 {
        let b = buf.push(VerifyProgressEvent::Stdout { chunk: format!("{}", i) });
        assert_eq!(b.seq, i);
    }
    assert_eq!(buf.current_seq(), 1099);
    let kept = buf.events_since(0);
    assert_eq!(kept.len(), 1000);
    assert_eq!(kept[0].seq, 100);
    assert_eq!(kept[999].seq, 1099);
}

#[test]
fn byte_budget_keeps_the_longest_newest_suffix() {
    let mut buf = EventBuffer::new();
    let big = "x".repeat(400_000);
    for _ in 0..3 {
        buf.push(VerifyProgressEvent::Stdout { chunk: big.clone() });
    }
    // Two chunks of 400_030 bytes fit in 1 MiB, three do not.
    let kept = buf.events_since(0);
    assert_eq!(kept.iter().map(|e| e.seq).collect::<Vec<_>>(), vec![1, 2]);
    buf.push(VerifyProgressEvent::Stdout { chunk: "x".repeat(1_100_000) });
    assert!(buf.events_since(0).is_empty());
    assert_eq!(buf.current_seq(), 3);
}
