use openflows::keys::{audit_rejected_key, audit_task_key, audit_task_subkey, verification_key};
use openflows::protocol::{
    default_command_allowlist, is_allowlisted, ExecutorInfo, VerifyCwd, VerifyExpect, VerifyKind,
    VerifyProgressEvent, VerifyRequest, VerifyResult, TASK_TYPE_VERIFY,
};

fn argv(words: &[&str]) -> Vec<String> {
    words.iter().map(|w| w.to_string()).collect()
}

fn sample_request() -> VerifyRequest {
    VerifyRequest {
        pair_id: "T-048".to_string(),
        kind: VerifyKind::Command,
        cwd: VerifyCwd::Repo,
        argv: vec!["cargo".into(), "test".into()],
        timeout_secs: 600,
        env_allowlist: vec!["CI".into()],
        expect: VerifyExpect { exit_code: Some(0), artifacts: vec![] },
    }
}

fn sample_result(task_id: &str) -> VerifyResult {
    VerifyResult {
        task_id: task_id.to_string(),
        exit_code: Some(0),
        timed_out: false,
        duration_ms: 42,
        stdout_ref: format!("audit:a2a:{}:stdout", task_id),
        stderr_ref: format!("audit:a2a:{}:stderr", task_id),
        artifacts: vec![],
        executor: ExecutorInfo { role: "forge".into(), workspace: "forge-T-048".into() },
    }
}

/// The canonical JSON body the serde layer produces for a request (written
/// out by hand here).
fn body_of(req: &VerifyRequest) -> String {
    format!(
        "{{\"pair_id\":\"{}\",\"kind\":\"command\",\"cwd\":\"repo\",\"argv\":[\"cargo\",\"test\"],\"timeout_secs\":{},\"env_allowlist\":[],\"expect\":{{\"exit_code\":0,\"artifacts\":[]}}}}",
        req.pair_id, req.timeout_secs
    )
}

#[test]
fn verification_key_is_pair_scoped() {
    assert_eq!(verification_key("T-048"), "pair:T-048:verification");
    assert_ne!(verification_key("T-048"), verification_key("T-049"));
}

#[test]
fn audit_task_key_prefixes_task_id() {
    assert_eq!(audit_task_key("abc123"), "audit:a2a:abc123");
}

#[test]
fn audit_rejected_key_is_fixed() {
    assert_eq!(audit_rejected_key(), "audit:a2a:rejected");
}

#[test]
fn audit_task_subkey_appends_suffix() {
    assert_eq!(audit_task_subkey("t1", "stdout"), "audit:a2a:t1:stdout");
    assert_eq!(audit_task_subkey("t1", "result"), "audit:a2a:t1:result");
}

#[test]
fn task_type_is_verify() {
    assert_eq!(TASK_TYPE_VERIFY, "verify");
}

#[test]
fn allowlist_accepts_known_prefixes() {
    assert!(is_allowlisted(&["cargo".into(), "test".into(), "--package".into(), "foo".into()]));
    assert!(is_allowlisted(&["npm".into(), "test".into()]));
}

#[test]
fn allowlist_rejects_unknown_or_empty() {
    assert!(!is_allowlisted(&["rm".into(), "-rf".into(), "/".into()]));
    assert!(!is_allowlisted(&[]));
    assert!(!is_allowlisted(&["cargo".into(), "publish".into()]));
}

#[test]
fn allowlist_lists_every_prefix_in_order() {
    let list = default_command_allowlist();
    assert_eq!(list.len(), 7);
    assert_eq!(list[0], argv(&["cargo", "test"]));
    assert_eq!(list[2], argv(&["cargo", "clippy"]));
    assert_eq!(list[6], argv(&["bun", "test"]));
    for prefix in &list {
        assert!(is_allowlisted(prefix));
    }
    // A prefix alone of an allowlisted command is not enough.
    assert!(!is_allowlisted(&argv(&["cargo"])));
    assert!(is_allowlisted(&argv(&["pnpm", "test", "--", "-x"])));
    assert!(is_allowlisted(&argv(&["cargo", "build"])));
    assert!(!is_allowlisted(&argv(&["test", "cargo"])));
}

#[test]
fn idempotency_seed_is_stable_and_pair_scoped() {
    let a = sample_request();
    let mut b = a.clone();
    b.pair_id = "T-049".to_string();

    let seed_a1 = a.idempotency_seed(&body_of(&a));
    let seed_a2 = a.idempotency_seed(&body_of(&a));
    let seed_b = b.idempotency_seed(&body_of(&b));

    assert_eq!(seed_a1, seed_a2);
    assert_ne!(seed_a1, seed_b);
    assert!(seed_a1.starts_with("T-048:"));
}

#[test]
fn test_verify_request_idempotency_seed_is_stable() {
    let req = VerifyRequest {
        pair_id: "T-048".to_string(),
        kind: VerifyKind::Command,
        cwd: VerifyCwd::Repo,
        argv: vec!["cargo".into(), "test".into()],
        timeout_secs: 300,
        env_allowlist: vec![],
        expect: VerifyExpect { exit_code: Some(0), artifacts: vec![] },
    };
    let seed1 = req.idempotency_seed(&body_of(&req));
    let seed2 = req.idempotency_seed(&body_of(&req));
    assert_eq!(seed1, seed2);

    let mut req2 = req.clone();
    req2.pair_id = "T-049".to_string();
    let seed3 = req2.idempotency_seed(&body_of(&req2));
    assert_ne!(seed1, seed3);
    assert!(seed1.starts_with("T-048:"));
    assert!(seed3.starts_with("T-049:"));
}

#[test]
fn idempotency_seed_frames_pair_and_body() {
    let req = sample_request();
    assert_eq!(req.idempotency_seed("{}"), "T-048:{}");
    assert_eq!(req.idempotency_seed(""), "T-048:");
}

#[test]
fn result_satisfies_checks_exit_code_and_timeout() {
    let expect = VerifyExpect { exit_code: Some(0), artifacts: vec![] };
    let ok = sample_result("t1");
    assert!(ok.satisfies(&expect));

    let mut failed = ok.clone();
    failed.exit_code = Some(1);
    assert!(!failed.satisfies(&expect));

    let mut timed_out = ok.clone();
    timed_out.timed_out = true;
    timed_out.exit_code = Some(0);
    assert!(!timed_out.satisfies(&expect));

    let any_expect = VerifyExpect::default();
    assert!(failed.satisfies(&any_expect));
}

#[test]
fn result_without_exit_code_fails_an_expected_code() {
    let mut r = sample_result("t1");
    r.exit_code = None;
    assert!(!r.satisfies(&VerifyExpect { exit_code: Some(0), artifacts: vec![] }));
    assert!(r.satisfies(&VerifyExpect::default()));
    r.timed_out = true;
    assert!(!r.satisfies(&VerifyExpect::default()));
}

#[test]
fn test_allowlist_validation_passes_known_commands() {
    let valid_commands = vec![
        vec!["cargo", "test"],
        vec!["cargo", "test", "--package", "foo"],
        vec!["npm", "test"],
        vec!["make", "test"],
        vec!["bun", "test"],
    ];
    for cmd in valid_commands {
        let argv: Vec<String> = cmd.into_iter().map(|s| s.to_string()).collect();
        assert!(is_allowlisted(&argv), "Command {:?} should be allowlisted", argv);
    }
}

#[test]
fn test_allowlist_validation_rejects_unknown_commands() {
    let invalid_commands = vec![
        vec!["rm", "-rf", "/"],
        vec!["cargo", "publish"],
        vec!["sh", "-c", "evil"],
        vec!["bash"],
        vec![],
    ];
    for cmd in invalid_commands {
        let argv: Vec<String> = cmd.into_iter().map(|s| s.to_string()).collect();
        assert!(!is_allowlisted(&argv), "Command {:?} should NOT be allowlisted", argv);
    }
}

#[test]
fn test_verify_result_satisfies_checks_exit_code() {
    let result = sample_result("t1");
    let expect_pass = VerifyExpect { exit_code: Some(0), artifacts: vec![] };
    assert!(result.satisfies(&expect_pass));
    let expect_fail = VerifyExpect { exit_code: Some(1), artifacts: vec![] };
    assert!(!result.satisfies(&expect_fail));
}

#[test]
fn test_verify_result_timeout_never_satisfies() {
    let mut result = sample_result("t1");
    result.timed_out = true;
    result.exit_code = Some(0);
    let any_expect = VerifyExpect { exit_code: Some(0), artifacts: vec![] };
    assert!(!result.satisfies(&any_expect));
}

#[test]
fn test_redis_key_formatting() {
    assert_eq!(verification_key("T-048"), "pair:T-048:verification");
    assert_eq!(audit_task_key("abc123"), "audit:a2a:abc123");
    assert_eq!(audit_rejected_key(), "audit:a2a:rejected");
}

#[test]
fn progress_event_chunk_and_copies() {
    let ev = VerifyProgressEvent::Stdout { chunk: "hello".into() };
    assert_eq!(ev.chunk(), "hello");
    let copy = ev.duplicate();
    assert!(matches!(copy, VerifyProgressEvent::Stdout { ref chunk } if chunk == "hello"));
    let req = sample_request();
    let dup = req.duplicate();
    assert_eq!(dup.pair_id, req.pair_id);
    assert_eq!(dup.argv, req.argv);
    assert_eq!(dup.env_allowlist, req.env_allowlist);
    assert_eq!(dup.expect.exit_code, Some(0));
    let res = sample_result("t9").duplicate();
    assert_eq!(res.task_id, "t9");
    assert_eq!(res.executor.workspace, "forge-T-048");
}

#[test]
fn allowlisting_is_by_prefix_of_two_tokens() {
    let base: Vec<String> = vec!["make".into(), "test".into()];
    assert!(is_allowlisted(&base));
    let mut longer = base.clone();
    longer.extend(["-j4".to_string(), "V=1".to_string()]);
    assert!(is_allowlisted(&longer));
    assert!(!is_allowlisted(&["cargo".into()]));
    assert!(!is_allowlisted(&["bash".into()]));
    assert!(!is_allowlisted(&["test".into(), "make".into()]));
}
