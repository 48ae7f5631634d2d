use openflows::client::{
    claim_params, claimed_task, complete_params, completed_result, endpoint, relay_url,
    rpc_error_message, rpc_request, submitted_task_id, task_params, ClientError,
};
use openflows::json::{str_field, Json};
use openflows::protocol::{
    ExecutorInfo, VerifyCwd, VerifyExpect, VerifyKind, VerifyProgressEvent, VerifyRequest,
    VerifyResult,
};
use openflows::relay::{A2ARelay, RelayError, TaskState};
use openflows::rpc::{
    method_not_found_message, parse_method, task_status_name, verify_payload, Decoded, RpcError,
    RpcMethod, RpcReply,
};

fn s(x: &str) -> Json {
    Json::Str(x.to_string())
}

fn obj(members: Vec<(&str, Json)>) -> Json {
    Json::Object(members.into_iter().map(|(k, v)| (k.to_string(), v)).collect())
}

fn sample_request(pair: &str) -> VerifyRequest {
    VerifyRequest {
        pair_id: pair.to_string(),
        kind: VerifyKind::Command,
        cwd: VerifyCwd::Worktree,
        argv: vec!["make".into(), "test".into()],
        timeout_secs: 120,
        env_allowlist: vec![],
        expect: VerifyExpect { exit_code: Some(0), artifacts: vec![] },
    }
}

fn sample_result(task_id: &str) -> VerifyResult {
    VerifyResult {
        task_id: task_id.to_string(),
        exit_code: Some(0),
        timed_out: false,
        duration_ms: 5,
        stdout_ref: String::new(),
        stderr_ref: String::new(),
        artifacts: vec![],
        executor: ExecutorInfo { role: "forge".into(), workspace: "forge-T-1".into() },
    }
}

#[test]
fn methods_are_recognised_exactly() {
    assert_eq!(parse_method("message/send"), Some(RpcMethod::MessageSend));
    assert_eq!(parse_method("tasks/get"), Some(RpcMethod::TasksGet));
    assert_eq!(parse_method("tasks/claim"), Some(RpcMethod::TasksClaim));
    assert_eq!(parse_method("tasks/complete"), Some(RpcMethod::TasksComplete));
    assert_eq!(parse_method("tasks/cancel"), Some(RpcMethod::TasksCancel));
    assert_eq!(parse_method("tasks/resubscribe"), Some(RpcMethod::TasksResubscribe));
    assert_eq!(parse_method("tasks/push_progress"), Some(RpcMethod::TasksPushProgress));
    assert_eq!(parse_method("tasks/list"), None);
    assert_eq!(parse_method("Tasks/Get"), None);
    assert_eq!(method_not_found_message("x/y"), "Method not found: x/y");
    assert_eq!(task_status_name(TaskState::Running), "running");
    assert_eq!(task_status_name(TaskState::Cancelled), "cancelled");
}

#[test]
fn verify_payload_prefers_the_nested_task() {
    let inner = obj(vec![("pair_id", s("T-1"))]);
    let wrapped = obj(vec![("message", obj(vec![("task", inner)]))]);
    let p = verify_payload(&wrapped);
    assert_eq!(str_field(p, "pair_id").as_deref(), Some("T-1"));
    let flat = obj(vec![("pair_id", s("T-2"))]);
    assert_eq!(str_field(verify_payload(&flat), "pair_id").as_deref(), Some("T-2"));
    let no_task = obj(vec![("message", obj(vec![])), ("pair_id", s("T-3"))]);
    assert_eq!(str_field(verify_payload(&no_task), "pair_id").as_deref(), Some("T-3"));
}

#[test]
fn handlers_drive_the_task_lifecycle() {
    let mut relay = A2ARelay::new();
    let req = sample_request("T-1");
    let sent = relay.handle_message_send(Some(req.clone()), "{\"b\":1}").unwrap();
    let task_id = match sent {
        RpcReply::Submitted { task_id, request_record } => {
            assert_eq!(request_record, Some(format!("audit:a2a:{}:request", task_id)));
            task_id
        }
        other => panic!("unexpected {:?}", other),
    };
    assert_eq!(task_id.len(), 36);
    let again = relay.handle_message_send(Some(req.clone()), "{\"b\":1}").unwrap();
    assert!(matches!(again, RpcReply::Submitted { task_id: ref t, request_record: None } if *t == task_id));
    assert!(matches!(
        relay.handle_message_send(None, "{}"),
        Err(RpcError::BadParams { ref message }) if message == "params are not a valid VerifyRequest"
    ));
    let bad = VerifyRequest { timeout_secs: 0, ..req.clone() };
    assert!(matches!(relay.handle_message_send(Some(bad), "{\"b\":2}"), Err(RpcError::Rejected(_))));

    let get = relay.handle_tasks_get(&obj(vec![("task_id", s(&task_id))])).unwrap();
    assert!(matches!(get, RpcReply::TaskInfo { status: TaskState::Pending, ref pair_id, .. } if pair_id == "T-1"));
    assert!(matches!(relay.handle_tasks_get(&obj(vec![("task_id", s("nope"))])), Err(RpcError::TaskNotFound)));
    assert!(matches!(relay.handle_tasks_get(&obj(vec![])), Err(RpcError::BadParams { .. })));

    let refused = relay.handle_tasks_claim(&obj(vec![("pair_id", s("T-1")), ("role", s("sentinel"))]));
    assert!(matches!(refused, Err(RpcError::Relay(RelayError::ClaimNotForge))));
    let claimed = relay.handle_tasks_claim(&obj(vec![("pair_id", s("T-1")), ("role", s("forge"))])).unwrap();
    match claimed {
        RpcReply::Claimed { task: Some((id, request)) } => {
            assert_eq!(id, task_id);
            assert_eq!(request.argv, vec!["make".to_string(), "test".to_string()]);
        }
        other => panic!("unexpected {:?}", other),
    }

    let progress = VerifyProgressEvent::Stdout { chunk: "ok".into() };
    let pushed = relay
        .handle_tasks_progress(&obj(vec![("task_id", s(&task_id))]), Some(progress))
        .unwrap();
    assert!(matches!(pushed, RpcReply::Progress { ref event, .. } if event.seq == 0));
    let replay = relay
        .handle_tasks_resubscribe(&obj(vec![("task_id", s(&task_id)), ("last_event_id", Json::UInt(1))]))
        .unwrap();
    assert!(matches!(replay, RpcReply::Replay { ref events, current_seq: 0, .. } if events.is_empty()));
    let replay = relay
        .handle_tasks_resubscribe(&obj(vec![("task_id", s(&task_id)), ("last_event_id", s("x"))]))
        .unwrap();
    assert!(matches!(replay, RpcReply::Replay { ref events, .. } if events.len() == 1));

    let params = obj(vec![("task_id", s(&task_id)), ("pair_id", s("T-1"))]);
    assert!(matches!(
        relay.handle_tasks_complete(&params, Decoded::Missing),
        Err(RpcError::BadParams { ref message }) if message == "tasks/complete requires a result"
    ));
    assert!(matches!(
        relay.handle_tasks_complete(&params, Decoded::Invalid),
        Err(RpcError::BadParams { ref message }) if message == "tasks/complete requires a valid VerifyResult result"
    ));
    let done = relay.handle_tasks_complete(&params, Decoded::Valid(sample_result(&task_id))).unwrap();
    let result = match done {
        RpcReply::Completed { result, .. } => result,
        other => panic!("unexpected {:?}", other),
    };
    // Nothing is completed before the result is mirrored.
    assert_eq!(relay.get_task_state(&task_id), Some(TaskState::Running));
    let failed = relay.commit_completion(&task_id, result.duplicate(), false).unwrap_err();
    assert_eq!(failed.message(), format!("result not mirrored; task left open: {}", task_id));
    assert_eq!(relay.get_task_state(&task_id), Some(TaskState::Running));
    relay.commit_completion(&task_id, result, true).unwrap();
    assert_eq!(relay.get_task_state(&task_id), Some(TaskState::Completed));
    assert!(matches!(
        relay.commit_completion("nope", sample_result("nope"), true),
        Err(RelayError::TaskNotFound { .. })
    ));
    let other_pair = obj(vec![("task_id", s(&task_id)), ("pair_id", s("T-9"))]);
    assert!(matches!(
        relay.handle_tasks_complete(&other_pair, Decoded::Valid(sample_result(&task_id))),
        Err(RpcError::Relay(RelayError::CompletePairMismatch { .. }))
    ));
    assert!(matches!(
        relay.handle_tasks_complete(&params, Decoded::Valid(sample_result("other"))),
        Err(RpcError::Relay(RelayError::TaskIdMismatch { .. }))
    ));

    let cancel = relay.handle_tasks_cancel(&params).unwrap();
    assert!(matches!(cancel, RpcReply::Cancelled { cancelled: false, mirrored: None, .. }));
    let fresh = relay.handle_message_send(Some(req.clone()), "{\"b\":3}").unwrap();
    let other_id = match fresh {
        RpcReply::Submitted { task_id, .. } => task_id,
        other => panic!("unexpected {:?}", other),
    };
    relay.create_cancel_token(&other_id);
    let other_params = obj(vec![("task_id", s(&other_id)), ("pair_id", s("T-1"))]);
    let cancel = relay.handle_tasks_cancel(&other_params).unwrap();
    assert!(matches!(cancel, RpcReply::Cancelled { cancelled: true, mirrored: Some(_), .. }));
    assert_eq!(relay.get_task_state(&other_id), Some(TaskState::Cancelled));
    let cancel = relay.handle_tasks_cancel(&other_params).unwrap();
    assert!(matches!(cancel, RpcReply::Cancelled { cancelled: false, .. }));
    assert!(matches!(
        relay.handle_tasks_cancel(&obj(vec![("task_id", s(&task_id))])),
        Err(RpcError::BadParams { ref message }) if message == "tasks/cancel requires string pair_id"
    ));
}

#[test]
fn client_envelopes_and_params() {
    let req = rpc_request("tasks/get", task_params("t1"), "id-1".to_string());
    assert_eq!(str_field(&req, "jsonrpc").as_deref(), Some("2.0"));
    assert_eq!(str_field(&req, "method").as_deref(), Some("tasks/get"));
    assert_eq!(str_field(&req, "id").as_deref(), Some("id-1"));
    let p = claim_params("T-1", "forge");
    assert_eq!(str_field(&p, "pair_id").as_deref(), Some("T-1"));
    assert_eq!(str_field(&p, "role").as_deref(), Some("forge"));
    let c = complete_params("t1", Json::Null);
    assert!(c.get("result").unwrap().is_null());
    assert_eq!(relay_url(Some("openflows-nexus:3000")), "http://openflows-nexus:3000");
    assert_eq!(relay_url(Some("   ")), "http://127.0.0.1:3000");
    assert_eq!(relay_url(None), "http://127.0.0.1:3000");
    assert_eq!(endpoint("http://a:1", "/rpc"), "http://a:1/rpc");
}

#[test]
fn client_reads_replies() {
    let err = obj(vec![("error", obj(vec![("code", Json::Int(-32603)), ("message", s("Internal error"))]))]);
    assert_eq!(rpc_error_message(&err).as_deref(), Some("Internal error"));
    let e = submitted_task_id(&err).unwrap_err();
    assert_eq!(e.message(), "A2A RPC error: Internal error");
    let bare = obj(vec![("error", obj(vec![]))]);
    assert_eq!(rpc_error_message(&bare).as_deref(), Some("unknown error"));
    let not_obj = obj(vec![("error", Json::Null), ("result", obj(vec![("task_id", s("t9"))]))]);
    assert_eq!(submitted_task_id(&not_obj).unwrap(), "t9");
    assert!(matches!(submitted_task_id(&obj(vec![])), Err(ClientError::NoTaskId)));

    let running = obj(vec![("result", obj(vec![("status", s("running"))]))]);
    assert!(completed_result(&running).unwrap().is_none());
    let done = obj(vec![("result", obj(vec![("status", s("completed")), ("result", obj(vec![]))]))]);
    assert!(completed_result(&done).unwrap().is_some());
    let hollow = obj(vec![("result", obj(vec![("status", s("completed"))]))]);
    assert!(matches!(completed_result(&hollow), Err(ClientError::NoResult)));

    assert!(claimed_task(&obj(vec![("result", Json::Null)])).unwrap().is_none());
    assert!(claimed_task(&obj(vec![])).unwrap().is_none());
    let task = obj(vec![("result", obj(vec![("task_id", s("t3")), ("request", obj(vec![]))]))]);
    let (id, _) = claimed_task(&task).unwrap().unwrap();
    assert_eq!(id, "t3");
    let no_req = obj(vec![("result", obj(vec![("task_id", s("t3"))]))]);
    assert!(matches!(claimed_task(&no_req), Err(ClientError::ClaimWithoutRequest)));
    let no_id = obj(vec![("result", obj(vec![("request", obj(vec![]))]))]);
    assert!(matches!(claimed_task(&no_id), Err(ClientError::ClaimWithoutTaskId)));
}
