//! The relay's JSON-RPC methods: which method a request names, what each
//! method reads from its parameters, what it does to the relay and what it
//! answers.
//!
//! Turning parameters into protocol values (a request, a result, a progress
//! event) and answers into JSON is serde's work around this module; the
//! handlers receive the decoded values and return typed answers.

use vstd::prelude::*;
use vstd::string::StringExecFns;
use crate::events::{since, BufferedEvent};
use crate::json::{json_get, json_str, json_u64, str_field, Json};
use crate::protocol::{idempotency_seed_spec, is_uuid_v4_text, VerifyProgressEvent, VerifyRequest, VerifyResult};
use crate::relay::{
    buffer_or_empty, cancelled_entry, completion_accepted, completion_refused, cancelled_result_spec, newly_cancelled, completed, only_buffer_changed, only_tasks_changed,
    pending_for, request_is_valid, result_view, submit_outcome, submit_verify_request, task_request_key,
    validation_outcome,
    with_state, A2ARelay, RelayError, TaskState, ValidationError,
};
use crate::events::{event_size, push_result};
use crate::hooks::eq_ignore_ascii_case_spec;
use crate::keys::audit_task_key_spec;

verus! {

/// The methods the relay serves.
#[derive(Debug, Clone, Copy, PartialEq, Eq, Structural)]
pub enum RpcMethod {
    MessageSend,
    TasksGet,
    TasksClaim,
    TasksComplete,
    TasksCancel,
    TasksResubscribe,
    TasksPushProgress,
}

pub open spec fn method_spec(m: Seq<char>) -> Option<RpcMethod> {
    if m == "message/send"@ {
        Some(RpcMethod::MessageSend)
    } else if m == "tasks/get"@ {
        Some(RpcMethod::TasksGet)
    } else if m == "tasks/claim"@ {
        Some(RpcMethod::TasksClaim)
    } else if m == "tasks/complete"@ {
        Some(RpcMethod::TasksComplete)
    } else if m == "tasks/cancel"@ {
        Some(RpcMethod::TasksCancel)
    } else if m == "tasks/resubscribe"@ {
        Some(RpcMethod::TasksResubscribe)
    } else if m == "tasks/push_progress"@ {
        Some(RpcMethod::TasksPushProgress)
    } else {
        None
    }
}

fn is(m: &String, lit: &str) -> (r: bool)
    ensures
        r == (m@ == lit@),
{
    *m == String::from_str(lit)
}

/// The method a request names, if the relay serves it.
pub fn parse_method(method: &str) -> (r: Option<RpcMethod>)
    ensures
        r == method_spec(method@),
{
    let m = String::from_str(method);
    if is(&m, "message/send") {
        Some(RpcMethod::MessageSend)
    } else if is(&m, "tasks/get") {
        Some(RpcMethod::TasksGet)
    } else if is(&m, "tasks/claim") {
        Some(RpcMethod::TasksClaim)
    } else if is(&m, "tasks/complete") {
        Some(RpcMethod::TasksComplete)
    } else if is(&m, "tasks/cancel") {
        Some(RpcMethod::TasksCancel)
    } else if is(&m, "tasks/resubscribe") {
        Some(RpcMethod::TasksResubscribe)
    } else if is(&m, "tasks/push_progress") {
        Some(RpcMethod::TasksPushProgress)
    } else {
        None
    }
}

/// JSON-RPC code of an unknown method.
pub const METHOD_NOT_FOUND_CODE: i32 = -32601;

/// JSON-RPC code of a method that failed; the cause is only logged.
pub const INTERNAL_ERROR_CODE: i32 = -32603;

/// The message of a failed method.
pub const INTERNAL_ERROR_MESSAGE: &'static str = "Internal error";

/// The message of an unknown method.
pub fn method_not_found_message(method: &str) -> (m: String)
    ensures
        m@ == "Method not found: "@ + method@,
{
    let mut m = String::from_str("Method not found: ");
    m.append(method);
    m
}

/// The verify task of a `message/send`: `params.message.task` when present,
/// else the parameters themselves.
pub open spec fn verify_payload_spec(params: Json) -> Json {
    match json_get(params, "message"@) {
        Some(m) => match json_get(m, "task"@) {
            Some(t) => t,
            None => params,
        },
        None => params,
    }
}

pub fn verify_payload(params: &Json) -> (p: &Json)
    ensures
        *p == verify_payload_spec(*params),
{
    match params.get("message") {
        Some(m) => match m.get("task") {
            Some(t) => t,
            None => params,
        },
        None => params,
    }
}

/// The wire name of a task state.
pub open spec fn status_name_spec(s: TaskState) -> Seq<char> {
    match s {
        TaskState::Pending => "pending"@,
        TaskState::Running => "running"@,
        TaskState::Completed => "completed"@,
        TaskState::Cancelled => "cancelled"@,
    }
}

pub fn task_status_name(s: TaskState) -> (n: &'static str)
    ensures
        n@ == status_name_spec(s),
{
    match s {
        TaskState::Pending => "pending",
        TaskState::Running => "running",
        TaskState::Completed => "completed",
        TaskState::Cancelled => "cancelled",
    }
}

/// A protocol value decoded from the parameters.
#[derive(Debug, Clone)]
pub enum Decoded<T> {
    /// The parameter is absent.
    Missing,
    /// The parameter does not decode.
    Invalid,
    Valid(T),
}

/// Why a method failed.
#[derive(Debug, Clone)]
pub enum RpcError {
    /// The parameters lack or garble something; `message` says what.
    BadParams { message: String },
    /// `tasks/get` of an unknown task.
    TaskNotFound,
    /// The verify request broke a relay rule (it is logged as rejected).
    Rejected(ValidationError),
    /// A relay operation failed.
    Relay(RelayError),
}

/// What a method answers.
#[derive(Debug, Clone)]
pub enum RpcReply {
    /// `message/send`: the task id (the status is `pending`) and, when the
    /// submission created the task, the audit key its request is recorded
    /// under for replay.
    Submitted { task_id: String, request_record: Option<String> },
    /// `tasks/get`.
    TaskInfo { task_id: String, pair_id: String, status: TaskState, result: Option<VerifyResult> },
    /// `tasks/claim`: the claimed task id and request, or nothing.
    Claimed { task: Option<(String, VerifyRequest)> },
    /// `tasks/complete`: the accepted result, to mirror to the store before
    /// the completion is committed.
    Completed { task_id: String, result: VerifyResult },
    /// `tasks/cancel`: whether the flag was newly set, and the synthetic
    /// result to mirror when the task was completed by the cancel.
    Cancelled { task_id: String, cancelled: bool, mirrored: Option<VerifyResult> },
    /// `tasks/resubscribe`: the buffered events since the given sequence
    /// number and the current sequence number.
    Replay { task_id: String, events: Vec<BufferedEvent>, current_seq: u64 },
    /// `tasks/push_progress`: the buffered event, to broadcast.
    Progress { task_id: String, event: BufferedEvent },
}

pub open spec fn bad_params(r: Result<RpcReply, RpcError>, message: Seq<char>) -> bool {
    r matches Err(RpcError::BadParams { message: m }) && m@ == message
}

fn bad(message: &str) -> (r: Result<RpcReply, RpcError>)
    ensures
        bad_params(r, message@),
{
    Err(RpcError::BadParams { message: String::from_str(message) })
}

/// `params[key]` as text.
pub open spec fn param(params: Json, key: Seq<char>) -> Option<Seq<char>> {
    json_str(json_get(params, key))
}

impl A2ARelay {
    /// `message/send`: submit the decoded verify request (`None` when the
    /// payload does not decode) for the pair it names; `body` is its
    /// canonical JSON encoding.
    pub fn handle_message_send(&mut self, req: Option<VerifyRequest>, body: &str) -> (r: Result<
        RpcReply,
        RpcError,
    >)
        requires
            old(self).wf(),
        ensures
            final(self).wf(),
            match req {
                None => bad_params(r, "params are not a valid VerifyRequest"@) && final(self)@ == old(
                    self,
                )@,
                Some(q) => match r {
                    Ok(RpcReply::Submitted { task_id, request_record }) => {
                        let key = idempotency_seed_spec(q.pair_id@, body@);
                        &&& request_is_valid(q@, q.pair_id@)
                        &&& submit_outcome(
                            old(self)@,
                            q@,
                            key,
                            q.pair_id@,
                            task_id@,
                            task_id@,
                            final(self)@,
                        )
                        &&& (request_record is Some) == !old(self)@.idempotency.contains_key(key)
                        &&& request_record matches Some(k) ==> k@ == audit_task_key_spec(task_id@)
                            + ":"@ + "request"@
                        &&& request_record is Some ==> is_uuid_v4_text(task_id@)
                    },
                    Err(RpcError::Rejected(e)) => validation_outcome(q@, q.pair_id@, Err(e))
                        && final(self)@ == old(self)@,
                    _ => false,
                },
            },
    {
        match req {
            None => bad("params are not a valid VerifyRequest"),
            Some(q) => {
                let requester = q.pair_id.clone();
                let seen = self.knows_submission(&q, body);
                match submit_verify_request(self, &q, body, requester.as_str()) {
                    Ok(task_id) => {
                        let request_record = if seen {
                            None
                        } else {
                            Some(task_request_key(task_id.as_str()))
                        };
                        Ok(RpcReply::Submitted { task_id, request_record })
                    },
                    Err(e) => Err(RpcError::Rejected(e)),
                }
            },
        }
    }

    /// `tasks/get`: the state, pair and result of the task `params.task_id`.
    pub fn handle_tasks_get(&self, params: &Json) -> (r: Result<RpcReply, RpcError>)
        requires
            self.wf(),
        ensures
            match param(*params, "task_id"@) {
                None => bad_params(r, "tasks/get requires string task_id"@),
                Some(t) => if self@.tasks.contains_key(t) {
                    r matches Ok(RpcReply::TaskInfo { task_id, pair_id, status, result }) && task_id@
                        == t && pair_id@ == self@.tasks[t].request.pair_id && status
                        == self@.tasks[t].state && result_view(result) == self@.tasks[t].result
                } else {
                    r matches Err(RpcError::TaskNotFound)
                },
            },
    {
        let task_id = match str_field(params, "task_id") {
            Some(t) => t,
            None => {
                return bad("tasks/get requires string task_id");
            },
        };
        match self.get_task(task_id.as_str()) {
            Some(entry) => Ok(
                RpcReply::TaskInfo {
                    task_id: entry.task_id,
                    pair_id: entry.request.pair_id,
                    status: entry.state,
                    result: entry.result,
                },
            ),
            None => Err(RpcError::TaskNotFound),
        }
    }

    /// `tasks/claim`: the Forge executor of `params.pair_id` claims its next
    /// pending task (`params.role` must be `forge`).
    pub fn handle_tasks_claim(&mut self, params: &Json) -> (r: Result<RpcReply, RpcError>)
        requires
            old(self).wf(),
        ensures
            final(self).wf(),
            match (param(*params, "pair_id"@), param(*params, "role"@)) {
                (None, _) => bad_params(r, "tasks/claim requires string pair_id"@) && final(self)@
                    == old(self)@,
                (Some(_), None) => bad_params(r, "tasks/claim requires string role"@)
                    && final(self)@ == old(self)@,
                (Some(pair), Some(role)) => if !eq_ignore_ascii_case_spec(role, "forge"@) {
                    r matches Err(RpcError::Relay(RelayError::ClaimNotForge)) && final(self)@
                        == old(self)@
                } else {
                    match r {
                        Ok(RpcReply::Claimed { task: Some((id, req)) }) => {
                            &&& pending_for(old(self)@.tasks, id@, pair)
                            &&& req@ == old(self)@.tasks[id@].request
                            &&& only_tasks_changed(
                                old(self)@,
                                final(self)@,
                                old(self)@.tasks.insert(
                                    id@,
                                    with_state(old(self)@.tasks[id@], TaskState::Running),
                                ),
                            )
                        },
                        Ok(RpcReply::Claimed { task: None }) => {
                            &&& forall|k: Seq<char>| !#[trigger] pending_for(old(self)@.tasks, k, pair)
                            &&& final(self)@ == old(self)@
                        },
                        _ => false,
                    }
                },
            },
    {
        let pair_id = match str_field(params, "pair_id") {
            Some(p) => p,
            None => {
                return bad("tasks/claim requires string pair_id");
            },
        };
        let role = match str_field(params, "role") {
            Some(p) => p,
            None => {
                return bad("tasks/claim requires string role");
            },
        };
        match self.claim_for_role(pair_id.as_str(), role.as_str()) {
            Err(e) => Err(RpcError::Relay(e)),
            Ok(Some(entry)) => Ok(RpcReply::Claimed { task: Some((entry.task_id, entry.request)) }),
            Ok(None) => Ok(RpcReply::Claimed { task: None }),
        }
    }

    /// `tasks/complete`, first step: the Forge executor submits the terminal
    /// result of `params.task_id` for `params.pair_id` (`result` is
    /// `params.result` decoded). An accepted result is handed back to be
    /// mirrored to the store; nothing changes until `commit_completion` is
    /// told that the mirror succeeded, so a task is never completed without a
    /// durable result.
    pub fn handle_tasks_complete(&self, params: &Json, result: Decoded<VerifyResult>) -> (r: Result<
        RpcReply,
        RpcError,
    >)
        requires
            self.wf(),
        ensures
            match (param(*params, "task_id"@), param(*params, "pair_id"@), result) {
                (None, _, _) => bad_params(r, "tasks/complete requires string task_id"@),
                (Some(_), None, _) => bad_params(r, "tasks/complete requires string pair_id"@),
                (Some(_), Some(_), Decoded::Invalid) => bad_params(
                    r,
                    "tasks/complete requires a valid VerifyResult result"@,
                ),
                (Some(_), Some(_), Decoded::Missing) => bad_params(
                    r,
                    "tasks/complete requires a result"@,
                ),
                (Some(t), Some(pair), Decoded::Valid(res)) => match r {
                    Ok(RpcReply::Completed { task_id, result: kept }) => {
                        &&& task_id@ == t
                        &&& kept@ == res@
                        &&& completion_accepted(self@, t, pair, res.task_id@)
                    },
                    Err(RpcError::Relay(e)) => {
                        &&& !completion_accepted(self@, t, pair, res.task_id@)
                        &&& completion_refused(self@, t, pair, res.task_id@, e)
                    },
                    _ => false,
                },
            },
    {
        let task_id = match str_field(params, "task_id") {
            Some(t) => t,
            None => {
                return bad("tasks/complete requires string task_id");
            },
        };
        let pair_id = match str_field(params, "pair_id") {
            Some(p) => p,
            None => {
                return bad("tasks/complete requires string pair_id");
            },
        };
        let res = match result {
            Decoded::Invalid => {
                return bad("tasks/complete requires a valid VerifyResult result");
            },
            Decoded::Missing => {
                return bad("tasks/complete requires a result");
            },
            Decoded::Valid(v) => v,
        };
        match self.check_completion(task_id.as_str(), pair_id.as_str(), &res) {
            Ok(()) => Ok(RpcReply::Completed { task_id, result: res }),
            Err(e) => Err(RpcError::Relay(e)),
        }
    }

    /// `tasks/cancel`: cancel the task `params.task_id` for `params.pair_id`.
    pub fn handle_tasks_cancel(&mut self, params: &Json) -> (r: Result<RpcReply, RpcError>)
        requires
            old(self).wf(),
        ensures
            final(self).wf(),
            match (param(*params, "task_id"@), param(*params, "pair_id"@)) {
                (None, _) => bad_params(r, "tasks/cancel requires string task_id"@) && final(self)@
                    == old(self)@,
                (Some(_), None) => bad_params(r, "tasks/cancel requires string pair_id"@)
                    && final(self)@ == old(self)@,
                (Some(t), Some(pair)) => {
                    let old_tasks = old(self)@.tasks;
                    let owned_elsewhere = old_tasks.contains_key(t) && old_tasks[t].request.pair_id
                        != pair;
                    let live = old_tasks.contains_key(t) && (old_tasks[t].state == TaskState::Pending
                        || old_tasks[t].state == TaskState::Running);
                    if owned_elsewhere {
                        r matches Err(RpcError::Relay(RelayError::CancelPairMismatch { .. }))
                            && final(self)@ == old(self)@
                    } else {
                        &&& r matches Ok(RpcReply::Cancelled { task_id, cancelled, mirrored })
                        &&& r matches Ok(RpcReply::Cancelled { task_id, cancelled, mirrored })
                            ==> {
                            &&& task_id@ == t
                            &&& cancelled == newly_cancelled(old(self)@.cancelled, t)
                            &&& final(self)@.cancelled == old(self)@.cancelled.insert(t, true)
                            &&& final(self)@.sessions == old(self)@.sessions
                            &&& final(self)@.idempotency == old(self)@.idempotency
                            &&& final(self)@.buffers == old(self)@.buffers
                            &&& if live {
                                &&& mirrored matches Some(res) && res@ == cancelled_result_spec(
                                    t,
                                    old_tasks[t].request.pair_id,
                                )
                                &&& final(self)@.tasks == old_tasks.insert(
                                    t,
                                    cancelled_entry(
                                        old_tasks[t],
                                        cancelled_result_spec(t, old_tasks[t].request.pair_id),
                                    ),
                                )
                            } else {
                                &&& mirrored is None
                                &&& final(self)@.tasks == old_tasks
                            }
                        }
                    }
                },
            },
    {
        let task_id = match str_field(params, "task_id") {
            Some(t) => t,
            None => {
                return bad("tasks/cancel requires string task_id");
            },
        };
        let pair_id = match str_field(params, "pair_id") {
            Some(p) => p,
            None => {
                return bad("tasks/cancel requires string pair_id");
            },
        };
        match self.cancel_task(task_id.as_str(), pair_id.as_str()) {
            Ok(o) => Ok(RpcReply::Cancelled { task_id, cancelled: o.newly_set, mirrored: o.completed }),
            Err(e) => Err(RpcError::Relay(e)),
        }
    }

    /// `tasks/resubscribe`: the buffered events of `params.task_id` since
    /// `params.last_event_id` (0 when absent or not a non-negative integer),
    /// and the current sequence number.
    pub fn handle_tasks_resubscribe(&self, params: &Json) -> (r: Result<RpcReply, RpcError>)
        requires
            self.wf(),
        ensures
            match param(*params, "task_id"@) {
                None => bad_params(r, "tasks/resubscribe requires string task_id"@),
                Some(t) => {
                    let last = match json_u64(json_get(*params, "last_event_id"@)) {
                        Some(n) => n,
                        None => 0,
                    };
                    let b = buffer_or_empty(self@.buffers, t);
                    r matches Ok(RpcReply::Replay { task_id, events, current_seq }) && task_id@ == t
                        && events@ == b.events.filter(since(last)) && current_seq == (if b.next_seq
                        == 0 {
                        0
                    } else {
                        (b.next_seq - 1) as u64
                    })
                },
            },
    {
        let task_id = match str_field(params, "task_id") {
            Some(t) => t,
            None => {
                return bad("tasks/resubscribe requires string task_id");
            },
        };
        let last = match params.get("last_event_id") {
            Some(v) => match v.as_u64() {
                Some(n) => n,
                None => 0,
            },
            None => 0,
        };
        let events = self.replay_events_since(task_id.as_str(), last);
        let current_seq = self.current_event_seq(task_id.as_str());
        Ok(RpcReply::Replay { task_id, events, current_seq })
    }

    /// `tasks/push_progress`: buffer a progress event of `params.task_id`
    /// (`event` is the parameters decoded as an event, `None` when they do
    /// not decode).
    pub fn handle_tasks_progress(&mut self, params: &Json, event: Option<VerifyProgressEvent>) -> (r:
        Result<RpcReply, RpcError>)
        requires
            old(self).wf(),
        ensures
            final(self).wf(),
            match (param(*params, "task_id"@), event) {
                (None, _) => bad_params(r, "tasks/push_progress requires string task_id"@)
                    && final(self)@ == old(self)@,
                (Some(_), None) => bad_params(
                    r,
                    "tasks/push_progress requires valid VerifyProgressEvent params"@,
                ) && final(self)@ == old(self)@,
                (Some(t), Some(ev)) => {
                    let b0 = buffer_or_empty(old(self)@.buffers, t);
                    match r {
                        Ok(RpcReply::Progress { task_id, event: b }) => {
                            &&& task_id@ == t
                            &&& b0.next_seq < u64::MAX
                            &&& b.seq == b0.next_seq
                            &&& b.event == ev
                            &&& final(self)@.buffers.contains_key(t)
                            &&& push_result(b0, b, event_size(ev) as usize, final(self)@.buffers[t])
                            &&& only_buffer_changed(old(self)@, final(self)@, t, final(self)@.buffers[t])
                        },
                        Err(RpcError::Relay(RelayError::SequenceExhausted { .. })) => {
                            &&& b0.next_seq == u64::MAX
                            &&& final(self)@ == old(self)@
                        },
                        _ => false,
                    }
                },
            },
    {
        let task_id = match str_field(params, "task_id") {
            Some(t) => t,
            None => {
                return bad("tasks/push_progress requires string task_id");
            },
        };
        let ev = match event {
            Some(e) => e,
            None => {
                return bad("tasks/push_progress requires valid VerifyProgressEvent params");
            },
        };
        match self.push_progress_event(task_id.as_str(), ev) {
            Ok(b) => Ok(RpcReply::Progress { task_id, event: b }),
            Err(e) => Err(RpcError::Relay(e)),
        }
    }
}

} // verus!
