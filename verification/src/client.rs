//! The harness side of the JSON-RPC exchange with the relay: where the relay
//! is, the request envelopes and parameters of each call, and what a reply
//! means. Sending requests over HTTP is done around this module.

use vstd::prelude::*;
use vstd::string::StringExecFns;
use crate::json::{json_get, member, object, str_field, Json};
use crate::rpc::param;
use crate::text::{chars_of, trim, trim_spec, CharClass};

verus! {

/// Where the relay is when no address is configured (a local-testing
/// convenience: a provisioned workspace must configure the relay).
pub const DEFAULT_RELAY_ADDR: &'static str = "127.0.0.1:3000";

/// The relay address in use: the configured one when it is not blank.
pub open spec fn relay_addr_spec(configured: Option<Seq<char>>) -> Seq<char> {
    match configured {
        Some(a) => if trim_spec(a, CharClass::Whitespace).len() > 0 {
            a
        } else {
            DEFAULT_RELAY_ADDR@
        },
        None => DEFAULT_RELAY_ADDR@,
    }
}

/// The relay's base URL, `http://{addr}`, for the configured address (the
/// value of `A2A_RELAY_ADDR`, if set).
pub fn relay_url(configured: Option<&str>) -> (url: String)
    ensures
        url@ == "http://"@ + relay_addr_spec(
            match configured {
                Some(a) => Some(a@),
                None => None,
            },
        ),
{
    let mut url = String::from_str("http://");
    match configured {
        Some(a) => {
            let t = trim(chars_of(a).as_slice(), CharClass::Whitespace);
            if t.len() > 0 {
                url.append(a);
            } else {
                url.append(DEFAULT_RELAY_ADDR);
            }
        },
        None => url.append(DEFAULT_RELAY_ADDR),
    }
    url
}

/// `{base}{path}`, e.g. the `/rpc` or `/health` endpoint of the relay.
pub fn endpoint(base: &str, path: &str) -> (url: String)
    ensures
        url@ == base@ + path@,
{
    let mut url = String::from_str(base);
    url.append(path);
    url
}

/// `j` is the string `s`.
pub open spec fn is_text(j: Json, s: Seq<char>) -> bool {
    j matches Json::Str(t) && t@ == s
}

/// `j` is an object with exactly the given keys, in order.
pub open spec fn has_keys(j: Json, keys: Seq<Seq<char>>) -> bool {
    j matches Json::Object(f) && f@.len() == keys.len() && forall|i: int|
        0 <= i < keys.len() ==> #[trigger] f@[i].0@ == keys[i]
}

/// The JSON-RPC 2.0 envelope of a call: `{"jsonrpc": "2.0", "method",
/// "params", "id"}`.
pub fn rpc_request(method: &str, params: Json, id: String) -> (req: Json)
    ensures
        has_keys(req, seq!["jsonrpc"@, "method"@, "params"@, "id"@]),
        req matches Json::Object(f) && is_text(f@[0].1, "2.0"@) && is_text(f@[1].1, method@)
            && f@[2].1 == params && is_text(f@[3].1, id@),
{
    let mut f: Vec<(String, Json)> = Vec::new();
    f.push(member("jsonrpc", Json::text("2.0")));
    f.push(member("method", Json::text(method)));
    f.push(member("params", params));
    f.push(member("id", Json::Str(id)));
    object(f)
}

fn one(key: &str, value: Json) -> (j: Json)
    ensures
        j matches Json::Object(f) && f@.len() == 1 && f@[0].0@ == key@ && f@[0].1 == value,
{
    let mut f: Vec<(String, Json)> = Vec::new();
    f.push(member(key, value));
    object(f)
}

/// Parameters `{"task_id": task_id}` (`tasks/get`, `tasks/cancel`).
pub fn task_params(task_id: &str) -> (p: Json)
    ensures
        p matches Json::Object(f) && f@.len() == 1 && f@[0].0@ == "task_id"@ && is_text(
            f@[0].1,
            task_id@,
        ),
{
    one("task_id", Json::text(task_id))
}

/// Parameters of `tasks/claim`: `{"pair_id", "role"}`.
pub fn claim_params(pair_id: &str, role: &str) -> (p: Json)
    ensures
        has_keys(p, seq!["pair_id"@, "role"@]),
        p matches Json::Object(f) && is_text(f@[0].1, pair_id@) && is_text(f@[1].1, role@),
{
    let mut f: Vec<(String, Json)> = Vec::new();
    f.push(member("pair_id", Json::text(pair_id)));
    f.push(member("role", Json::text(role)));
    object(f)
}

/// Parameters of `tasks/complete`: `{"task_id", "result"}` where `result`
/// is the JSON of the result.
pub fn complete_params(task_id: &str, result: Json) -> (p: Json)
    ensures
        has_keys(p, seq!["task_id"@, "result"@]),
        p matches Json::Object(f) && is_text(f@[0].1, task_id@) && f@[1].1 == result,
{
    let mut f: Vec<(String, Json)> = Vec::new();
    f.push(member("task_id", Json::text(task_id)));
    f.push(member("result", result));
    object(f)
}

/// Why a reply is unusable.
#[derive(Debug, Clone)]
pub enum ClientError {
    /// The relay answered with an error object.
    Rpc { message: String },
    /// A `message/send` reply without a task id.
    NoTaskId,
    /// A completed task without a result.
    NoResult,
    /// A claimed task without its id.
    ClaimWithoutTaskId,
    /// A claimed task without its request.
    ClaimWithoutRequest,
}

/// The text of a client error.
pub open spec fn client_message(e: ClientError) -> Seq<char> {
    match e {
        ClientError::Rpc { message } => "A2A RPC error: "@ + message@,
        ClientError::NoTaskId => "No task_id in response"@,
        ClientError::NoResult => "completed task has no serializable result"@,
        ClientError::ClaimWithoutTaskId => "claimed task missing task_id"@,
        ClientError::ClaimWithoutRequest => "claimed task missing request"@,
    }
}

impl ClientError {
    pub fn message(&self) -> (m: String)
        ensures
            m@ == client_message(*self),
    {
        match self {
            ClientError::Rpc { message } => {
                let mut m = String::from_str("A2A RPC error: ");
                m.append(message.as_str());
                m
            },
            ClientError::NoTaskId => String::from_str("No task_id in response"),
            ClientError::NoResult => String::from_str("completed task has no serializable result"),
            ClientError::ClaimWithoutTaskId => String::from_str("claimed task missing task_id"),
            ClientError::ClaimWithoutRequest => String::from_str("claimed task missing request"),
        }
    }
}

/// The error a reply carries: when its `error` member is an object, that
/// object's `message` text (`unknown error` when it has none).
pub open spec fn reply_error(body: Json) -> Option<Seq<char>> {
    match json_get(body, "error"@) {
        Some(e) => if e is Object {
            Some(
                match param(e, "message"@) {
                    Some(m) => m,
                    None => "unknown error"@,
                },
            )
        } else {
            None
        },
        None => None,
    }
}

/// The error a reply carries, if any.
pub fn rpc_error_message(body: &Json) -> (r: Option<String>)
    ensures
        match r {
            Some(m) => reply_error(*body) == Some(m@),
            None => reply_error(*body) is None,
        },
{
    match body.get("error") {
        Some(e) => {
            if e.is_object() {
                match str_field(e, "message") {
                    Some(m) => Some(m),
                    None => Some(String::from_str("unknown error")),
                }
            } else {
                None
            }
        },
        None => None,
    }
}

/// A reply that is not an error.
pub fn check_reply(body: &Json) -> (r: Result<(), ClientError>)
    ensures
        match r {
            Ok(()) => reply_error(*body) is None,
            Err(e) => e matches ClientError::Rpc { message } && reply_error(*body) == Some(message@),
        },
{
    match rpc_error_message(body) {
        Some(message) => Err(ClientError::Rpc { message }),
        None => Ok(()),
    }
}

/// The task id a `message/send` reply carries (`result.task_id`).
pub fn submitted_task_id(body: &Json) -> (r: Result<String, ClientError>)
    ensures
        match reply_error(*body) {
            Some(m) => r matches Err(ClientError::Rpc { message }) && message@ == m,
            None => match json_get(*body, "result"@) {
                Some(res) => match param(res, "task_id"@) {
                    Some(t) => r matches Ok(id) && id@ == t,
                    None => r matches Err(ClientError::NoTaskId),
                },
                None => r matches Err(ClientError::NoTaskId),
            },
        },
{
    check_reply(body)?;
    match body.get("result") {
        Some(res) => match str_field(res, "task_id") {
            Some(t) => Ok(t),
            None => Err(ClientError::NoTaskId),
        },
        None => Err(ClientError::NoTaskId),
    }
}

/// The status a `tasks/get` reply reports (`unknown` when it has none).
pub open spec fn reply_status(body: Json) -> Seq<char> {
    match json_get(body, "result"@) {
        Some(res) => match param(res, "status"@) {
            Some(s) => s,
            None => "unknown"@,
        },
        None => "unknown"@,
    }
}

/// The terminal result of a `tasks/get` reply: its `result.result` when the
/// task is completed, nothing while it is not.
pub fn completed_result(body: &Json) -> (r: Result<Option<&Json>, ClientError>)
    ensures
        match reply_error(*body) {
            Some(m) => r matches Err(ClientError::Rpc { message }) && message@ == m,
            None => if reply_status(*body) == "completed"@ {
                match json_get(*body, "result"@) {
                    Some(res) => match json_get(res, "result"@) {
                        Some(v) => r matches Ok(Some(x)) && *x == v,
                        None => r matches Err(ClientError::NoResult),
                    },
                    None => r matches Err(ClientError::NoResult),
                }
            } else {
                r matches Ok(None)
            },
        },
{
    check_reply(body)?;
    let res = body.get("result");
    let status = match res {
        Some(x) => match str_field(x, "status") {
            Some(s) => s,
            None => String::from_str("unknown"),
        },
        None => String::from_str("unknown"),
    };
    if status == String::from_str("completed") {
        match res {
            Some(x) => match x.get("result") {
                Some(v) => Ok(Some(v)),
                None => Err(ClientError::NoResult),
            },
            None => Err(ClientError::NoResult),
        }
    } else {
        Ok(None)
    }
}

/// The task a `tasks/claim` reply hands over: its id and the JSON of its
/// request; nothing when the reply's `result` is absent or `null`.
pub fn claimed_task(body: &Json) -> (r: Result<Option<(String, &Json)>, ClientError>)
    ensures
        match reply_error(*body) {
            Some(m) => r matches Err(ClientError::Rpc { message }) && message@ == m,
            None => match json_get(*body, "result"@) {
                None => r matches Ok(None),
                Some(task) => if task is Null {
                    r matches Ok(None)
                } else {
                    match (param(task, "task_id"@), json_get(task, "request"@)) {
                        (None, _) => r matches Err(ClientError::ClaimWithoutTaskId),
                        (Some(_), None) => r matches Err(ClientError::ClaimWithoutRequest),
                        (Some(t), Some(q)) => r matches Ok(Some((id, req))) && id@ == t && *req
                            == q,
                    }
                },
            },
        },
{
    check_reply(body)?;
    let task = match body.get("result") {
        Some(t) => t,
        None => {
            return Ok(None);
        },
    };
    if task.is_null() {
        return Ok(None);
    }
    let task_id = match str_field(task, "task_id") {
        Some(t) => t,
        None => {
            return Err(ClientError::ClaimWithoutTaskId);
        },
    };
    match task.get("request") {
        Some(q) => Ok(Some((task_id, q))),
        None => Err(ClientError::ClaimWithoutRequest),
    }
}

} // verus!
