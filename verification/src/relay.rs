//! The A2A relay's state: pair-scoped sessions, the task table with
//! idempotent submission, per-task progress buffers and cancel flags.
//!
//! Tables are held as vectors of entries with pairwise distinct keys; each
//! denotes a finite map, which is what the contracts speak of.

use vstd::prelude::*;
use vstd::string::StringExecFns;
use crate::events::{
    buffer_keeps_the_longest_suffix_within_bounds, current_seq_of, event_size, push_history,
    push_result, pushes_are_numbered_from_zero, since, sizes_encoded, too_many, BufferedEvent, EventBuffer, EventBufferView,
};
use crate::keys::{audit_task_key_spec, audit_task_subkey, verification_key, verification_key_spec};
use crate::outside::new_task_id;
use crate::protocol::{
    idempotency_seed_spec, is_allowlisted, is_uuid_v4_text, is_allowlisted_spec, ExecutorInfo, VerifyProgressEvent,
    VerifyRequest, VerifyRequestView, VerifyResult, VerifyResultView,
};
use crate::table::{
    lemma_map_absent, lemma_map_get, lemma_map_len, lemma_map_push, lemma_map_remove,
    lemma_map_update, to_map, unique_keys,
};
use crate::text::{join_spaced, join_with_spaces};
use crate::hooks::{eq_ignore_ascii_case, eq_ignore_ascii_case_spec};

verus! {

// ── Sessions ────────────────────────────────────────────────────────────────

/// A connected workspace, keyed by `(pair_id, role)`.
#[derive(Debug, Clone)]
pub struct A2ASession {
    pub pair_id: String,
    /// `"sentinel"` or `"forge"`.
    pub role: String,
    /// For audit, e.g. `"forge-T-048"`.
    pub workspace_id: String,
}

impl A2ASession {
    /// An exact copy.
    pub fn duplicate(&self) -> (r: Self)
        ensures
            r == *self,
    {
        A2ASession {
            pair_id: self.pair_id.clone(),
            role: self.role.clone(),
            workspace_id: self.workspace_id.clone(),
        }
    }
}

pub open spec fn session_key() -> spec_fn(A2ASession) -> (Seq<char>, Seq<char>) {
    |s: A2ASession| (s.pair_id@, s.role@)
}

pub open spec fn session_val() -> spec_fn(A2ASession) -> Seq<char> {
    |s: A2ASession| s.workspace_id@
}

// ── Tasks ───────────────────────────────────────────────────────────────────

/// Lifecycle of a `verify` task: Sentinel -> relay -> Forge -> relay -> Sentinel.
#[derive(Debug, Clone, Copy, PartialEq, Eq, Structural)]
pub enum TaskState {
    /// Submitted, awaiting a Forge executor.
    Pending,
    /// Claimed by a Forge executor.
    Running,
    /// A terminal result was submitted.
    Completed,
    /// Cancelled by Sentinel or Forge.
    Cancelled,
}

/// One task of the relay, keyed by its id.
#[derive(Debug, Clone)]
pub struct TaskEntry {
    pub task_id: String,
    pub request: VerifyRequest,
    pub idempotency_key: String,
    pub requester: String,
    pub state: TaskState,
    pub result: Option<VerifyResult>,
}

pub struct TaskEntryView {
    pub task_id: Seq<char>,
    pub request: VerifyRequestView,
    pub idempotency_key: Seq<char>,
    pub requester: Seq<char>,
    pub state: TaskState,
    pub result: Option<VerifyResultView>,
}

pub open spec fn result_view(r: Option<VerifyResult>) -> Option<VerifyResultView> {
    match r {
        Some(v) => Some(v@),
        None => None,
    }
}

impl View for TaskEntry {
    type V = TaskEntryView;

    open spec fn view(&self) -> TaskEntryView {
        TaskEntryView {
            task_id: self.task_id@,
            request: self.request@,
            idempotency_key: self.idempotency_key@,
            requester: self.requester@,
            state: self.state,
            result: result_view(self.result),
        }
    }
}

impl TaskEntry {
    /// An exact copy.
    pub fn duplicate(&self) -> (r: Self)
        ensures
            r@ == self@,
    {
        let result = match &self.result {
            Some(v) => Some(v.duplicate()),
            None => None,
        };
        TaskEntry {
            task_id: self.task_id.clone(),
            request: self.request.duplicate(),
            idempotency_key: self.idempotency_key.clone(),
            requester: self.requester.clone(),
            state: self.state,
            result,
        }
    }
}

pub open spec fn task_key() -> spec_fn(TaskEntry) -> Seq<char> {
    |t: TaskEntry| t.task_id@
}

pub open spec fn task_val() -> spec_fn(TaskEntry) -> TaskEntryView {
    |t: TaskEntry| t@
}

pub open spec fn pair_key<T>() -> spec_fn((String, T)) -> Seq<char> {
    |p: (String, T)| p.0@
}

pub open spec fn id_val() -> spec_fn((String, String)) -> Seq<char> {
    |p: (String, String)| p.1@
}

pub open spec fn buffer_val() -> spec_fn((String, EventBuffer)) -> EventBufferView {
    |p: (String, EventBuffer)| p.1@
}

pub open spec fn flag_val() -> spec_fn((String, bool)) -> bool {
    |p: (String, bool)| p.1
}

// ── The relay ───────────────────────────────────────────────────────────────

/// Abstract state of the relay.
pub struct RelayView {
    /// `(pair_id, role)` -> workspace id of the connected session.
    pub sessions: Map<(Seq<char>, Seq<char>), Seq<char>>,
    /// task id -> task.
    pub tasks: Map<Seq<char>, TaskEntryView>,
    /// idempotency key -> task id.
    pub idempotency: Map<Seq<char>, Seq<char>>,
    /// task id -> progress buffer.
    pub buffers: Map<Seq<char>, EventBufferView>,
    /// task id -> cancel flag.
    pub cancelled: Map<Seq<char>, bool>,
}

/// Central A2A relay: pair-scoped routing, command allowlist validation,
/// idempotent submission, progress buffering and cancellation.
pub struct A2ARelay {
    sessions: Vec<A2ASession>,
    tasks: Vec<TaskEntry>,
    idempotency: Vec<(String, String)>,
    event_buffers: Vec<(String, EventBuffer)>,
    cancel_flags: Vec<(String, bool)>,
}

impl View for A2ARelay {
    type V = RelayView;

    closed spec fn view(&self) -> RelayView {
        RelayView {
            sessions: to_map(self.sessions@, session_key(), session_val()),
            tasks: to_map(self.tasks@, task_key(), task_val()),
            idempotency: to_map(self.idempotency@, pair_key::<String>(), id_val()),
            buffers: to_map(self.event_buffers@, pair_key::<EventBuffer>(), buffer_val()),
            cancelled: to_map(self.cancel_flags@, pair_key::<bool>(), flag_val()),
        }
    }
}

impl A2ARelay {
    /// The relay's invariant: every table has distinct keys and every
    /// progress buffer is well formed.
    pub closed spec fn wf(&self) -> bool {
        &&& unique_keys(self.sessions@, session_key())
        &&& unique_keys(self.tasks@, task_key())
        &&& unique_keys(self.idempotency@, pair_key::<String>())
        &&& unique_keys(self.event_buffers@, pair_key::<EventBuffer>())
        &&& unique_keys(self.cancel_flags@, pair_key::<bool>())
        &&& forall|i: int|
            0 <= i < self.event_buffers@.len() ==> (#[trigger] self.event_buffers@[i]).1.wf()
                && sizes_encoded(self.event_buffers@[i].1@)
    }

    /// A relay with no sessions, tasks, buffers or flags.
    pub fn new() -> (r: Self)
        ensures
            r.wf(),
            r@.sessions == Map::<(Seq<char>, Seq<char>), Seq<char>>::empty(),
            r@.tasks == Map::<Seq<char>, TaskEntryView>::empty(),
            r@.idempotency == Map::<Seq<char>, Seq<char>>::empty(),
            r@.buffers == Map::<Seq<char>, EventBufferView>::empty(),
            r@.cancelled == Map::<Seq<char>, bool>::empty(),
    {
        let r = A2ARelay {
            sessions: Vec::new(),
            tasks: Vec::new(),
            idempotency: Vec::new(),
            event_buffers: Vec::new(),
            cancel_flags: Vec::new(),
        };
        assert(r@.sessions =~= Map::<(Seq<char>, Seq<char>), Seq<char>>::empty());
        assert(r@.tasks =~= Map::<Seq<char>, TaskEntryView>::empty());
        assert(r@.idempotency =~= Map::<Seq<char>, Seq<char>>::empty());
        assert(r@.buffers =~= Map::<Seq<char>, EventBufferView>::empty());
        assert(r@.cancelled =~= Map::<Seq<char>, bool>::empty());
        r
    }

    // ── Lookups ─────────────────────────────────────────────────────────────

    fn find_session(&self, pair_id: &String, role: &String) -> (r: Option<usize>)
        ensures
            match r {
                Some(i) => i < self.sessions@.len() && session_key()(self.sessions@[i as int])
                    == (pair_id@, role@),
                None => forall|i: int|
                    0 <= i < self.sessions@.len() ==> #[trigger] session_key()(self.sessions@[i])
                        != (pair_id@, role@),
            },
    {
        let mut i: usize = 0;
        while i < self.sessions.len()
            invariant
                i <= self.sessions@.len(),
                forall|j: int|
                    0 <= j < i ==> #[trigger] session_key()(self.sessions@[j]) != (pair_id@, role@),
            decreases self.sessions@.len() - i,
        {
            if self.sessions[i].pair_id == *pair_id && self.sessions[i].role == *role {
                return Some(i);
            }
            i = i + 1;
        }
        None
    }

    fn find_task(&self, task_id: &String) -> (r: Option<usize>)
        ensures
            match r {
                Some(i) => i < self.tasks@.len() && self.tasks@[i as int].task_id@ == task_id@,
                None => forall|i: int|
                    0 <= i < self.tasks@.len() ==> #[trigger] task_key()(self.tasks@[i])
                        != task_id@,
            },
    {
        let mut i: usize = 0;
        while i < self.tasks.len()
            invariant
                i <= self.tasks@.len(),
                forall|j: int| 0 <= j < i ==> #[trigger] task_key()(self.tasks@[j]) != task_id@,
            decreases self.tasks@.len() - i,
        {
            if self.tasks[i].task_id == *task_id {
                return Some(i);
            }
            i = i + 1;
        }
        None
    }

    fn find_idempotency(&self, key: &String) -> (r: Option<usize>)
        ensures
            match r {
                Some(i) => i < self.idempotency@.len() && self.idempotency@[i as int].0@ == key@,
                None => forall|i: int|
                    0 <= i < self.idempotency@.len() ==> #[trigger] pair_key::<String>()(
                        self.idempotency@[i],
                    ) != key@,
            },
    {
        let mut i: usize = 0;
        while i < self.idempotency.len()
            invariant
                i <= self.idempotency@.len(),
                forall|j: int|
                    0 <= j < i ==> #[trigger] pair_key::<String>()(self.idempotency@[j]) != key@,
            decreases self.idempotency@.len() - i,
        {
            if self.idempotency[i].0 == *key {
                return Some(i);
            }
            i = i + 1;
        }
        None
    }

    fn find_buffer(&self, task_id: &String) -> (r: Option<usize>)
        ensures
            match r {
                Some(i) => i < self.event_buffers@.len() && self.event_buffers@[i as int].0@
                    == task_id@,
                None => forall|i: int|
                    0 <= i < self.event_buffers@.len() ==> #[trigger] pair_key::<EventBuffer>()(
                        self.event_buffers@[i],
                    ) != task_id@,
            },
    {
        let mut i: usize = 0;
        while i < self.event_buffers.len()
            invariant
                i <= self.event_buffers@.len(),
                forall|j: int|
                    0 <= j < i ==> #[trigger] pair_key::<EventBuffer>()(self.event_buffers@[j])
                        != task_id@,
            decreases self.event_buffers@.len() - i,
        {
            if self.event_buffers[i].0 == *task_id {
                return Some(i);
            }
            i = i + 1;
        }
        None
    }

    fn find_flag(&self, task_id: &String) -> (r: Option<usize>)
        ensures
            match r {
                Some(i) => i < self.cancel_flags@.len() && self.cancel_flags@[i as int].0@
                    == task_id@,
                None => forall|i: int|
                    0 <= i < self.cancel_flags@.len() ==> #[trigger] pair_key::<bool>()(
                        self.cancel_flags@[i],
                    ) != task_id@,
            },
    {
        let mut i: usize = 0;
        while i < self.cancel_flags.len()
            invariant
                i <= self.cancel_flags@.len(),
                forall|j: int|
                    0 <= j < i ==> #[trigger] pair_key::<bool>()(self.cancel_flags@[j]) != task_id@,
            decreases self.cancel_flags@.len() - i,
        {
            if self.cancel_flags[i].0 == *task_id {
                return Some(i);
            }
            i = i + 1;
        }
        None
    }

    // ── Sessions ────────────────────────────────────────────────────────────

    /// Register a connected workspace session, replacing any earlier session
    /// of the same `(pair_id, role)`.
    pub fn register_session(&mut self, pair_id: String, role: String, workspace_id: String)
        requires
            old(self).wf(),
        ensures
            final(self).wf(),
            final(self)@.sessions == old(self)@.sessions.insert(
                (pair_id@, role@),
                workspace_id@,
            ),
            final(self)@.tasks == old(self)@.tasks,
            final(self)@.idempotency == old(self)@.idempotency,
            final(self)@.buffers == old(self)@.buffers,
            final(self)@.cancelled == old(self)@.cancelled,
    {
        let found = self.find_session(&pair_id, &role);
        let session = A2ASession { pair_id, role, workspace_id };
        proof {
            assert(session_key()(session) == (session.pair_id@, session.role@));
            assert(session_val()(session) == session.workspace_id@);
        }
        match found {
            Some(i) => {
                proof {
                    lemma_map_update(self.sessions@, session_key(), session_val(), i as int, session);
                }
                self.sessions.set(i, session);
            },
            None => {
                proof {
                    lemma_map_push(self.sessions@, session_key(), session_val(), session);
                }
                self.sessions.push(session);
            },
        }
    }

    /// Deregister the session of `(pair_id, role)`, if any.
    pub fn deregister_session(&mut self, pair_id: &str, role: &str)
        requires
            old(self).wf(),
        ensures
            final(self).wf(),
            final(self)@.sessions == old(self)@.sessions.remove((pair_id@, role@)),
            final(self)@.tasks == old(self)@.tasks,
            final(self)@.idempotency == old(self)@.idempotency,
            final(self)@.buffers == old(self)@.buffers,
            final(self)@.cancelled == old(self)@.cancelled,
    {
        let p = String::from_str(pair_id);
        let r = String::from_str(role);
        match self.find_session(&p, &r) {
            Some(i) => {
                proof {
                    lemma_map_remove(self.sessions@, session_key(), session_val(), i as int);
                }
                self.sessions.remove(i);
            },
            None => {
                proof {
                    lemma_map_absent(self.sessions@, session_key(), session_val(), (p@, r@));
                    assert(self@.sessions.remove((p@, r@)) =~= self@.sessions);
                }
            },
        }
    }

    /// The session registered for `(pair_id, role)`.
    pub fn get_session(&self, pair_id: &str, role: &str) -> (r: Option<A2ASession>)
        requires
            self.wf(),
        ensures
            match r {
                Some(s) => self@.sessions.contains_key((pair_id@, role@)) && s.pair_id@ == pair_id@
                    && s.role@ == role@ && s.workspace_id@ == self@.sessions[(pair_id@, role@)],
                None => !self@.sessions.contains_key((pair_id@, role@)),
            },
    {
        let p = String::from_str(pair_id);
        let r = String::from_str(role);
        match self.find_session(&p, &r) {
            Some(i) => {
                proof {
                    lemma_map_get(self.sessions@, session_key(), session_val(), i as int);
                }
                Some(self.sessions[i].duplicate())
            },
            None => {
                proof {
                    lemma_map_absent(self.sessions@, session_key(), session_val(), (p@, r@));
                }
                None
            },
        }
    }

    /// Every registered session, each once.
    pub fn list_sessions(&self) -> (r: Vec<A2ASession>)
        requires
            self.wf(),
        ensures
            r@.len() == self@.sessions.len(),
            unique_keys(r@, session_key()),
            forall|i: int|
                0 <= i < r@.len() ==> self@.sessions.contains_key(#[trigger] session_key()(r@[i]))
                    && self@.sessions[session_key()(r@[i])] == session_val()(r@[i]),
    {
        let mut out: Vec<A2ASession> = Vec::new();
        let mut i: usize = 0;
        while i < self.sessions.len()
            invariant
                i <= self.sessions@.len(),
                out@ == self.sessions@.take(i as int),
            decreases self.sessions@.len() - i,
        {
            out.push(self.sessions[i].duplicate());
            assert(self.sessions@.take(i as int + 1) =~= self.sessions@.take(i as int).push(
                self.sessions@[i as int],
            ));
            i = i + 1;
        }
        assert(self.sessions@.take(self.sessions@.len() as int) =~= self.sessions@);
        proof {
            assert forall|j: int| 0 <= j < out@.len() implies self@.sessions.contains_key(
                #[trigger] session_key()(out@[j]),
            ) && self@.sessions[session_key()(out@[j])] == session_val()(out@[j]) by {
                lemma_map_get(self.sessions@, session_key(), session_val(), j);
            }
            lemma_map_len(self.sessions@, session_key(), session_val());
        }
        out
    }
}


// ── Validation ──────────────────────────────────────────────────────────────

/// Hard limit on a verify request's timeout (one hour).
pub const MAX_TIMEOUT_SECS: u64 = 3600;

/// Why the relay rejected a verify request.
#[derive(Debug, Clone)]
pub enum ValidationError {
    /// The request's pair id differs from the requester's.
    PairMismatch { request_pair_id: String, requester_pair_id: String },
    /// The command (argv joined by spaces) is not allowlisted.
    NotAllowlisted { command: String },
    /// `timeout_secs` is 0.
    ZeroTimeout,
    /// `timeout_secs` exceeds `MAX_TIMEOUT_SECS`.
    TimeoutTooLarge,
}

/// A request the relay accepts: the requester's own pair, an allowlisted
/// command and a timeout in `1..=MAX_TIMEOUT_SECS`. The `cwd` needs no check:
/// both of its values are allowed.
pub open spec fn request_is_valid(req: VerifyRequestView, requester: Seq<char>) -> bool {
    &&& req.pair_id == requester
    &&& is_allowlisted_spec(req.argv)
    &&& 0 < req.timeout_secs <= MAX_TIMEOUT_SECS
}

/// The error `validate_verify_request` reports: the rules are checked in the
/// order pair id, allowlist, zero timeout, excessive timeout.
pub open spec fn validation_outcome(
    req: VerifyRequestView,
    requester: Seq<char>,
    r: Result<(), ValidationError>,
) -> bool {
    match r {
        Ok(()) => request_is_valid(req, requester),
        Err(ValidationError::PairMismatch { request_pair_id, requester_pair_id }) => {
            &&& req.pair_id != requester
            &&& request_pair_id@ == req.pair_id
            &&& requester_pair_id@ == requester
        },
        Err(ValidationError::NotAllowlisted { command }) => {
            &&& req.pair_id == requester
            &&& !is_allowlisted_spec(req.argv)
            &&& command@ == join_spaced(req.argv)
        },
        Err(ValidationError::ZeroTimeout) => {
            &&& req.pair_id == requester
            &&& is_allowlisted_spec(req.argv)
            &&& req.timeout_secs == 0
        },
        Err(ValidationError::TimeoutTooLarge) => {
            &&& req.pair_id == requester
            &&& is_allowlisted_spec(req.argv)
            &&& req.timeout_secs > MAX_TIMEOUT_SECS
        },
    }
}

/// The text of a validation error.
pub open spec fn validation_message(e: ValidationError) -> Seq<char> {
    match e {
        ValidationError::PairMismatch { request_pair_id, requester_pair_id } => "pair_id mismatch: request says "@
            + request_pair_id@ + ", requester is "@ + requester_pair_id@,
        ValidationError::NotAllowlisted { command } => "command not allowlisted: "@ + command@,
        ValidationError::ZeroTimeout => "timeout_secs must be > 0"@,
        ValidationError::TimeoutTooLarge => "timeout_secs exceeds maximum (3600)"@,
    }
}

impl ValidationError {
    /// The error's text, as logged to the audit trail.
    pub fn message(&self) -> (m: String)
        ensures
            m@ == validation_message(*self),
    {
        match self {
            ValidationError::PairMismatch { request_pair_id, requester_pair_id } => {
                let mut m = String::from_str("pair_id mismatch: request says ");
                m.append(request_pair_id.as_str());
                m.append(", requester is ");
                m.append(requester_pair_id.as_str());
                m
            },
            ValidationError::NotAllowlisted { command } => {
                let mut m = String::from_str("command not allowlisted: ");
                m.append(command.as_str());
                m
            },
            ValidationError::ZeroTimeout => String::from_str("timeout_secs must be > 0"),
            ValidationError::TimeoutTooLarge => String::from_str(
                "timeout_secs exceeds maximum (3600)",
            ),
        }
    }
}

impl A2ARelay {
    /// Validate a verify request against the relay's rules. The pair check
    /// compares self-declared values; it guards against misconfiguration,
    /// not against impersonation.
    pub fn validate_verify_request(&self, req: &VerifyRequest, requester_pair_id: &str) -> (r:
        Result<(), ValidationError>)
        ensures
            validation_outcome(req@, requester_pair_id@, r),
            r is Ok <==> request_is_valid(req@, requester_pair_id@),
    {
        let requester = String::from_str(requester_pair_id);
        if req.pair_id != requester {
            return Err(
                ValidationError::PairMismatch {
                    request_pair_id: req.pair_id.clone(),
                    requester_pair_id: requester,
                },
            );
        }
        if !is_allowlisted(req.argv.as_slice()) {
            let command = join_with_spaces(req.argv.as_slice());
            return Err(ValidationError::NotAllowlisted { command });
        }
        if req.timeout_secs == 0 {
            return Err(ValidationError::ZeroTimeout);
        }
        if req.timeout_secs > MAX_TIMEOUT_SECS {
            return Err(ValidationError::TimeoutTooLarge);
        }
        Ok(())
    }
}


// ── Tasks ───────────────────────────────────────────────────────────────────

/// Why a relay operation failed.
#[derive(Debug, Clone)]
pub enum RelayError {
    /// No task has this id.
    TaskNotFound { task_id: String },
    /// The task's progress buffer has handed out every sequence number.
    SequenceExhausted { task_id: String },
    /// `tasks/complete` got a result built for another task.
    TaskIdMismatch { carried: String, requested: String },
    /// `tasks/complete` came from another pair than the task's.
    CompletePairMismatch { owner: String, claimed: String },
    /// `tasks/cancel` came from another pair than the task's.
    CancelPairMismatch { owner: String, claimed: String },
    /// `tasks/claim` came from another role than the Forge executor.
    ClaimNotForge,
    /// The result of `tasks/complete` could not be mirrored to the store, so
    /// the task was left as it was.
    MirrorFailed { task_id: String },
}

/// The text of a relay error.
pub open spec fn relay_message(e: RelayError) -> Seq<char> {
    match e {
        RelayError::TaskNotFound { task_id } => "task not found: "@ + task_id@,
        RelayError::SequenceExhausted { task_id } => "progress sequence exhausted: "@ + task_id@,
        RelayError::TaskIdMismatch { carried, requested } => "tasks/complete task_id mismatch: result carries "@
            + carried@ + ", request says "@ + requested@,
        RelayError::CompletePairMismatch { owner, claimed } => "tasks/complete pair_id mismatch: task belongs to "@
            + owner@ + " but caller claims "@ + claimed@,
        RelayError::CancelPairMismatch { owner, claimed } => "tasks/cancel pair_id mismatch: task belongs to "@
            + owner@ + " but caller claims "@ + claimed@,
        RelayError::ClaimNotForge => "tasks/claim is only available to the forge executor role"@,
        RelayError::MirrorFailed { task_id } => "result not mirrored; task left open: "@ + task_id@,
    }
}

fn message_of3(a: &str, b: &String, c: &str, d: &String) -> (m: String)
    ensures
        m@ == a@ + b@ + c@ + d@,
{
    let mut m = String::from_str(a);
    m.append(b.as_str());
    m.append(c);
    m.append(d.as_str());
    m
}

impl RelayError {
    /// The error's text.
    pub fn message(&self) -> (m: String)
        ensures
            m@ == relay_message(*self),
    {
        match self {
            RelayError::TaskNotFound { task_id } => {
                let mut m = String::from_str("task not found: ");
                m.append(task_id.as_str());
                m
            },
            RelayError::SequenceExhausted { task_id } => {
                let mut m = String::from_str("progress sequence exhausted: ");
                m.append(task_id.as_str());
                m
            },
            RelayError::TaskIdMismatch { carried, requested } => message_of3(
                "tasks/complete task_id mismatch: result carries ",
                carried,
                ", request says ",
                requested,
            ),
            RelayError::CompletePairMismatch { owner, claimed } => message_of3(
                "tasks/complete pair_id mismatch: task belongs to ",
                owner,
                " but caller claims ",
                claimed,
            ),
            RelayError::CancelPairMismatch { owner, claimed } => message_of3(
                "tasks/cancel pair_id mismatch: task belongs to ",
                owner,
                " but caller claims ",
                claimed,
            ),
            RelayError::ClaimNotForge => String::from_str(
                "tasks/claim is only available to the forge executor role",
            ),
            RelayError::MirrorFailed { task_id } => {
                let mut m = String::from_str("result not mirrored; task left open: ");
                m.append(task_id.as_str());
                m
            },
        }
    }
}

/// The view of an empty progress buffer.
pub open spec fn empty_buffer() -> EventBufferView {
    EventBufferView { events: Seq::empty(), sizes: Seq::empty(), next_seq: 0 }
}

/// A freshly submitted task.
pub open spec fn pending_entry(
    task_id: Seq<char>,
    req: VerifyRequestView,
    key: Seq<char>,
    requester: Seq<char>,
) -> TaskEntryView {
    TaskEntryView {
        task_id,
        request: req,
        idempotency_key: key,
        requester,
        state: TaskState::Pending,
        result: None,
    }
}

/// `e` with another state.
pub open spec fn with_state(e: TaskEntryView, state: TaskState) -> TaskEntryView {
    TaskEntryView { state, ..e }
}

/// `e` completed with `result`.
pub open spec fn completed(e: TaskEntryView, result: VerifyResultView) -> TaskEntryView {
    TaskEntryView { state: TaskState::Completed, result: Some(result), ..e }
}

/// A `tasks/complete` for task `t` from pair `pair`, whose result carries
/// the task id `carried`, is accepted: the ids agree and the task exists and
/// belongs to that pair.
pub open spec fn completion_accepted(v: RelayView, t: Seq<char>, pair: Seq<char>, carried: Seq<char>) -> bool {
    &&& carried == t
    &&& v.tasks.contains_key(t)
    &&& v.tasks[t].request.pair_id == pair
}

/// Why a `tasks/complete` is refused: a result built for another task, an
/// unknown task, or a task of another pair, in that order.
pub open spec fn completion_refused(
    v: RelayView,
    t: Seq<char>,
    pair: Seq<char>,
    carried: Seq<char>,
    e: RelayError,
) -> bool {
    if carried != t {
        e matches RelayError::TaskIdMismatch { carried: c, requested: q } && c@ == carried && q@ == t
    } else if !v.tasks.contains_key(t) {
        e matches RelayError::TaskNotFound { task_id: x } && x@ == t
    } else {
        e matches RelayError::CompletePairMismatch { owner, claimed } && owner@
            == v.tasks[t].request.pair_id && claimed@ == pair && owner@ != pair
    }
}

/// `e` cancelled while pending or running, closed with `result`.
pub open spec fn cancelled_entry(e: TaskEntryView, result: VerifyResultView) -> TaskEntryView {
    TaskEntryView { state: TaskState::Cancelled, result: Some(result), ..e }
}

/// Submission under idempotency key `key`: a key seen before gives back its
/// task and changes nothing; a new key creates a pending task `fresh` with an
/// (empty unless already present) progress buffer and records the key.
pub open spec fn submit_outcome(
    old: RelayView,
    req: VerifyRequestView,
    key: Seq<char>,
    requester: Seq<char>,
    fresh: Seq<char>,
    id: Seq<char>,
    new: RelayView,
) -> bool {
    if old.idempotency.contains_key(key) {
        &&& id == old.idempotency[key]
        &&& new == old
    } else {
        &&& id == fresh
        &&& new.tasks == old.tasks.insert(fresh, pending_entry(fresh, req, key, requester))
        &&& new.idempotency == old.idempotency.insert(key, fresh)
        &&& new.buffers == (if old.buffers.contains_key(fresh) {
            old.buffers
        } else {
            old.buffers.insert(fresh, empty_buffer())
        })
        &&& new.sessions == old.sessions
        &&& new.cancelled == old.cancelled
    }
}

/// A task of `pair_id` waiting for an executor.
pub open spec fn pending_for(tasks: Map<Seq<char>, TaskEntryView>, k: Seq<char>, pair_id: Seq<char>) -> bool {
    tasks.contains_key(k) && tasks[k].request.pair_id == pair_id && tasks[k].state == TaskState::Pending
}

/// Only the task table changed, from `old` to `tasks`.
pub open spec fn only_tasks_changed(old: RelayView, new: RelayView, tasks: Map<Seq<char>, TaskEntryView>) -> bool {
    &&& new.tasks == tasks
    &&& new.sessions == old.sessions
    &&& new.idempotency == old.idempotency
    &&& new.buffers == old.buffers
    &&& new.cancelled == old.cancelled
}

impl A2ARelay {
    /// Submission with a given id for a new task. `body` is the canonical
    /// JSON encoding of `req`; the idempotency key is `{pair_id}:{body}`.
    pub fn check_or_create_task_with_id(
        &mut self,
        req: &VerifyRequest,
        body: &str,
        requester: &str,
        fresh_id: String,
    ) -> (id: String)
        requires
            old(self).wf(),
        ensures
            final(self).wf(),
            submit_outcome(
                old(self)@,
                req@,
                idempotency_seed_spec(req.pair_id@, body@),
                requester@,
                fresh_id@,
                id@,
                final(self)@,
            ),
    {
        let key = req.idempotency_seed(body);
        match self.find_idempotency(&key) {
            Some(i) => {
                proof {
                    lemma_map_get(self.idempotency@, pair_key::<String>(), id_val(), i as int);
                }
                return self.idempotency[i].1.clone();
            },
            None => {
                proof {
                    lemma_map_absent(self.idempotency@, pair_key::<String>(), id_val(), key@);
                }
            },
        }
        let entry = TaskEntry {
            task_id: fresh_id.clone(),
            request: req.duplicate(),
            idempotency_key: key.clone(),
            requester: String::from_str(requester),
            state: TaskState::Pending,
            result: None,
        };
        let ghost tv = entry@;
        assert(tv == pending_entry(fresh_id@, req@, key@, requester@));
        match self.find_task(&fresh_id) {
            Some(i) => {
                proof {
                    lemma_map_update(self.tasks@, task_key(), task_val(), i as int, entry);
                }
                self.tasks.set(i, entry);
            },
            None => {
                proof {
                    lemma_map_push(self.tasks@, task_key(), task_val(), entry);
                }
                self.tasks.push(entry);
            },
        }
        let pair = (key, fresh_id.clone());
        proof {
            lemma_map_push(self.idempotency@, pair_key::<String>(), id_val(), pair);
        }
        self.idempotency.push(pair);
        match self.find_buffer(&fresh_id) {
            Some(i) => {
                proof {
                    lemma_map_get(self.event_buffers@, pair_key::<EventBuffer>(), buffer_val(), i as int);
                }
            },
            None => {
                let buf = EventBuffer::new();
                assert(buf@.events =~= Seq::<BufferedEvent>::empty());
                assert(buf@.sizes =~= Seq::<usize>::empty());
                let bp = (fresh_id.clone(), buf);
                proof {
                    lemma_map_push(self.event_buffers@, pair_key::<EventBuffer>(), buffer_val(), bp);
                }
                self.event_buffers.push(bp);
                proof {
                    assert forall|j: int| 0 <= j < self.event_buffers@.len() implies (
                    #[trigger] self.event_buffers@[j]).1.wf() && sizes_encoded(
                        self.event_buffers@[j].1@,
                    ) by {
                        if j < self.event_buffers@.len() - 1 {
                            assert(self.event_buffers@[j] == old(self).event_buffers@[j]);
                        }
                    }
                }
            },
        }
        fresh_id
    }

    /// Whether a submission with `req`'s idempotency key (its canonical body
    /// being `body`) was seen before.
    pub fn knows_submission(&self, req: &VerifyRequest, body: &str) -> (b: bool)
        requires
            self.wf(),
        ensures
            b == self@.idempotency.contains_key(idempotency_seed_spec(req.pair_id@, body@)),
    {
        let key = req.idempotency_seed(body);
        match self.find_idempotency(&key) {
            Some(i) => {
                proof {
                    lemma_map_get(self.idempotency@, pair_key::<String>(), id_val(), i as int);
                }
                true
            },
            None => {
                proof {
                    lemma_map_absent(self.idempotency@, pair_key::<String>(), id_val(), key@);
                }
                false
            },
        }
    }

    /// Submission of a verify request: the task already recorded under its
    /// idempotency key, or a new pending task under a freshly drawn random
    /// UUID (hyphenated, lower case). That a drawn id differs from every
    /// earlier one is left to the random source and not stated.
    pub fn check_or_create_task(&mut self, req: &VerifyRequest, body: &str, requester: &str) -> (id:
        String)
        requires
            old(self).wf(),
        ensures
            final(self).wf(),
            submit_outcome(
                old(self)@,
                req@,
                idempotency_seed_spec(req.pair_id@, body@),
                requester@,
                id@,
                id@,
                final(self)@,
            ),
            !old(self)@.idempotency.contains_key(idempotency_seed_spec(req.pair_id@, body@))
                ==> is_uuid_v4_text(id@),
    {
        let key = req.idempotency_seed(body);
        match self.find_idempotency(&key) {
            Some(i) => {
                proof {
                    lemma_map_get(self.idempotency@, pair_key::<String>(), id_val(), i as int);
                }
                self.idempotency[i].1.clone()
            },
            None => {
                let fresh = new_task_id();
                self.check_or_create_task_with_id(req, body, requester, fresh)
            },
        }
    }
}

impl A2ARelay {
    /// Claim a pending task of `pair_id` for a Forge executor: it becomes
    /// `Running` and is returned as it was (still `Pending`). `None` when the
    /// pair has no pending task. Which of several pending tasks is claimed is
    /// not promised.
    pub fn claim_next_task(&mut self, pair_id: &str) -> (r: Option<TaskEntry>)
        requires
            old(self).wf(),
        ensures
            final(self).wf(),
            match r {
                Some(e) => {
                    &&& pending_for(old(self)@.tasks, e.task_id@, pair_id@)
                    &&& old(self)@.tasks[e.task_id@] == e@
                    &&& only_tasks_changed(
                        old(self)@,
                        final(self)@,
                        old(self)@.tasks.insert(e.task_id@, with_state(e@, TaskState::Running)),
                    )
                },
                None => {
                    &&& forall|k: Seq<char>| !#[trigger] pending_for(old(self)@.tasks, k, pair_id@)
                    &&& final(self)@ == old(self)@
                },
            },
    {
        let pair = String::from_str(pair_id);
        let mut i: usize = 0;
        while i < self.tasks.len()
            invariant
                *self == *old(self),
                old(self).wf(),
                pair@ == pair_id@,
                i <= self.tasks@.len(),
                forall|j: int|
                    0 <= j < i ==> !(#[trigger] self.tasks@[j].request.pair_id@ == pair@
                        && self.tasks@[j].state == TaskState::Pending),
            decreases self.tasks@.len() - i,
        {
            if self.tasks[i].request.pair_id == pair && self.tasks[i].state == TaskState::Pending {
                let claimed = self.tasks[i].duplicate();
                let mut running = self.tasks[i].duplicate();
                running.state = TaskState::Running;
                proof {
                    lemma_map_get(self.tasks@, task_key(), task_val(), i as int);
                    lemma_map_update(self.tasks@, task_key(), task_val(), i as int, running);
                }
                self.tasks.set(i, running);
                return Some(claimed);
            }
            i = i + 1;
        }
        proof {
            assert forall|k: Seq<char>| !#[trigger] pending_for(self@.tasks, k, pair_id@) by {
                if pending_for(self@.tasks, k, pair_id@) {
                    let j = crate::table::index_of_key(self.tasks@, task_key(), k);
                    assert(task_key()(self.tasks@[j]) == k);
                    lemma_map_get(self.tasks@, task_key(), task_val(), j);
                }
            }
        }
        None
    }

    /// Close the task `task_id` in the terminal `state` with `result`.
    fn settle_task(&mut self, task_id: &str, state: TaskState, result: VerifyResult) -> (r: Result<
        (),
        RelayError,
    >)
        requires
            old(self).wf(),
        ensures
            final(self).wf(),
            match r {
                Ok(()) => {
                    &&& old(self)@.tasks.contains_key(task_id@)
                    &&& only_tasks_changed(
                        old(self)@,
                        final(self)@,
                        old(self)@.tasks.insert(
                            task_id@,
                            TaskEntryView { state, result: Some(result@), ..old(self)@.tasks[task_id@] },
                        ),
                    )
                },
                Err(e) => {
                    &&& !old(self)@.tasks.contains_key(task_id@)
                    &&& e matches RelayError::TaskNotFound { task_id: t } && t@ == task_id@
                    &&& final(self)@ == old(self)@
                },
            },
    {
        let id = String::from_str(task_id);
        match self.find_task(&id) {
            Some(i) => {
                let mut done = self.tasks[i].duplicate();
                done.state = state;
                done.result = Some(result);
                proof {
                    lemma_map_get(self.tasks@, task_key(), task_val(), i as int);
                    lemma_map_update(self.tasks@, task_key(), task_val(), i as int, done);
                }
                self.tasks.set(i, done);
                Ok(())
            },
            None => {
                proof {
                    lemma_map_absent(self.tasks@, task_key(), task_val(), id@);
                }
                Err(RelayError::TaskNotFound { task_id: id })
            },
        }
    }

    /// Mark a task `Completed` with its terminal result. Fails, changing
    /// nothing, when the task is unknown.
    pub fn complete_task(&mut self, task_id: &str, result: VerifyResult) -> (r: Result<(), RelayError>)
        requires
            old(self).wf(),
        ensures
            final(self).wf(),
            match r {
                Ok(()) => {
                    &&& old(self)@.tasks.contains_key(task_id@)
                    &&& only_tasks_changed(
                        old(self)@,
                        final(self)@,
                        old(self)@.tasks.insert(
                            task_id@,
                            completed(old(self)@.tasks[task_id@], result@),
                        ),
                    )
                },
                Err(e) => {
                    &&& !old(self)@.tasks.contains_key(task_id@)
                    &&& e matches RelayError::TaskNotFound { task_id: t } && t@ == task_id@
                    &&& final(self)@ == old(self)@
                },
            },
    {
        self.settle_task(task_id, TaskState::Completed, result)
    }

    /// The task's current state.
    pub fn get_task_state(&self, task_id: &str) -> (r: Option<TaskState>)
        requires
            self.wf(),
        ensures
            match r {
                Some(s) => self@.tasks.contains_key(task_id@) && self@.tasks[task_id@].state == s,
                None => !self@.tasks.contains_key(task_id@),
            },
    {
        let id = String::from_str(task_id);
        match self.find_task(&id) {
            Some(i) => {
                proof {
                    lemma_map_get(self.tasks@, task_key(), task_val(), i as int);
                }
                Some(self.tasks[i].state)
            },
            None => {
                proof {
                    lemma_map_absent(self.tasks@, task_key(), task_val(), id@);
                }
                None
            },
        }
    }

    /// The task (request, state and terminal result, if any).
    pub fn get_task(&self, task_id: &str) -> (r: Option<TaskEntry>)
        requires
            self.wf(),
        ensures
            match r {
                Some(e) => self@.tasks.contains_key(task_id@) && e@ == self@.tasks[task_id@]
                    && e.task_id@ == task_id@,
                None => !self@.tasks.contains_key(task_id@),
            },
    {
        let id = String::from_str(task_id);
        match self.find_task(&id) {
            Some(i) => {
                proof {
                    lemma_map_get(self.tasks@, task_key(), task_val(), i as int);
                }
                Some(self.tasks[i].duplicate())
            },
            None => {
                proof {
                    lemma_map_absent(self.tasks@, task_key(), task_val(), id@);
                }
                None
            },
        }
    }

    /// Every task, each once.
    pub fn list_tasks(&self) -> (r: Vec<TaskEntry>)
        requires
            self.wf(),
        ensures
            r@.len() == self@.tasks.len(),
            unique_keys(r@, task_key()),
            forall|i: int|
                0 <= i < r@.len() ==> self@.tasks.contains_key(#[trigger] r@[i].task_id@)
                    && self@.tasks[r@[i].task_id@] == r@[i]@,
    {
        let mut out: Vec<TaskEntry> = Vec::new();
        let mut i: usize = 0;
        while i < self.tasks.len()
            invariant
                i <= self.tasks@.len(),
                out@.len() == i,
                forall|j: int|
                    0 <= j < i ==> (#[trigger] out@[j]).task_id@ == self.tasks@[j].task_id@
                        && out@[j]@ == self.tasks@[j]@,
            decreases self.tasks@.len() - i,
        {
            out.push(self.tasks[i].duplicate());
            i = i + 1;
        }
        proof {
            assert forall|a: int, b: int|
                0 <= a < out@.len() && 0 <= b < out@.len() && #[trigger] task_key()(out@[a])
                    == #[trigger] task_key()(out@[b]) implies a == b by {
                assert(task_key()(self.tasks@[a]) == task_key()(self.tasks@[b]));
            }
            assert forall|j: int| 0 <= j < out@.len() implies self@.tasks.contains_key(
                #[trigger] out@[j].task_id@,
            ) && self@.tasks[out@[j].task_id@] == out@[j]@ by {
                lemma_map_get(self.tasks@, task_key(), task_val(), j);
            }
            lemma_map_len(self.tasks@, task_key(), task_val());
        }
        out
    }
}

/// A task's progress buffer, or an empty one if it has none yet.
pub open spec fn buffer_or_empty(buffers: Map<Seq<char>, EventBufferView>, t: Seq<char>) -> EventBufferView {
    if buffers.contains_key(t) {
        buffers[t]
    } else {
        empty_buffer()
    }
}

/// A successful progress push for task `t` that returned `b`: it is numbered
/// with the task's next sequence number, the task's buffer becomes the
/// result of pushing it, and nothing else changes.
pub open spec fn progress_pushed(old: RelayView, t: Seq<char>, b: BufferedEvent, new: RelayView) -> bool {
    let b0 = buffer_or_empty(old.buffers, t);
    &&& b.seq == b0.next_seq
    &&& new.buffers.contains_key(t)
    &&& push_result(b0, b, event_size(b.event) as usize, new.buffers[t])
    &&& only_buffer_changed(old, new, t, new.buffers[t])
}

/// The encoded sizes of `pushed`, in order.
pub open spec fn event_sizes(pushed: Seq<BufferedEvent>) -> Seq<usize> {
    Seq::new(pushed.len(), |i: int| event_size(pushed[i].event) as usize)
}

/// `views` are the relay's states through successive successful progress
/// pushes for task `t` that returned `pushed`.
pub open spec fn progress_history(views: Seq<RelayView>, t: Seq<char>, pushed: Seq<BufferedEvent>) -> bool {
    &&& views.len() == pushed.len() + 1
    &&& forall|i: int|
        0 <= i < pushed.len() ==> #[trigger] progress_pushed(views[i], t, pushed[i], views[i + 1])
}

/// Progress events of a task that had none yet are numbered 0, 1, 2, ... in
/// the order they are pushed, however many are evicted; afterwards the
/// task's current sequence number is that of the latest push, and its
/// buffer holds the latest pushed events in order (so a replay since `s`
/// gives back those of them numbered `s` on), as many of them as the event
/// count and byte budget allow.
pub proof fn task_progress_is_numbered_from_zero(
    views: Seq<RelayView>,
    t: Seq<char>,
    pushed: Seq<BufferedEvent>,
)
    requires
        progress_history(views, t, pushed),
        buffer_or_empty(views[0].buffers, t).next_seq == 0,
        buffer_or_empty(views[0].buffers, t).events.len() == 0,
        buffer_or_empty(views[0].buffers, t).sizes.len() == 0,
    ensures
        forall|i: int| 0 <= i < pushed.len() ==> #[trigger] pushed[i].seq == i,
        current_seq_of(buffer_or_empty(views.last().buffers, t)) == if pushed.len() == 0 {
            0
        } else {
            pushed.len() - 1
        },
        ({
            let last = buffer_or_empty(views.last().buffers, t);
            let n = pushed.len() as int;
            let kept = last.events.len() as int;
            &&& kept <= n
            &&& last.events == pushed.subrange(n - kept, n)
            &&& forall|m: int| kept < m <= n ==> #[trigger] too_many(event_sizes(pushed), n, m)
        }),
{
    let states = Seq::new(views.len(), |i: int| buffer_or_empty(views[i].buffers, t));
    let sizes = event_sizes(pushed);
    assert forall|i: int| 0 <= i < pushed.len() implies #[trigger] pushed[i].seq == states[i].next_seq by {
        assert(progress_pushed(views[i], t, pushed[i], views[i + 1]));
    }
    assert forall|i: int| 0 <= i < pushed.len() implies #[trigger] push_result(
        states[i],
        pushed[i],
        sizes[i],
        states[i + 1],
    ) by {
        assert(progress_pushed(views[i], t, pushed[i], views[i + 1]));
        assert(states[i + 1] == views[i + 1].buffers[t]);
    }
    assert(push_history(states, pushed, sizes));
    pushes_are_numbered_from_zero(states, pushed, sizes);
    buffer_keeps_the_longest_suffix_within_bounds(states, pushed, sizes);
    assert(states.last() == buffer_or_empty(views.last().buffers, t));
}

/// Only the progress buffer of task `t` changed, to `b`.
pub open spec fn only_buffer_changed(old: RelayView, new: RelayView, t: Seq<char>, b: EventBufferView) -> bool {
    &&& new.buffers == old.buffers.insert(t, b)
    &&& new.sessions == old.sessions
    &&& new.tasks == old.tasks
    &&& new.idempotency == old.idempotency
    &&& new.cancelled == old.cancelled
}

/// Marking task `t` cancelled reports a change: it had a cancel token that
/// was not set yet.
pub open spec fn newly_cancelled(flags: Map<Seq<char>, bool>, t: Seq<char>) -> bool {
    flags.contains_key(t) && !flags[t]
}

/// Only the cancel flags changed, to `flags`.
pub open spec fn only_flags_changed(old: RelayView, new: RelayView, flags: Map<Seq<char>, bool>) -> bool {
    &&& new.cancelled == flags
    &&& new.sessions == old.sessions
    &&& new.tasks == old.tasks
    &&& new.idempotency == old.idempotency
    &&& new.buffers == old.buffers
}

impl A2ARelay {
    /// Buffer a progress event of a task (creating its buffer if needed) for
    /// resubscribe and replay. The event gets the buffer's next sequence
    /// number and the current time. Fails, changing nothing, when the buffer
    /// has used up every sequence number.
    pub fn push_progress_event(&mut self, task_id: &str, event: VerifyProgressEvent) -> (r: Result<
        BufferedEvent,
        RelayError,
    >)
        requires
            old(self).wf(),
        ensures
            final(self).wf(),
            ({
                let b0 = buffer_or_empty(old(self)@.buffers, task_id@);
                match r {
                    Ok(b) => {
                        &&& b0.next_seq < u64::MAX
                        &&& b.event == event
                        &&& progress_pushed(old(self)@, task_id@, b, final(self)@)
                    },
                    Err(e) => {
                        &&& b0.next_seq == u64::MAX
                        &&& e matches RelayError::SequenceExhausted { task_id: t } && t@ == task_id@
                        &&& final(self)@ == old(self)@
                    },
                }
            }),
    {
        let id = String::from_str(task_id);
        let ghost b0 = buffer_or_empty(old(self)@.buffers, task_id@);
        let i = match self.find_buffer(&id) {
            Some(i) => {
                proof {
                    lemma_map_get(self.event_buffers@, pair_key::<EventBuffer>(), buffer_val(), i as int);
                }
                if self.event_buffers[i].1.next_seq() == u64::MAX {
                    return Err(RelayError::SequenceExhausted { task_id: id });
                }
                i
            },
            None => {
                proof {
                    lemma_map_absent(self.event_buffers@, pair_key::<EventBuffer>(), buffer_val(), id@);
                }
                let buf = EventBuffer::new();
                assert(buf@.events =~= Seq::<BufferedEvent>::empty());
                assert(buf@.sizes =~= Seq::<usize>::empty());
                let bp = (id.clone(), buf);
                proof {
                    lemma_map_push(self.event_buffers@, pair_key::<EventBuffer>(), buffer_val(), bp);
                }
                self.event_buffers.push(bp);
                proof {
                    assert forall|j: int| 0 <= j < self.event_buffers@.len() implies (
                    #[trigger] self.event_buffers@[j]).1.wf() && sizes_encoded(
                        self.event_buffers@[j].1@,
                    ) by {
                        if j < self.event_buffers@.len() - 1 {
                            assert(self.event_buffers@[j] == old(self).event_buffers@[j]);
                        }
                    }
                    lemma_map_get(
                        self.event_buffers@,
                        pair_key::<EventBuffer>(),
                        buffer_val(),
                        self.event_buffers@.len() - 1,
                    );
                }
                self.event_buffers.len() - 1
            },
        };
        let ghost mid = self.event_buffers@;
        let ghost mid_view = self@;
        assert(mid[i as int].1@ == b0);
        assert(mid[i as int].1.wf());
        assert(sizes_encoded(mid[i as int].1@));
        let (k, mut buf) = self.event_buffers.remove(i);
        let b = buf.push(event);
        let ghost entry = (k, buf);
        self.event_buffers.insert(i, (k, buf));
        proof {
            assert(self.event_buffers@ =~= mid.update(i as int, entry));
            lemma_map_update(mid, pair_key::<EventBuffer>(), buffer_val(), i as int, entry);
            lemma_map_get(self.event_buffers@, pair_key::<EventBuffer>(), buffer_val(), i as int);
            assert forall|j: int| 0 <= j < self.event_buffers@.len() implies (
            #[trigger] self.event_buffers@[j]).1.wf() && sizes_encoded(self.event_buffers@[j].1@) by {
                if j != i {
                    assert(self.event_buffers@[j] == mid[j]);
                }
            }
            assert(self@.buffers =~= old(self)@.buffers.insert(task_id@, buf@));
        }
        Ok(b)
    }

    /// The buffered events of a task with `seq >= last_seq`, oldest first;
    /// empty when the task has no buffer.
    pub fn replay_events_since(&self, task_id: &str, last_seq: u64) -> (r: Vec<BufferedEvent>)
        requires
            self.wf(),
        ensures
            r@ == buffer_or_empty(self@.buffers, task_id@).events.filter(since(last_seq)),
    {
        let id = String::from_str(task_id);
        match self.find_buffer(&id) {
            Some(i) => {
                proof {
                    lemma_map_get(self.event_buffers@, pair_key::<EventBuffer>(), buffer_val(), i as int);
                }
                self.event_buffers[i].1.events_since(last_seq)
            },
            None => {
                proof {
                    lemma_map_absent(self.event_buffers@, pair_key::<EventBuffer>(), buffer_val(), id@);
                    reveal(Seq::filter);
                }
                Vec::new()
            },
        }
    }

    /// The highest sequence number handed out for a task's progress (0 when
    /// none was, or the task has no buffer).
    pub fn current_event_seq(&self, task_id: &str) -> (r: u64)
        requires
            self.wf(),
        ensures
            r == current_seq_of(buffer_or_empty(self@.buffers, task_id@)),
    {
        let id = String::from_str(task_id);
        match self.find_buffer(&id) {
            Some(i) => {
                proof {
                    lemma_map_get(self.event_buffers@, pair_key::<EventBuffer>(), buffer_val(), i as int);
                }
                self.event_buffers[i].1.current_seq()
            },
            None => {
                proof {
                    lemma_map_absent(self.event_buffers@, pair_key::<EventBuffer>(), buffer_val(), id@);
                }
                0
            },
        }
    }

    // ── Cancel ──────────────────────────────────────────────────────────────

    /// Set a task's cancel flag (creating it, already set, if the task has
    /// none yet). True iff the task had a cancel token that was not set yet;
    /// false when it was already set or the task had no token.
    pub fn mark_cancelled(&mut self, task_id: &str) -> (newly: bool)
        requires
            old(self).wf(),
        ensures
            final(self).wf(),
            newly == newly_cancelled(old(self)@.cancelled, task_id@),
            only_flags_changed(old(self)@, final(self)@, old(self)@.cancelled.insert(task_id@, true)),
    {
        let id = String::from_str(task_id);
        match self.find_flag(&id) {
            Some(i) => {
                proof {
                    lemma_map_get(self.cancel_flags@, pair_key::<bool>(), flag_val(), i as int);
                }
                let already = self.cancel_flags[i].1;
                let entry = (id, true);
                proof {
                    lemma_map_update(self.cancel_flags@, pair_key::<bool>(), flag_val(), i as int, entry);
                }
                self.cancel_flags.set(i, entry);
                !already
            },
            None => {
                proof {
                    lemma_map_absent(self.cancel_flags@, pair_key::<bool>(), flag_val(), id@);
                }
                let entry = (id, true);
                proof {
                    lemma_map_push(self.cancel_flags@, pair_key::<bool>(), flag_val(), entry);
                }
                self.cancel_flags.push(entry);
                false
            },
        }
    }

    /// Make sure a task has a cancel flag (unset when new) and return its
    /// value; called by the executor when it claims the task.
    pub fn create_cancel_token(&mut self, task_id: &str) -> (flag: bool)
        requires
            old(self).wf(),
        ensures
            final(self).wf(),
            only_flags_changed(
                old(self)@,
                final(self)@,
                if old(self)@.cancelled.contains_key(task_id@) {
                    old(self)@.cancelled
                } else {
                    old(self)@.cancelled.insert(task_id@, false)
                },
            ),
            final(self)@.cancelled.contains_key(task_id@),
            flag == final(self)@.cancelled[task_id@],
    {
        let id = String::from_str(task_id);
        match self.find_flag(&id) {
            Some(i) => {
                proof {
                    lemma_map_get(self.cancel_flags@, pair_key::<bool>(), flag_val(), i as int);
                }
                self.cancel_flags[i].1
            },
            None => {
                proof {
                    lemma_map_absent(self.cancel_flags@, pair_key::<bool>(), flag_val(), id@);
                }
                let entry = (id, false);
                proof {
                    lemma_map_push(self.cancel_flags@, pair_key::<bool>(), flag_val(), entry);
                }
                self.cancel_flags.push(entry);
                false
            },
        }
    }

    /// Whether a task's cancel flag is set (false when it has none).
    pub fn is_cancelled(&self, task_id: &str) -> (r: bool)
        requires
            self.wf(),
        ensures
            r == (self@.cancelled.contains_key(task_id@) && self@.cancelled[task_id@]),
    {
        let id = String::from_str(task_id);
        match self.find_flag(&id) {
            Some(i) => {
                proof {
                    lemma_map_get(self.cancel_flags@, pair_key::<bool>(), flag_val(), i as int);
                }
                self.cancel_flags[i].1
            },
            None => {
                proof {
                    lemma_map_absent(self.cancel_flags@, pair_key::<bool>(), flag_val(), id@);
                }
                false
            },
        }
    }
}

// ── Request handling ────────────────────────────────────────────────────────

/// The synthetic result recorded for a task cancelled before it finished.
pub open spec fn cancelled_result_spec(task_id: Seq<char>, pair_id: Seq<char>) -> VerifyResultView {
    VerifyResultView {
        task_id,
        exit_code: None,
        timed_out: false,
        duration_ms: 0,
        stdout_ref: audit_task_key_spec(task_id) + ":"@ + "stdout"@,
        stderr_ref: audit_task_key_spec(task_id) + ":"@ + "stderr"@,
        artifacts: Seq::empty(),
        executor: ("forge"@, "unknown-"@ + pair_id),
    }
}

/// The result recorded for a task of `pair_id` cancelled while pending or
/// running: no exit code, not timed out, no artifacts.
pub fn cancelled_result(task_id: &str, pair_id: &str) -> (r: VerifyResult)
    ensures
        r@ == cancelled_result_spec(task_id@, pair_id@),
{
    let mut workspace = String::from_str("unknown-");
    workspace.append(pair_id);
    let r = VerifyResult {
        task_id: String::from_str(task_id),
        exit_code: None,
        timed_out: false,
        duration_ms: 0,
        stdout_ref: audit_task_subkey(task_id, "stdout"),
        stderr_ref: audit_task_subkey(task_id, "stderr"),
        artifacts: Vec::new(),
        executor: ExecutorInfo { role: String::from_str("forge"), workspace },
    };
    assert(r@.artifacts =~= Seq::<(Seq<char>, Seq<char>)>::empty());
    r
}

/// The keys a terminal result is mirrored under: the pair's latest
/// verification (`pair:{workspace}:verification`, keyed by the executor's
/// workspace) and the task's immutable audit entry (`audit:a2a:{id}:result`).
pub fn mirror_result_keys(result: &VerifyResult) -> (keys: (String, String))
    ensures
        keys.0@ == verification_key_spec(result.executor.workspace@),
        keys.1@ == audit_task_key_spec(result.task_id@) + ":"@ + "result"@,
{
    (verification_key(result.executor.workspace.as_str()), audit_task_subkey(result.task_id.as_str(), "result"))
}

/// The audit key of a task's original request, used for replay.
pub fn task_request_key(task_id: &str) -> (key: String)
    ensures
        key@ == audit_task_key_spec(task_id@) + ":"@ + "request"@,
{
    audit_task_subkey(task_id, "request")
}

/// What `tasks/cancel` did: whether the flag was newly set, and the
/// synthetic result the task was completed with, if it was still pending or
/// running.
#[derive(Debug, Clone)]
pub struct CancelOutcome {
    pub newly_set: bool,
    pub completed: Option<VerifyResult>,
}

/// Validate and submit a verify request: the task id on success, the
/// validation error (to be logged to `audit:a2a:rejected`) otherwise.
pub fn submit_verify_request(
    relay: &mut A2ARelay,
    req: &VerifyRequest,
    body: &str,
    requester_pair_id: &str,
) -> (r: Result<String, ValidationError>)
    requires
        old(relay).wf(),
    ensures
        final(relay).wf(),
        validation_outcome(req@, requester_pair_id@, match r {
            Ok(_) => Ok(()),
            Err(e) => Err(e),
        }),
        match r {
            Ok(id) => submit_outcome(
                old(relay)@,
                req@,
                idempotency_seed_spec(req.pair_id@, body@),
                requester_pair_id@,
                id@,
                id@,
                final(relay)@,
            ) && (!old(relay)@.idempotency.contains_key(idempotency_seed_spec(req.pair_id@, body@))
                ==> is_uuid_v4_text(id@)),
            Err(_) => final(relay)@ == old(relay)@,
        },
{
    match relay.validate_verify_request(req, requester_pair_id) {
        Err(e) => Err(e),
        Ok(()) => Ok(relay.check_or_create_task(req, body, requester_pair_id)),
    }
}

impl A2ARelay {
    /// `tasks/claim`: only the Forge executor role (any letter case) may
    /// claim a pair's next pending task.
    pub fn claim_for_role(&mut self, pair_id: &str, role: &str) -> (r: Result<
        Option<TaskEntry>,
        RelayError,
    >)
        requires
            old(self).wf(),
        ensures
            final(self).wf(),
            match r {
                Ok(Some(e)) => {
                    &&& eq_ignore_ascii_case_spec(role@, "forge"@)
                    &&& pending_for(old(self)@.tasks, e.task_id@, pair_id@)
                    &&& old(self)@.tasks[e.task_id@] == e@
                    &&& only_tasks_changed(
                        old(self)@,
                        final(self)@,
                        old(self)@.tasks.insert(e.task_id@, with_state(e@, TaskState::Running)),
                    )
                },
                Ok(None) => {
                    &&& eq_ignore_ascii_case_spec(role@, "forge"@)
                    &&& forall|k: Seq<char>| !#[trigger] pending_for(old(self)@.tasks, k, pair_id@)
                    &&& final(self)@ == old(self)@
                },
                Err(e) => {
                    &&& !eq_ignore_ascii_case_spec(role@, "forge"@)
                    &&& e is ClaimNotForge
                    &&& final(self)@ == old(self)@
                },
            },
    {
        if !eq_ignore_ascii_case(role, "forge") {
            return Err(RelayError::ClaimNotForge);
        }
        Ok(self.claim_next_task(pair_id))
    }

    /// Whether a `tasks/complete` for task `task_id` from `pair_id`, with a
    /// result carrying `result`'s task id, is accepted (see
    /// `completion_accepted`); changes nothing.
    pub fn check_completion(&self, task_id: &str, pair_id: &str, result: &VerifyResult) -> (r: Result<
        (),
        RelayError,
    >)
        requires
            self.wf(),
        ensures
            r is Ok <==> completion_accepted(self@, task_id@, pair_id@, result.task_id@),
            r matches Err(e) ==> completion_refused(self@, task_id@, pair_id@, result.task_id@, e),
    {
        let id = String::from_str(task_id);
        if result.task_id != id {
            return Err(RelayError::TaskIdMismatch { carried: result.task_id.clone(), requested: id });
        }
        let pair = String::from_str(pair_id);
        match self.get_task(task_id) {
            Some(entry) => {
                if entry.request.pair_id != pair {
                    Err(RelayError::CompletePairMismatch { owner: entry.request.pair_id, claimed: pair })
                } else {
                    Ok(())
                }
            },
            None => Err(RelayError::TaskNotFound { task_id: id }),
        }
    }

    /// `tasks/complete`, second step: once the accepted result was mirrored
    /// to the store (`mirrored`), the task is completed with it. When the
    /// mirror failed the task is left as it was, and so is it when the task
    /// is gone.
    pub fn commit_completion(&mut self, task_id: &str, result: VerifyResult, mirrored: bool) -> (r:
        Result<(), RelayError>)
        requires
            old(self).wf(),
        ensures
            final(self).wf(),
            r is Ok <==> mirrored && old(self)@.tasks.contains_key(task_id@),
            r is Ok ==> only_tasks_changed(
                old(self)@,
                final(self)@,
                old(self)@.tasks.insert(task_id@, completed(old(self)@.tasks[task_id@], result@)),
            ),
            r matches Err(e) ==> final(self)@ == old(self)@ && if mirrored {
                e matches RelayError::TaskNotFound { task_id: t } && t@ == task_id@
            } else {
                e matches RelayError::MirrorFailed { task_id: t } && t@ == task_id@
            },
    {
        if !mirrored {
            return Err(RelayError::MirrorFailed { task_id: String::from_str(task_id) });
        }
        self.complete_task(task_id, result)
    }

    /// `tasks/complete` in one step: the result must carry the task's id,
    /// and a known task must belong to the caller's pair; then the task is
    /// completed.
    pub fn complete_for_pair(&mut self, task_id: &str, pair_id: &str, result: VerifyResult) -> (r:
        Result<(), RelayError>)
        requires
            old(self).wf(),
        ensures
            final(self).wf(),
            match r {
                Ok(()) => {
                    &&& result.task_id@ == task_id@
                    &&& old(self)@.tasks.contains_key(task_id@)
                    &&& old(self)@.tasks[task_id@].request.pair_id == pair_id@
                    &&& only_tasks_changed(
                        old(self)@,
                        final(self)@,
                        old(self)@.tasks.insert(
                            task_id@,
                            completed(old(self)@.tasks[task_id@], result@),
                        ),
                    )
                },
                Err(RelayError::TaskIdMismatch { carried, requested }) => {
                    &&& result.task_id@ != task_id@
                    &&& carried@ == result.task_id@
                    &&& requested@ == task_id@
                    &&& final(self)@ == old(self)@
                },
                Err(RelayError::CompletePairMismatch { owner, claimed }) => {
                    &&& result.task_id@ == task_id@
                    &&& old(self)@.tasks.contains_key(task_id@)
                    &&& owner@ == old(self)@.tasks[task_id@].request.pair_id
                    &&& owner@ != pair_id@
                    &&& claimed@ == pair_id@
                    &&& final(self)@ == old(self)@
                },
                Err(RelayError::TaskNotFound { task_id: t }) => {
                    &&& result.task_id@ == task_id@
                    &&& !old(self)@.tasks.contains_key(task_id@)
                    &&& t@ == task_id@
                    &&& final(self)@ == old(self)@
                },
                Err(_) => false,
            },
    {
        match self.check_completion(task_id, pair_id, &result) {
            Err(e) => Err(e),
            Ok(()) => self.complete_task(task_id, result),
        }
    }

    /// `tasks/cancel`: a known task must belong to the caller's pair. Sets
    /// the cancel flag; a task still pending or running then moves to
    /// `Cancelled`, closed with the synthetic cancelled result.
    pub fn cancel_task(&mut self, task_id: &str, pair_id: &str) -> (r: Result<CancelOutcome, RelayError>)
        requires
            old(self).wf(),
        ensures
            final(self).wf(),
            match r {
                Ok(o) => {
                    let old_tasks = old(self)@.tasks;
                    let live = old_tasks.contains_key(task_id@) && (old_tasks[task_id@].state
                        == TaskState::Pending || old_tasks[task_id@].state == TaskState::Running);
                    &&& old_tasks.contains_key(task_id@) ==> old_tasks[task_id@].request.pair_id
                        == pair_id@
                    &&& o.newly_set == newly_cancelled(old(self)@.cancelled, task_id@)
                    &&& final(self)@.cancelled == old(self)@.cancelled.insert(task_id@, true)
                    &&& final(self)@.sessions == old(self)@.sessions
                    &&& final(self)@.idempotency == old(self)@.idempotency
                    &&& final(self)@.buffers == old(self)@.buffers
                    &&& if live {
                        &&& o.completed matches Some(res) && res@ == cancelled_result_spec(
                            task_id@,
                            old_tasks[task_id@].request.pair_id,
                        )
                        &&& final(self)@.tasks == old_tasks.insert(
                            task_id@,
                            cancelled_entry(
                                old_tasks[task_id@],
                                cancelled_result_spec(task_id@, old_tasks[task_id@].request.pair_id),
                            ),
                        )
                    } else {
                        &&& o.completed is None
                        &&& final(self)@.tasks == old_tasks
                    }
                },
                Err(e) => {
                    &&& old(self)@.tasks.contains_key(task_id@)
                    &&& old(self)@.tasks[task_id@].request.pair_id != pair_id@
                    &&& e matches RelayError::CancelPairMismatch { owner, claimed } && owner@
                        == old(self)@.tasks[task_id@].request.pair_id && claimed@ == pair_id@
                    &&& final(self)@ == old(self)@
                },
            },
    {
        let pair = String::from_str(pair_id);
        match self.get_task(task_id) {
            Some(entry) => {
                if entry.request.pair_id != pair {
                    return Err(
                        RelayError::CancelPairMismatch { owner: entry.request.pair_id, claimed: pair },
                    );
                }
            },
            None => {},
        }
        let newly_set = self.mark_cancelled(task_id);
        let completed = match self.get_task(task_id) {
            Some(entry) => {
                if entry.state == TaskState::Running || entry.state == TaskState::Pending {
                    let res = cancelled_result(task_id, entry.request.pair_id.as_str());
                    let kept = res.duplicate();
                    let done = self.settle_task(task_id, TaskState::Cancelled, res);
                    assert(done is Ok);
                    Some(kept)
                } else {
                    None
                }
            },
            None => None,
        };
        Ok(CancelOutcome { newly_set, completed })
    }
}

// ── Laws ────────────────────────────────────────────────────────────────────

/// Submitting the same request body for the same pair twice yields the same
/// task id, and the second submission changes nothing.
pub proof fn resubmission_is_idempotent(
    r0: RelayView,
    r1: RelayView,
    r2: RelayView,
    req: VerifyRequestView,
    key: Seq<char>,
    requester1: Seq<char>,
    requester2: Seq<char>,
    fresh1: Seq<char>,
    fresh2: Seq<char>,
    id1: Seq<char>,
    id2: Seq<char>,
)
    requires
        submit_outcome(r0, req, key, requester1, fresh1, id1, r1),
        submit_outcome(r1, req, key, requester2, fresh2, id2, r2),
    ensures
        id2 == id1,
        r2 == r1,
{
    if !r0.idempotency.contains_key(key) {
        assert(r1.idempotency.contains_key(key));
        assert(r1.idempotency[key] == fresh1);
    }
}

/// A newly submitted task is pending, belongs to the request's pair and has
/// an empty progress buffer unless one was already kept under its id.
pub proof fn new_submission_is_pending(
    r0: RelayView,
    r1: RelayView,
    req: VerifyRequestView,
    key: Seq<char>,
    requester: Seq<char>,
    fresh: Seq<char>,
    id: Seq<char>,
)
    requires
        submit_outcome(r0, req, key, requester, fresh, id, r1),
        !r0.idempotency.contains_key(key),
    ensures
        pending_for(r1.tasks, id, req.pair_id),
        r1.tasks[id].request == req,
        r1.idempotency[key] == id,
        r1.buffers.contains_key(id),
{
}

/// A task returned by a claim is running afterwards, so no later claim of
/// the pair can return it again (until something makes it pending anew).
pub proof fn claimed_task_is_not_pending(
    old: RelayView,
    new: RelayView,
    pair_id: Seq<char>,
    e: TaskEntryView,
)
    requires
        pending_for(old.tasks, e.task_id, pair_id),
        only_tasks_changed(old, new, old.tasks.insert(e.task_id, with_state(e, TaskState::Running))),
    ensures
        new.tasks.contains_key(e.task_id),
        new.tasks[e.task_id].state == TaskState::Running,
        !pending_for(new.tasks, e.task_id, pair_id),
        forall|k: Seq<char>| k != e.task_id ==> new.tasks.get(k) == old.tasks.get(k),
{
}

/// After a completion, reading the task gives back the completed state and
/// exactly the submitted result; the request is unchanged.
pub proof fn completion_is_read_back(
    old: RelayView,
    new: RelayView,
    task_id: Seq<char>,
    result: VerifyResultView,
)
    requires
        old.tasks.contains_key(task_id),
        only_tasks_changed(old, new, old.tasks.insert(task_id, completed(old.tasks[task_id], result))),
    ensures
        new.tasks.contains_key(task_id),
        new.tasks[task_id].state == TaskState::Completed,
        new.tasks[task_id].result == Some(result),
        new.tasks[task_id].request == old.tasks[task_id].request,
{
}

/// A cancel flag is reported newly set at most once: after one cancellation
/// the flag reads as set and a second cancellation reports no change.
pub proof fn cancellation_is_reported_once(
    flags0: Map<Seq<char>, bool>,
    task_id: Seq<char>,
    newly1: bool,
    newly2: bool,
)
    requires
        newly1 == newly_cancelled(flags0, task_id),
        newly2 == newly_cancelled(flags0.insert(task_id, true), task_id),
    ensures
        !newly2,
        flags0.insert(task_id, true)[task_id],
        flags0.insert(task_id, true).insert(task_id, true) == flags0.insert(task_id, true),
{
    assert(flags0.insert(task_id, true).insert(task_id, true) =~= flags0.insert(task_id, true));
}

/// Two successive pushes to one progress buffer get consecutive sequence
/// numbers.
pub proof fn pushes_get_consecutive_seqs(
    b0: EventBufferView,
    b1: EventBufferView,
    e1: BufferedEvent,
    e2: BufferedEvent,
)
    requires
        e1.seq == b0.next_seq,
        b1.next_seq == b0.next_seq + 1,
        e2.seq == b1.next_seq,
    ensures
        e2.seq == e1.seq + 1,
{
}

/// Replaying from sequence 0 gives back every buffered event, oldest first.
pub proof fn replay_from_zero_is_everything(events: Seq<BufferedEvent>)
    ensures
        events.filter(since(0)) == events,
    decreases events.len(),
{
    reveal(Seq::filter);
    if events.len() > 0 {
        replay_from_zero_is_everything(events.drop_last());
        assert(events.drop_last().push(events.last()) =~= events);
    } else {
        assert(events.filter(since(0)) =~= events);
    }
}

} // verus!
