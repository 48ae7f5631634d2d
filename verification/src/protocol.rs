//! The `verify` A2A task payloads and the command allowlist shared by the
//! relay and its clients.

use vstd::prelude::*;
use vstd::string::StringExecFns;

verus! {

/// A lowercase hexadecimal digit.
pub open spec fn is_lower_hex(c: char) -> bool {
    ('0' <= c <= '9') || ('a' <= c <= 'f')
}

/// The text of a version-4 UUID in hyphenated lowercase form
/// (`xxxxxxxx-xxxx-4xxx-yxxx-xxxxxxxxxxxx`, `y` one of `8`, `9`, `a`, `b`),
/// the form of a task id.
pub open spec fn is_uuid_v4_text(s: Seq<char>) -> bool {
    &&& s.len() == 36
    &&& forall|i: int|
        0 <= i < 36 ==> if i == 8 || i == 13 || i == 18 || i == 23 {
            #[trigger] s[i] == '-'
        } else {
            is_lower_hex(s[i])
        }
    &&& s[14] == '4'
    &&& (s[19] == '8' || s[19] == '9' || s[19] == 'a' || s[19] == 'b')
}

/// The only `task_type` value currently defined.
pub const TASK_TYPE_VERIFY: &'static str = "verify";

/// Kind of verification being requested. Only `Command` is run in v1;
/// `ArtifactCheck` is reserved.
#[derive(Debug, Clone, Copy, PartialEq, Eq, Structural)]
pub enum VerifyKind {
    Command,
    ArtifactCheck,
}

/// Where the executor runs the command, relative to its own workspace.
#[derive(Debug, Clone, Copy, PartialEq, Eq, Structural)]
pub enum VerifyCwd {
    Repo,
    Worktree,
}

/// Expected outcome of a verification.
#[derive(Debug, Clone)]
pub struct VerifyExpect {
    /// Expected exit code; `None` accepts any exit code.
    pub exit_code: Option<i32>,
    /// Repo-relative paths whose sha256 should be reported back.
    pub artifacts: Vec<String>,
}

impl Default for VerifyExpect {
    fn default() -> (e: Self)
        ensures
            e.exit_code is None,
            e.artifacts@.len() == 0,
    {
        VerifyExpect { exit_code: None, artifacts: Vec::new() }
    }
}

/// Sentinel -> Forge (via the relay) verification request.
#[derive(Debug, Clone)]
pub struct VerifyRequest {
    pub pair_id: String,
    pub kind: VerifyKind,
    pub cwd: VerifyCwd,
    pub argv: Vec<String>,
    pub timeout_secs: u64,
    pub env_allowlist: Vec<String>,
    pub expect: VerifyExpect,
}

/// The idempotency seed of a request: `{pair_id}:{body}` where `body` is the
/// canonical JSON encoding of the request.
pub open spec fn idempotency_seed_spec(pair_id: Seq<char>, body: Seq<char>) -> Seq<char> {
    pair_id + ":"@ + body
}

impl VerifyRequest {
    /// Idempotency key `(pair_id, request body)`. `body` is the canonical JSON
    /// encoding of this request (produced by the serde layer around the
    /// library), so the relay and every client derive the same seed.
    pub fn idempotency_seed(&self, body: &str) -> (seed: String)
        ensures
            seed@ == idempotency_seed_spec(self.pair_id@, body@),
    {
        let mut seed = self.pair_id.clone();
        seed.append(":");
        seed.append(body);
        seed
    }
}

/// The seed starts with the pair id and a colon, and for one body two pair
/// ids give the same seed only if they are equal.
pub proof fn idempotency_seed_is_pair_scoped(p1: Seq<char>, p2: Seq<char>, body: Seq<char>)
    ensures
        idempotency_seed_spec(p1, body).subrange(0, p1.len() + 1int) == p1 + ":"@,
        idempotency_seed_spec(p1, body) == idempotency_seed_spec(p2, body) ==> p1 == p2,
{
    reveal_strlit(":");
    let s1 = idempotency_seed_spec(p1, body);
    let s2 = idempotency_seed_spec(p2, body);
    assert(s1.len() == p1.len() + 1 + body.len());
    assert(s2.len() == p2.len() + 1 + body.len());
    assert(s1.subrange(0, p1.len() + 1int) =~= p1 + ":"@);
    if s1 == s2 {
        assert(p1.len() == p2.len());
        assert forall|i: int| 0 <= i < p1.len() implies p1[i] == p2[i] by {
            assert(s1[i] == p1[i]);
            assert(s2[i] == p2[i]);
        }
        assert(p1 =~= p2);
    }
}

/// A single content-addressed artifact reported back by the executor.
#[derive(Debug, Clone)]
pub struct VerifyArtifact {
    pub path: String,
    pub sha256: String,
}

/// Which workspace actually ran the command.
#[derive(Debug, Clone)]
pub struct ExecutorInfo {
    pub role: String,
    pub workspace: String,
}

/// Terminal result of a `verify` task.
#[derive(Debug, Clone)]
pub struct VerifyResult {
    pub task_id: String,
    pub exit_code: Option<i32>,
    pub timed_out: bool,
    pub duration_ms: u64,
    pub stdout_ref: String,
    pub stderr_ref: String,
    pub artifacts: Vec<VerifyArtifact>,
    pub executor: ExecutorInfo,
}

/// A result satisfies an expectation iff it did not time out and, when an
/// exit code is expected, it exited with exactly that code.
pub open spec fn satisfies_spec(
    timed_out: bool,
    exit_code: Option<i32>,
    expected: Option<i32>,
) -> bool {
    !timed_out && match expected {
        Some(e) => exit_code == Some(e),
        None => true,
    }
}

impl VerifyResult {
    /// True iff the result satisfies the request's `expect` clause. A
    /// timed-out task never passes.
    pub fn satisfies(&self, expect: &VerifyExpect) -> (ok: bool)
        ensures
            ok == satisfies_spec(self.timed_out, self.exit_code, expect.exit_code),
    {
        if self.timed_out {
            return false;
        }
        match expect.exit_code {
            Some(expected) => match self.exit_code {
                Some(code) => code == expected,
                None => false,
            },
            None => true,
        }
    }
}

/// A timed-out result never satisfies any expectation.
pub proof fn timeout_never_satisfies(exit_code: Option<i32>, expected: Option<i32>)
    ensures
        !satisfies_spec(true, exit_code, expected),
{
}

/// Incremental progress event streamed while a `verify` task runs.
#[derive(Debug, Clone)]
pub enum VerifyProgressEvent {
    Stdout { chunk: String },
    Stderr { chunk: String },
}

impl VerifyProgressEvent {
    pub open spec fn chunk_spec(&self) -> Seq<char> {
        match self {
            VerifyProgressEvent::Stdout { chunk } => chunk@,
            VerifyProgressEvent::Stderr { chunk } => chunk@,
        }
    }

    /// The text carried by the event.
    pub fn chunk(&self) -> (c: &String)
        ensures
            c@ == self.chunk_spec(),
    {
        match self {
            VerifyProgressEvent::Stdout { chunk } => chunk,
            VerifyProgressEvent::Stderr { chunk } => chunk,
        }
    }
}

// ── Exact copies ────────────────────────────────────────────────────────────

/// A copy of a list of strings.
pub fn copy_strings(v: &Vec<String>) -> (r: Vec<String>)
    ensures
        r@ == v@,
{
    let mut r: Vec<String> = Vec::new();
    let mut i: usize = 0;
    while i < v.len()
        invariant
            i <= v.len(),
            r@ == v@.take(i as int),
        decreases v.len() - i,
    {
        r.push(v[i].clone());
        assert(v@.take(i as int + 1) =~= v@.take(i as int).push(v@[i as int]));
        i = i + 1;
    }
    assert(v@.take(v.len() as int) =~= v@);
    r
}

pub struct VerifyExpectView {
    pub exit_code: Option<i32>,
    pub artifacts: Seq<Seq<char>>,
}

impl View for VerifyExpect {
    type V = VerifyExpectView;

    open spec fn view(&self) -> VerifyExpectView {
        VerifyExpectView { exit_code: self.exit_code, artifacts: self.artifacts.deep_view() }
    }
}

pub struct VerifyRequestView {
    pub pair_id: Seq<char>,
    pub kind: VerifyKind,
    pub cwd: VerifyCwd,
    pub argv: Seq<Seq<char>>,
    pub timeout_secs: u64,
    pub env_allowlist: Seq<Seq<char>>,
    pub expect: VerifyExpectView,
}

impl View for VerifyRequest {
    type V = VerifyRequestView;

    open spec fn view(&self) -> VerifyRequestView {
        VerifyRequestView {
            pair_id: self.pair_id@,
            kind: self.kind,
            cwd: self.cwd,
            argv: self.argv.deep_view(),
            timeout_secs: self.timeout_secs,
            env_allowlist: self.env_allowlist.deep_view(),
            expect: self.expect@,
        }
    }
}

pub struct VerifyResultView {
    pub task_id: Seq<char>,
    pub exit_code: Option<i32>,
    pub timed_out: bool,
    pub duration_ms: u64,
    pub stdout_ref: Seq<char>,
    pub stderr_ref: Seq<char>,
    /// `(path, sha256)` of each artifact.
    pub artifacts: Seq<(Seq<char>, Seq<char>)>,
    /// `(role, workspace)` of the executor.
    pub executor: (Seq<char>, Seq<char>),
}

impl View for VerifyResult {
    type V = VerifyResultView;

    open spec fn view(&self) -> VerifyResultView {
        VerifyResultView {
            task_id: self.task_id@,
            exit_code: self.exit_code,
            timed_out: self.timed_out,
            duration_ms: self.duration_ms,
            stdout_ref: self.stdout_ref@,
            stderr_ref: self.stderr_ref@,
            artifacts: self.artifacts@.map_values(|a: VerifyArtifact| (a.path@, a.sha256@)),
            executor: (self.executor.role@, self.executor.workspace@),
        }
    }
}

impl VerifyExpect {
    /// An exact copy.
    pub fn duplicate(&self) -> (r: Self)
        ensures
            r@ == self@,
    {
        let r = VerifyExpect { exit_code: self.exit_code, artifacts: copy_strings(&self.artifacts) };
        assert(r.artifacts.deep_view() =~= self.artifacts.deep_view());
        r
    }
}

impl VerifyRequest {
    /// An exact copy.
    pub fn duplicate(&self) -> (r: Self)
        ensures
            r@ == self@,
    {
        let r = VerifyRequest {
            pair_id: self.pair_id.clone(),
            kind: self.kind,
            cwd: self.cwd,
            argv: copy_strings(&self.argv),
            timeout_secs: self.timeout_secs,
            env_allowlist: copy_strings(&self.env_allowlist),
            expect: self.expect.duplicate(),
        };
        assert(r.argv.deep_view() =~= self.argv.deep_view());
        assert(r.env_allowlist.deep_view() =~= self.env_allowlist.deep_view());
        r
    }
}

impl VerifyArtifact {
    /// An exact copy.
    pub fn duplicate(&self) -> (r: Self)
        ensures
            r == *self,
    {
        VerifyArtifact { path: self.path.clone(), sha256: self.sha256.clone() }
    }
}

impl ExecutorInfo {
    /// An exact copy.
    pub fn duplicate(&self) -> (r: Self)
        ensures
            r == *self,
    {
        ExecutorInfo { role: self.role.clone(), workspace: self.workspace.clone() }
    }
}

impl VerifyResult {
    /// An exact copy.
    pub fn duplicate(&self) -> (r: Self)
        ensures
            r@ == self@,
    {
        let mut artifacts: Vec<VerifyArtifact> = Vec::new();
        let mut i: usize = 0;
        while i < self.artifacts.len()
            invariant
                i <= self.artifacts.len(),
                artifacts@ == self.artifacts@.take(i as int),
            decreases self.artifacts.len() - i,
        {
            artifacts.push(self.artifacts[i].duplicate());
            assert(self.artifacts@.take(i as int + 1) =~= self.artifacts@.take(i as int).push(
                self.artifacts@[i as int],
            ));
            i = i + 1;
        }
        assert(self.artifacts@.take(self.artifacts.len() as int) =~= self.artifacts@);
        let r = VerifyResult {
            task_id: self.task_id.clone(),
            exit_code: self.exit_code,
            timed_out: self.timed_out,
            duration_ms: self.duration_ms,
            stdout_ref: self.stdout_ref.clone(),
            stderr_ref: self.stderr_ref.clone(),
            artifacts,
            executor: self.executor.duplicate(),
        };
        assert(r@.artifacts =~= self@.artifacts);
        r
    }
}

impl VerifyProgressEvent {
    /// An exact copy.
    pub fn duplicate(&self) -> (r: Self)
        ensures
            r == *self,
    {
        match self {
            VerifyProgressEvent::Stdout { chunk } => VerifyProgressEvent::Stdout {
                chunk: chunk.clone(),
            },
            VerifyProgressEvent::Stderr { chunk } => VerifyProgressEvent::Stderr {
                chunk: chunk.clone(),
            },
        }
    }
}

// ── Command allowlist ──────────────────────────────────────────────────────

/// Allowlisted command prefixes, enforced by the relay before dispatch.
pub open spec fn command_allowlist() -> Seq<Seq<Seq<char>>> {
    seq![
        seq!["cargo"@, "test"@],
        seq!["cargo"@, "build"@],
        seq!["cargo"@, "clippy"@],
        seq!["npm"@, "test"@],
        seq!["pnpm"@, "test"@],
        seq!["make"@, "test"@],
        seq!["bun"@, "test"@],
    ]
}

/// `prefix` is a prefix of `argv`.
pub open spec fn is_argv_prefix(prefix: Seq<Seq<char>>, argv: Seq<Seq<char>>) -> bool {
    prefix.len() <= argv.len() && argv.subrange(0, prefix.len() as int) == prefix
}

/// `argv` is non-empty and starts with one of the allowlisted prefixes.
pub open spec fn is_allowlisted_spec(argv: Seq<Seq<char>>) -> bool {
    argv.len() > 0 && exists|k: int|
        0 <= k < command_allowlist().len() && #[trigger] is_argv_prefix(
            command_allowlist()[k],
            argv,
        )
}

fn pair(a: &str, b: &str) -> (v: Vec<String>)
    ensures
        v.deep_view() == seq![a@, b@],
{
    let v = vec![String::from_str(a), String::from_str(b)];
    assert(v.deep_view() =~= seq![a@, b@]);
    v
}

/// The allowlisted command prefixes, in order.
pub fn default_command_allowlist() -> (list: Vec<Vec<String>>)
    ensures
        list.deep_view() == command_allowlist(),
{
    let mut list: Vec<Vec<String>> = Vec::new();
    list.push(pair("cargo", "test"));
    list.push(pair("cargo", "build"));
    list.push(pair("cargo", "clippy"));
    list.push(pair("npm", "test"));
    list.push(pair("pnpm", "test"));
    list.push(pair("make", "test"));
    list.push(pair("bun", "test"));
    assert(list.deep_view() =~= command_allowlist());
    list
}

fn starts_with_prefix(prefix: &Vec<String>, argv: &[String]) -> (ok: bool)
    ensures
        ok == is_argv_prefix(prefix.deep_view(), argv.deep_view()),
{
    let ghost p = prefix.deep_view();
    let ghost a = argv.deep_view();
    if prefix.len() > argv.len() {
        return false;
    }
    let mut i: usize = 0;
    while i < prefix.len()
        invariant
            p == prefix.deep_view(),
            a == argv.deep_view(),
            prefix.len() <= argv.len(),
            i <= prefix.len(),
            forall|j: int| 0 <= j < i ==> a[j] == p[j],
        decreases prefix.len() - i,
    {
        if prefix[i] != argv[i] {
            assert(a.subrange(0, p.len() as int)[i as int] != p[i as int]);
            return false;
        }
        i = i + 1;
    }
    assert(a.subrange(0, p.len() as int) =~= p);
    true
}

/// True iff `argv` starts with one of the allowlisted command prefixes.
/// Empty `argv` is always rejected.
pub fn is_allowlisted(argv: &[String]) -> (ok: bool)
    ensures
        ok == is_allowlisted_spec(argv.deep_view()),
{
    if argv.len() == 0 {
        return false;
    }
    let list = default_command_allowlist();
    let mut k: usize = 0;
    while k < list.len()
        invariant
            list.deep_view() == command_allowlist(),
            argv.len() > 0,
            k <= list.len(),
            forall|j: int| 0 <= j < k ==> !is_argv_prefix(#[trigger] command_allowlist()[j], argv.deep_view()),
        decreases list.len() - k,
    {
        if starts_with_prefix(&list[k], argv) {
            assert(is_argv_prefix(command_allowlist()[k as int], argv.deep_view()));
            return true;
        }
        k = k + 1;
    }
    false
}

/// Allowlisting looks at the command prefix only: appending arguments (such
/// as `--package foo`) to an allowlisted argv keeps it allowlisted.
pub proof fn allowlisting_survives_extra_arguments(argv: Seq<Seq<char>>, extra: Seq<Seq<char>>)
    requires
        is_allowlisted_spec(argv),
    ensures
        is_allowlisted_spec(argv + extra),
{
    let k = choose|k: int|
        0 <= k < command_allowlist().len() && #[trigger] is_argv_prefix(command_allowlist()[k], argv);
    let p = command_allowlist()[k];
    assert((argv + extra).subrange(0, p.len() as int) =~= argv.subrange(0, p.len() as int));
    assert(is_argv_prefix(p, argv + extra));
}

/// Every allowlisted prefix has two tokens, so an argv of fewer than two
/// (such as `["cargo"]`, `["bash"]` or none at all) is never allowlisted.
pub proof fn short_argv_is_never_allowlisted(argv: Seq<Seq<char>>)
    requires
        argv.len() < 2,
    ensures
        !is_allowlisted_spec(argv),
{
    assert forall|k: int| 0 <= k < command_allowlist().len() implies !#[trigger] is_argv_prefix(
        command_allowlist()[k],
        argv,
    ) by {
        assert(command_allowlist()[k].len() == 2);
    }
}

} // verus!
