//! Redis key helpers for A2A verification artifacts.
//!
//! These keys are unnamespaced: the harness applies its `ns:{tenant}:` prefix
//! on top (see `harness::namespaced_key`).

use vstd::prelude::*;
use vstd::string::StringExecFns;

verus! {

/// `pair:{pair_id}:verification`: where the latest terminal result of a
/// pair's verification is mirrored.
pub open spec fn verification_key_spec(pair_id: Seq<char>) -> Seq<char> {
    "pair:"@ + pair_id + ":verification"@
}

/// `audit:a2a:{task_id}`: prefix of one task's audit trail.
pub open spec fn audit_task_key_spec(task_id: Seq<char>) -> Seq<char> {
    "audit:a2a:"@ + task_id
}

/// Key under which the terminal `VerifyResult` of a pair's most recent
/// verification is mirrored.
pub fn verification_key(pair_id: &str) -> (key: String)
    ensures
        key@ == verification_key_spec(pair_id@),
{
    let mut key = String::from_str("pair:");
    key.append(pair_id);
    key.append(":verification");
    key
}

/// Key prefix for a specific A2A task's audit trail. Callers append
/// `:stdout`, `:stderr`, `:request` or `:result`.
pub fn audit_task_key(task_id: &str) -> (key: String)
    ensures
        key@ == audit_task_key_spec(task_id@),
{
    let mut key = String::from_str("audit:a2a:");
    key.append(task_id);
    key
}

/// Key for the log of requests rejected by the relay's validation.
pub fn audit_rejected_key() -> (key: &'static str)
    ensures
        key@ == "audit:a2a:rejected"@,
{
    "audit:a2a:rejected"
}

/// `audit:a2a:{task_id}:{suffix}`, e.g. the `:result` or `:stdout` entry of a
/// task's audit trail.
pub fn audit_task_subkey(task_id: &str, suffix: &str) -> (key: String)
    ensures
        key@ == audit_task_key_spec(task_id@) + ":"@ + suffix@,
{
    let mut key = audit_task_key(task_id);
    key.append(":");
    key.append(suffix);
    key
}

/// Distinct pair ids give distinct verification keys.
pub proof fn verification_key_is_pair_scoped(a: Seq<char>, b: Seq<char>)
    requires
        a != b,
    ensures
        verification_key_spec(a) != verification_key_spec(b),
{
    let ka = verification_key_spec(a);
    let kb = verification_key_spec(b);
    if ka == kb {
        let p = "pair:"@;
        let s = ":verification"@;
        assert(ka.len() == kb.len());
        assert(a.len() == b.len());
        assert forall|i: int| 0 <= i < a.len() implies a[i] == b[i] by {
            assert(ka[p.len() + i] == a[i]);
            assert(kb[p.len() + i] == b[i]);
        }
        assert(a =~= b);
    }
}

} // verus!
