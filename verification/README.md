# openflows

The rules of OpenFlows' SENTINEL/FORGE pairing, written in Verus with
specifications and proofs:

- `protocol`, `keys` — the A2A `verify` task payloads, the command allowlist,
  result satisfaction and the store keys of verification artifacts.
- `events` — the bounded per-task progress buffer (1000 events / 1 MiB,
  FIFO eviction, consecutive sequence numbers, replay).
- `relay`, `table` — the relay's state: sessions, idempotent task
  submission, claim/complete/cancel, progress buffers and cancel flags, with
  the request validation rules; tables are vectors denoting finite maps.
- `rpc`, `json`, `client` — the relay's JSON-RPC methods (parameters, effect,
  answer) and the harness client's envelopes and reply reading.
- `hooks`, `shell`, `text`, `guard`, `sentinel` — the phase-aware
  pre-tool-use guards of FORGE and SENTINEL, down to the shell-command write
  detection they rest on.
- `harness` — phases, verdicts, gate approvals and ticket keys of the worker
  harness.
- `executor`, `bootstrap` — the sandbox executor's decisions (task id, exit
  code, output tails, result and store writes) and the model-context cap.
- `provision` — what provisioning a role writes into a workspace.
- `outside` — the few trusted calls into std, serde_json, chrono and uuid.

`app/` holds the I/O around the library: the axum relay server, the reqwest
client, the process executor, the Redis-backed harness store and the
provisioning transport, with serde copies of the library's types.
