//! OpenFlows core logic: the A2A `verify` wire contract, the relay's task
//! table, progress buffers and JSON-RPC methods, the phase-aware tool guards
//! for the FORGE and SENTINEL roles, the harness gating rules, the sandbox
//! executor's decisions and workspace provisioning.

pub mod keys;
pub mod protocol;
pub mod events;
pub mod table;
pub mod relay;
pub mod json;
pub mod rpc;
pub mod client;

pub mod text;
pub mod shell;
pub mod hooks;
pub mod guard;
pub mod sentinel;
pub mod bootstrap;

pub mod harness;
pub mod executor;
pub mod provision;

mod outside;
