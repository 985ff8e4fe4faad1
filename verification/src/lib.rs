//! Gated workflows for a workspace: an ordered list of phases, each closed
//! by a gate that is approved or sent back, with a ledger of every decision.
//!
//! - `model`: the configuration, the stored state, the snapshots and errors.
//! - `validate`: when a configuration is valid and a state fits it.
//! - `defaults`: the built-in workflow and the pending state.
//! - `gate`: the current gate, snapshots, approvals and returns.
//! - `init`: initializing a workspace, one file action at a time.
//! - `cli`: splitting and parsing `workflow` command lines.
//! - `render`: the text shown for each command.
//! - `paths`, `text`: path and character helpers.
//! - `laws`: what holds across calls.

pub mod cli;
pub mod defaults;
pub mod gate;
pub mod init;
pub mod laws;
pub mod model;
pub mod paths;
pub mod render;
pub mod text;
pub mod validate;
