//! Bridge between a conversation runtime and UI surfaces.
//!
//! - `subscriptions`: which UI target each conversation's events go to, with
//!   the decisions of the per-subscription delivery task.
//! - `snapshots`: per-conversation base and turn snapshots captured once each
//!   under concurrent callers, and the commits a diff between turns uses.
//! - `review`: the review requests answered from a snapshot store.
//! - `workspace`, `shell_env`, `approvals`, `registry`, `commands`: workspace
//!   defaults and labels, the login-shell environment, approval answers,
//!   command metadata for client generation, and plain request types.
//! - `keyed`, `text`: string-keyed tables and character helpers.
pub mod keyed;
pub mod text;
pub mod snapshots;
pub mod subscriptions;
pub mod review;
pub mod commands;
pub mod registry;
pub mod workspace;
pub mod shell_env;
pub mod approvals;
