//! Host-side core of a script-execution runtime: module resolution and
//! loading with an in-memory virtual-module registry, mediation of
//! permission prompts between execution threads and a human operator,
//! a per-task lifecycle state machine, and a bounded-retry supervisor
//! for the long-lived main execution context.

pub mod assoc;
pub mod events;
pub mod host_state;
pub mod lifecycle;
pub mod module_loader;
pub mod permissions;
pub mod resolve;
pub mod smtp;
pub mod supervisor;
pub mod strutil;
pub mod types;

pub use types::{PermissionPrompt, PermissionsResponse, PromptDecision};
