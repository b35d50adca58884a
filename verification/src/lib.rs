//! A verified core for a small interactive command shell.
//!
//! The library models the shell's command execution engine: splitting an
//! input line into tokens, expanding `$NAME` variable references against an
//! environment store, classifying `KEY=VALUE` assignment tokens, and
//! dispatching built-in commands (`cd`, `exit`, `unset`, `help`) or external
//! spawns. All process, terminal and file-system side effects are performed
//! by the surrounding binary, which drives the engine through the `Step`
//! values it returns.

pub mod engine;
pub mod env_store;
pub mod history;
pub mod laws;
pub mod script;
pub mod text;
