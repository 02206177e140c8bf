//! Core of a command-line agent that lets a user converse with a remote
//! language model while granting it read-only access to a local repository
//! through a small set of named tools.
//!
//! This crate holds the verified logic: the path confinement guard, the
//! JSON framing of tool arguments and results, the conversation log with
//! its overflow recovery, and the turn-taking state machine.  The
//! unverified rim (network transport, terminal rendering, filesystem and
//! repository access) lives with the binary that drives this library.

pub mod config;
pub mod error;
pub mod functions;
pub mod json;
pub mod openai;
pub mod orchestrator;
pub mod text;
