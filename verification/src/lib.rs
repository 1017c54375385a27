//! A minimal, configuration-driven task runner.
//!
//! A configuration file declares named targets, each an ordered list of
//! command lines.  The library parses such a configuration from TOML text,
//! resolves a target by name, and drives the fail-fast execution of its
//! command sequence as a step machine: the caller performs each process
//! spawn and hands the outcome back, so the engine's decisions are verified
//! while the host process invocation stays at the caller's edge.

pub mod config;
pub mod engine;
