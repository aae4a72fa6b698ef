//! Verified core of an infrastructure-as-code automation tool.
//!
//! The library discovers the dependency graph of a tree of Terraform-style
//! modules, classifies each module as stateful or stateless, maps a set of
//! changed files to the set of affected stateful modules, resolves per-module
//! and per-workspace configuration, and schedules plan/apply operations with
//! strict same-module serialization.  All data structures and algorithms here
//! carry machine-checked contracts; the thin I/O shell (git, the filesystem,
//! the external provisioning binary) lives outside the library and hands it
//! plain values.

pub mod changes;
pub mod classify;
pub mod cli;
pub mod commands;
pub mod config;
pub mod display;
pub mod errors;
pub mod graph;
pub mod operations;
pub mod paths;
pub mod processor;
pub mod resolver;
pub mod text;
