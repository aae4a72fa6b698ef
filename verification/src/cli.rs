//! Command-line argument records and the tolerant boolean-flag parsing the
//! commands use.  Parsing the actual command line happens outside the
//! library; these are the plain values it hands in.

use vstd::prelude::*;
use crate::text::str_eq;

verus! {

/// Top-level arguments.
pub struct Args {
    /// Path to a specific configuration file.
    pub config: Option<String>,
    /// Disable configuration file loading (`--no-config[=BOOL]`).
    pub no_config: Option<String>,
    /// The subcommand to run.
    pub command: Commands,
}

/// The subcommands.
pub enum Commands {
    /// Scan for changed modules.
    Scan(ScanArgs),
    /// Generate plans for changed modules.
    Plan(PlanArgs),
    /// Apply changes.
    Apply(ApplyArgs),
}

/// Arguments of the scan command.
pub struct ScanArgs {
    /// Root directory to scan for modules.
    pub path: String,
    /// Process all stateful modules regardless of changes.
    pub all: Option<String>,
    /// Default branch to compare against for changes.
    pub default_branch: String,
    /// How many recent commits local trunk detection examines.
    pub recent_commits: u32,
}

/// Arguments of the plan command.
pub struct PlanArgs {
    /// Root directory containing modules.
    pub path: String,
    /// Directory to save generated plan files.
    pub output_dir: Option<String>,
    /// Workspace names to skip.
    pub ignore_workspaces: Option<Vec<String>>,
    /// Process all stateful modules regardless of changes.
    pub all: Option<String>,
    /// Variable files to use.
    pub var_files: Option<Vec<String>>,
    /// Stream command output while it runs.
    pub watch: Option<String>,
    /// Number of modules to process in parallel (clamped to at most 4).
    pub parallel: u32,
    /// Default branch to compare against for changes.
    pub default_branch: String,
    /// How many recent commits local trunk detection examines.
    pub recent_commits: u32,
}

/// Arguments of the apply command.
pub struct ApplyArgs {
    /// Root directory containing modules.
    pub path: String,
    /// Run in dry-run mode (plan instead of apply); defaults to on.
    pub dry_run: String,
    /// Workspace names to skip.
    pub ignore_workspaces: Option<Vec<String>>,
    /// Process all stateful modules regardless of changes.
    pub all: Option<String>,
    /// Variable files to use.
    pub var_files: Option<Vec<String>>,
    /// Stream command output while it runs.
    pub watch: Option<String>,
    /// Number of modules to process in parallel (clamped to at most 4).
    pub parallel: u32,
    /// Default branch to compare against for changes.
    pub default_branch: String,
    /// How many recent commits local trunk detection examines.
    pub recent_commits: u32,
}

/// The tolerant boolean reading: exactly `true` and `false` parse; anything
/// else falls back to the default.
pub open spec fn parse_bool_or(s: Seq<char>, default: bool) -> bool {
    if s == "true"@ {
        true
    } else if s == "false"@ {
        false
    } else {
        default
    }
}

/// Reads a boolean argument string, falling back to `default_on_invalid`.
pub fn parse_bool_string(value: &str, default_on_invalid: bool) -> (r: bool)
    ensures
        r == parse_bool_or(value@, default_on_invalid),
{
    if str_eq(value, "true") {
        true
    } else if str_eq(value, "false") {
        false
    } else {
        default_on_invalid
    }
}

/// Reads an optional boolean flag: an absent flag is off; a present flag
/// with an unreadable value falls back to `default_on_invalid`.
pub fn parse_bool_flag(value: &Option<String>, default_on_invalid: bool) -> (r: bool)
    ensures
        r == (match value {
            Some(v) => parse_bool_or(v@, default_on_invalid),
            None => false,
        }),
{
    match value {
        Some(v) => parse_bool_string(v.as_str(), default_on_invalid),
        None => false,
    }
}

} // verus!
