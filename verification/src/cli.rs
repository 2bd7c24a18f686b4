//! The parsed command-line options the cleaner runs under.
use vstd::prelude::*;

verus! {

/// The options of one cleaner invocation.
pub struct Cli {
    /// Perform deletions; without it the run is a dry run.
    pub execute: bool,
    /// Glob patterns naming ignored paths that must be spared.
    pub ignore_patterns: Vec<String>,
    /// Show detailed information while running.
    pub verbose: bool,
    /// Suppress all output except errors.
    pub quiet: bool,
}

impl Cli {
    /// A run deletes nothing unless execution was asked for explicitly.
    pub fn is_dry_run(&self) -> (r: bool)
        ensures
            r == !self.execute,
    {
        !self.execute
    }
}

} // verus!
