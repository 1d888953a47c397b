//! What the command line selects.

use vstd::prelude::*;

use crate::config::schema::ShellType;

verus! {

/// Which hosts a command is aimed at, and how it is run on them.
#[derive(Debug)]
pub struct TargetArgs {
    pub group: Vec<String>,
    pub host: Vec<String>,
    pub all: bool,
    pub shell: Vec<ShellType>,
    /// One host after the other.
    pub serial: bool,
    /// Seconds to wait for a connection, in place of the configured ones.
    pub timeout: Option<u64>,
}

/// The operations that the log can be narrowed to.
#[derive(Debug, Clone, Copy, PartialEq, Eq, Structural)]
pub enum ActionFilter {
    Sync,
    Run,
    Exec,
    Check,
}

impl ActionFilter {
    /// The name under which the operation is logged.
    pub open spec fn spec_name(self) -> Seq<char> {
        match self {
            ActionFilter::Sync => "sync"@,
            ActionFilter::Run => "run"@,
            ActionFilter::Exec => "exec"@,
            ActionFilter::Check => "check"@,
        }
    }

    /// The name under which the operation is logged.
    pub fn name(self) -> (r: &'static str)
        ensures
            r@ == self.spec_name(),
    {
        match self {
            ActionFilter::Sync => "sync",
            ActionFilter::Run => "run",
            ActionFilter::Exec => "exec",
            ActionFilter::Check => "check",
        }
    }
}

} // verus!
