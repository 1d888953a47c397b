//! What the commands report of the hosts they worked on.

use vstd::prelude::*;

use crate::metrics::data::{values, DataView, Snapshot};
use crate::output::summary::{error_views, ErrorView, Summary};
use crate::text::texts_push;

verus! {

broadcast use texts_push;

/// What an operation on one host came to.
#[derive(Debug, Clone, Copy, PartialEq, Eq, Structural)]
pub enum HostStatus {
    /// All probes succeeded, or the command exited with zero.
    Online,
    /// Some probes succeeded and some failed.
    Partial,
    /// The host answered that it is offline, or the command exited with a code other than zero.
    Offline,
    /// No connection could be made.
    Unreachable,
    /// The time limit was exceeded.
    TimedOut,
    /// Any other transport or input/output error broke the work off.
    Error,
    /// The host was left out on purpose.
    Skipped,
}

/// What a check found on one host.
pub struct CheckHostResult {
    pub host: String,
    pub status: HostStatus,
    pub duration_ms: Option<u64>,
    pub detail: String,
    pub metrics_succeeded: usize,
    pub metrics_failed: usize,
    pub data: Snapshot,
    pub raw_stdout: String,
    pub raw_stderr: String,
}

/// What a check found on one host, as a value of the specification language.
pub ghost struct CheckRow {
    pub host: Seq<char>,
    pub status: HostStatus,
    pub duration_ms: Option<u64>,
    pub detail: Seq<char>,
    pub metrics_succeeded: nat,
    pub metrics_failed: nat,
    pub data: Map<Seq<char>, DataView>,
    pub raw_stdout: Seq<char>,
    pub raw_stderr: Seq<char>,
}

impl View for CheckHostResult {
    type V = CheckRow;

    open spec fn view(&self) -> CheckRow {
        CheckRow {
            host: self.host@,
            status: self.status,
            duration_ms: self.duration_ms,
            detail: self.detail@,
            metrics_succeeded: self.metrics_succeeded as nat,
            metrics_failed: self.metrics_failed as nat,
            data: values(self.data),
            raw_stdout: self.raw_stdout@,
            raw_stderr: self.raw_stderr@,
        }
    }
}

/// The rows of a list of results.
pub open spec fn check_rows(list: Seq<CheckHostResult>) -> Seq<CheckRow> {
    Seq::new(list.len(), |i: int| list[i]@)
}

/// What a check found.
pub struct CheckReport {
    pub executed_at: String,
    /// The metrics that were asked for, of all hosts together.
    pub enabled_metrics: Vec<String>,
    pub targets: Vec<String>,
    pub hosts: Vec<CheckHostResult>,
}

/// What a command came to on one host.
#[derive(Debug)]
pub struct RunHostResult {
    pub host: String,
    pub status: HostStatus,
    pub duration_ms: Option<u64>,
    pub detail: String,
    pub stdout: String,
    pub stderr: String,
}

/// What a command came to on one host, as a value of the specification language.
pub ghost struct RunRow {
    pub host: Seq<char>,
    pub status: HostStatus,
    pub duration_ms: Option<u64>,
    pub detail: Seq<char>,
    pub stdout: Seq<char>,
    pub stderr: Seq<char>,
}

impl View for RunHostResult {
    type V = RunRow;

    open spec fn view(&self) -> RunRow {
        RunRow {
            host: self.host@,
            status: self.status,
            duration_ms: self.duration_ms,
            detail: self.detail@,
            stdout: self.stdout@,
            stderr: self.stderr@,
        }
    }
}

/// The rows of a list of results.
pub open spec fn run_rows(list: Seq<RunHostResult>) -> Seq<RunRow> {
    Seq::new(list.len(), |i: int| list[i]@)
}

/// What a command came to.
#[derive(Debug)]
pub struct RunReport {
    pub executed_at: String,
    pub command: String,
    pub targets: Vec<String>,
    pub hosts: Vec<RunHostResult>,
}

/// What a script came to on one host: the same as for a command.
pub type ExecHostResult = RunHostResult;

/// What a script came to.
#[derive(Debug)]
pub struct ExecReport {
    pub executed_at: String,
    pub script: String,
    pub targets: Vec<String>,
    pub hosts: Vec<ExecHostResult>,
}

/// What a sync came to on one host.
#[derive(Debug)]
pub struct SyncHostResult {
    pub host: String,
    pub status: HostStatus,
    pub duration_ms: Option<u64>,
    pub detail: String,
    pub files_synced: Vec<String>,
    pub files_skipped: Vec<String>,
    pub errors: Vec<String>,
}

/// What a sync came to.
#[derive(Debug)]
pub struct SyncReport {
    pub executed_at: String,
    pub mode: String,
    pub dry_run: bool,
    pub targets: Vec<String>,
    pub total_files_synced: usize,
    pub total_files_skipped: usize,
    pub hosts: Vec<SyncHostResult>,
}

/// What one of the commands came to.
pub enum CommandReport {
    Check(CheckReport),
    Run(RunReport),
    Exec(ExecReport),
    Sync(SyncReport),
}

/// Who is told how an operation goes on: the terminal, or the interface.
pub trait ProgressSink {
    /// The work on a host begins.
    fn host_started(&self, host: &str);

    /// The work on a host has ended.
    fn host_completed(&self, host: &str, status: HostStatus, detail: &str, ms: u64);
}

// ---------------------------------------------------------------------------
// Counting
// ---------------------------------------------------------------------------

/// How the outcome on one host counts in the summary.
pub enum Verdict {
    Success,
    Failure(String),
    Skip,
    /// Not at all.
    Uncounted,
}

/// How an outcome counts, as a value of the specification language.
pub ghost enum VerdictView {
    Success,
    Failure(Seq<char>),
    Skip,
    Uncounted,
}

impl View for Verdict {
    type V = VerdictView;

    open spec fn view(&self) -> VerdictView {
        match self {
            Verdict::Success => VerdictView::Success,
            Verdict::Failure(m) => VerdictView::Failure(m@),
            Verdict::Skip => VerdictView::Skip,
            Verdict::Uncounted => VerdictView::Uncounted,
        }
    }
}

/// The counts of a summary.
pub ghost struct Tally {
    pub succeeded: nat,
    pub failed: nat,
    pub skipped: nat,
    pub errors: Seq<ErrorView>,
}

/// Nothing counted yet.
pub open spec fn no_tally() -> Tally {
    Tally { succeeded: 0, failed: 0, skipped: 0, errors: Seq::empty() }
}

impl Tally {
    /// With one more host.
    pub open spec fn counted(self, host: Seq<char>, v: VerdictView) -> Tally {
        match v {
            VerdictView::Success => Tally { succeeded: self.succeeded + 1, ..self },
            VerdictView::Failure(message) => Tally {
                failed: self.failed + 1,
                errors: self.errors.push(ErrorView { host, message, path: None }),
                ..self
            },
            VerdictView::Skip => Tally { skipped: self.skipped + 1, ..self },
            VerdictView::Uncounted => self,
        }
    }
}

/// The counts of a summary.
pub open spec fn tally_of(s: Summary) -> Tally {
    Tally {
        succeeded: s.succeeded as nat,
        failed: s.failed as nat,
        skipped: s.skipped as nat,
        errors: error_views(s.errors@),
    }
}

/// Counts one more host.
pub fn count(s: &mut Summary, host: &str, v: Verdict)
    requires
        old(s).wf(),
        old(s).succeeded < usize::MAX,
        old(s).failed < usize::MAX,
        old(s).skipped < usize::MAX,
    ensures
        final(s).wf(),
        tally_of(*final(s)) == tally_of(*old(s)).counted(host@, v@),
        final(s).skip_reasons == old(s).skip_reasons,
{
    match v {
        Verdict::Success => s.add_success(),
        Verdict::Failure(m) => s.add_failure(host, m.as_str()),
        Verdict::Skip => s.add_skip(),
        Verdict::Uncounted => {},
    }
}

/// An empty summary.
pub fn no_summary() -> (r: Summary)
    ensures
        r.wf(),
        tally_of(r) == no_tally(),
        r.skip_reasons@.len() == 0,
{
    let r = Summary::default();
    assert(error_views(r.errors@) =~= Seq::empty());
    r
}

} // verus!
