//! What a running operation reports to the interface.

use vstd::prelude::*;

use crate::commands::report::{CommandReport, HostStatus};
use crate::scan::{join, join_all, lines, split_lines};
use crate::text::{copy, texts};
use crate::tui::tabs::operate_tab::HostOutcome;

verus! {

/// How many events can wait for the interface.
pub const CHANNEL_CAPACITY: usize = 1024;

/// The first lines of a text, with ` ↵ ` between them; ` …` behind them if
/// there are more.
pub open spec fn shortened(s: Seq<char>, max_lines: nat) -> Seq<char> {
    let ls = lines(s);
    if ls.len() > max_lines {
        join(ls.take(max_lines as int), " ↵ "@) + " …"@
    } else {
        join(ls, " ↵ "@)
    }
}

/// The first lines of a text on one line.
pub fn truncate_detail(s: &str, max_lines: usize) -> (r: String)
    ensures
        r@ == shortened(s@, max_lines as nat),
{
    let mut ls = split_lines(s);
    assert(texts(ls@).len() == ls@.len());
    if ls.len() > max_lines {
        let ghost all = texts(ls@);
        ls.truncate(max_lines);
        assert(texts(ls@) =~= all.take(max_lines as int));
        let mut joined = join_all(ls.as_slice(), " ↵ ");
        joined.append(" …");
        joined
    } else {
        join_all(ls.as_slice(), " ↵ ")
    }
}

/// What a running operation tells the interface.
pub enum TuiEvent {
    HostStarted(String),
    HostCompleted { host: String, status: HostStatus, detail: String, duration_ms: u64 },
    OperationFinished(CommandReport),
    OperationCancelled,
    OperationError(String),
    /// A host asks for a password or a passphrase, in these words.
    SshAuthRequired(String),
}

/// The event for a host that is done: of what is said about it, three lines stay.
pub fn host_completed(host: &str, status: HostStatus, detail: &str, ms: u64) -> (r: TuiEvent)
    ensures
        r matches TuiEvent::HostCompleted { host: h, status: s, detail: d, duration_ms: m } && h@
            == host@ && s == status && d@ == shortened(detail@, 3) && m == ms,
{
    TuiEvent::HostCompleted {
        host: copy(host),
        status,
        detail: truncate_detail(detail, 3),
        duration_ms: ms,
    }
}

/// An operation that is under way.
pub struct RunningOp {
    /// The hosts it was aimed at when it began.
    pub targets: Vec<String>,
    /// The hosts that are done, in the order in which they came in.
    pub host_outcomes: Vec<HostOutcome>,
}

/// What is known of a host that is done, as a value of the specification language.
pub type OutcomeView = (Seq<char>, HostStatus, Seq<char>, u64);

/// What is known of hosts that are done.
pub open spec fn outcome_views(list: Seq<HostOutcome>) -> Seq<OutcomeView> {
    Seq::new(list.len(), |i: int| (list[i].0@, list[i].1, list[i].2@, list[i].3))
}

/// The contents of an operation that is under way.
pub ghost struct RunningView {
    pub targets: Seq<Seq<char>>,
    pub outcomes: Seq<OutcomeView>,
}

impl View for RunningOp {
    type V = RunningView;

    open spec fn view(&self) -> RunningView {
        RunningView {
            targets: texts(self.targets@),
            outcomes: outcome_views(self.host_outcomes@),
        }
    }
}

impl RunningOp {
    /// An operation that has just begun.
    pub fn new(targets: Vec<String>) -> (r: RunningOp)
        ensures
            r@ == (RunningView { targets: texts(targets@), outcomes: Seq::empty() }),
    {
        let r = RunningOp { targets, host_outcomes: Vec::new() };
        assert(r@.outcomes =~= Seq::empty());
        r
    }

    /// Notes that a host is done.
    pub fn record_completed(&mut self, host: &str, status: HostStatus, detail: &str, ms: u64)
        ensures
            final(self)@ == (RunningView {
                outcomes: old(self)@.outcomes.push((host@, status, detail@, ms)),
                ..old(self)@
            }),
    {
        let ghost before = self@.outcomes;
        self.host_outcomes.push((copy(host), status, copy(detail), ms));
        assert(self@.outcomes =~= before.push((host@, status, detail@, ms)));
    }

    /// How many hosts are done.
    pub fn completed_count(&self) -> (r: usize)
        ensures
            r == self@.outcomes.len(),
    {
        self.host_outcomes.len()
    }
}

// ---------------------------------------------------------------------------
// Laws
// ---------------------------------------------------------------------------

/// A text is told by its first lines; where there are more, that is marked.
pub proof fn the_first_lines_are_told(s: Seq<char>, t: Seq<char>, max_lines: nat)
    ensures
        lines(s).len() <= max_lines ==> shortened(s, max_lines) == join(lines(s), " ↵ "@),
        lines(s).len() > max_lines ==> shortened(s, max_lines) == join(
            lines(s).take(max_lines as int),
            " ↵ "@,
        ) + " …"@,
        lines(s).len() > max_lines && lines(t).len() > max_lines && lines(s).take(max_lines as int)
            == lines(t).take(max_lines as int) ==> shortened(s, max_lines) == shortened(
            t,
            max_lines,
        ),
{
}

} // verus!
