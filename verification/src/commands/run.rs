//! Running one command on many hosts.

use vstd::prelude::*;

use crate::commands::report::{
    count, no_summary, no_tally, run_rows, tally_of, HostStatus, RunHostResult, RunReport, RunRow,
    Tally, Verdict, VerdictView,
};
use crate::config::schema::ShellType;
use crate::error::{Fault, FaultView};
use crate::host::session_pool::RemoteOutput;
use crate::host::shell::{elevated, sudo_wrap};
use crate::output::report::{HostOutput, HostResult, ResultView};
use crate::output::summary::Summary;
use crate::scan::{lines, split_lines, trim, trimmed};
use crate::text::{chars_of, concat2, concat3, copy, pair_texts, text_opt, texts, texts_push};

verus! {

broadcast use texts_push;

/// The command as it is sent to a host.
pub open spec fn sent_command(shell: ShellType, command: Seq<char>, sudo: bool) -> Seq<char> {
    if sudo {
        elevated(shell, command)
    } else {
        command
    }
}

/// The command as it is sent to a host.
pub fn command_for_host(shell: ShellType, command: &str, sudo: bool) -> (r: String)
    ensures
        r@ == sent_command(shell, command@, sudo),
{
    if sudo {
        sudo_wrap(shell, command)
    } else {
        copy(command)
    }
}

// ---------------------------------------------------------------------------
// Outcomes
// ---------------------------------------------------------------------------

/// The first line of a text; empty where there is none.
pub open spec fn first_line(s: Seq<char>) -> Seq<char> {
    if lines(s).len() > 0 {
        lines(s)[0]
    } else {
        Seq::empty()
    }
}

/// The first line of a text; empty where there is none.
pub fn first_line_of(s: &str) -> (r: String)
    ensures
        r@ == first_line(s@),
{
    let ls = split_lines(s);
    assert(texts(ls@).len() == ls@.len());
    if ls.len() > 0 {
        assert(texts(ls@)[0] == ls@[0]@);
        copy(ls[0].as_str())
    } else {
        let r = String::new();
        assert(r@ =~= Seq::empty());
        r
    }
}

/// What is shown of a host on which it worked: the time in seconds, and the first
/// line of what was printed.
pub open spec fn ok_detail(took: Seq<char>, stdout: Seq<char>) -> Seq<char> {
    let line = first_line(stdout);
    if line.len() == 0 {
        "ok ("@ + took + "s)"@
    } else {
        "ok ("@ + took + "s) — "@ + line
    }
}

/// What is shown of a host on which it did not work.
pub open spec fn error_detail(took: Seq<char>, why: Seq<char>) -> Seq<char> {
    "error ("@ + took + "s) — "@ + why
}

/// What is shown of a host on which it worked.
pub fn show_ok(took: &str, stdout: &str) -> (r: String)
    ensures
        r@ == ok_detail(took@, stdout@),
{
    let line = first_line_of(stdout);
    if chars_of(line.as_str()).len() == 0 {
        concat3("ok (", took, "s)")
    } else {
        let mut out = concat3("ok (", took, "s) — ");
        out.append(line.as_str());
        out
    }
}

/// What is shown of a host on which it did not work.
pub fn show_error(took: &str, why: &str) -> (r: String)
    ensures
        r@ == error_detail(took@, why@),
{
    let mut out = concat3("error (", took, "s) — ");
    out.append(why);
    out
}

/// The row of a host that could not be reached.
pub open spec fn unreachable_row(host: Seq<char>, error: Seq<char>) -> RunRow {
    RunRow {
        host,
        status: HostStatus::Unreachable,
        duration_ms: None,
        detail: "unreachable — "@ + error,
        stdout: Seq::empty(),
        stderr: error,
    }
}

/// The result for a host that could not be reached.
pub fn unreachable_result(host: &str, error: &str) -> (r: RunHostResult)
    ensures
        r@ == unreachable_row(host@, error@),
{
    let r = RunHostResult {
        host: copy(host),
        status: HostStatus::Unreachable,
        duration_ms: None,
        detail: concat2("unreachable — ", error),
        stdout: String::new(),
        stderr: copy(error),
    };
    assert(r.stdout@ =~= Seq::empty());
    r
}

/// What a host answered to the command.
pub ghost enum ReplyView {
    Output { success: bool, stdout: Seq<char>, stderr: Seq<char> },
    Fault(FaultView),
}

/// What a host answered to the command.
pub open spec fn reply(a: Result<RemoteOutput, Fault>) -> ReplyView {
    match a {
        Ok(o) => ReplyView::Output { success: o.success, stdout: o.stdout@, stderr: o.stderr@ },
        Err(f) => ReplyView::Fault(f@),
    }
}

/// The row of a host on which the work broke off.
pub open spec fn broken_row(host: Seq<char>, f: FaultView, took: Seq<char>, ms: u64) -> RunRow {
    let (status, e) = match f {
        FaultView::TimedOut(e) => (HostStatus::TimedOut, e),
        FaultView::Other(e) => (HostStatus::Error, e),
    };
    failed_row(host, status, took, ms, e)
}

/// The row of a host on which it did not work, and that printed nothing.
pub open spec fn failed_row(
    host: Seq<char>,
    status: HostStatus,
    took: Seq<char>,
    ms: u64,
    error: Seq<char>,
) -> RunRow {
    RunRow {
        host,
        status,
        duration_ms: Some(ms),
        detail: error_detail(took, error),
        stdout: Seq::empty(),
        stderr: error,
    }
}

/// The result for a host on which it did not work, and that printed nothing.
pub fn failed_result(host: &str, status: HostStatus, took: &str, ms: u64, error: &str) -> (r:
    RunHostResult)
    ensures
        r@ == failed_row(host@, status, took@, ms, error@),
{
    let r = RunHostResult {
        host: copy(host),
        status,
        duration_ms: Some(ms),
        detail: show_error(took, error),
        stdout: String::new(),
        stderr: copy(error),
    };
    assert(r.stdout@ =~= Seq::empty());
    r
}

/// The row of a host on which the command was run.
pub open spec fn run_row(host: Seq<char>, a: ReplyView, took: Seq<char>, ms: u64) -> RunRow {
    match a {
        ReplyView::Output { success, stdout, stderr } => RunRow {
            host,
            status: if success {
                HostStatus::Online
            } else {
                HostStatus::Offline
            },
            duration_ms: Some(ms),
            detail: if success {
                ok_detail(took, stdout)
            } else {
                error_detail(took, trim(stderr))
            },
            stdout,
            stderr,
        },
        ReplyView::Fault(f) => broken_row(host, f, took, ms),
    }
}

/// What came back from a host.
pub struct RunOutcome {
    pub host: String,
    pub result: Result<RemoteOutput, Fault>,
    /// The time it took, in seconds with one digit behind the point.
    pub took: String,
    pub ms: u64,
}

impl RunOutcome {
    /// The row of the host.
    pub open spec fn row(&self) -> RunRow {
        run_row(self.host@, reply(self.result), self.took@, self.ms)
    }
}

/// The result for a host on which the command was run.
pub fn run_result(o: &RunOutcome) -> (r: RunHostResult)
    ensures
        r@ == o.row(),
{
    match &o.result {
        Ok(out) => RunHostResult {
            host: copy(o.host.as_str()),
            status: if out.success {
                HostStatus::Online
            } else {
                HostStatus::Offline
            },
            duration_ms: Some(o.ms),
            detail: if out.success {
                show_ok(o.took.as_str(), out.stdout.as_str())
            } else {
                show_error(o.took.as_str(), trimmed(out.stderr.as_str()).as_str())
            },
            stdout: copy(out.stdout.as_str()),
            stderr: copy(out.stderr.as_str()),
        },
        Err(Fault::TimedOut(e)) => failed_result(
            o.host.as_str(),
            HostStatus::TimedOut,
            o.took.as_str(),
            o.ms,
            e.message.as_str(),
        ),
        Err(Fault::Other(e)) => failed_result(
            o.host.as_str(),
            HostStatus::Error,
            o.took.as_str(),
            o.ms,
            e.message.as_str(),
        ),
    }
}

/// What the operation log keeps of a run on one host.
pub struct LogRecord {
    pub status: &'static str,
    pub note: Option<String>,
}

/// Decides what the operation log keeps of a run on one host: that it worked, or
/// that it did not and why.
pub fn run_log(o: &RunOutcome) -> (r: LogRecord)
    ensures
        r.status@ == (if o.row().status == HostStatus::Online {
            "ok"@
        } else {
            "error"@
        }),
        text_opt(r.note) == (match reply(o.result) {
            ReplyView::Output { success, stdout, stderr } => if success {
                None
            } else {
                Some(trim(stderr))
            },
            ReplyView::Fault(FaultView::TimedOut(e)) => Some(e),
            ReplyView::Fault(FaultView::Other(e)) => Some(e),
        }),
{
    match &o.result {
        Ok(out) => if out.success {
            LogRecord { status: "ok", note: None }
        } else {
            LogRecord { status: "error", note: Some(trimmed(out.stderr.as_str())) }
        },
        Err(Fault::TimedOut(e)) => LogRecord {
            status: "error",
            note: Some(copy(e.message.as_str())),
        },
        Err(Fault::Other(e)) => LogRecord {
            status: "error",
            note: Some(copy(e.message.as_str())),
        },
    }
}

/// The rows of a run: the hosts that could not be reached, then the others.
pub open spec fn run_result_rows(
    failed: Seq<(Seq<char>, Seq<char>)>,
    outcomes: Seq<RunOutcome>,
) -> Seq<RunRow> {
    Seq::new(failed.len(), |i: int| unreachable_row(failed[i].0, failed[i].1)) + Seq::new(
        outcomes.len(),
        |i: int| outcomes[i].row(),
    )
}

/// The results for the hosts that could not be reached.
pub fn unreachable_results(failed: &[(String, String)]) -> (r: Vec<RunHostResult>)
    ensures
        run_rows(r@) == Seq::new(
            failed@.len(),
            |i: int| unreachable_row(pair_texts(failed@)[i].0, pair_texts(failed@)[i].1),
        ),
{
    let ghost down = pair_texts(failed@);
    let ghost want = Seq::new(down.len(), |i: int| unreachable_row(down[i].0, down[i].1));
    let mut hosts: Vec<RunHostResult> = Vec::new();
    let mut i: usize = 0;
    while i < failed.len()
        invariant
            i <= failed@.len(),
            down == pair_texts(failed@),
            want == Seq::new(down.len(), |i: int| unreachable_row(down[i].0, down[i].1)),
            run_rows(hosts@) == want.take(i as int),
        decreases failed@.len() - i,
    {
        let ghost before = run_rows(hosts@);
        let row = unreachable_result(failed[i].0.as_str(), failed[i].1.as_str());
        let ghost v = row@;
        hosts.push(row);
        assert(run_rows(hosts@) =~= before.push(v));
        assert(want[i as int] == v);
        i += 1;
        assert(before.push(v) =~= want.take(i as int));
    }
    assert(run_rows(hosts@) =~= want);
    hosts
}

/// Puts the report of a run together: from the hosts that could not be reached
/// and the outcomes on the others.
pub fn run_core(
    executed_at: String,
    command: &str,
    targets: Vec<String>,
    failed: &[(String, String)],
    outcomes: &[RunOutcome],
) -> (r: RunReport)
    ensures
        r.executed_at == executed_at,
        r.command@ == command@,
        r.targets == targets,
        run_rows(r.hosts@) == run_result_rows(pair_texts(failed@), outcomes@),
{
    let mut hosts = unreachable_results(failed);
    let ghost start = run_rows(hosts@);
    let ghost want = Seq::new(outcomes@.len(), |i: int| outcomes@[i].row());
    let mut i: usize = 0;
    assert(start + want.take(0) =~= start);
    while i < outcomes.len()
        invariant
            i <= outcomes@.len(),
            want == Seq::new(outcomes@.len(), |i: int| outcomes@[i].row()),
            run_rows(hosts@) == start + want.take(i as int),
        decreases outcomes@.len() - i,
    {
        let ghost before = run_rows(hosts@);
        let row = run_result(&outcomes[i]);
        let ghost v = row@;
        hosts.push(row);
        assert(run_rows(hosts@) =~= before.push(v));
        assert(want[i as int] == v);
        i += 1;
        assert(before.push(v) =~= start + want.take(i as int));
    }
    assert(want.take(i as int) =~= want);
    assert(run_rows(hosts@) =~= run_result_rows(pair_texts(failed@), outcomes@));
    RunReport { executed_at, command: copy(command), targets, hosts }
}

// ---------------------------------------------------------------------------
// What is shown
// ---------------------------------------------------------------------------

/// The kind of line that is printed for a host.
pub fn line_kind(status: HostStatus) -> (r: &'static str)
    ensures
        r@ == (match status {
            HostStatus::Online => "ok"@,
            _ => "error"@,
        }),
{
    match status {
        HostStatus::Online => "ok",
        _ => "error",
    }
}

/// How a host counts.
pub open spec fn run_verdict(row: RunRow) -> VerdictView {
    match row.status {
        HostStatus::Online => VerdictView::Success,
        HostStatus::Offline
        | HostStatus::Unreachable
        | HostStatus::TimedOut
        | HostStatus::Error => VerdictView::Failure(row.detail),
        _ => VerdictView::Uncounted,
    }
}

/// The counts of a run.
pub open spec fn run_tally(rows: Seq<RunRow>) -> Tally
    decreases rows.len(),
{
    if rows.len() == 0 {
        no_tally()
    } else {
        run_tally(rows.drop_last()).counted(rows.last().host, run_verdict(rows.last()))
    }
}

proof fn run_tally_counts(rows: Seq<RunRow>)
    ensures
        run_tally(rows).succeeded + run_tally(rows).failed + run_tally(rows).skipped <= rows.len(),
    decreases rows.len(),
{
    if rows.len() > 0 {
        run_tally_counts(rows.drop_last());
    }
}

/// Sums a run up.
pub fn summarize(hosts: &[RunHostResult]) -> (r: Summary)
    ensures
        r.wf(),
        tally_of(r) == run_tally(run_rows(hosts@)),
        r.skip_reasons@.len() == 0,
{
    let ghost rows = run_rows(hosts@);
    let mut s = no_summary();
    let mut i: usize = 0;
    assert(rows.take(0) =~= Seq::empty());
    while i < hosts.len()
        invariant
            i <= hosts@.len(),
            rows == run_rows(hosts@),
            s.wf(),
            s.skip_reasons@.len() == 0,
            tally_of(s) == run_tally(rows.take(i as int)),
        decreases hosts@.len() - i,
    {
        proof {
            assert(rows.take(i + 1).drop_last() =~= rows.take(i as int));
            assert(rows.take(i + 1).last() == hosts@[i as int]@);
            run_tally_counts(rows.take(i as int));
        }
        let h = &hosts[i];
        let v = match h.status {
            HostStatus::Online => Verdict::Success,
            HostStatus::Offline
            | HostStatus::Unreachable
            | HostStatus::TimedOut
            | HostStatus::Error => Verdict::Failure(copy(h.detail.as_str())),
            _ => Verdict::Uncounted,
        };
        count(&mut s, h.host.as_str(), v);
        i += 1;
    }
    assert(rows.take(i as int) =~= rows);
    s
}

/// The entry of a host in the written report.
pub open spec fn run_report_entry(row: RunRow) -> ResultView {
    ResultView {
        host: row.host,
        status: if row.status == HostStatus::Online {
            "success"@
        } else {
            "error"@
        },
        duration_ms: row.duration_ms,
    }
}

/// Writes the entry of a host in the written report.
pub fn report_result(h: RunHostResult) -> (r: HostResult)
    ensures
        r@ == run_report_entry(h@),
        r.output matches HostOutput::Streams { stdout, stderr } && stdout@ == h.stdout@ && stderr@
            == h.stderr@,
{
    let status = if h.status == HostStatus::Online {
        copy("success")
    } else {
        copy("error")
    };
    HostResult {
        host: h.host,
        status,
        duration_ms: h.duration_ms,
        output: HostOutput::Streams { stdout: h.stdout, stderr: h.stderr },
    }
}

// ---------------------------------------------------------------------------
// Laws
// ---------------------------------------------------------------------------

/// Whether a status says that the work on a host was decided, one way or the other.
pub open spec fn decided(status: HostStatus) -> bool {
    status == HostStatus::Online || status == HostStatus::Offline || status
        == HostStatus::Unreachable || status == HostStatus::TimedOut || status == HostStatus::Error
}

/// Every host of a run counts once: as a success or as a failure.
pub proof fn every_run_counts(failed: Seq<(Seq<char>, Seq<char>)>, outcomes: Seq<RunOutcome>)
    ensures
        ({
            let t = run_tally(run_result_rows(failed, outcomes));
            t.succeeded + t.failed == failed.len() + outcomes.len() && t.skipped == 0
        }),
{
    let rows = run_result_rows(failed, outcomes);
    assert forall|i: int| 0 <= i < rows.len() implies decided((#[trigger] rows[i]).status) by {
        if i < failed.len() {
            assert(rows[i] == unreachable_row(failed[i].0, failed[i].1));
        } else {
            assert(rows[i] == outcomes[i - failed.len()].row());
        }
    }
    decided_rows_count(rows);
}

proof fn decided_rows_count(rows: Seq<RunRow>)
    requires
        forall|i: int| 0 <= i < rows.len() ==> decided((#[trigger] rows[i]).status),
    ensures
        run_tally(rows).succeeded + run_tally(rows).failed == rows.len(),
        run_tally(rows).skipped == 0,
    decreases rows.len(),
{
    if rows.len() > 0 {
        let less = rows.drop_last();
        assert forall|i: int| 0 <= i < less.len() implies decided((#[trigger] less[i]).status) by {
            assert(less[i] == rows[i]);
        }
        decided_rows_count(less);
        assert(rows[rows.len() - 1] == rows.last());
    }
}

/// A command that ran and exited non-zero, one that took too long, one that broke off
/// and a host that could not be reached are told apart by their status, and all of
/// them count as failures.
pub proof fn failures_are_told_apart(
    host: Seq<char>,
    stdout: Seq<char>,
    stderr: Seq<char>,
    error: Seq<char>,
    took: Seq<char>,
    ms: u64,
)
    ensures
        ({
            let exited = run_row(
                host,
                ReplyView::Output { success: false, stdout, stderr },
                took,
                ms,
            );
            let late = run_row(host, ReplyView::Fault(FaultView::TimedOut(error)), took, ms);
            let broken = run_row(host, ReplyView::Fault(FaultView::Other(error)), took, ms);
            let unreached = unreachable_row(host, error);
            &&& exited.status == HostStatus::Offline && run_verdict(exited) is Failure
            &&& late.status == HostStatus::TimedOut && run_verdict(late) is Failure
            &&& broken.status == HostStatus::Error && run_verdict(broken) is Failure
            &&& unreached.status == HostStatus::Unreachable && run_verdict(unreached) is Failure
        }),
{
}

/// A command goes to a host as it is, or with what raises the rights in front of it where
/// that is asked for.
pub proof fn sudo_goes_in_front(command: Seq<char>)
    ensures
        sent_command(ShellType::Sh, command, true) == "sudo "@ + command,
        sent_command(ShellType::PowerShell, command, true)
            == "Start-Process powershell -ArgumentList '-Command "@ + command + "' -Verb RunAs"@,
        sent_command(ShellType::Cmd, command, true) == "runas /user:Administrator \""@ + command
            + "\""@,
        forall|shell: ShellType| #[trigger] sent_command(shell, command, false) == command,
{
}

/// A run counts as a success every host on which the command exited with zero, and as a
/// failure every other one.
pub proof fn only_exit_zero_succeeds(
    failed: Seq<(Seq<char>, Seq<char>)>,
    outcomes: Seq<RunOutcome>,
)
    ensures
        ({
            let t = run_tally(run_result_rows(failed, outcomes));
            &&& t.succeeded == outcomes.filter(
                |o: RunOutcome| o.result is Ok && o.result->Ok_0.success,
            ).len()
            &&& t.failed == failed.len() + outcomes.filter(
                |o: RunOutcome| !(o.result is Ok && o.result->Ok_0.success),
            ).len()
        }),
    decreases failed.len() + outcomes.len(),
{
    reveal(Seq::filter);
    let rows = run_result_rows(failed, outcomes);
    if outcomes.len() > 0 {
        only_exit_zero_succeeds(failed, outcomes.drop_last());
        assert(rows.drop_last() =~= run_result_rows(failed, outcomes.drop_last()));
        assert(rows.last() == outcomes.last().row());
    } else if failed.len() > 0 {
        only_exit_zero_succeeds(failed.drop_last(), outcomes);
        assert(rows.drop_last() =~= run_result_rows(failed.drop_last(), outcomes));
        assert(rows.last() == unreachable_row(failed.last().0, failed.last().1));
    }
}

/// A run has one row for every host that could not be reached and one for every outcome,
/// with what the host printed; and the detail of a success ends in the first line of it.
pub proof fn rows_hold_what_was_printed(
    failed: Seq<(Seq<char>, Seq<char>)>,
    outcomes: Seq<RunOutcome>,
    k: int,
)
    requires
        0 <= k < outcomes.len(),
    ensures
        ({
            let rows = run_result_rows(failed, outcomes);
            let row = rows[failed.len() + k];
            let o = outcomes[k];
            &&& rows.len() == failed.len() + outcomes.len()
            &&& row.host == o.host@
            &&& row.duration_ms == Some(o.ms)
            &&& o.result matches Ok(out) ==> row.stdout == out.stdout@ && row.stderr == out.stderr@
            &&& o.result matches Ok(out) ==> (row.status == HostStatus::Online <==> out.success)
            &&& o.result is Err ==> row.status != HostStatus::Online
            &&& forall|i: int|
                0 <= i < failed.len() ==> (#[trigger] rows[i]).host == failed[i].0 && rows[i].stderr
                    == failed[i].1
        }),
{
}

/// A host counts as a success in the report exactly where its command succeeded.
pub proof fn finished_commands_are_successes(row: RunRow)
    ensures
        run_report_entry(row).host == row.host,
        run_report_entry(row).duration_ms == row.duration_ms,
        run_report_entry(row).status == "success"@ <==> row.status == HostStatus::Online,
        run_report_entry(row).status == "error"@ <==> row.status != HostStatus::Online,
{
    reveal_strlit("success");
    reveal_strlit("error");
    assert("success"@.len() == 7 && "error"@.len() == 5);
}

/// A success is told with the first line that was printed, where there is one.
pub proof fn the_first_line_is_told(took: Seq<char>, line: Seq<char>, rest: Seq<char>)
    requires
        line.len() > 0,
        !line.contains('\n'),
        line.last() != '\r',
    ensures
        ok_detail(took, line + seq!['\n'] + rest) == "ok ("@ + took + "s) — "@ + line,
        ok_detail(took, Seq::empty()) == "ok ("@ + took + "s)"@,
        error_detail(took, line) == "error ("@ + took + "s) — "@ + line,
{
    crate::scan::a_line_comes_first(line, rest);
    assert(lines(line + seq!['\n'] + rest)[0] == line);
    assert(lines(Seq::empty()) =~= Seq::<Seq<char>>::empty());
}

} // verus!
