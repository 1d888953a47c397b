//! What is written in the windows over the tabs.

use vstd::prelude::*;

use crate::commands::report::{
    CheckHostResult, CommandReport, HostStatus, RunHostResult, SyncHostResult,
};
use crate::host::filter::{filter_next, filter_none};
use crate::output::printer::{pad, pad_left, padded, padded_left};
use crate::scan::{lines, split_lines, trim, trimmed};
use crate::text::{
    bool_text, chars_of, concat2, concat3, copy, decimal, decimal_text, show_bool, texts,
    texts_push, usize_text,
};
use crate::tui::app::{MIN_COLS, MIN_ROWS};
use crate::tui::components::viewport::min;
use crate::tui::log_layer::LogEntry;
use crate::tui::tabs::operate_tab::{glyph, glyph_text};
use crate::tui::tabs::TabId;
use crate::tui::width::{cut, truncate};

verus! {

broadcast use texts_push;

// ---------------------------------------------------------------------------
// Results
// ---------------------------------------------------------------------------

/// A line, and the status it is coloured by, if it has one.
pub type ResultLine = (String, Option<HostStatus>);

/// A line, as a value of the specification language.
pub type LineView = (Seq<char>, Option<HostStatus>);

/// Lines, as values of the specification language.
pub open spec fn line_views(list: Seq<ResultLine>) -> Seq<LineView> {
    Seq::new(list.len(), |i: int| (list[i].0@, list[i].1))
}

fn push_line(out: &mut Vec<ResultLine>, text: String, status: Option<HostStatus>)
    ensures
        line_views(final(out)@) == line_views(old(out)@).push((text@, status)),
{
    let ghost before = line_views(out@);
    out.push((text, status));
    assert(line_views(out@) =~= before.push((text@, status)));
}

/// The line of a host.
pub open spec fn row_text(
    host: Seq<char>,
    status: HostStatus,
    detail: Seq<char>,
    ms: Option<u64>,
) -> LineView {
    (
        "  "@ + glyph_text(status) + " "@ + padded(cut(host, 16), 16) + " ("@ + padded_left(
            decimal(
                match ms {
                    Some(n) => n as nat,
                    None => 0,
                },
            ),
            4,
        ) + "ms) — "@ + cut(detail, 80),
        Some(status),
    )
}

fn row(host: &str, status: HostStatus, detail: &str, ms: Option<u64>) -> (r: String)
    ensures
        (r@, Some(status)) == row_text(host@, status, detail@, ms),
{
    let n: u64 = match ms {
        Some(n) => n,
        None => 0,
    };
    let mut out = concat3("  ", glyph(status), " ");
    out.append(pad(truncate(host, 16).as_str(), 16).as_str());
    out.append(" (");
    out.append(pad_left(decimal_text(n).as_str(), 4).as_str());
    out.append("ms) — ");
    out.append(truncate(detail, 80).as_str());
    out
}

/// The first line of an output, without blanks round it.
pub open spec fn first_line(s: Seq<char>) -> Seq<char> {
    if lines(s).len() > 0 {
        trim(lines(s)[0])
    } else {
        Seq::empty()
    }
}

/// The lines below that of a host that ran something: the first line it wrote, if
/// there is something in it.
pub open spec fn output_lines(stdout: Seq<char>) -> Seq<LineView> {
    if first_line(stdout).len() > 0 {
        seq![("     ↳ "@ + cut(first_line(stdout), 70), None)]
    } else {
        Seq::empty()
    }
}

fn push_output(out: &mut Vec<ResultLine>, stdout: &str)
    ensures
        line_views(final(out)@) == line_views(old(out)@) + output_lines(stdout@),
{
    let ghost before = line_views(out@);
    let ls = split_lines(stdout);
    assert(texts(ls@).len() == ls@.len());
    if ls.len() > 0 {
        assert(texts(ls@)[0] == ls@[0]@);
        let first = trimmed(ls[0].as_str());
        if chars_of(first.as_str()).len() > 0 {
            push_line(out, concat2("     ↳ ", truncate(first.as_str(), 70).as_str()), None);
        }
    }
    assert(line_views(out@) =~= before + output_lines(stdout@));
}

/// The statuses of hosts that were checked.
pub open spec fn check_statuses(hosts: Seq<CheckHostResult>) -> Seq<HostStatus> {
    Seq::new(hosts.len(), |i: int| hosts[i].status)
}

/// The statuses of hosts that ran something.
pub open spec fn run_statuses(hosts: Seq<RunHostResult>) -> Seq<HostStatus> {
    Seq::new(hosts.len(), |i: int| hosts[i].status)
}

/// The statuses of hosts that were synced.
pub open spec fn sync_statuses(hosts: Seq<SyncHostResult>) -> Seq<HostStatus> {
    Seq::new(hosts.len(), |i: int| hosts[i].status)
}

/// Having a certain status.
pub open spec fn having(status: HostStatus) -> spec_fn(HostStatus) -> bool {
    |s: HostStatus| s == status
}

/// How many hosts have a status.
pub open spec fn how_many(list: Seq<HostStatus>, status: HostStatus) -> nat {
    list.filter(having(status)).len()
}

fn count_status(list: &[HostStatus], status: HostStatus) -> (r: usize)
    ensures
        r == how_many(list@, status),
        r <= list@.len(),
{
    let ghost p = having(status);
    let mut n: usize = 0;
    let mut i: usize = 0;
    proof {
        filter_none(list@, p);
    }
    while i < list.len()
        invariant
            i <= list@.len(),
            n <= i,
            p == having(status),
            n == list@.take(i as int).filter(p).len(),
        decreases list@.len() - i,
    {
        proof {
            filter_next(list@, p, i as int);
        }
        if list[i] == status {
            n += 1;
        }
        i += 1;
    }
    assert(list@.take(i as int) =~= list@);
    n
}

/// Hosts with different statuses are different hosts.
proof fn statuses_are_apart(list: Seq<HostStatus>, a: HostStatus, b: HostStatus)
    requires
        a != b,
    ensures
        how_many(list, a) + how_many(list, b) <= list.len(),
    decreases list.len(),
{
    let p = having(a);
    let q = having(b);
    if list.len() == 0 {
        filter_none(list, p);
        filter_none(list, q);
        assert(list.take(0) =~= list);
    } else {
        let rest = list.drop_last();
        statuses_are_apart(rest, a, b);
        filter_next(list, p, list.len() - 1);
        filter_next(list, q, list.len() - 1);
        assert(list.take(list.len() as int) =~= list);
        assert(list.take(list.len() - 1) =~= rest);
    }
}

/// The line over the hosts: how many went well, how many did not, and when.
pub open spec fn summary_text(ok: int, fail: int, at: Seq<char>) -> Seq<char> {
    "Summary: "@ + decimal(ok as nat) + " ok / "@ + decimal(fail as nat)
        + " fail    Executed: "@ + at
}

fn summary_line(ok: usize, fail: usize, at: &str) -> (r: String)
    ensures
        r@ == summary_text(ok as int, fail as int, at@),
{
    let mut out = concat3("Summary: ", usize_text(ok).as_str(), " ok / ");
    out.append(usize_text(fail).as_str());
    out.append(" fail    Executed: ");
    out.append(at);
    out
}

/// The lines of hosts that were checked.
pub open spec fn check_lines(hosts: Seq<CheckHostResult>) -> Seq<LineView> {
    Seq::new(
        hosts.len(),
        |i: int|
            row_text(hosts[i].host@, hosts[i].status, hosts[i].detail@, hosts[i].duration_ms),
    )
}

/// The lines of hosts that ran something.
pub open spec fn run_lines(hosts: Seq<RunHostResult>) -> Seq<LineView>
    decreases hosts.len(),
{
    if hosts.len() == 0 {
        Seq::empty()
    } else {
        let h = hosts.last();
        run_lines(hosts.drop_last()).push(row_text(h.host@, h.status, h.detail@, h.duration_ms))
            + output_lines(h.stdout@)
    }
}

/// What is said of a host that was synced: how many files, if there were any.
pub open spec fn sync_detail(h: SyncHostResult) -> Seq<char> {
    if h.files_synced@.len() > 0 || h.files_skipped@.len() > 0 {
        decimal(h.files_synced@.len()) + " synced, "@ + decimal(h.files_skipped@.len())
            + " skipped"@
    } else {
        h.detail@
    }
}

/// The lines of the first two errors.
pub open spec fn error_lines(errors: Seq<Seq<char>>) -> Seq<LineView> {
    Seq::new(
        min(errors.len() as int, 2) as nat,
        |i: int| ("     ↳ "@ + cut(errors[i], 70), None),
    )
}

/// The lines of hosts that were synced.
pub open spec fn sync_lines(hosts: Seq<SyncHostResult>) -> Seq<LineView>
    decreases hosts.len(),
{
    if hosts.len() == 0 {
        Seq::empty()
    } else {
        let h = hosts.last();
        sync_lines(hosts.drop_last()).push(
            row_text(h.host@, h.status, sync_detail(h), h.duration_ms),
        ) + error_lines(texts(h.errors@))
    }
}

/// How many hosts a report is about.
pub open spec fn host_count(report: CommandReport) -> nat {
    match report {
        CommandReport::Check(r) => r.hosts@.len(),
        CommandReport::Run(r) => r.hosts@.len(),
        CommandReport::Exec(r) => r.hosts@.len(),
        CommandReport::Sync(r) => r.hosts@.len(),
    }
}

/// The title of the window.
pub open spec fn results_title(report: CommandReport) -> Seq<char> {
    " Results — "@ + decimal(host_count(report)) + " hosts  (Enter / Esc to dismiss) "@
}

/// The lines over the hosts.
pub open spec fn results_head(report: CommandReport) -> Seq<LineView> {
    match report {
        CommandReport::Check(r) => {
            let all = check_statuses(r.hosts@);
            let ok = how_many(all, HostStatus::Online) + how_many(all, HostStatus::Partial);
            seq![
                (summary_text(ok as int, all.len() - ok, r.executed_at@), None),
                (""@, None),
            ]
        },
        CommandReport::Run(r) => {
            let all = run_statuses(r.hosts@);
            let ok = how_many(all, HostStatus::Online);
            seq![
                (summary_text(ok as int, all.len() - ok, r.executed_at@), None),
                ("  cmd: "@ + cut(r.command@, 50), None),
                (""@, None),
            ]
        },
        CommandReport::Exec(r) => {
            let all = run_statuses(r.hosts@);
            let ok = how_many(all, HostStatus::Online);
            let skipped = how_many(all, HostStatus::Skipped);
            seq![
                (
                    "Summary: "@ + decimal(ok) + " ok / "@ + decimal(
                        (all.len() - ok - skipped) as nat,
                    ) + " fail / "@ + decimal(skipped) + " skipped    Executed: "@ + r.executed_at@,
                    None,
                ),
                ("  script: "@ + cut(r.script@, 50), None),
                (""@, None),
            ]
        },
        CommandReport::Sync(r) => {
            let all = sync_statuses(r.hosts@);
            let ok = how_many(all, HostStatus::Online);
            seq![
                (
                    "Summary: "@ + decimal(ok) + " ok / "@ + decimal((all.len() - ok) as nat)
                        + " fail    synced:"@ + decimal(r.total_files_synced as nat)
                        + " skipped:"@ + decimal(r.total_files_skipped as nat)
                        + "    Executed: "@ + r.executed_at@,
                    None,
                ),
                (
                    "  mode:"@ + r.mode@ + " dry-run:"@ + bool_text(r.dry_run)
                        + " total_synced:"@ + decimal(r.total_files_synced as nat),
                    None,
                ),
                (""@, None),
            ]
        },
    }
}

/// The lines of the hosts.
pub open spec fn results_body(report: CommandReport) -> Seq<LineView> {
    match report {
        CommandReport::Check(r) => check_lines(r.hosts@),
        CommandReport::Run(r) => run_lines(r.hosts@),
        CommandReport::Exec(r) => run_lines(r.hosts@),
        CommandReport::Sync(r) => sync_lines(r.hosts@),
    }
}

fn head_of_check(r: &crate::commands::report::CheckReport) -> (out: Vec<ResultLine>)
    ensures
        line_views(out@) == results_head(CommandReport::Check(*r)),
{
    let mut statuses: Vec<HostStatus> = Vec::new();
    let ghost all = check_statuses(r.hosts@);
    let mut i: usize = 0;
    while i < r.hosts.len()
        invariant
            i <= r.hosts@.len(),
            all == check_statuses(r.hosts@),
            statuses@ == all.take(i as int),
        decreases r.hosts@.len() - i,
    {
        statuses.push(r.hosts[i].status);
        i += 1;
        assert(statuses@ =~= all.take(i as int));
    }
    assert(all.take(i as int) =~= all);
    let online: usize = count_status(statuses.as_slice(), HostStatus::Online);
    let partial: usize = count_status(statuses.as_slice(), HostStatus::Partial);
    proof {
        statuses_are_apart(all, HostStatus::Online, HostStatus::Partial);
    }
    let ok: usize = online + partial;
    let mut out: Vec<ResultLine> = Vec::new();
    push_line(&mut out, summary_line(ok, r.hosts.len() - ok, r.executed_at.as_str()), None);
    push_line(&mut out, copy(""), None);
    assert(line_views(out@) =~= results_head(CommandReport::Check(*r)));
    out
}

fn statuses_of_runs(hosts: &[RunHostResult]) -> (r: Vec<HostStatus>)
    ensures
        r@ == run_statuses(hosts@),
{
    let mut statuses: Vec<HostStatus> = Vec::new();
    let ghost all = run_statuses(hosts@);
    let mut i: usize = 0;
    while i < hosts.len()
        invariant
            i <= hosts@.len(),
            all == run_statuses(hosts@),
            statuses@ == all.take(i as int),
        decreases hosts@.len() - i,
    {
        statuses.push(hosts[i].status);
        i += 1;
        assert(statuses@ =~= all.take(i as int));
    }
    assert(all.take(i as int) =~= all);
    statuses
}

fn head_of_run(r: &crate::commands::report::RunReport) -> (out: Vec<ResultLine>)
    ensures
        line_views(out@) == results_head(CommandReport::Run(*r)),
{
    let statuses = statuses_of_runs(r.hosts.as_slice());
    let ok: usize = count_status(statuses.as_slice(), HostStatus::Online);
    let mut out: Vec<ResultLine> = Vec::new();
    push_line(&mut out, summary_line(ok, r.hosts.len() - ok, r.executed_at.as_str()), None);
    push_line(&mut out, concat2("  cmd: ", truncate(r.command.as_str(), 50).as_str()), None);
    push_line(&mut out, copy(""), None);
    assert(line_views(out@) =~= results_head(CommandReport::Run(*r)));
    out
}

fn head_of_exec(r: &crate::commands::report::ExecReport) -> (out: Vec<ResultLine>)
    ensures
        line_views(out@) == results_head(CommandReport::Exec(*r)),
{
    let statuses = statuses_of_runs(r.hosts.as_slice());
    let ok: usize = count_status(statuses.as_slice(), HostStatus::Online);
    let skipped: usize = count_status(statuses.as_slice(), HostStatus::Skipped);
    proof {
        statuses_are_apart(statuses@, HostStatus::Online, HostStatus::Skipped);
    }
    let fail: usize = r.hosts.len() - ok - skipped;
    let mut line = concat3("Summary: ", usize_text(ok).as_str(), " ok / ");
    line.append(usize_text(fail).as_str());
    line.append(" fail / ");
    line.append(usize_text(skipped).as_str());
    line.append(" skipped    Executed: ");
    line.append(r.executed_at.as_str());
    let mut out: Vec<ResultLine> = Vec::new();
    push_line(&mut out, line, None);
    push_line(&mut out, concat2("  script: ", truncate(r.script.as_str(), 50).as_str()), None);
    push_line(&mut out, copy(""), None);
    assert(line_views(out@) =~= results_head(CommandReport::Exec(*r)));
    out
}

fn head_of_sync(r: &crate::commands::report::SyncReport) -> (out: Vec<ResultLine>)
    ensures
        line_views(out@) == results_head(CommandReport::Sync(*r)),
{
    let mut statuses: Vec<HostStatus> = Vec::new();
    let ghost all = sync_statuses(r.hosts@);
    let mut i: usize = 0;
    while i < r.hosts.len()
        invariant
            i <= r.hosts@.len(),
            all == sync_statuses(r.hosts@),
            statuses@ == all.take(i as int),
        decreases r.hosts@.len() - i,
    {
        statuses.push(r.hosts[i].status);
        i += 1;
        assert(statuses@ =~= all.take(i as int));
    }
    assert(all.take(i as int) =~= all);
    let ok: usize = count_status(statuses.as_slice(), HostStatus::Online);
    let mut line = concat3("Summary: ", usize_text(ok).as_str(), " ok / ");
    line.append(usize_text(r.hosts.len() - ok).as_str());
    line.append(" fail    synced:");
    line.append(usize_text(r.total_files_synced).as_str());
    line.append(" skipped:");
    line.append(usize_text(r.total_files_skipped).as_str());
    line.append("    Executed: ");
    line.append(r.executed_at.as_str());
    let mut detail = concat3("  mode:", r.mode.as_str(), " dry-run:");
    detail.append(show_bool(r.dry_run).as_str());
    detail.append(" total_synced:");
    detail.append(usize_text(r.total_files_synced).as_str());
    let mut out: Vec<ResultLine> = Vec::new();
    push_line(&mut out, line, None);
    push_line(&mut out, detail, None);
    push_line(&mut out, copy(""), None);
    assert(line_views(out@) =~= results_head(CommandReport::Sync(*r)));
    out
}

fn push_checks(out: &mut Vec<ResultLine>, hosts: &[CheckHostResult])
    ensures
        line_views(final(out)@) == line_views(old(out)@) + check_lines(hosts@),
{
    let ghost head = line_views(out@);
    let ghost all = check_lines(hosts@);
    let mut i: usize = 0;
    assert(head + all.take(0) =~= head);
    while i < hosts.len()
        invariant
            i <= hosts@.len(),
            all == check_lines(hosts@),
            line_views(out@) == head + all.take(i as int),
        decreases hosts@.len() - i,
    {
        let h = &hosts[i];
        let ghost before = line_views(out@);
        push_line(
            out,
            row(h.host.as_str(), h.status, h.detail.as_str(), h.duration_ms),
            Some(h.status),
        );
        i += 1;
        assert(before.push(all[i - 1]) =~= head + all.take(i as int));
    }
    assert(all.take(i as int) =~= all);
}

fn push_runs(out: &mut Vec<ResultLine>, hosts: &[RunHostResult])
    ensures
        line_views(final(out)@) == line_views(old(out)@) + run_lines(hosts@),
{
    let ghost head = line_views(out@);
    let mut i: usize = 0;
    assert(head + run_lines(hosts@.take(0)) =~= head);
    while i < hosts.len()
        invariant
            i <= hosts@.len(),
            line_views(out@) == head + run_lines(hosts@.take(i as int)),
        decreases hosts@.len() - i,
    {
        let h = &hosts[i];
        let ghost before = line_views(out@);
        push_line(
            out,
            row(h.host.as_str(), h.status, h.detail.as_str(), h.duration_ms),
            Some(h.status),
        );
        push_output(out, h.stdout.as_str());
        assert(hosts@.take(i + 1).drop_last() =~= hosts@.take(i as int));
        assert(hosts@.take(i + 1).last() == *h);
        i += 1;
        assert(line_views(out@) =~= head + run_lines(hosts@.take(i as int)));
    }
    assert(hosts@.take(i as int) =~= hosts@);
}

fn push_errors(out: &mut Vec<ResultLine>, errors: &[String])
    ensures
        line_views(final(out)@) == line_views(old(out)@) + error_lines(texts(errors@)),
{
    let ghost head = line_views(out@);
    let ghost all = error_lines(texts(errors@));
    let mut i: usize = 0;
    assert(head + all.take(0) =~= head);
    while i < errors.len() && i < 2
        invariant
            i <= errors@.len(),
            i <= 2,
            all == error_lines(texts(errors@)),
            line_views(out@) == head + all.take(i as int),
        decreases errors@.len() - i,
    {
        let ghost before = line_views(out@);
        assert(texts(errors@)[i as int] == errors@[i as int]@);
        push_line(out, concat2("     ↳ ", truncate(errors[i].as_str(), 70).as_str()), None);
        i += 1;
        assert(before.push(all[i - 1]) =~= head + all.take(i as int));
    }
    assert(all.take(i as int) =~= all);
}

fn push_syncs(out: &mut Vec<ResultLine>, hosts: &[SyncHostResult])
    ensures
        line_views(final(out)@) == line_views(old(out)@) + sync_lines(hosts@),
{
    let ghost head = line_views(out@);
    let mut i: usize = 0;
    assert(head + sync_lines(hosts@.take(0)) =~= head);
    while i < hosts.len()
        invariant
            i <= hosts@.len(),
            line_views(out@) == head + sync_lines(hosts@.take(i as int)),
        decreases hosts@.len() - i,
    {
        let h = &hosts[i];
        let detail = if h.files_synced.len() > 0 || h.files_skipped.len() > 0 {
            let mut text = concat2(usize_text(h.files_synced.len()).as_str(), " synced, ");
            text.append(usize_text(h.files_skipped.len()).as_str());
            text.append(" skipped");
            text
        } else {
            copy(h.detail.as_str())
        };
        push_line(
            out,
            row(h.host.as_str(), h.status, detail.as_str(), h.duration_ms),
            Some(h.status),
        );
        push_errors(out, h.errors.as_slice());
        assert(hosts@.take(i + 1).drop_last() =~= hosts@.take(i as int));
        assert(hosts@.take(i + 1).last() == *h);
        i += 1;
        assert(line_views(out@) =~= head + sync_lines(hosts@.take(i as int)));
    }
    assert(hosts@.take(i as int) =~= hosts@);
}

/// The window that shows what an operation came to: its title and its lines.
pub fn results_popup(report: &CommandReport) -> (r: (String, Vec<ResultLine>))
    ensures
        r.0@ == results_title(*report),
        line_views(r.1@) == results_head(*report) + results_body(*report),
{
    let (count, out) = match report {
        CommandReport::Check(r) => {
            let mut out = head_of_check(r);
            push_checks(&mut out, r.hosts.as_slice());
            (r.hosts.len(), out)
        },
        CommandReport::Run(r) => {
            let mut out = head_of_run(r);
            push_runs(&mut out, r.hosts.as_slice());
            (r.hosts.len(), out)
        },
        CommandReport::Exec(r) => {
            let mut out = head_of_exec(r);
            push_runs(&mut out, r.hosts.as_slice());
            (r.hosts.len(), out)
        },
        CommandReport::Sync(r) => {
            let mut out = head_of_sync(r);
            push_syncs(&mut out, r.hosts.as_slice());
            (r.hosts.len(), out)
        },
    };
    (
        concat3(" Results — ", usize_text(count).as_str(), " hosts  (Enter / Esc to dismiss) "),
        out,
    )
}

// ---------------------------------------------------------------------------
// Log
// ---------------------------------------------------------------------------

/// A line of the log: a mark for the selected one, the level, where it comes from
/// and what it says, cut to a width.
pub open spec fn log_text(entry: LogEntry, selected: bool, width: nat) -> Seq<char> {
    cut(
        (if selected {
            "▶ "@
        } else {
            "  "@
        }) + padded(entry.level@, 5) + " "@ + entry.target@ + " "@ + entry.text@,
        width,
    )
}

/// Writes a line of the log.
pub fn log_line(entry: &LogEntry, selected: bool, width: usize) -> (r: String)
    ensures
        r@ == log_text(*entry, selected, width as nat),
{
    let mut out = concat2(
        if selected {
            "▶ "
        } else {
            "  "
        },
        pad(entry.level.as_str(), 5).as_str(),
    );
    out.append(" ");
    out.append(entry.target.as_str());
    out.append(" ");
    out.append(entry.text.as_str());
    truncate(out.as_str(), width)
}

// ---------------------------------------------------------------------------
// Texts
// ---------------------------------------------------------------------------

/// A password as it is shown: a star for each of its characters.
pub open spec fn stars(s: Seq<char>) -> Seq<char> {
    Seq::new(s.len(), |i: int| '*')
}

/// Hides a password.
pub fn masked(s: &str) -> (r: String)
    ensures
        r@ == stars(s@),
{
    let n: usize = s.unicode_len();
    let mut out = String::new();
    let mut i: usize = 0;
    assert(out@ =~= Seq::new(0, |k: int| '*'));
    while i < n
        invariant
            i <= n,
            out@ == Seq::new(i as nat, |k: int| '*'),
        decreases n - i,
    {
        out.push('*');
        i += 1;
        assert(out@ =~= Seq::new(i as nat, |k: int| '*'));
    }
    out
}

/// Whether the interface fits on a terminal.
pub fn fits(cols: u16, rows: u16) -> (r: bool)
    ensures
        r == (cols >= MIN_COLS && rows >= MIN_ROWS),
{
    cols >= MIN_COLS && rows >= MIN_ROWS
}

/// What is said where it does not.
pub fn too_small(cols: u16, rows: u16) -> (r: String)
    ensures
        r@ == "Terminal too small (need "@ + decimal(MIN_COLS as nat) + "×"@ + decimal(
            MIN_ROWS as nat,
        ) + "+; have "@ + decimal(cols as nat) + "×"@ + decimal(rows as nat)
            + ")\n\nResize the terminal to continue."@,
{
    let mut out = concat3(
        "Terminal too small (need ",
        usize_text(MIN_COLS as usize).as_str(),
        "×",
    );
    out.append(usize_text(MIN_ROWS as usize).as_str());
    out.append("+; have ");
    out.append(usize_text(cols as usize).as_str());
    out.append("×");
    out.append(usize_text(rows as usize).as_str());
    out.append(")\n\nResize the terminal to continue.");
    out
}

/// The keys of a tab, for the last line of the screen.
pub open spec fn hint_text(tab: TabId) -> Seq<char> {
    match tab {
        TabId::Config =>
            "↑↓:Rows ←→:Zones e:Edit E:Editor S:Save a:Add d:Del L:Log i:Info ?:Help q:Quit"@,
        TabId::Operate => "↑↓:Zones ←→:OpType f:Filter L:Log i:Info ?:Help q:Quit"@,
        TabId::Checkout =>
            "↑↓/jk:Rows PgUp/PgDn Home/End f:Filter L:Log i:Info ?:Help q:Quit"@,
    }
}

/// The keys of a tab, for the last line of the screen.
pub fn hints(tab: TabId) -> (r: &'static str)
    ensures
        r@ == hint_text(tab),
{
    match tab {
        TabId::Config =>
            "↑↓:Rows ←→:Zones e:Edit E:Editor S:Save a:Add d:Del L:Log i:Info ?:Help q:Quit",
        TabId::Operate => "↑↓:Zones ←→:OpType f:Filter L:Log i:Info ?:Help q:Quit",
        TabId::Checkout =>
            "↑↓/jk:Rows PgUp/PgDn Home/End f:Filter L:Log i:Info ?:Help q:Quit",
    }
}

/// The notes on the Operate tab, up to the time limit.
pub const OPERATE_NOTES: &'static str =
    "Operate tab\n\nSelect an operation with ← → on the Operation row.\n\ncheck — collect host metrics and write to DB.\nrun   — execute a shell command on all targets.\nexec  — upload and run a local script on targets.\nsync  — sync files between hosts (Phase 6).\n\nUse `f` to change the target filter; press Enter on [Execute] to run.\nEsc cancels a running operation (may take up to ";

/// The notes on the Operate tab behind the time limit.
pub const OPERATE_NOTES_END: &'static str =
    "s per host).\n\nResults appear in a popup when the operation completes.";

/// The notes on the Checkout tab.
pub const CHECKOUT_NOTES: &'static str =
    "Checkout tab\n\nLatest snapshot per host. Use ↑↓/jk/PgUp/PgDn/Home/End to scroll.\nData refreshes automatically after each `check` run from Operate.";

/// The notes on the Config tab, up to the path of the configuration.
pub const CONFIG_NOTES: &'static str =
    "Config tab (read-only browser)\n\nSidebar: ↑↓ / jk to move between sections and entries.\nField table: → or Tab to enter, ← to return to sidebar.\nWithin each pane: ↑↓ / jk / PgUp / PgDn / Home / End.\n\nE  — open config in $VISUAL / $EDITOR / vi (TUI suspends,\nresumes after exit; config reloads if file was changed).\n\nConfig path: ";

/// Where the configuration is if no path is given.
pub const DEFAULT_PATH: &'static str = "(default — ~/.config/ssync/config.toml)";

/// The notes on a tab.
pub open spec fn info_text(tab: TabId, timeout: nat, path: Option<Seq<char>>) -> Seq<char> {
    match tab {
        TabId::Operate => OPERATE_NOTES@ + decimal(timeout) + OPERATE_NOTES_END@,
        TabId::Checkout => CHECKOUT_NOTES@,
        TabId::Config => CONFIG_NOTES@ + (match path {
            Some(p) => p,
            None => DEFAULT_PATH@,
        }),
    }
}

/// Writes the notes on a tab.
pub fn info(tab: TabId, timeout: u64, path: Option<&str>) -> (r: String)
    ensures
        r@ == info_text(tab, timeout as nat, crate::text::str_opt(path)),
{
    match tab {
        TabId::Operate => concat3(
            OPERATE_NOTES,
            decimal_text(timeout).as_str(),
            OPERATE_NOTES_END,
        ),
        TabId::Checkout => copy(CHECKOUT_NOTES),
        TabId::Config => concat2(
            CONFIG_NOTES,
            match path {
                Some(p) => p,
                None => DEFAULT_PATH,
            },
        ),
    }
}

/// The first cell of a row of the Checkout tab.
pub fn host_cell(host: &str, selected: bool) -> (r: String)
    ensures
        r@ == (if selected {
            "▶ "@
        } else {
            "  "@
        }) + host@,
{
    concat2(
        if selected {
            "▶ "
        } else {
            "  "
        },
        host,
    )
}

/// The second cell of a row of the Checkout tab.
pub fn status_cell(online: bool) -> (r: &'static str)
    ensures
        r@ == (if online {
            "✓ online"@
        } else {
            "✗ offline"@
        }),
{
    if online {
        "✓ online"
    } else {
        "✗ offline"
    }
}

// ---------------------------------------------------------------------------
// Laws
// ---------------------------------------------------------------------------

/// A shown password gives away how long it is and nothing else.
pub proof fn stars_hide_everything_but_the_length(a: Seq<char>, b: Seq<char>)
    ensures
        stars(a) == stars(b) <==> a.len() == b.len(),
{
    if a.len() == b.len() {
        assert(stars(a) =~= stars(b));
    } else {
        assert(stars(a).len() != stars(b).len());
    }
}

/// Each host of a check has one line, in the order of the report.
pub proof fn every_checked_host_has_a_line(hosts: Seq<CheckHostResult>)
    ensures
        check_lines(hosts).len() == hosts.len(),
        forall|i: int|
            0 <= i < hosts.len() ==> (#[trigger] check_lines(hosts)[i]).1 == Some(hosts[i].status),
{
}

/// As many hosts have a status as there are places where it stands.
pub proof fn statuses_are_counted(list: Seq<HostStatus>, status: HostStatus) -> (at: Seq<int>)
    ensures
        how_many(list, status) == at.len(),
        forall|i: int, j: int| 0 <= i < j < at.len() ==> #[trigger] at[i] < #[trigger] at[j],
        forall|k: int| #[trigger] at.contains(k) ==> 0 <= k < list.len(),
        forall|k: int| 0 <= k < list.len() ==> (at.contains(k) <==> #[trigger] list[k] == status),
{
    let at = crate::host::filter::filter_picks(list, having(status));
    assert forall|k: int| #[trigger] at.contains(k) implies 0 <= k < list.len() by {
        assert(at[at.index_of(k)] == k);
    }
    at
}

/// Every host that ran has a line with its name, status and detail.
pub proof fn every_run_host_has_a_line(hosts: Seq<RunHostResult>, i: int)
    requires
        0 <= i < hosts.len(),
    ensures
        run_lines(hosts).contains(
            row_text(hosts[i].host@, hosts[i].status, hosts[i].detail@, hosts[i].duration_ms),
        ),
    decreases hosts.len(),
{
    let rest = hosts.drop_last();
    let h = hosts.last();
    let line = row_text(hosts[i].host@, hosts[i].status, hosts[i].detail@, hosts[i].duration_ms);
    let before = run_lines(rest);
    let all = run_lines(hosts);
    if i < rest.len() {
        assert(rest[i] == hosts[i]);
        every_run_host_has_a_line(rest, i);
        assert(all[before.index_of(line)] == line);
    } else {
        assert(all[before.len() as int] == line);
    }
}

/// Every host of a sync has a line with its name and status.
pub proof fn every_synced_host_has_a_line(hosts: Seq<SyncHostResult>, i: int)
    requires
        0 <= i < hosts.len(),
    ensures
        sync_lines(hosts).contains(
            row_text(hosts[i].host@, hosts[i].status, sync_detail(hosts[i]), hosts[i].duration_ms),
        ),
    decreases hosts.len(),
{
    let rest = hosts.drop_last();
    let line = row_text(
        hosts[i].host@,
        hosts[i].status,
        sync_detail(hosts[i]),
        hosts[i].duration_ms,
    );
    let before = sync_lines(rest);
    let all = sync_lines(hosts);
    if i < rest.len() {
        assert(rest[i] == hosts[i]);
        every_synced_host_has_a_line(rest, i);
        assert(all[before.index_of(line)] == line);
    } else {
        assert(all[before.len() as int] == line);
    }
}

/// The first line that a command printed stands below the line of its host.
pub proof fn printed_lines_are_shown(hosts: Seq<RunHostResult>, i: int)
    requires
        0 <= i < hosts.len(),
        first_line(hosts[i].stdout@).len() > 0,
    ensures
        run_lines(hosts).contains(("     ↳ "@ + cut(first_line(hosts[i].stdout@), 70), None)),
    decreases hosts.len(),
{
    let rest = hosts.drop_last();
    let line = ("     ↳ "@ + cut(first_line(hosts[i].stdout@), 70), None::<HostStatus>);
    let before = run_lines(rest);
    let all = run_lines(hosts);
    if i < rest.len() {
        assert(rest[i] == hosts[i]);
        printed_lines_are_shown(rest, i);
        assert(all[before.index_of(line)] == line);
    } else {
        assert(all[before.len() as int + 1] == line);
    }
}

/// A check is told with as many successes as hosts were measured, at least in part, and
/// the rest as failures.
pub proof fn check_counts_are_told(r: crate::commands::report::CheckReport, ok: nat)
    requires
        ok == how_many(check_statuses(r.hosts@), HostStatus::Online) + how_many(
            check_statuses(r.hosts@),
            HostStatus::Partial,
        ),
        ok <= r.hosts@.len(),
    ensures
        results_head(CommandReport::Check(r))[0].0 == "Summary: "@ + decimal(ok) + " ok / "@
            + decimal(
            (r.hosts@.len() - ok) as nat,
        ) + " fail    Executed: "@ + r.executed_at@,
{
}

} // verus!
