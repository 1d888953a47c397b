//! The parts of a sync: how it starts, what is decided about each file, and what
//! is recorded of each copy.

use vstd::prelude::*;

use crate::commands::sync::decide::{
    decision, decision_views, fixed_decision, hosts_of, make_decisions,
    make_decisions_fixed_source, CollectResult, DecisionView, FileInfo, SyncDecision,
};
use crate::commands::sync::plan::{
    collect_sync_paths_scoped, fixed_source, hosts_in_scope, in_scope, is_scoped_work,
    scope_collect_result,
    source_of, source_views, HostPathMap, PathSourceMap, SyncPaths,
};
use crate::commands::sync::remote::{tilde_path, to_tilde_path};
use crate::commands::{shell_names, Context, TargetMode, TargetView};
use crate::config::schema::{ConflictStrategy, HostEntry};
use crate::error::Error;
use crate::lookup::TextMap;
use crate::order::listed;
use crate::output::printer::{host_line, host_line_text};
use crate::output::summary::{
    error_views, failed_errors, failed_hosts, push_lines, skip_views, ErrorView, SkipView,
    SyncSummary,
};
use crate::scan::{join, join_all};
use crate::text::{
    concat2, concat3, copy, copy_all, decimal, str_opt, strs, text_opt, texts, texts_push, usize_text,
};

verus! {

broadcast use texts_push;

// ---------------------------------------------------------------------------
// Starting
// ---------------------------------------------------------------------------

/// What the targets are called in the heading and in the records of a sync.
pub open spec fn label_text(mode: TargetView) -> Seq<char> {
    match mode {
        TargetView::All => "global"@,
        TargetView::Groups(g) => join(g, ", "@),
        TargetView::Hosts(h) => join(h, ", "@),
        TargetView::Shell(s) => join(shell_names(s), ", "@),
    }
}

/// What the targets are called in the heading and in the records of a sync.
pub fn sync_label(mode: &TargetMode) -> (r: String)
    ensures
        r@ == label_text(mode@),
{
    match mode {
        TargetMode::All => copy("global"),
        TargetMode::Groups(g) => join_all(g.as_slice(), ", "),
        TargetMode::Hosts(h) => join_all(h.as_slice(), ", "),
        TargetMode::Shell(s) => {
            let mut names: Vec<String> = Vec::new();
            let mut i: usize = 0;
            while i < s.len()
                invariant
                    i <= s@.len(),
                    texts(names@) == shell_names(s@).take(i as int),
                decreases s@.len() - i,
            {
                names.push(copy(s[i].name()));
                i += 1;
                assert(texts(names@) =~= shell_names(s@).take(i as int));
            }
            assert(shell_names(s@).take(i as int) =~= shell_names(s@));
            join_all(names.as_slice(), ", ")
        },
    }
}

/// How a sync begins: with work to do, or with a line that says why not.
pub enum SyncStart {
    Work(SyncPaths),
    Nothing(String),
}

/// The paths given on the command line, with `~` for the local home directory.
pub open spec fn given_paths(files: Seq<Seq<char>>, home: Option<Seq<char>>) -> Seq<Seq<char>> {
    Seq::new(files.len(), |i: int| tilde_path(files[i], home))
}

/// The message where no entry applies.
pub const NO_ENTRIES: &'static str =
    "No sync entries matched the current filter. Add [[sync]] to config.toml or use --files/-f.";

/// The message where too few hosts are targeted.
pub open spec fn too_few(n: nat) -> Seq<char> {
    "Need at least 2 hosts for sync (found "@ + decimal(n) + ")"@
}

/// The message where too few hosts can be reached.
pub open spec fn too_few_reachable(n: nat) -> Seq<char> {
    "Need at least 2 reachable hosts for sync (found "@ + decimal(n) + ")"@
}

/// Begins a sync of the files given on the command line: they apply to all
/// targeted hosts and have no fixed source of their own. At least two hosts are
/// needed.
pub fn start_with_files(files: &[String], home: Option<&str>, host_count: usize) -> (r: SyncStart)
    requires
        files@.len() > 0,
    ensures
        match r {
            SyncStart::Work(w) => {
                &&& host_count >= 2
                &&& texts(w.paths@) == given_paths(
                    texts(files@),
                    str_opt(home),
                )
                &&& w.recursive@.len() == 0
                &&& w.host_paths is None
                &&& w.sources.wf()
                &&& w.sources@ == Map::<Seq<char>, Option<String>>::empty()
            },
            SyncStart::Nothing(line) => host_count < 2 && line@ == too_few(host_count as nat),
        },
{
    if host_count < 2 {
        return SyncStart::Nothing(
            concat3(
                "Need at least 2 hosts for sync (found ",
                usize_text(host_count).as_str(),
                ")",
            ),
        );
    }
    let ghost h = str_opt(home);
    let ghost all = given_paths(texts(files@), h);
    let mut paths: Vec<String> = Vec::new();
    let mut i: usize = 0;
    while i < files.len()
        invariant
            i <= files@.len(),
            h == str_opt(home),
            all == given_paths(texts(files@), h),
            texts(paths@) == all.take(i as int),
        decreases files@.len() - i,
    {
        paths.push(to_tilde_path(files[i].as_str(), home));
        i += 1;
        assert(texts(paths@) =~= all.take(i as int));
    }
    assert(all.take(i as int) =~= all);
    SyncStart::Work(
        SyncPaths { paths, recursive: Vec::new(), host_paths: None, sources: TextMap::new() },
    )
}

/// Begins a sync of the configured entries with the work that
/// `collect_sync_paths_scoped` found. There must be some, and at least two
/// hosts.
pub fn start_with_entries(work: SyncPaths, host_count: usize) -> (r: SyncStart)
    ensures
        match r {
            SyncStart::Work(w) => w == work && (work.paths@.len() > 0 || work.recursive@.len() > 0)
                && host_count >= 2,
            SyncStart::Nothing(line) => if work.paths@.len() == 0 && work.recursive@.len() == 0 {
                line@ == NO_ENTRIES@
            } else {
                host_count < 2 && line@ == too_few(host_count as nat)
            },
        },
{
    if work.paths.len() == 0 && work.recursive.len() == 0 {
        return SyncStart::Nothing(copy(NO_ENTRIES));
    }
    if host_count < 2 {
        return SyncStart::Nothing(
            concat3(
                "Need at least 2 hosts for sync (found ",
                usize_text(host_count).as_str(),
                ")",
            ),
        );
    }
    SyncStart::Work(work)
}

/// Begins a sync: of the files given on the command line, else of the entries
/// that apply to the targets.
pub fn start(
    ctx: &Context,
    hosts: &[&HostEntry],
    files: &[String],
    home: Option<&str>,
    cli_source: Option<&str>,
) -> (r: SyncStart)
    ensures
        r matches SyncStart::Work(w) ==> hosts@.len() >= 2 && w.sources.wf() && (w.paths@.len() > 0
            || w.recursive@.len() > 0),
        files@.len() > 0 ==> {
            &&& r is Work <==> hosts@.len() >= 2
            &&& r matches SyncStart::Work(w) ==> texts(w.paths@) == given_paths(
                texts(files@),
                str_opt(home),
            ) && w.recursive@.len() == 0 && w.host_paths is None && w.sources@ == Map::<
                Seq<char>,
                Option<String>,
            >::empty()
        },
        files@.len() == 0 ==> (r matches SyncStart::Work(w) ==> is_scoped_work(
            w,
            ctx.config.sync@,
            ctx.mode@,
            hosts@,
            str_opt(cli_source),
        )),
        r matches SyncStart::Nothing(line) ==> {
            ||| hosts@.len() < 2 && line@ == too_few(hosts@.len()) && (files@.len() > 0 || exists|
                w: SyncPaths,
            |
                (w.paths@.len() > 0 || w.recursive@.len() > 0) && #[trigger] is_scoped_work(
                    w,
                    ctx.config.sync@,
                    ctx.mode@,
                    hosts@,
                    str_opt(cli_source),
                ))
            ||| files@.len() == 0 && line@ == NO_ENTRIES@ && exists|w: SyncPaths|
                w.paths@.len() == 0 && w.recursive@.len() == 0 && #[trigger] is_scoped_work(
                    w,
                    ctx.config.sync@,
                    ctx.mode@,
                    hosts@,
                    str_opt(cli_source),
                )
        },
{
    if files.len() > 0 {
        let r = start_with_files(files, home, hosts.len());
        assert(r matches SyncStart::Work(w) ==> texts(w.paths@).len() == w.paths@.len());
        r
    } else {
        let work = collect_sync_paths_scoped(ctx, hosts, cli_source);
        start_with_entries(work, hosts.len())
    }
}

// ---------------------------------------------------------------------------
// Connecting
// ---------------------------------------------------------------------------

/// `name: message` for one host.
pub open spec fn name_and_error(failed: (String, String)) -> Seq<char> {
    failed.0@ + ": "@ + failed.1@
}

/// The lines for hosts that cannot be used.
pub open spec fn failure_lines(kind: Seq<char>, failed: Seq<(String, String)>) -> Seq<Seq<char>> {
    Seq::new(
        failed.len(),
        |i: int| host_line_text(kind, "error"@, name_and_error(failed[i])),
    )
}

/// The errors of hosts that cannot be used.
pub open spec fn host_errors(prefix: Seq<char>, failed: Seq<(String, String)>) -> Seq<ErrorView> {
    Seq::new(
        failed.len(),
        |i: int| ErrorView { host: failed[i].0@, message: prefix + failed[i].1@, path: None },
    )
}

/// Records hosts that cannot be used: one line and one error each.
pub fn record_failures(
    summary: &mut SyncSummary,
    kind: &str,
    prefix: &str,
    failed: &[(String, String)],
) -> (r: Vec<String>)
    requires
        old(summary).wf(),
        old(summary).transfers_failed + failed@.len() <= usize::MAX,
    ensures
        texts(r@) == failure_lines(kind@, failed@),
        final(summary).wf(),
        error_views(final(summary).errors@) == error_views(old(summary).errors@) + host_errors(
            prefix@,
            failed@,
        ),
        texts(final(summary).transfers_failed_hosts@) == texts(
            old(summary).transfers_failed_hosts@,
        ) + failed_hosts(failed@),
        final(summary).transfers_failed == old(summary).transfers_failed + failed@.len(),
        *final(summary) == (SyncSummary {
            transfers_failed: final(summary).transfers_failed,
            transfers_failed_hosts: final(summary).transfers_failed_hosts,
            errors: final(summary).errors,
            ..*old(summary)
        }),
{
    let ghost lines = failure_lines(kind@, failed@);
    let ghost errs = host_errors(prefix@, failed@);
    let ghost hosts = failed_hosts(failed@);
    let ghost e0 = error_views(summary.errors@);
    let ghost h0 = texts(summary.transfers_failed_hosts@);
    let mut out: Vec<String> = Vec::new();
    let mut i: usize = 0;
    assert(texts(out@) =~= lines.take(0));
    assert(e0 + errs.take(0) =~= e0);
    assert(h0 + hosts.take(0) =~= h0);
    while i < failed.len()
        invariant
            i <= failed@.len(),
            lines == failure_lines(kind@, failed@),
            errs == host_errors(prefix@, failed@),
            hosts == failed_hosts(failed@),
            summary.wf(),
            summary.transfers_failed == old(summary).transfers_failed + i,
            old(summary).transfers_failed + failed@.len() <= usize::MAX,
            texts(out@) == lines.take(i as int),
            error_views(summary.errors@) == e0 + errs.take(i as int),
            texts(summary.transfers_failed_hosts@) == h0 + hosts.take(i as int),
            *summary == (SyncSummary {
                transfers_failed: summary.transfers_failed,
                transfers_failed_hosts: summary.transfers_failed_hosts,
                errors: summary.errors,
                ..*old(summary)
            }),
        decreases failed@.len() - i,
    {
        let detail = concat3(failed[i].0.as_str(), ": ", failed[i].1.as_str());
        out.push(host_line(kind, "error", detail.as_str()));
        let message = concat2(prefix, failed[i].1.as_str());
        summary.add_host_failure(failed[i].0.as_str(), message.as_str());
        assert(texts(out@) =~= lines.take(i + 1));
        assert((e0 + errs.take(i as int)).push(errs[i as int]) =~= e0 + errs.take(i + 1));
        assert((h0 + hosts.take(i as int)).push(hosts[i as int]) =~= h0 + hosts.take(i + 1));
        i += 1;
    }
    assert(lines.take(i as int) =~= lines);
    assert(errs.take(i as int) =~= errs);
    assert(hosts.take(i as int) =~= hosts);
    out
}

/// Whether the sync can go on once connections are made: the source given for
/// the run must be connected, and with paths to compare at least two hosts must
/// be able to copy files.
pub fn after_connect(
    cli_source: Option<&str>,
    connected: &[String],
    capable: usize,
    path_count: usize,
) -> (r: Result<Option<String>, Error>)
    ensures
        r is Err <==> (cli_source matches Some(s) && !texts(connected@).contains(s@)),
        r matches Err(e) ==> e@ == "Source host '"@ + cli_source->0@ + "' is unreachable"@,
        r matches Ok(stop) ==> text_opt(stop) == (if capable < 2 && path_count > 0 {
            Some(too_few_reachable(capable as nat))
        } else {
            None
        }),
{
    if let Some(src) = cli_source {
        if !listed(connected, src) {
            return Err(Error { message: concat3("Source host '", src, "' is unreachable") });
        }
    }
    if capable < 2 && path_count > 0 {
        return Ok(
            Some(
                concat3(
                    "Need at least 2 reachable hosts for sync (found ",
                    usize_text(capable).as_str(),
                    ")",
                ),
            ),
        );
    }
    Ok(None)
}

// ---------------------------------------------------------------------------
// Deciding file by file
// ---------------------------------------------------------------------------

/// What is to be done about one file.
pub enum FilePlan {
    /// The hosts answered, but none has the file.
    NotFound,
    /// No host answered.
    NoData,
    /// The fixed source does not have the file.
    SourceMissing { source: String, path: String },
    /// All these hosts have the same copy.
    InSync(Vec<String>),
    /// Copies are to be made.
    Copy(Vec<SyncDecision>),
}

/// The source that holds for a file: the one given for the run, else its own.
pub open spec fn run_source(
    cli: Option<Seq<char>>,
    sources: Map<Seq<char>, Option<Seq<char>>>,
    path: Seq<char>,
) -> Option<Seq<char>> {
    match cli {
        Some(s) => Some(s),
        None => fixed_source(sources, path),
    }
}

/// Whether a plan is the right one for the reports of some hosts.
pub open spec fn is_plan(
    plan: FilePlan,
    found: Seq<FileInfo>,
    missing: Seq<Seq<char>>,
    path: Seq<char>,
    source: Option<Seq<char>>,
    strategy: ConflictStrategy,
    push_missing: bool,
) -> bool {
    if found.len() == 0 {
        if missing.len() > 0 {
            plan is NotFound
        } else {
            plan is NoData
        }
    } else {
        match source {
            Some(s) => if !hosts_of(found).contains(s) {
                plan matches FilePlan::SourceMissing { source, path: p } && source@ == s && p@ == path
            } else {
                is_copy(plan, found, fixed_decision(found, path, push_missing, missing, s))
            },
            None => is_copy(plan, found, decision(found, strategy, path, push_missing, missing)),
        }
    }
}

/// Whether a plan carries out a decision, or finds the hosts in sync without
/// one.
pub open spec fn is_copy(plan: FilePlan, found: Seq<FileInfo>, d: Option<DecisionView>) -> bool {
    match d {
        Some(d) => plan matches FilePlan::Copy(list) && decision_views(list@) == seq![d],
        None => plan matches FilePlan::InSync(hosts) && texts(hosts@) == hosts_of(found),
    }
}

/// Decides what is to be done about a file from the hosts' reports.
pub fn plan_file(
    found: &[FileInfo],
    missing: &[String],
    path: &str,
    source: Option<&str>,
    strategy: &ConflictStrategy,
    push_missing: bool,
) -> (r: FilePlan)
    ensures
        is_plan(
            r,
            found@,
            texts(missing@),
            path@,
            str_opt(source),
            *strategy,
            push_missing,
        ),
{
    assert(texts(missing@).len() == missing@.len());
    if found.len() == 0 {
        return if missing.len() > 0 {
            FilePlan::NotFound
        } else {
            FilePlan::NoData
        };
    }
    let decisions = match source {
        Some(src) => {
            match make_decisions_fixed_source(found, path, push_missing, missing, src) {
                Ok((list, None)) => list,
                Ok((_, Some((s, p)))) => {
                    return FilePlan::SourceMissing { source: s, path: p };
                },
                Err(_) => Vec::new(),
            }
        },
        None => make_decisions(found, strategy, path, push_missing, missing),
    };
    assert(decision_views(decisions@).len() == decisions@.len());
    if decisions.len() == 0 {
        FilePlan::InSync(crate::commands::sync::decide::report_hosts(found))
    } else {
        FilePlan::Copy(decisions)
    }
}

/// Decides what is to be done about a path of the batch: the reports are
/// narrowed to the hosts the path applies to.
pub fn plan_path(
    collect: &CollectResult,
    path: &str,
    host_paths: &Option<HostPathMap>,
    sources: &PathSourceMap,
    cli_source: Option<&str>,
    strategy: &ConflictStrategy,
    push_missing: bool,
) -> (r: FilePlan)
    requires
        sources.wf(),
    ensures
        is_plan(
            r,
            collect.found@.filter(|f: FileInfo| in_scope(*host_paths, f.host@, path@)),
            hosts_in_scope(*host_paths, texts(collect.missing@), path@),
            path@,
            run_source(
                str_opt(cli_source),
                source_views(sources@),
                path@,
            ),
            *strategy,
            push_missing,
        ),
{
    let (found, missing) = scope_collect_result(collect, path, host_paths);
    match cli_source {
        Some(s) => plan_file(
            found.as_slice(),
            missing.as_slice(),
            path,
            Some(s),
            strategy,
            push_missing,
        ),
        None => match source_of(sources, path) {
            Some(own) => plan_file(
                found.as_slice(),
                missing.as_slice(),
                path,
                Some(own.as_str()),
                strategy,
                push_missing,
            ),
            None => plan_file(
                found.as_slice(),
                missing.as_slice(),
                path,
                None,
                strategy,
                push_missing,
            ),
        },
    }
}

/// The lines shown for a plan before any copying.
pub open spec fn plan_lines(plan: FilePlan, path: Seq<char>) -> Seq<Seq<char>> {
    match plan {
        FilePlan::NotFound => seq!["  "@ + path + ": file not found on any reachable host"@],
        FilePlan::NoData => seq!["  "@ + path + ": no data collected"@],
        FilePlan::SourceMissing { source, path: p } => seq![
            host_line_text("skip"@, source@, "does not have '"@ + p@ + "'"@),
        ],
        FilePlan::InSync(hosts) => seq![
            "  "@ + path + " (all in sync)"@,
            host_line_text("passed"@, "ok"@, join(texts(hosts@), ", "@)),
        ],
        FilePlan::Copy(_) => Seq::empty(),
    }
}

/// Whether a summary has come out of another by the record of a plan. Only a plan
/// without copies changes it: files that are in sync count as synced, files that
/// the source lacks as skipped.
pub open spec fn plan_recorded(before: SyncSummary, after: SyncSummary, plan: FilePlan) -> bool {
    match plan {
        FilePlan::InSync(hosts) => {
            &&& after.files_synced == before.files_synced + 1
            &&& texts(after.transfers_passed_hosts@) == texts(before.transfers_passed_hosts@)
                + texts(hosts@)
            &&& after == (SyncSummary {
                transfers_passed: after.transfers_passed,
                transfers_passed_hosts: after.transfers_passed_hosts,
                files_synced: after.files_synced,
                ..before
            })
        },
        FilePlan::SourceMissing { source, path } => {
            &&& skip_views(after.skip_reasons@) == skip_views(before.skip_reasons@).push(
                SkipView {
                    path: path@,
                    host: source@,
                    reason: "source '"@ + source@ + "' does not have '"@ + path@ + "'"@,
                },
            )
            &&& after == (SyncSummary {
                files_skipped: after.files_skipped,
                skip_reasons: after.skip_reasons,
                ..before
            })
        },
        _ => after == before,
    }
}

/// Records a plan in the summary and gives the lines to show. Only a plan
/// without copies changes the summary: files that are in sync count as synced,
/// files that the source lacks as skipped.
pub fn record_plan(summary: &mut SyncSummary, plan: &FilePlan, path: &str) -> (r: Vec<String>)
    requires
        old(summary).wf(),
        old(summary).files_synced < usize::MAX,
        old(summary).files_skipped < usize::MAX,
        *plan matches FilePlan::InSync(hosts) ==> old(summary).transfers_passed + hosts@.len()
            <= usize::MAX,
    ensures
        texts(r@) == plan_lines(*plan, path@),
        final(summary).wf(),
        plan_recorded(*old(summary), *final(summary), *plan),
{
    let mut out: Vec<String> = Vec::new();
    match plan {
        FilePlan::NotFound => {
            out.push(concat3("  ", path, ": file not found on any reachable host"));
        },
        FilePlan::NoData => {
            out.push(concat3("  ", path, ": no data collected"));
        },
        FilePlan::SourceMissing { source, path: p } => {
            let detail = concat3("does not have '", p.as_str(), "'");
            out.push(host_line("skip", source.as_str(), detail.as_str()));
            let mut reason = copy("source '");
            reason.append(source.as_str());
            reason.append("' does not have '");
            reason.append(p.as_str());
            reason.append("'");
            summary.add_skip_with_reason(p.as_str(), source.as_str(), reason.as_str());
        },
        FilePlan::InSync(hosts) => {
            out.push(concat3("  ", path, " (all in sync)"));
            let all = join_all(hosts.as_slice(), ", ");
            out.push(host_line("passed", "ok", all.as_str()));
            let mut names: Vec<&str> = Vec::new();
            let mut i: usize = 0;
            while i < hosts.len()
                invariant
                    i <= hosts@.len(),
                    strs(names@) == texts(hosts@).take(i as int),
                decreases hosts@.len() - i,
            {
                let ghost before = strs(names@);
                let name = hosts[i].as_str();
                names.push(name);
                assert(strs(names@) =~= before.push(name@));
                i += 1;
                assert(strs(names@) =~= texts(hosts@).take(i as int));
            }
            assert(texts(hosts@).take(i as int) =~= texts(hosts@));
            assert(strs(names@).len() == names@.len());
            summary.file_in_sync(names.as_slice());
        },
        FilePlan::Copy(_) => {},
    }
    assert(texts(out@) =~= plan_lines(*plan, path@));
    out
}

// ---------------------------------------------------------------------------
// Copying
// ---------------------------------------------------------------------------

/// The lines that announce a decision: its heading, and the hosts that have the
/// source's copy already.
pub open spec fn decision_lines(d: DecisionView) -> Seq<Seq<char>> {
    let heading = "  "@ + d.path + " → source: "@ + d.source_host + " → targets: ["@ + join(
        d.synced_hosts + d.target_hosts,
        ", "@,
    ) + "] ("@ + d.reason + ")"@;
    if d.synced_hosts.len() > 0 {
        seq![heading, host_line_text("passed"@, "ok"@, join(d.synced_hosts, ", "@))]
    } else {
        seq![heading]
    }
}

/// The lines that announce a decision.
pub fn announce(d: &SyncDecision) -> (r: Vec<String>)
    ensures
        texts(r@) == decision_lines(d@),
{
    let mut all = copy_all(d.synced_hosts.as_slice());
    push_lines(&mut all, copy_all(d.target_hosts.as_slice()));
    let mut heading = copy("  ");
    heading.append(d.path.as_str());
    heading.append(" → source: ");
    heading.append(d.source_host.as_str());
    heading.append(" → targets: [");
    heading.append(join_all(all.as_slice(), ", ").as_str());
    heading.append("] (");
    heading.append(d.reason.as_str());
    heading.append(")");
    let mut out: Vec<String> = Vec::new();
    out.push(heading);
    assert(texts(d.synced_hosts@).len() == d.synced_hosts@.len());
    if d.synced_hosts.len() > 0 {
        out.push(
            host_line("passed", "ok", join_all(d.synced_hosts.as_slice(), ", ").as_str()),
        );
    }
    assert(texts(out@) =~= decision_lines(d@));
    out
}

/// How the copying of one file went.
pub enum TransferOutcome {
    /// The file was fetched from the source; the hosts that received it, and
    /// those that did not, with the reasons.
    Done { succeeded: Vec<String>, failed: Vec<(String, String)> },
    /// The file could not be fetched from the source.
    SourceFailed(String),
}

/// The transfers that failed because the source could not be read: the source
/// itself, and every target.
pub open spec fn source_failures(d: DecisionView, error: Seq<char>) -> Seq<
    (Seq<char>, Seq<char>),
> {
    seq![(d.source_host, error)] + Seq::new(
        d.target_hosts.len(),
        |i: int| (d.target_hosts[i], "source download failed: "@ + error),
    )
}

/// Failed transfers as texts.
pub open spec fn failure_views(failed: Seq<(String, String)>) -> Seq<(Seq<char>, Seq<char>)> {
    Seq::new(failed.len(), |i: int| (failed[i].0@, failed[i].1@))
}

/// The hosts that failed, and how, in an outcome.
pub open spec fn outcome_failures(d: DecisionView, o: TransferOutcome) -> Seq<
    (Seq<char>, Seq<char>),
> {
    match o {
        TransferOutcome::Done { succeeded, failed } => failure_views(failed@),
        TransferOutcome::SourceFailed(e) => source_failures(d, e@),
    }
}

/// The hosts that received the file in an outcome.
pub open spec fn outcome_hosts(o: TransferOutcome) -> Seq<Seq<char>> {
    match o {
        TransferOutcome::Done { succeeded, failed } => texts(succeeded@),
        TransferOutcome::SourceFailed(e) => Seq::empty(),
    }
}

/// The lines shown once the copying of a file is over.
pub open spec fn outcome_lines(d: DecisionView, o: TransferOutcome) -> Seq<Seq<char>> {
    match o {
        TransferOutcome::Done { succeeded, failed } => (if succeeded@.len() > 0 {
            seq![host_line_text("synced"@, "ok"@, join(texts(succeeded@), ", "@))]
        } else {
            Seq::empty()
        }) + (if failed@.len() > 0 {
            seq![host_line_text("failed"@, "error"@, join(failed_hosts(failed@), ", "@))]
        } else {
            Seq::empty()
        }),
        TransferOutcome::SourceFailed(e) => seq![
            host_line_text("failed"@, "error"@, d.source_host),
        ],
    }
}

/// The hosts of failed transfers.
fn hosts_that_failed(failed: &[(String, String)]) -> (r: Vec<String>)
    ensures
        texts(r@) == failed_hosts(failed@),
{
    let mut out: Vec<String> = Vec::new();
    let mut i: usize = 0;
    while i < failed.len()
        invariant
            i <= failed@.len(),
            texts(out@) == failed_hosts(failed@).take(i as int),
        decreases failed@.len() - i,
    {
        out.push(copy(failed[i].0.as_str()));
        i += 1;
        assert(texts(out@) =~= failed_hosts(failed@).take(i as int));
    }
    assert(failed_hosts(failed@).take(i as int) =~= failed_hosts(failed@));
    out
}

/// Lists the transfers that failed because the source could not be read.
pub fn list_source_failures(d: &SyncDecision, error: &str) -> (r: Vec<(String, String)>)
    ensures
        failure_views(r@) == source_failures(d@, error@),
{
    let ghost all = source_failures(d@, error@);
    let mut out: Vec<(String, String)> = Vec::new();
    out.push((copy(d.source_host.as_str()), copy(error)));
    assert(failure_views(out@) =~= all.take(1));
    let mut i: usize = 0;
    while i < d.target_hosts.len()
        invariant
            i <= d.target_hosts@.len(),
            all == source_failures(d@, error@),
            failure_views(out@) == all.take(i + 1),
        decreases d.target_hosts@.len() - i,
    {
        let ghost before = failure_views(out@);
        out.push(
            (
                copy(d.target_hosts[i].as_str()),
                concat2("source download failed: ", error),
            ),
        );
        assert(failure_views(out@) =~= before.push(all[i + 1]));
        assert(all.take(i + 2) =~= all.take(i + 1).push(all[i + 1]));
        i += 1;
    }
    assert(all.take(i + 1) =~= all);
    out
}

/// How many transfers an outcome adds to a summary.
pub open spec fn outcome_fits(s: SyncSummary, d: DecisionView, o: TransferOutcome) -> bool {
    &&& s.files_synced < usize::MAX
    &&& s.files_partial < usize::MAX
    &&& s.files_failed < usize::MAX
    &&& s.transfers_passed + d.synced_hosts.len() <= usize::MAX
    &&& s.transfers_synced + outcome_hosts(o).len() <= usize::MAX
    &&& s.transfers_failed + outcome_failures(d, o).len() <= usize::MAX
}

/// Whether a summary has come out of another by the record of an outcome.
pub open spec fn outcome_recorded(
    before: SyncSummary,
    after: SyncSummary,
    d: DecisionView,
    o: TransferOutcome,
) -> bool {
    let failures = outcome_failures(d, o);
    let some = outcome_hosts(o).len() > 0 || d.synced_hosts.len() > 0;
    &&& texts(after.transfers_passed_hosts@) == texts(before.transfers_passed_hosts@)
        + d.synced_hosts
    &&& texts(after.transfers_synced_hosts@) == texts(before.transfers_synced_hosts@)
        + outcome_hosts(o)
    &&& texts(after.transfers_failed_hosts@) == texts(before.transfers_failed_hosts@)
        + failures.map_values(|f: (Seq<char>, Seq<char>)| f.0)
    &&& error_views(after.errors@) == error_views(before.errors@) + failures.map_values(
        |f: (Seq<char>, Seq<char>)| ErrorView { host: f.0, message: f.1, path: Some(d.path) },
    )
    &&& after.files_synced == before.files_synced + (if failures.len() == 0 {
        1int
    } else {
        0
    })
    &&& after.files_partial == before.files_partial + (if failures.len() > 0 && some {
        1int
    } else {
        0
    })
    &&& after.files_failed == before.files_failed + (if failures.len() > 0 && !some {
        1int
    } else {
        0
    })
    &&& after.files_skipped == before.files_skipped
    &&& after.skip_reasons == before.skip_reasons
}

/// Records how the copying of a file went and gives the lines to show. Where
/// the source could not be read, the source and all targets count as failed.
pub fn record_outcome(summary: &mut SyncSummary, d: &SyncDecision, o: &TransferOutcome) -> (r: Vec<
    String,
>)
    requires
        old(summary).wf(),
        outcome_fits(*old(summary), d@, *o),
    ensures
        texts(r@) == outcome_lines(d@, *o),
        final(summary).wf(),
        outcome_recorded(*old(summary), *final(summary), d@, *o),
{
    let mut out: Vec<String> = Vec::new();
    assert(texts(d.synced_hosts@).len() == d.synced_hosts@.len());
    match o {
        TransferOutcome::Done { succeeded, failed } => {
            assert(texts(succeeded@).len() == succeeded@.len());
            assert(failure_views(failed@).len() == failed@.len());
            if succeeded.len() > 0 {
                out.push(
                    host_line("synced", "ok", join_all(succeeded.as_slice(), ", ").as_str()),
                );
            }
            if failed.len() > 0 {
                let names = hosts_that_failed(failed.as_slice());
                out.push(
                    host_line("failed", "error", join_all(names.as_slice(), ", ").as_str()),
                );
            }
            summary.complete_file(
                d.path.as_str(),
                d.synced_hosts.as_slice(),
                succeeded.as_slice(),
                failed.as_slice(),
            );
            proof {
                let fs = outcome_failures(d@, *o);
                assert(fs.map_values(|f: (Seq<char>, Seq<char>)| f.0) =~= failed_hosts(failed@));
                assert(fs.map_values(
                    |f: (Seq<char>, Seq<char>)|
                        ErrorView { host: f.0, message: f.1, path: Some(d@.path) },
                ) =~= failed_errors(failed@, d@.path));
            }
        },
        TransferOutcome::SourceFailed(e) => {
            out.push(host_line("failed", "error", d.source_host.as_str()));
            let failed = list_source_failures(d, e.as_str());
            let none: Vec<String> = Vec::new();
            assert(texts(none@) =~= Seq::empty());
            assert(failure_views(failed@).len() == failed@.len());
            summary.complete_file(
                d.path.as_str(),
                d.synced_hosts.as_slice(),
                none.as_slice(),
                failed.as_slice(),
            );
            proof {
                let fs = outcome_failures(d@, *o);
                assert(fs == failure_views(failed@));
                assert(fs.map_values(|f: (Seq<char>, Seq<char>)| f.0) =~= failed_hosts(failed@));
                assert(fs.map_values(
                    |f: (Seq<char>, Seq<char>)|
                        ErrorView { host: f.0, message: f.1, path: Some(d@.path) },
                ) =~= failed_errors(failed@, d@.path));
                assert(texts(old(summary).transfers_synced_hosts@) + texts(none@) =~= texts(
                    old(summary).transfers_synced_hosts@,
                ) + outcome_hosts(*o));
            }
        },
    }
    assert(texts(out@) =~= outcome_lines(d@, *o));
    out
}

// ---------------------------------------------------------------------------
// Sorting the results of the uploads
// ---------------------------------------------------------------------------

/// How the upload to one target went: `None` for success, else the error.
pub struct UploadResult {
    pub target: String,
    pub error: Option<String>,
}

/// The targets that received the file.
pub open spec fn uploaded(results: Seq<UploadResult>) -> Seq<Seq<char>>
    decreases results.len(),
{
    if results.len() == 0 {
        Seq::empty()
    } else if results.last().error is None {
        uploaded(results.drop_last()).push(results.last().target@)
    } else {
        uploaded(results.drop_last())
    }
}

/// The targets that did not receive the file, with the errors.
pub open spec fn not_uploaded(results: Seq<UploadResult>) -> Seq<(Seq<char>, Seq<char>)>
    decreases results.len(),
{
    if results.len() == 0 {
        Seq::empty()
    } else {
        match results.last().error {
            Some(e) => not_uploaded(results.drop_last()).push((results.last().target@, e@)),
            None => not_uploaded(results.drop_last()),
        }
    }
}

/// Sorts the results of the uploads of one file.
pub fn upload_outcome(results: &[UploadResult]) -> (r: TransferOutcome)
    ensures
        r matches TransferOutcome::Done { succeeded, failed } && texts(succeeded@) == uploaded(
            results@,
        ) && failure_views(failed@) == not_uploaded(results@),
{
    let mut succeeded: Vec<String> = Vec::new();
    let mut failed: Vec<(String, String)> = Vec::new();
    let mut i: usize = 0;
    assert(texts(succeeded@) =~= uploaded(results@.take(0)));
    assert(failure_views(failed@) =~= not_uploaded(results@.take(0)));
    while i < results.len()
        invariant
            i <= results@.len(),
            texts(succeeded@) == uploaded(results@.take(i as int)),
            failure_views(failed@) == not_uploaded(results@.take(i as int)),
        decreases results@.len() - i,
    {
        let one = &results[i];
        assert(results@.take(i + 1).drop_last() =~= results@.take(i as int));
        assert(results@.take(i + 1).last() == *one);
        match &one.error {
            None => {
                succeeded.push(copy(one.target.as_str()));
            },
            Some(e) => {
                let ghost before = failure_views(failed@);
                failed.push((copy(one.target.as_str()), copy(e.as_str())));
                assert(failure_views(failed@) =~= before.push((one.target@, e@)));
            },
        }
        i += 1;
    }
    assert(results@.take(i as int) =~= results@);
    TransferOutcome::Done { succeeded, failed }
}

/// The host of a name among those of the sync; an error where there is none.
pub fn find_host<'a>(hosts: &[&'a HostEntry], name: &str, role: &str) -> (r: Result<
    &'a HostEntry,
    Error,
>)
    ensures
        r is Ok <==> exists|i: int| 0 <= i < hosts@.len() && (#[trigger] hosts@[i]).name@ == name@,
        r matches Ok(h) ==> exists|i: int|
            0 <= i < hosts@.len() && *h == *(#[trigger] hosts@[i]) && h.name@ == name@ && forall|
                j: int,
            | 0 <= j < i ==> (#[trigger] hosts@[j]).name@ != name@,
        r matches Err(e) ==> e@ == role@ + " host not found: "@ + name@,
{
    let mut i: usize = 0;
    while i < hosts.len()
        invariant
            i <= hosts@.len(),
            forall|j: int| 0 <= j < i ==> (#[trigger] hosts@[j]).name@ != name@,
        decreases hosts@.len() - i,
    {
        let h = hosts[i];
        if crate::text::same(h.name.as_str(), name) {
            assert(hosts@[i as int].name@ == name@);
            return Ok(h);
        }
        i += 1;
    }
    Err(Error { message: concat3(role, " host not found: ", name) })
}

// ---------------------------------------------------------------------------
// Laws
// ---------------------------------------------------------------------------

/// Nothing is lost between decision and record: the targets of a decision whose
/// source cannot be read all count as failed, beside the source itself.
pub proof fn failed_source_fails_every_target(d: DecisionView, error: Seq<char>, i: int)
    requires
        0 <= i < d.target_hosts.len(),
    ensures
        source_failures(d, error).len() == d.target_hosts.len() + 1,
        source_failures(d, error)[0] == (d.source_host, error),
        source_failures(d, error)[i + 1].0 == d.target_hosts[i],
{
}

/// Every upload is counted once, as received or as failed.
pub proof fn uploads_are_counted_once(results: Seq<UploadResult>)
    ensures
        uploaded(results).len() + not_uploaded(results).len() == results.len(),
    decreases results.len(),
{
    if results.len() > 0 {
        uploads_are_counted_once(results.drop_last());
    }
}

/// The targets that were served are those whose upload ended without an error, in order.
pub proof fn served_targets_had_no_error(results: Seq<UploadResult>) -> (at: Seq<int>)
    ensures
        forall|i: int, j: int|
            0 <= i < j < at.len() ==> #[trigger] at[i] < #[trigger] at[j],
        forall|k: int| #[trigger] at.contains(k) <==> 0 <= k < results.len()
            && (results[k].error is None),
        uploaded(results).len() == at.len(),
        forall|i: int|
            0 <= i < at.len() ==> #[trigger] uploaded(results)[i] == results[at[i]].target@,
    decreases results.len(),
{
    if results.len() == 0 {
        Seq::empty()
    } else {
        let rest = results.drop_last();
        let n = results.len() - 1;
        let before = served_targets_had_no_error(rest);
        assert forall|i: int| 0 <= i < before.len() implies 0 <= #[trigger] before[i] < n by {
            assert(before.contains(before[i]));
        }
        let keep = (results[n].error is None);
        let at = if keep {
            before.push(n)
        } else {
            before
        };
        assert forall|k: int| #[trigger] at.contains(k) <==> 0 <= k < results.len()
            && (results[k].error is None) by {
            assert(before.contains(k) <==> 0 <= k < n && (rest[k].error is None));
            if keep {
                assert(at[before.len() as int] == n);
                if before.contains(k) {
                    assert(at[before.index_of(k)] == k);
                }
                if at.contains(k) && k != n {
                    assert(before[at.index_of(k)] == k);
                }
            }
        }
        assert forall|i: int| 0 <= i < at.len()
            implies #[trigger] uploaded(results)[i] == results[at[i]].target@ by {
            if i < before.len() {
                assert(uploaded(rest)[i] == rest[before[i]].target@);
            }
        }
        at
    }
}

/// The targets that were not served are those whose upload failed, each with its error.
pub proof fn failed_targets_keep_their_error(results: Seq<UploadResult>) -> (at: Seq<int>)
    ensures
        forall|i: int, j: int|
            0 <= i < j < at.len() ==> #[trigger] at[i] < #[trigger] at[j],
        forall|k: int| #[trigger] at.contains(k) <==> 0 <= k < results.len()
            && (results[k].error is Some),
        not_uploaded(results).len() == at.len(),
        forall|i: int|
            0 <= i < at.len() ==> #[trigger] not_uploaded(results)[i]
                == (results[at[i]].target@, results[at[i]].error->0@),
    decreases results.len(),
{
    if results.len() == 0 {
        Seq::empty()
    } else {
        let rest = results.drop_last();
        let n = results.len() - 1;
        let before = failed_targets_keep_their_error(rest);
        assert forall|i: int| 0 <= i < before.len() implies 0 <= #[trigger] before[i] < n by {
            assert(before.contains(before[i]));
        }
        let keep = (results[n].error is Some);
        let at = if keep {
            before.push(n)
        } else {
            before
        };
        assert forall|k: int| #[trigger] at.contains(k) <==> 0 <= k < results.len()
            && (results[k].error is Some) by {
            assert(before.contains(k) <==> 0 <= k < n && (rest[k].error is Some));
            if keep {
                assert(at[before.len() as int] == n);
                if before.contains(k) {
                    assert(at[before.index_of(k)] == k);
                }
                if at.contains(k) && k != n {
                    assert(before[at.index_of(k)] == k);
                }
            }
        }
        assert forall|i: int| 0 <= i < at.len()
            implies #[trigger] not_uploaded(results)[i]
            == (results[at[i]].target@, results[at[i]].error->0@) by {
            if i < before.len() {
                assert(not_uploaded(rest)[i]
                    == (rest[before[i]].target@, rest[before[i]].error->0@));
            }
        }
        at
    }
}

/// Every file that was copied counts once: as synced where no host failed, as failed where
/// no host has it besides the source, and as partial otherwise.
pub proof fn every_copy_counts_once(
    before: SyncSummary,
    after: SyncSummary,
    d: DecisionView,
    o: TransferOutcome,
)
    requires
        outcome_recorded(before, after, d, o),
    ensures
        after.files_synced + after.files_partial + after.files_failed == before.files_synced
            + before.files_partial + before.files_failed + 1,
        match o {
            TransferOutcome::Done { succeeded, failed } => {
                &&& after.files_synced > before.files_synced <==> failed@.len() == 0
                &&& after.files_failed > before.files_failed <==> failed@.len() > 0
                    && succeeded@.len() == 0 && d.synced_hosts.len() == 0
                &&& after.errors@.len() == before.errors@.len() + failed@.len()
                &&& after.transfers_synced_hosts@.len() == before.transfers_synced_hosts@.len()
                    + succeeded@.len()
                &&& after.transfers_failed_hosts@.len() == before.transfers_failed_hosts@.len()
                    + failed@.len()
            },
            TransferOutcome::SourceFailed(e) => {
                &&& after.files_synced == before.files_synced
                &&& after.files_failed > before.files_failed <==> d.synced_hosts.len() == 0
                &&& after.errors@.len() == before.errors@.len() + d.target_hosts.len() + 1
                &&& after.transfers_synced_hosts@.len() == before.transfers_synced_hosts@.len()
                &&& after.transfers_failed_hosts@.len() == before.transfers_failed_hosts@.len()
                    + d.target_hosts.len() + 1
            },
        },
{
    assert(texts(after.transfers_synced_hosts@).len() == after.transfers_synced_hosts@.len());
    assert(texts(before.transfers_synced_hosts@).len() == before.transfers_synced_hosts@.len());
    assert(texts(after.transfers_failed_hosts@).len() == after.transfers_failed_hosts@.len());
    assert(texts(before.transfers_failed_hosts@).len() == before.transfers_failed_hosts@.len());
    assert(error_views(after.errors@).len() == after.errors@.len());
    assert(error_views(before.errors@).len() == before.errors@.len());
    match o {
        TransferOutcome::Done { succeeded, failed } => {
            assert(texts(succeeded@).len() == succeeded@.len());
        },
        _ => {},
    }
}

/// A file that is in sync counts as synced and its hosts as passed; a source without the
/// file is a skip; nothing else is counted before a copy.
pub proof fn settled_files_count_once(before: SyncSummary, after: SyncSummary, plan: FilePlan)
    requires
        plan_recorded(before, after, plan),
        before.wf(),
        after.wf(),
    ensures
        match plan {
            FilePlan::InSync(hosts) => {
                &&& after.files_synced == before.files_synced + 1
                &&& after.transfers_passed == before.transfers_passed + hosts@.len()
                &&& after.files_skipped == before.files_skipped
            },
            FilePlan::SourceMissing { source, path } => {
                &&& after.files_skipped == before.files_skipped + 1
                &&& after.skip_reasons@.len() == before.skip_reasons@.len() + 1
                &&& after.skip_reasons@.last()@.path == path@
                &&& after.skip_reasons@.last()@.host == source@
                &&& after.files_synced == before.files_synced
            },
            _ => after == before,
        },
        after.files_failed == before.files_failed,
        after.files_partial == before.files_partial,
        after.errors == before.errors,
{
    match plan {
        FilePlan::InSync(hosts) => {
            assert(texts(after.transfers_passed_hosts@).len()
                == after.transfers_passed_hosts@.len());
            assert(texts(before.transfers_passed_hosts@).len()
                == before.transfers_passed_hosts@.len());
            assert(texts(hosts@).len() == hosts@.len());
        },
        FilePlan::SourceMissing { source, path } => {
            let a = skip_views(after.skip_reasons@);
            let b = skip_views(before.skip_reasons@);
            assert(a.len() == b.len() + 1);
            assert(a.len() == after.skip_reasons@.len());
            assert(a[b.len() as int] == after.skip_reasons@.last()@);
        },
        _ => {},
    }
}

/// The paths that are given are synced, with a tilde for the home directory, in their order.
pub proof fn given_paths_are_synced(files: Seq<Seq<char>>, home: Option<Seq<char>>, i: int)
    requires
        0 <= i < files.len(),
    ensures
        given_paths(files, home).len() == files.len(),
        home is None ==> given_paths(files, home)[i] == files[i],
        home matches Some(h) ==> h.len() > 0 ==> {
            &&& files[i] == h ==> given_paths(files, home)[i] == "~"@
            &&& forall|rest: Seq<char>|
                files[i] == #[trigger] (h + "/"@ + rest) ==> given_paths(files, home)[i] == "~/"@
                    + rest
        },
{
    if home is Some && home->0.len() > 0 {
        let h = home->0;
        assert forall|rest: Seq<char>| files[i] == #[trigger] (h + "/"@ + rest) implies given_paths(
            files,
            home,
        )[i] == "~/"@ + rest by {
            crate::commands::sync::remote::tildes_stand_for_home(h, rest, files[i]);
        }
    }
}

/// A copy is announced with its path, its source, every host it concerns and its reason.
pub proof fn announcements_name_their_hosts(d: DecisionView, i: int) -> (around: (
    Seq<char>,
    Seq<char>,
))
    requires
        0 <= i < d.target_hosts.len(),
    ensures
        decision_lines(d)[0] == "  "@ + d.path + " → source: "@ + d.source_host + " → targets: ["@
            + around.0 + d.target_hosts[i] + around.1 + "] ("@ + d.reason + ")"@,
        decision_lines(d).len() == (if d.synced_hosts.len() > 0 {
            2int
        } else {
            1
        }),
{
    let list = d.synced_hosts + d.target_hosts;
    let k = d.synced_hosts.len() + i;
    assert(list[k] == d.target_hosts[i]);
    let (a, b) = crate::scan::joined_texts_hold_their_parts(list, ", "@, k);
    assert(decision_lines(d)[0] =~= "  "@ + d.path + " → source: "@ + d.source_host
        + " → targets: ["@ + a + d.target_hosts[i] + b + "] ("@ + d.reason + ")"@);
    (a, b)
}

/// After a copy the hosts that have the file now are told, and those where it failed.
pub proof fn outcomes_are_told(d: DecisionView, o: TransferOutcome)
    ensures
        match o {
            TransferOutcome::Done { succeeded, failed } => {
                &&& succeeded@.len() > 0 ==> outcome_lines(d, o)[0] == host_line_text(
                    "synced"@,
                    "ok"@,
                    join(texts(succeeded@), ", "@),
                )
                &&& failed@.len() > 0 ==> outcome_lines(d, o)[outcome_lines(d, o).len() - 1]
                    == host_line_text("failed"@, "error"@, join(failed_hosts(failed@), ", "@))
                &&& outcome_lines(d, o).len() == (if succeeded@.len() > 0 {
                    1int
                } else {
                    0
                }) + (if failed@.len() > 0 {
                    1int
                } else {
                    0
                })
            },
            TransferOutcome::SourceFailed(_) => outcome_lines(d, o) == seq![
                host_line_text("failed"@, "error"@, d.source_host),
            ],
        },
{
}

/// A file for which nothing is copied is told with the reason.
pub proof fn settled_files_are_told(plan: FilePlan, path: Seq<char>)
    ensures
        match plan {
            FilePlan::Copy(_) => plan_lines(plan, path).len() == 0,
            FilePlan::NotFound => plan_lines(plan, path) == seq![
                "  "@ + path + ": file not found on any reachable host"@,
            ],
            FilePlan::NoData => plan_lines(plan, path) == seq![
                "  "@ + path + ": no data collected"@,
            ],
            FilePlan::SourceMissing { source, path: p } => plan_lines(plan, path) == seq![
                host_line_text("skip"@, source@, "does not have '"@ + p@ + "'"@),
            ],
            FilePlan::InSync(hosts) => plan_lines(plan, path).len() == 2
                && plan_lines(plan, path)[1]
                == host_line_text("passed"@, "ok"@, join(texts(hosts@), ", "@)),
        },
{
}

} // verus!
