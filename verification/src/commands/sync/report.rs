//! What a sync came to, host by host.

use vstd::prelude::*;

use crate::commands::report::{HostStatus, SyncHostResult, SyncReport};
use crate::commands::sync::machine::{NoteView, OutcomeView, PlanView, SyncNote};
use crate::commands::sync::run::{
    failure_views, list_source_failures, source_failures, FilePlan, TransferOutcome,
};
use crate::output::report::{HostOutput, HostResult, ResultView};
use crate::scan::{join, join_all};
use crate::text::{concat2, copy, decimal, same, texts, texts_push, usize_text};

verus! {

broadcast use texts_push;

/// What became of a file on a host.
pub enum FileFate {
    /// It was sent there.
    Synced,
    /// It was equal already.
    Skipped,
    /// It could not be sent, for this reason.
    Failed(String),
}

/// What became of a file on a host, as a value of the specification language.
pub ghost enum FateView {
    Synced,
    Skipped,
    Failed(Seq<char>),
}

impl View for FileFate {
    type V = FateView;

    open spec fn view(&self) -> FateView {
        match self {
            FileFate::Synced => FateView::Synced,
            FileFate::Skipped => FateView::Skipped,
            FileFate::Failed(e) => FateView::Failed(e@),
        }
    }
}

/// One file on one host.
pub struct FileEvent {
    pub host: String,
    pub path: String,
    pub fate: FileFate,
}

/// One file on one host, as a value of the specification language.
pub ghost struct EventView {
    pub host: Seq<char>,
    pub path: Seq<char>,
    pub fate: FateView,
}

impl View for FileEvent {
    type V = EventView;

    open spec fn view(&self) -> EventView {
        EventView { host: self.host@, path: self.path@, fate: self.fate@ }
    }
}

/// The events of a sync.
pub open spec fn event_views(list: Seq<FileEvent>) -> Seq<EventView> {
    Seq::new(list.len(), |i: int| list[i]@)
}

/// The same fate for a file on all hosts of a list.
pub open spec fn on_all(hosts: Seq<Seq<char>>, path: Seq<char>, fate: FateView) -> Seq<EventView> {
    Seq::new(hosts.len(), |i: int| EventView { host: hosts[i], path, fate })
}

/// The failures of a file.
pub open spec fn failed_on(failures: Seq<(Seq<char>, Seq<char>)>, path: Seq<char>) -> Seq<
    EventView,
> {
    Seq::new(
        failures.len(),
        |i: int| EventView { host: failures[i].0, path, fate: FateView::Failed(failures[i].1) },
    )
}

/// What a note says of files on hosts.
pub open spec fn note_events(note: NoteView) -> Seq<EventView> {
    match note {
        NoteView::Settled(PlanView::InSync(hosts), path) => on_all(hosts, path, FateView::Skipped),
        NoteView::Announced(d) => on_all(d.synced_hosts, d.path, FateView::Skipped),
        NoteView::Copied(d, OutcomeView::Done(succeeded, failed)) => on_all(
            succeeded,
            d.path,
            FateView::Synced,
        ) + failed_on(failed, d.path),
        NoteView::Copied(d, OutcomeView::SourceFailed(e)) => failed_on(
            source_failures(d, e),
            d.path,
        ),
        _ => Seq::empty(),
    }
}

fn push_event(events: &mut Vec<FileEvent>, host: &str, path: &str, fate: FileFate)
    ensures
        event_views(final(events)@) == event_views(old(events)@).push(
            EventView { host: host@, path: path@, fate: fate@ },
        ),
{
    events.push(FileEvent { host: copy(host), path: copy(path), fate });
    assert(event_views(events@) =~= event_views(old(events)@).push(
        EventView { host: host@, path: path@, fate: fate@ },
    ));
}

fn push_on_all(events: &mut Vec<FileEvent>, hosts: &[String], path: &str, synced: bool)
    ensures
        event_views(final(events)@) == event_views(old(events)@) + on_all(
            texts(hosts@),
            path@,
            if synced {
                FateView::Synced
            } else {
                FateView::Skipped
            },
        ),
{
    let ghost before = event_views(events@);
    let ghost all = on_all(
        texts(hosts@),
        path@,
        if synced {
            FateView::Synced
        } else {
            FateView::Skipped
        },
    );
    let mut i: usize = 0;
    assert(before + all.take(0) =~= before);
    while i < hosts.len()
        invariant
            i <= hosts@.len(),
            all == on_all(
                texts(hosts@),
                path@,
                if synced {
                    FateView::Synced
                } else {
                    FateView::Skipped
                },
            ),
            event_views(events@) == before + all.take(i as int),
        decreases hosts@.len() - i,
    {
        let fate = if synced {
            FileFate::Synced
        } else {
            FileFate::Skipped
        };
        push_event(events, hosts[i].as_str(), path, fate);
        assert(before + all.take(i + 1) =~= (before + all.take(i as int)).push(all[i as int]));
        i += 1;
    }
    assert(all.take(i as int) =~= all);
}

fn push_failed(events: &mut Vec<FileEvent>, failed: &[(String, String)], path: &str)
    ensures
        event_views(final(events)@) == event_views(old(events)@) + failed_on(
            failure_views(failed@),
            path@,
        ),
{
    let ghost before = event_views(events@);
    let ghost all = failed_on(failure_views(failed@), path@);
    let mut i: usize = 0;
    assert(before + all.take(0) =~= before);
    while i < failed.len()
        invariant
            i <= failed@.len(),
            all == failed_on(failure_views(failed@), path@),
            event_views(events@) == before + all.take(i as int),
        decreases failed@.len() - i,
    {
        push_event(
            events,
            failed[i].0.as_str(),
            path,
            FileFate::Failed(copy(failed[i].1.as_str())),
        );
        assert(before + all.take(i + 1) =~= (before + all.take(i as int)).push(all[i as int]));
        i += 1;
    }
    assert(all.take(i as int) =~= all);
}

/// Adds what a note says of files on hosts to a list.
pub fn take_note(events: &mut Vec<FileEvent>, note: &SyncNote)
    ensures
        event_views(final(events)@) == event_views(old(events)@) + note_events(note@),
{
    let ghost before = event_views(events@);
    match note {
        SyncNote::Settled { plan: FilePlan::InSync(hosts), path } => {
            push_on_all(events, hosts.as_slice(), path.as_str(), false);
        },
        SyncNote::Announced(d) => {
            push_on_all(events, d.synced_hosts.as_slice(), d.path.as_str(), false);
        },
        SyncNote::Copied { decision, outcome } => match outcome {
            TransferOutcome::Done { succeeded, failed } => {
                push_on_all(events, succeeded.as_slice(), decision.path.as_str(), true);
                push_failed(events, failed.as_slice(), decision.path.as_str());
                assert(event_views(events@) =~= before + note_events(note@));
            },
            TransferOutcome::SourceFailed(e) => {
                let failed = list_source_failures(decision, e.as_str());
                push_failed(events, failed.as_slice(), decision.path.as_str());
            },
        },
        _ => {
            assert(event_views(events@) =~= before + note_events(note@));
        },
    }
}

/// Adds hosts that could not be used to a list.
pub fn take_failures(events: &mut Vec<FileEvent>, failed: &[(String, String)])
    ensures
        event_views(final(events)@) == event_views(old(events)@) + failed_on(
            failure_views(failed@),
            ""@,
        ),
{
    push_failed(events, failed, "");
}

/// The files that were sent to a host.
pub open spec fn sent(events: Seq<EventView>, host: Seq<char>) -> Seq<Seq<char>>
    decreases events.len(),
{
    if events.len() == 0 {
        Seq::empty()
    } else {
        let before = sent(events.drop_last(), host);
        if events.last().host == host && events.last().fate is Synced {
            before.push(events.last().path)
        } else {
            before
        }
    }
}

/// The files that a host had already.
pub open spec fn had(events: Seq<EventView>, host: Seq<char>) -> Seq<Seq<char>>
    decreases events.len(),
{
    if events.len() == 0 {
        Seq::empty()
    } else {
        let before = had(events.drop_last(), host);
        if events.last().host == host && events.last().fate is Skipped {
            before.push(events.last().path)
        } else {
            before
        }
    }
}

/// What went wrong on a host.
pub open spec fn wrongs(events: Seq<EventView>, host: Seq<char>) -> Seq<Seq<char>>
    decreases events.len(),
{
    if events.len() == 0 {
        Seq::empty()
    } else {
        let before = wrongs(events.drop_last(), host);
        match events.last().fate {
            FateView::Failed(e) => if events.last().host == host {
                before.push(e)
            } else {
                before
            },
            _ => before,
        }
    }
}

/// How many files were sent, over all hosts.
pub open spec fn sent_count(events: Seq<EventView>) -> nat
    decreases events.len(),
{
    if events.len() == 0 {
        0
    } else {
        sent_count(events.drop_last()) + (if events.last().fate is Synced {
            1nat
        } else {
            0nat
        })
    }
}

/// How many files were there already, over all hosts.
pub open spec fn had_count(events: Seq<EventView>) -> nat
    decreases events.len(),
{
    if events.len() == 0 {
        0
    } else {
        had_count(events.drop_last()) + (if events.last().fate is Skipped {
            1nat
        } else {
            0nat
        })
    }
}

/// The row of a host, as a value of the specification language.
pub ghost struct SyncRow {
    pub host: Seq<char>,
    pub status: HostStatus,
    pub detail: Seq<char>,
    pub files_synced: Seq<Seq<char>>,
    pub files_skipped: Seq<Seq<char>>,
    pub errors: Seq<Seq<char>>,
}

/// What a result says of a host.
pub open spec fn sync_row_of(h: SyncHostResult) -> SyncRow {
    SyncRow {
        host: h.host@,
        status: h.status,
        detail: h.detail@,
        files_synced: texts(h.files_synced@),
        files_skipped: texts(h.files_skipped@),
        errors: texts(h.errors@),
    }
}

/// The row of a host: its files, and the first thing that went wrong, or else how
/// many files there were.
pub open spec fn sync_row(host: Seq<char>, events: Seq<EventView>) -> SyncRow {
    let errors = wrongs(events, host);
    let synced = sent(events, host);
    let skipped = had(events, host);
    SyncRow {
        host,
        status: if errors.len() > 0 {
            HostStatus::Error
        } else {
            HostStatus::Online
        },
        detail: if errors.len() > 0 {
            errors[0]
        } else {
            decimal(synced.len()) + " synced, "@ + (decimal(skipped.len()) + " skipped"@)
        },
        files_synced: synced,
        files_skipped: skipped,
        errors,
    }
}

/// Puts the row of a host together.
pub fn sync_result(host: &str, events: &[FileEvent]) -> (r: SyncHostResult)
    ensures
        sync_row_of(r) == sync_row(host@, event_views(events@)),
        r.duration_ms is None,
{
    let ghost all = event_views(events@);
    let mut synced: Vec<String> = Vec::new();
    let mut skipped: Vec<String> = Vec::new();
    let mut errors: Vec<String> = Vec::new();
    let mut i: usize = 0;
    assert(texts(synced@) =~= sent(all.take(0), host@));
    assert(texts(skipped@) =~= had(all.take(0), host@));
    assert(texts(errors@) =~= wrongs(all.take(0), host@));
    while i < events.len()
        invariant
            i <= events@.len(),
            all == event_views(events@),
            texts(synced@) == sent(all.take(i as int), host@),
            texts(skipped@) == had(all.take(i as int), host@),
            texts(errors@) == wrongs(all.take(i as int), host@),
        decreases events@.len() - i,
    {
        let e = &events[i];
        assert(all.take(i + 1).drop_last() =~= all.take(i as int));
        assert(all.take(i + 1).last() == e@);
        if same(e.host.as_str(), host) {
            match &e.fate {
                FileFate::Synced => synced.push(copy(e.path.as_str())),
                FileFate::Skipped => skipped.push(copy(e.path.as_str())),
                FileFate::Failed(why) => errors.push(copy(why.as_str())),
            }
        }
        i += 1;
    }
    assert(all.take(i as int) =~= all);
    assert(texts(errors@).len() == errors@.len());
    assert(texts(synced@).len() == synced@.len());
    assert(texts(skipped@).len() == skipped@.len());
    let status = if errors.len() > 0 {
        HostStatus::Error
    } else {
        HostStatus::Online
    };
    let detail = if errors.len() > 0 {
        assert(texts(errors@)[0] == errors@[0]@);
        copy(errors[0].as_str())
    } else {
        let mut d = concat2(usize_text(synced.len()).as_str(), " synced, ");
        d.append(concat2(usize_text(skipped.len()).as_str(), " skipped").as_str());
        d
    };
    SyncHostResult {
        host: copy(host),
        status,
        duration_ms: None,
        detail,
        files_synced: synced,
        files_skipped: skipped,
        errors,
    }
}

proof fn counts_fit(events: Seq<EventView>)
    ensures
        sent_count(events) + had_count(events) <= events.len(),
    decreases events.len(),
{
    if events.len() > 0 {
        counts_fit(events.drop_last());
    }
}

/// Puts the report of a sync together: a row for every targeted host, in their
/// order.
pub fn sync_report(
    executed_at: String,
    mode: String,
    dry_run: bool,
    targets: Vec<String>,
    events: &[FileEvent],
) -> (r: SyncReport)
    ensures
        r.executed_at == executed_at,
        r.mode == mode,
        r.dry_run == dry_run,
        r.targets == targets,
        r.total_files_synced == sent_count(event_views(events@)),
        r.total_files_skipped == had_count(event_views(events@)),
        r.hosts@.len() == targets@.len(),
        forall|i: int|
            0 <= i < targets@.len() ==> sync_row_of(#[trigger] r.hosts@[i]) == sync_row(
                targets@[i]@,
                event_views(events@),
            ),
{
    let ghost all = event_views(events@);
    let mut synced: usize = 0;
    let mut skipped: usize = 0;
    let mut i: usize = 0;
    while i < events.len()
        invariant
            i <= events@.len(),
            all == event_views(events@),
            synced == sent_count(all.take(i as int)),
            skipped == had_count(all.take(i as int)),
        decreases events@.len() - i,
    {
        proof {
            assert(all.take(i + 1).drop_last() =~= all.take(i as int));
            assert(all.take(i + 1).last() == events@[i as int]@);
            counts_fit(all.take(i as int));
        }
        match &events[i].fate {
            FileFate::Synced => {
                synced += 1;
            },
            FileFate::Skipped => {
                skipped += 1;
            },
            FileFate::Failed(_) => {},
        }
        i += 1;
    }
    assert(all.take(i as int) =~= all);
    let mut hosts: Vec<SyncHostResult> = Vec::new();
    let mut k: usize = 0;
    while k < targets.len()
        invariant
            k <= targets@.len(),
            hosts@.len() == k,
            forall|j: int|
                0 <= j < k ==> sync_row_of(#[trigger] hosts@[j]) == sync_row(
                    targets@[j]@,
                    event_views(events@),
                ),
        decreases targets@.len() - k,
    {
        hosts.push(sync_result(targets[k].as_str(), events));
        k += 1;
    }
    SyncReport {
        executed_at,
        mode,
        dry_run,
        targets,
        total_files_synced: synced,
        total_files_skipped: skipped,
        hosts,
    }
}

/// The entry of a host in a report file.
pub fn report_result(h: SyncHostResult) -> (r: HostResult)
    ensures
        r@ == (ResultView {
            host: h.host@,
            status: if h.status == HostStatus::Online {
                "success"@
            } else {
                "error"@
            },
            duration_ms: h.duration_ms,
        }),
        r.output matches HostOutput::Files { synced, skipped, stderr } && synced == h.files_synced
            && skipped == h.files_skipped && stderr@ == join(texts(h.errors@), "\n"@),
{
    let status = match h.status {
        HostStatus::Online => copy("success"),
        _ => copy("error"),
    };
    let stderr = join_all(h.errors.as_slice(), "\n");
    HostResult {
        host: h.host,
        status,
        duration_ms: h.duration_ms,
        output: HostOutput::Files { synced: h.files_synced, skipped: h.files_skipped, stderr },
    }
}

/// Every event of a host is in exactly one of its three lists: files that were
/// sent, files that were there, and errors.
pub proof fn every_event_is_listed_once(events: Seq<EventView>, host: Seq<char>)
    ensures
        sent(events, host).len() + had(events, host).len() + wrongs(events, host).len()
            == events.filter(|e: EventView| e.host == host).len(),
    decreases events.len(),
{
    reveal(Seq::filter);
    if events.len() > 0 {
        every_event_is_listed_once(events.drop_last(), host);
    }
}

/// The files that a host received are those of its events that say so, in order.
pub proof fn received_files_are_listed(events: Seq<EventView>, host: Seq<char>) -> (at: Seq<int>)
    ensures
        forall|i: int, j: int|
            0 <= i < j < at.len() ==> #[trigger] at[i] < #[trigger] at[j],
        forall|k: int| #[trigger] at.contains(k) <==> 0 <= k < events.len()
            && (events[k].host == host && events[k].fate is Synced),
        sent(events, host).len() == at.len(),
        forall|i: int|
            0 <= i < at.len() ==> #[trigger] sent(events, host)[i] == events[at[i]].path,
    decreases events.len(),
{
    if events.len() == 0 {
        Seq::empty()
    } else {
        let rest = events.drop_last();
        let n = events.len() - 1;
        let before = received_files_are_listed(rest, host);
        assert forall|i: int| 0 <= i < before.len() implies 0 <= #[trigger] before[i] < n by {
            assert(before.contains(before[i]));
        }
        let keep = (events[n].host == host && events[n].fate is Synced);
        let at = if keep {
            before.push(n)
        } else {
            before
        };
        assert forall|k: int| #[trigger] at.contains(k) <==> 0 <= k < events.len()
            && (events[k].host == host && events[k].fate is Synced) by {
            assert(before.contains(k) <==> 0 <= k < n
                && (rest[k].host == host && rest[k].fate is Synced));
            if keep {
                assert(at[before.len() as int] == n);
                if before.contains(k) {
                    assert(at[before.index_of(k)] == k);
                }
                if at.contains(k) && k != n {
                    assert(before[at.index_of(k)] == k);
                }
            }
        }
        assert forall|i: int| 0 <= i < at.len()
            implies #[trigger] sent(events, host)[i] == events[at[i]].path by {
            if i < before.len() {
                assert(sent(rest, host)[i] == rest[before[i]].path);
            }
        }
        at
    }
}

/// The files that a host had already are those of its events that say so, in order.
pub proof fn kept_files_are_listed(events: Seq<EventView>, host: Seq<char>) -> (at: Seq<int>)
    ensures
        forall|i: int, j: int|
            0 <= i < j < at.len() ==> #[trigger] at[i] < #[trigger] at[j],
        forall|k: int| #[trigger] at.contains(k) <==> 0 <= k < events.len()
            && (events[k].host == host && events[k].fate is Skipped),
        had(events, host).len() == at.len(),
        forall|i: int|
            0 <= i < at.len() ==> #[trigger] had(events, host)[i] == events[at[i]].path,
    decreases events.len(),
{
    if events.len() == 0 {
        Seq::empty()
    } else {
        let rest = events.drop_last();
        let n = events.len() - 1;
        let before = kept_files_are_listed(rest, host);
        assert forall|i: int| 0 <= i < before.len() implies 0 <= #[trigger] before[i] < n by {
            assert(before.contains(before[i]));
        }
        let keep = (events[n].host == host && events[n].fate is Skipped);
        let at = if keep {
            before.push(n)
        } else {
            before
        };
        assert forall|k: int| #[trigger] at.contains(k) <==> 0 <= k < events.len()
            && (events[k].host == host && events[k].fate is Skipped) by {
            assert(before.contains(k) <==> 0 <= k < n
                && (rest[k].host == host && rest[k].fate is Skipped));
            if keep {
                assert(at[before.len() as int] == n);
                if before.contains(k) {
                    assert(at[before.index_of(k)] == k);
                }
                if at.contains(k) && k != n {
                    assert(before[at.index_of(k)] == k);
                }
            }
        }
        assert forall|i: int| 0 <= i < at.len()
            implies #[trigger] had(events, host)[i] == events[at[i]].path by {
            if i < before.len() {
                assert(had(rest, host)[i] == rest[before[i]].path);
            }
        }
        at
    }
}

/// The errors of a host are those of its failed events, in order.
pub proof fn errors_are_listed(events: Seq<EventView>, host: Seq<char>) -> (at: Seq<int>)
    ensures
        forall|i: int, j: int|
            0 <= i < j < at.len() ==> #[trigger] at[i] < #[trigger] at[j],
        forall|k: int| #[trigger] at.contains(k) <==> 0 <= k < events.len()
            && (events[k].host == host && events[k].fate is Failed),
        wrongs(events, host).len() == at.len(),
        forall|i: int|
            0 <= i < at.len() ==> #[trigger] wrongs(events, host)[i] == events[at[i]].fate->0,
    decreases events.len(),
{
    if events.len() == 0 {
        Seq::empty()
    } else {
        let rest = events.drop_last();
        let n = events.len() - 1;
        let before = errors_are_listed(rest, host);
        assert forall|i: int| 0 <= i < before.len() implies 0 <= #[trigger] before[i] < n by {
            assert(before.contains(before[i]));
        }
        let keep = (events[n].host == host && events[n].fate is Failed);
        let at = if keep {
            before.push(n)
        } else {
            before
        };
        assert forall|k: int| #[trigger] at.contains(k) <==> 0 <= k < events.len()
            && (events[k].host == host && events[k].fate is Failed) by {
            assert(before.contains(k) <==> 0 <= k < n
                && (rest[k].host == host && rest[k].fate is Failed));
            if keep {
                assert(at[before.len() as int] == n);
                if before.contains(k) {
                    assert(at[before.index_of(k)] == k);
                }
                if at.contains(k) && k != n {
                    assert(before[at.index_of(k)] == k);
                }
            }
        }
        assert forall|i: int| 0 <= i < at.len()
            implies #[trigger] wrongs(events, host)[i] == events[at[i]].fate->0 by {
            if i < before.len() {
                assert(wrongs(rest, host)[i] == rest[before[i]].fate->0);
            }
        }
        at
    }
}

/// A host is shown with an error exactly where one of its events failed, and then with the
/// first one.
pub proof fn failed_events_mark_their_host(host: Seq<char>, events: Seq<EventView>)
    ensures
        sync_row(host, events).host == host,
        sync_row(host, events).status == HostStatus::Error || sync_row(host, events).status
            == HostStatus::Online,
        sync_row(host, events).status == HostStatus::Error <==> exists|i: int|
            0 <= i < events.len() && (#[trigger] events[i]).host == host
                && events[i].fate is Failed,
        forall|i: int|
            0 <= i < events.len() && (#[trigger] events[i]).host == host && events[i].fate is Failed
                && (forall|j: int|
                0 <= j < i ==> (#[trigger] events[j]).host != host || !(events[j].fate is Failed))
                ==> sync_row(host, events).detail == events[i].fate->0,
{
    let at = errors_are_listed(events, host);
    if at.len() > 0 {
        assert(at.contains(at[0]));
        assert(wrongs(events, host)[0] == events[at[0]].fate->0);
    }
    assert forall|i: int|
        0 <= i < events.len() && (#[trigger] events[i]).host == host
            && events[i].fate is Failed implies at.contains(i) && at.len() > 0 by {
        assert(at.contains(i));
    }
    assert forall|i: int|
        0 <= i < events.len() && (#[trigger] events[i]).host == host && events[i].fate is Failed
            && (
        forall|j: int|
            0 <= j < i ==> (#[trigger] events[j]).host != host || !(events[j].fate is Failed))
                implies sync_row(
    host, events).detail == events[i].fate->0 by {
        assert(at.contains(i));
        let k = at.index_of(i);
        if k > 0 {
            assert(at[0] < at[k]);
            assert(events[at[0]].host == host);
        }
    }
}

/// Every host that a copy reached or failed on has one event for it.
pub proof fn copies_leave_an_event_on_every_host(
    d: crate::commands::sync::decide::DecisionView,
    succeeded: Seq<Seq<char>>,
    failed: Seq<(Seq<char>, Seq<char>)>,
    error: Seq<char>,
)
    ensures
        ({
            let events = note_events(NoteView::Copied(d, OutcomeView::Done(succeeded, failed)));
            &&& events.len() == succeeded.len() + failed.len()
            &&& forall|i: int|
                0 <= i < succeeded.len() ==> events[i] == (EventView {
                    host: #[trigger] succeeded[i],
                    path: d.path,
                    fate: FateView::Synced,
                })
            &&& forall|i: int|
                0 <= i < failed.len() ==> events[succeeded.len() + i] == (EventView {
                    host: (#[trigger] failed[i]).0,
                    path: d.path,
                    fate: FateView::Failed(failed[i].1),
                })
        }),
        ({
            let events = note_events(NoteView::Copied(d, OutcomeView::SourceFailed(error)));
            &&& events.len() == d.target_hosts.len() + 1
            &&& events[0] == (EventView {
                host: d.source_host,
                path: d.path,
                fate: FateView::Failed(error),
            })
            &&& forall|i: int|
                0 <= i < d.target_hosts.len() ==> events[i + 1].host == #[trigger] d.target_hosts[i]
                    && events[i + 1].fate is Failed && events[i + 1].path == d.path
        }),
        ({
            let events = note_events(NoteView::Announced(d));
            &&& events.len() == d.synced_hosts.len()
            &&& forall|i: int|
                0 <= i < d.synced_hosts.len() ==> events[i] == (EventView {
                    host: #[trigger] d.synced_hosts[i],
                    path: d.path,
                    fate: FateView::Skipped,
                })
        }),
{
}

} // verus!
