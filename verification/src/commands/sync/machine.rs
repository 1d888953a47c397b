//! A sync once the hosts are connected: a machine that is told what came back
//! from the hosts, and says what to note and what to do next.

use vstd::prelude::*;

use crate::commands::sync::decide::{
    decision, decision_views, fixed_decision, hosts_of, CollectResult, DecisionView, FileInfo,
    SyncDecision,
};
use crate::commands::sync::plan::{
    empty_dirs, expand_entry, expand_paths, expanded_entry, expanded_pairs, expanded_paths,
    expanded_sources, fixed_sources, hosts_in_scope, in_scope, list_paths_of_source, list_sources,
    pairs_of, paths_of_source, recursive_views, source_views, RecursiveView, SyncPaths,
};
use crate::commands::sync::remote::{
    expand_views, BatchCollectResult, DirExpandResult, ExpandView,
};
use crate::commands::sync::run::{
    announce, decision_lines, failure_views, is_plan, outcome_fits, outcome_lines,
    outcome_recorded, plan_file, plan_lines, plan_path, plan_recorded, record_outcome, record_plan,
    run_source, FilePlan, TransferOutcome,
};
use crate::config::schema::{ConflictStrategy, SyncEntry};
use crate::host::filter::{filter_next, filter_none};
use crate::lookup::TextMap;
use crate::order::listed;
use crate::output::summary::SyncSummary;
use crate::text::{concat3, copy, copy_all, text_opt, texts, texts_push};

verus! {

broadcast use texts_push;

// ---------------------------------------------------------------------------
// What is asked for
// ---------------------------------------------------------------------------

/// What a sync is asked to do.
pub struct SyncOrder {
    /// Nothing is changed; it is only shown what would be done.
    pub dry_run: bool,
    /// Hosts that lack a file receive it.
    pub push_missing: bool,
    /// The host whose files count, whatever the entries say.
    pub source: Option<String>,
    pub strategy: ConflictStrategy,
}

/// What a sync is asked to do, as a value of the specification language.
pub ghost struct OrderView {
    pub dry_run: bool,
    pub push_missing: bool,
    pub source: Option<Seq<char>>,
    pub strategy: ConflictStrategy,
}

impl View for SyncOrder {
    type V = OrderView;

    open spec fn view(&self) -> OrderView {
        OrderView {
            dry_run: self.dry_run,
            push_missing: self.push_missing,
            source: text_opt(self.source),
            strategy: self.strategy,
        }
    }
}

/// What a sync works on, as a value of the specification language.
pub ghost struct WorkView {
    pub paths: Seq<Seq<char>>,
    pub recursive: Seq<RecursiveView>,
    pub pairs: Option<Set<(Seq<char>, Seq<char>)>>,
    pub sources: Map<Seq<char>, Option<Seq<char>>>,
}

impl View for SyncPaths {
    type V = WorkView;

    open spec fn view(&self) -> WorkView {
        WorkView {
            paths: texts(self.paths@),
            recursive: recursive_views(self.recursive@),
            pairs: pairs_of(self.host_paths),
            sources: source_views(self.sources@),
        }
    }
}

/// All that stays the same while files are compared and copied.
pub ghost struct Scene {
    pub order: OrderView,
    /// The hosts that files can be copied to and from.
    pub hosts: Seq<Seq<char>>,
    pub work: WorkView,
    /// The sync entries of the configuration.
    pub entries: Seq<SyncEntry>,
}

// ---------------------------------------------------------------------------
// Plans and outcomes as values
// ---------------------------------------------------------------------------

/// What is to be done about one file, as a value of the specification language.
pub ghost enum PlanView {
    NotFound,
    NoData,
    SourceMissing(Seq<char>, Seq<char>),
    InSync(Seq<Seq<char>>),
    Copy(Seq<DecisionView>),
}

impl View for FilePlan {
    type V = PlanView;

    open spec fn view(&self) -> PlanView {
        match self {
            FilePlan::NotFound => PlanView::NotFound,
            FilePlan::NoData => PlanView::NoData,
            FilePlan::SourceMissing { source, path } => PlanView::SourceMissing(source@, path@),
            FilePlan::InSync(hosts) => PlanView::InSync(texts(hosts@)),
            FilePlan::Copy(list) => PlanView::Copy(decision_views(list@)),
        }
    }
}

/// The plan that carries out a decision, or finds the hosts in sync without one.
pub open spec fn plan_for(found: Seq<FileInfo>, d: Option<DecisionView>) -> PlanView {
    match d {
        Some(d) => PlanView::Copy(seq![d]),
        None => PlanView::InSync(hosts_of(found)),
    }
}

/// The plan for a file, from the reports of the hosts.
pub open spec fn plan_of(
    found: Seq<FileInfo>,
    missing: Seq<Seq<char>>,
    path: Seq<char>,
    source: Option<Seq<char>>,
    order: OrderView,
) -> PlanView {
    if found.len() == 0 {
        if missing.len() > 0 {
            PlanView::NotFound
        } else {
            PlanView::NoData
        }
    } else {
        match source {
            Some(s) => if !hosts_of(found).contains(s) {
                PlanView::SourceMissing(s, path)
            } else {
                plan_for(found, fixed_decision(found, path, order.push_missing, missing, s))
            },
            None => plan_for(
                found,
                decision(found, order.strategy, path, order.push_missing, missing),
            ),
        }
    }
}

proof fn plans_are_determined(
    plan: FilePlan,
    found: Seq<FileInfo>,
    missing: Seq<Seq<char>>,
    path: Seq<char>,
    source: Option<Seq<char>>,
    order: OrderView,
)
    requires
        is_plan(plan, found, missing, path, source, order.strategy, order.push_missing),
    ensures
        plan@ == plan_of(found, missing, path, source, order),
{
}

/// The decisions of a plan.
pub open spec fn decisions_of(plan: PlanView) -> Seq<DecisionView> {
    match plan {
        PlanView::Copy(list) => list,
        _ => Seq::empty(),
    }
}

/// How the copying of one file went, as a value of the specification language.
pub ghost enum OutcomeView {
    Done(Seq<Seq<char>>, Seq<(Seq<char>, Seq<char>)>),
    SourceFailed(Seq<char>),
}

impl View for TransferOutcome {
    type V = OutcomeView;

    open spec fn view(&self) -> OutcomeView {
        match self {
            TransferOutcome::Done { succeeded, failed } => OutcomeView::Done(
                texts(succeeded@),
                failure_views(failed@),
            ),
            TransferOutcome::SourceFailed(e) => OutcomeView::SourceFailed(e@),
        }
    }
}

// ---------------------------------------------------------------------------
// Notes, actions, states
// ---------------------------------------------------------------------------

/// Something that is to be shown and counted.
pub enum SyncNote {
    /// This path is an empty directory on its source.
    EmptyDir(String),
    /// Nothing is to be copied for this path.
    Settled { plan: FilePlan, path: String },
    /// This is going to be done, or would be.
    Announced(SyncDecision),
    /// This has been done.
    Copied { decision: SyncDecision, outcome: TransferOutcome },
    /// Nothing was changed.
    Rehearsed,
}

/// A note as a value of the specification language.
pub ghost enum NoteView {
    EmptyDir(Seq<char>),
    Settled(PlanView, Seq<char>),
    Announced(DecisionView),
    Copied(DecisionView, OutcomeView),
    Rehearsed,
}

impl View for SyncNote {
    type V = NoteView;

    open spec fn view(&self) -> NoteView {
        match self {
            SyncNote::EmptyDir(p) => NoteView::EmptyDir(p@),
            SyncNote::Settled { plan, path } => NoteView::Settled(plan@, path@),
            SyncNote::Announced(d) => NoteView::Announced(d@),
            SyncNote::Copied { decision, outcome } => NoteView::Copied(decision@, outcome@),
            SyncNote::Rehearsed => NoteView::Rehearsed,
        }
    }
}

/// The notes of a list.
pub open spec fn note_views(list: Seq<SyncNote>) -> Seq<NoteView> {
    Seq::new(list.len(), |i: int| list[i]@)
}

/// What to do next.
pub enum SyncAction {
    /// Find out which of the paths are directories on the host, and what is in
    /// them; with `recursive`, at any depth.
    Expand { host: String, paths: Vec<String>, recursive: bool },
    /// Ask all hosts about all these paths.
    AskAll(Vec<String>),
    /// Ask these hosts about this path.
    Ask { hosts: Vec<String>, path: String },
    /// Bring a file from its source to its targets; with `pooled`, over the open
    /// connections.
    Transfer { decision: SyncDecision, pooled: bool },
    /// Nothing is left to do.
    End,
}

/// What to do next, as a value of the specification language.
pub ghost enum ActionView {
    Expand(Seq<char>, Seq<Seq<char>>, bool),
    AskAll(Seq<Seq<char>>),
    Ask(Seq<Seq<char>>, Seq<char>),
    Transfer(DecisionView, bool),
    End,
}

impl View for SyncAction {
    type V = ActionView;

    open spec fn view(&self) -> ActionView {
        match self {
            SyncAction::Expand { host, paths, recursive } => ActionView::Expand(
                host@,
                texts(paths@),
                *recursive,
            ),
            SyncAction::AskAll(paths) => ActionView::AskAll(texts(paths@)),
            SyncAction::Ask { hosts, path } => ActionView::Ask(texts(hosts@), path@),
            SyncAction::Transfer { decision, pooled } => ActionView::Transfer(decision@, *pooled),
            SyncAction::End => ActionView::End,
        }
    }
}

/// How far a sync has come: what it waits for, and what is left after that.
pub enum SyncState {
    /// Looking into the directories of the first of these sources.
    Expanding { left: Vec<String>, found: TextMap<DirExpandResult> },
    /// Asking all hosts about all paths.
    Asking,
    /// Copying the first of these files.
    Copying { decisions: Vec<SyncDecision> },
    /// Looking into the directories of a recursive entry.
    Opening { entry: usize },
    /// Asking about the first of these files of a recursive entry.
    AskingFile { entry: usize, left: Vec<String> },
    /// Copying a file of a recursive entry; other files are left.
    CopyingFile { entry: usize, left: Vec<String>, decisions: Vec<SyncDecision> },
    Finished,
}

/// How far a sync has come, as a value of the specification language.
pub ghost enum StateView {
    Expanding(Seq<Seq<char>>, Map<Seq<char>, ExpandView>),
    Asking,
    Copying(Seq<DecisionView>),
    Opening(int),
    AskingFile(int, Seq<Seq<char>>),
    CopyingFile(int, Seq<Seq<char>>, Seq<DecisionView>),
    Finished,
}

impl View for SyncState {
    type V = StateView;

    open spec fn view(&self) -> StateView {
        match self {
            SyncState::Expanding { left, found } => StateView::Expanding(
                texts(left@),
                expand_views(found@),
            ),
            SyncState::Asking => StateView::Asking,
            SyncState::Copying { decisions } => StateView::Copying(decision_views(decisions@)),
            SyncState::Opening { entry } => StateView::Opening(*entry as int),
            SyncState::AskingFile { entry, left } => StateView::AskingFile(
                *entry as int,
                texts(left@),
            ),
            SyncState::CopyingFile { entry, left, decisions } => StateView::CopyingFile(
                *entry as int,
                texts(left@),
                decision_views(decisions@),
            ),
            SyncState::Finished => StateView::Finished,
        }
    }
}

/// The state after a step, and what to do in it.
pub ghost struct Move {
    pub state: StateView,
    pub action: ActionView,
}

/// A whole step: what is to be noted, and the move after it.
pub ghost struct Step {
    pub work: WorkView,
    pub notes: Seq<NoteView>,
    pub next: Move,
}

// ---------------------------------------------------------------------------
// The moves
// ---------------------------------------------------------------------------

/// The paths of an entry of the configuration.
pub open spec fn entry_paths(entries: Seq<SyncEntry>, i: int) -> Seq<Seq<char>> {
    if 0 <= i < entries.len() {
        texts(entries[i].paths@)
    } else {
        Seq::empty()
    }
}

/// The hosts of a recursive entry that can be used.
pub open spec fn usable(s: Scene, k: int) -> Seq<Seq<char>> {
    s.hosts.filter(|h: Seq<char>| s.work.recursive[k].hosts.contains(h))
}

/// Goes on with the recursive entries from the k-th on: an entry with fewer than
/// two usable hosts is passed over; where the source of an entry is usable, its
/// directories are looked into first.
pub open spec fn open_entry(s: Scene, k: int) -> Move
    decreases s.work.recursive.len() - k, 1int,
{
    if k < 0 || k >= s.work.recursive.len() {
        Move { state: StateView::Finished, action: ActionView::End }
    } else if usable(s, k).len() < 2 {
        open_entry(s, k + 1)
    } else {
        let e = s.work.recursive[k];
        let paths = entry_paths(s.entries, e.entry);
        match e.source {
            Some(source) => if usable(s, k).contains(source) {
                Move {
                    state: StateView::Opening(k),
                    action: ActionView::Expand(source, paths, true),
                }
            } else {
                ask_file(s, k, paths)
            },
            None => ask_file(s, k, paths),
        }
    }
}

/// Goes on with the files of a recursive entry.
pub open spec fn ask_file(s: Scene, k: int, files: Seq<Seq<char>>) -> Move
    decreases s.work.recursive.len() - k, 0int,
{
    if k < 0 || k >= s.work.recursive.len() {
        Move { state: StateView::Finished, action: ActionView::End }
    } else if files.len() > 0 {
        Move {
            state: StateView::AskingFile(k, files),
            action: ActionView::Ask(usable(s, k), files[0]),
        }
    } else {
        open_entry(s, k + 1)
    }
}

/// What is noted where decisions are only shown.
pub open spec fn rehearsal(ds: Seq<DecisionView>) -> Seq<NoteView> {
    Seq::new(ds.len(), |i: int| NoteView::Announced(ds[i])) + (if ds.len() > 0 {
        seq![NoteView::Rehearsed]
    } else {
        Seq::empty()
    })
}

/// Goes on with the decisions about the paths that are not recursive. In a dry
/// run they are only shown.
pub open spec fn copy_next(s: Scene, ds: Seq<DecisionView>) -> Step {
    if s.order.dry_run {
        Step { work: s.work, notes: rehearsal(ds), next: open_entry(s, 0) }
    } else if ds.len() == 0 {
        Step { work: s.work, notes: Seq::empty(), next: open_entry(s, 0) }
    } else {
        Step {
            work: s.work,
            notes: seq![NoteView::Announced(ds[0])],
            next: Move {
                state: StateView::Copying(ds),
                action: ActionView::Transfer(ds[0], true),
            },
        }
    }
}

/// Goes on with the decisions about a file of a recursive entry. In a dry run
/// they are only shown.
pub open spec fn copy_next_file(
    s: Scene,
    k: int,
    left: Seq<Seq<char>>,
    ds: Seq<DecisionView>,
) -> Step {
    if s.order.dry_run {
        Step { work: s.work, notes: rehearsal(ds), next: ask_file(s, k, left) }
    } else if ds.len() == 0 {
        Step { work: s.work, notes: Seq::empty(), next: ask_file(s, k, left) }
    } else {
        Step {
            work: s.work,
            notes: seq![NoteView::Announced(ds[0])],
            next: Move {
                state: StateView::CopyingFile(k, left, ds),
                action: ActionView::Transfer(ds[0], false),
            },
        }
    }
}

/// A step with notes in front of its own.
pub open spec fn noting(notes: Seq<NoteView>, step: Step) -> Step {
    Step { notes: notes + step.notes, ..step }
}

/// What is noted of a plan: that nothing is to be copied.
pub open spec fn plan_notes(plan: PlanView, path: Seq<char>) -> Seq<NoteView> {
    match plan {
        PlanView::Copy(_) => Seq::empty(),
        _ => seq![NoteView::Settled(plan, path)],
    }
}

/// Whether a path applies to a host.
pub open spec fn applies_to(
    pairs: Option<Set<(Seq<char>, Seq<char>)>>,
    host: Seq<char>,
    path: Seq<char>,
) -> bool {
    match pairs {
        Some(set) => set.contains((host, path)),
        None => true,
    }
}

/// The plan for a path that is not recursive: only hosts that it applies to
/// count.
pub open spec fn batch_plan(s: Scene, c: CollectResult, path: Seq<char>) -> PlanView {
    plan_of(
        c.found@.filter(|f: FileInfo| applies_to(s.work.pairs, f.host@, path)),
        texts(c.missing@).filter(|h: Seq<char>| applies_to(s.work.pairs, h, path)),
        path,
        run_source(s.order.source, s.work.sources, path),
        s.order,
    )
}

/// What is noted of the first n paths that were asked about.
pub open spec fn batch_notes(s: Scene, m: Map<Seq<char>, CollectResult>, n: nat) -> Seq<NoteView>
    decreases n,
{
    if n == 0 {
        Seq::empty()
    } else {
        let path = s.work.paths[n - 1];
        batch_notes(s, m, (n - 1) as nat) + (if m.dom().contains(path) {
            plan_notes(batch_plan(s, m[path], path), path)
        } else {
            Seq::empty()
        })
    }
}

/// The decisions about the first n paths that were asked about.
pub open spec fn batch_decisions(s: Scene, m: Map<Seq<char>, CollectResult>, n: nat) -> Seq<
    DecisionView,
>
    decreases n,
{
    if n == 0 {
        Seq::empty()
    } else {
        let path = s.work.paths[n - 1];
        batch_decisions(s, m, (n - 1) as nat) + (if m.dom().contains(path) {
            decisions_of(batch_plan(s, m[path], path))
        } else {
            Seq::empty()
        })
    }
}

/// The work once the directories of fixed sources have been looked into.
pub open spec fn expanded(w: WorkView, found: Map<Seq<char>, ExpandView>) -> WorkView {
    WorkView {
        paths: expanded_paths(found, w.paths),
        recursive: w.recursive,
        pairs: match w.pairs {
            Some(set) => Some(expanded_pairs(found, w.paths, set)),
            None => None,
        },
        sources: expanded_sources(found, w.paths, w.sources),
    }
}

/// What is noted of empty directories.
pub open spec fn empty_notes(dirs: Seq<Seq<char>>) -> Seq<NoteView> {
    Seq::new(dirs.len(), |i: int| NoteView::EmptyDir(dirs[i]))
}

/// Goes on with the sources whose directories are still to be looked into; a
/// source that is not usable is passed over. After that all hosts are asked.
pub open spec fn expand_next(s: Scene, left: Seq<Seq<char>>, found: Map<Seq<char>, ExpandView>) -> Step
    decreases left.len(),
{
    if left.len() == 0 {
        let work = expanded(s.work, found);
        Step {
            work,
            notes: empty_notes(empty_dirs(found, s.work.paths)),
            next: if work.paths.len() > 0 {
                Move { state: StateView::Asking, action: ActionView::AskAll(work.paths) }
            } else {
                open_entry(Scene { work, ..s }, 0)
            },
        }
    } else if s.hosts.contains(left[0]) {
        Step {
            work: s.work,
            notes: Seq::empty(),
            next: Move {
                state: StateView::Expanding(left, found),
                action: ActionView::Expand(
                    left[0],
                    paths_of_source(s.work.sources, s.work.paths, left[0]),
                    false,
                ),
            },
        }
    } else {
        expand_next(s, left.skip(1), found)
    }
}

// ---------------------------------------------------------------------------
// The steps
// ---------------------------------------------------------------------------

/// The first step.
pub open spec fn first_step(s: Scene) -> Step {
    expand_next(s, fixed_sources(s.work.sources, s.work.paths), Map::empty())
}

/// The step after directories were looked into; none where that failed.
pub open spec fn step_expanded(
    s: Scene,
    state: StateView,
    answer: Option<Map<Seq<char>, ExpandView>>,
) -> Step {
    match state {
        StateView::Expanding(left, found) => expand_next(
            s,
            left.skip(1),
            match answer {
                Some(more) => found.union_prefer_right(more),
                None => found,
            },
        ),
        StateView::Opening(k) => {
            let paths = entry_paths(s.entries, s.work.recursive[k].entry);
            match answer {
                Some(m) => Step {
                    work: s.work,
                    notes: empty_notes(empty_dirs(m, paths)),
                    next: ask_file(s, k, expanded_entry(m, paths)),
                },
                None => Step {
                    work: s.work,
                    notes: Seq::empty(),
                    next: ask_file(s, k, paths),
                },
            }
        },
        _ => Step {
            work: s.work,
            notes: Seq::empty(),
            next: Move { state, action: ActionView::End },
        },
    }
}

/// The step after all hosts were asked about all paths.
pub open spec fn step_asked(s: Scene, m: Map<Seq<char>, CollectResult>) -> Step {
    let n = s.work.paths.len();
    noting(batch_notes(s, m, n), copy_next(s, batch_decisions(s, m, n)))
}

/// The step after hosts were asked about a file of a recursive entry.
pub open spec fn step_asked_file(s: Scene, state: StateView, c: CollectResult) -> Step {
    match state {
        StateView::AskingFile(k, left) => {
            let plan = plan_of(
                c.found@,
                texts(c.missing@),
                left[0],
                s.work.recursive[k].source,
                s.order,
            );
            noting(
                plan_notes(plan, left[0]),
                copy_next_file(s, k, left.skip(1), decisions_of(plan)),
            )
        },
        _ => Step {
            work: s.work,
            notes: Seq::empty(),
            next: Move { state, action: ActionView::End },
        },
    }
}

/// The step after a file was copied.
pub open spec fn step_copied(s: Scene, state: StateView, o: OutcomeView) -> Step {
    match state {
        StateView::Copying(left) => noting(
            seq![NoteView::Copied(left[0], o)],
            copy_next(s, left.skip(1)),
        ),
        StateView::CopyingFile(k, left, ds) => noting(
            seq![NoteView::Copied(ds[0], o)],
            copy_next_file(s, k, left, ds.skip(1)),
        ),
        _ => Step {
            work: s.work,
            notes: Seq::empty(),
            next: Move { state, action: ActionView::End },
        },
    }
}

// ---------------------------------------------------------------------------
// The machine
// ---------------------------------------------------------------------------

/// A sync that is under way.
pub struct SyncMachine {
    pub order: SyncOrder,
    /// The hosts that files can be copied to and from.
    pub hosts: Vec<String>,
    pub work: SyncPaths,
    pub state: SyncState,
}

/// Whether a state fits the number of recursive entries, and has something to
/// wait for.
pub open spec fn state_wf(state: SyncState, entries: nat) -> bool {
    match state {
        SyncState::Expanding { left, found } => left@.len() > 0 && found.wf(),
        SyncState::Asking => true,
        SyncState::Copying { decisions } => decisions@.len() > 0,
        SyncState::Opening { entry } => entry < entries,
        SyncState::AskingFile { entry, left } => entry < entries && left@.len() > 0,
        SyncState::CopyingFile { entry, left, decisions } => entry < entries && decisions@.len()
            > 0,
        SyncState::Finished => true,
    }
}

/// A decision like the given one.
pub fn same_decision(d: &SyncDecision) -> (r: SyncDecision)
    ensures
        r@ == d@,
{
    SyncDecision {
        path: copy(d.path.as_str()),
        source_host: copy(d.source_host.as_str()),
        target_hosts: copy_all(d.target_hosts.as_slice()),
        synced_hosts: copy_all(d.synced_hosts.as_slice()),
        reason: copy(d.reason.as_str()),
    }
}

fn push_note(notes: &mut Vec<SyncNote>, note: SyncNote)
    ensures
        note_views(final(notes)@) == note_views(old(notes)@).push(note@),
{
    notes.push(note);
    assert(note_views(notes@) =~= note_views(old(notes)@).push(note@));
}

fn push_notes(notes: &mut Vec<SyncNote>, more: Vec<SyncNote>)
    ensures
        note_views(final(notes)@) == note_views(old(notes)@) + note_views(more@),
{
    let ghost all = more@;
    let mut rest = more;
    notes.append(&mut rest);
    assert(note_views(notes@) =~= note_views(old(notes)@) + note_views(all));
}

fn rehearse(ds: &[SyncDecision]) -> (r: Vec<SyncNote>)
    ensures
        note_views(r@) == rehearsal(decision_views(ds@)),
{
    let ghost all = rehearsal(decision_views(ds@));
    let mut out: Vec<SyncNote> = Vec::new();
    let mut i: usize = 0;
    assert(note_views(out@) =~= all.take(0));
    while i < ds.len()
        invariant
            i <= ds@.len(),
            all == rehearsal(decision_views(ds@)),
            note_views(out@) == all.take(i as int),
        decreases ds@.len() - i,
    {
        push_note(&mut out, SyncNote::Announced(same_decision(&ds[i])));
        assert(all.take(i + 1) =~= all.take(i as int).push(all[i as int]));
        i += 1;
    }
    if ds.len() > 0 {
        push_note(&mut out, SyncNote::Rehearsed);
    }
    assert(note_views(out@) =~= all);
    out
}

fn note_empty(dirs: &[String]) -> (r: Vec<SyncNote>)
    ensures
        note_views(r@) == empty_notes(texts(dirs@)),
{
    let ghost all = empty_notes(texts(dirs@));
    let mut out: Vec<SyncNote> = Vec::new();
    let mut i: usize = 0;
    assert(note_views(out@) =~= all.take(0));
    while i < dirs.len()
        invariant
            i <= dirs@.len(),
            all == empty_notes(texts(dirs@)),
            note_views(out@) == all.take(i as int),
        decreases dirs@.len() - i,
    {
        push_note(&mut out, SyncNote::EmptyDir(copy(dirs[i].as_str())));
        assert(all.take(i + 1) =~= all.take(i as int).push(all[i as int]));
        i += 1;
    }
    assert(all.take(i as int) =~= all);
    out
}

fn paths_of_entry(entries: &[SyncEntry], i: usize) -> (r: Vec<String>)
    ensures
        texts(r@) == entry_paths(entries@, i as int),
{
    if i < entries.len() {
        copy_all(entries[i].paths.as_slice())
    } else {
        let none: Vec<String> = Vec::new();
        assert(texts(none@) =~= Seq::empty());
        none
    }
}

/// Takes the first element off a list.
fn behind_first(list: Vec<String>) -> (r: Vec<String>)
    requires
        list@.len() > 0,
    ensures
        texts(r@) == texts(list@).skip(1),
{
    let mut rest = list;
    rest.remove(0);
    assert(texts(rest@) =~= texts(list@).skip(1));
    rest
}

/// Adds the answers of one map to another; where both have one, the new one
/// counts.
fn absorb(found: &mut TextMap<DirExpandResult>, more: TextMap<DirExpandResult>)
    requires
        old(found).wf(),
        more.wf(),
    ensures
        final(found).wf(),
        expand_views(final(found)@) == expand_views(old(found)@).union_prefer_right(
            expand_views(more@),
        ),
{
    let ghost start = found@;
    let ghost all = more;
    let ghost mut done: Map<Seq<char>, DirExpandResult> = Map::empty();
    let mut rest = more.entries;
    assert(found@ =~= start.union_prefer_right(done));
    while rest.len() > 0
        invariant
            found.wf(),
            all.wf(),
            rest@.len() <= all.entries@.len(),
            rest@ == all.entries@.take(rest@.len() as int),
            found@ == start.union_prefer_right(done),
            forall|j: int|
                rest@.len() <= j < all.entries@.len() ==> done.dom().contains(
                    #[trigger] all.keys()[j],
                ) && done[all.keys()[j]] == all.entries@[j].1,
            forall|k: Seq<char>| #[trigger]
                done.dom().contains(k) ==> exists|j: int|
                    rest@.len() <= j < all.entries@.len() && #[trigger] all.keys()[j] == k,
        decreases rest@.len(),
    {
        let ghost n = rest@.len() - 1;
        let ghost was = done;
        match rest.pop() {
            Some((key, value)) => {
                let ghost k = key@;
                let ghost v = value;
                assert(all.keys()[n] == k);
                found.insert(key, value);
                proof {
                    done = done.insert(k, v);
                    assert(start.union_prefer_right(was).insert(k, v)
                        =~= start.union_prefer_right(done));
                    assert forall|j: int| n <= j < all.entries@.len() implies done.dom().contains(
                        #[trigger] all.keys()[j],
                    ) && done[all.keys()[j]] == all.entries@[j].1 by {
                        if j > n {
                            assert(all.keys()[j] != all.keys()[n]);
                        }
                    }
                    assert forall|x: Seq<char>| #[trigger]
                        done.dom().contains(x) implies exists|j: int|
                        n <= j < all.entries@.len() && #[trigger] all.keys()[j] == x by {
                        if x != k {
                            assert(was.dom().contains(x));
                        }
                    }
                }
            },
            None => {},
        }
    }
    proof {
        assert forall|k: Seq<char>| done.dom().contains(k) <==> all@.dom().contains(k) by {
            if all.keys().contains(k) {
                let j = all.keys().index_of(k);
                assert(all.keys()[j] == k);
            }
        }
        assert forall|k: Seq<char>| done.dom().contains(k) implies done[k] == all@[k] by {
            let j = choose|j: int| 0 <= j < all.entries@.len() && #[trigger] all.keys()[j] == k;
            all.value_at(j);
        }
        assert(done =~= all@);
        assert(expand_views(start.union_prefer_right(done)) =~= expand_views(
            start,
        ).union_prefer_right(expand_views(all@)));
    }
}

impl SyncMachine {
    /// The machine is well formed: its maps hold no key twice, and its state fits
    /// its work.
    pub open spec fn wf(&self) -> bool {
        self.work.sources.wf() && state_wf(self.state, self.work.recursive@.len())
    }

    /// What stays the same while files are compared and copied.
    pub open spec fn scene(&self, entries: Seq<SyncEntry>) -> Scene {
        Scene { order: self.order@, hosts: texts(self.hosts@), work: self.work@, entries }
    }

    fn usable_hosts(&self, k: usize) -> (r: Vec<String>)
        requires
            k < self.work.recursive@.len(),
        ensures
            forall|entries: Seq<SyncEntry>|
                texts(r@) == #[trigger] usable(self.scene(entries), k as int),
    {
        let ghost names = self.work@.recursive[k as int].hosts;
        let ghost all = texts(self.hosts@);
        let ghost p = |h: Seq<char>| names.contains(h);
        let mut out: Vec<String> = Vec::new();
        let mut i: usize = 0;
        proof {
            filter_none(all, p);
            assert(texts(out@) =~= Seq::empty());
        }
        while i < self.hosts.len()
            invariant
                i <= self.hosts@.len(),
                k < self.work.recursive@.len(),
                all == texts(self.hosts@),
                names == texts(self.work.recursive@[k as int].hosts@),
                p == (|h: Seq<char>| names.contains(h)),
                texts(out@) == all.take(i as int).filter(p),
            decreases self.hosts@.len() - i,
        {
            proof {
                filter_next(all, p, i as int);
            }
            let h = self.hosts[i].as_str();
            if listed(self.work.recursive[k].hosts.as_slice(), h) {
                out.push(copy(h));
            }
            i += 1;
        }
        assert(all.take(i as int) =~= all);
        assert forall|entries: Seq<SyncEntry>| texts(out@) == #[trigger] usable(
            self.scene(entries),
            k as int,
        ) by {
            let s = self.scene(entries);
            assert((|h: Seq<char>| s.work.recursive[k as int].hosts.contains(h)) =~= p);
        }
        out
    }

    /// The next recursive entry with something to do, from one on.
    fn find_entry(&self, entries: &[SyncEntry], from: usize) -> (r: (SyncState, SyncAction))
        requires
            from <= self.work.recursive@.len(),
        ensures
            (Move { state: r.0@, action: r.1@ }) == open_entry(
                self.scene(entries@),
                from as int,
            ),
            state_wf(r.0, self.work.recursive@.len()),
    {
        let ghost s = self.scene(entries@);
        let mut k: usize = from;
        while k < self.work.recursive.len()
            invariant
                from <= k <= self.work.recursive@.len(),
                s == self.scene(entries@),
                open_entry(s, from as int) == open_entry(s, k as int),
            decreases self.work.recursive@.len() - k,
        {
            let hosts = self.usable_hosts(k);
            assert(texts(hosts@) == usable(s, k as int));
            assert(texts(hosts@).len() == hosts@.len());
            assert(s.work.recursive[k as int] == self.work.recursive@[k as int]@);
            if hosts.len() >= 2 {
                let e = &self.work.recursive[k];
                let paths = paths_of_entry(entries, e.entry);
                assert(texts(paths@).len() == paths@.len());
                if let Some(source) = &e.source {
                    if listed(hosts.as_slice(), source.as_str()) {
                        return (
                            SyncState::Opening { entry: k },
                            SyncAction::Expand {
                                host: copy(source.as_str()),
                                paths,
                                recursive: true,
                            },
                        );
                    }
                }
                assert(open_entry(s, k as int) == ask_file(s, k as int, texts(paths@)));
                if paths.len() > 0 {
                    let path = copy(paths[0].as_str());
                    assert(texts(paths@)[0] == path@);
                    return (
                        SyncState::AskingFile { entry: k, left: paths },
                        SyncAction::Ask { hosts, path },
                    );
                }
            }
            k += 1;
        }
        (SyncState::Finished, SyncAction::End)
    }

    /// The next file of a recursive entry, or else the next entry.
    fn find_file(&self, entries: &[SyncEntry], k: usize, files: Vec<String>) -> (r: (
        SyncState,
        SyncAction,
    ))
        requires
            k < self.work.recursive@.len(),
        ensures
            (Move { state: r.0@, action: r.1@ }) == ask_file(
                self.scene(entries@),
                k as int,
                texts(files@),
            ),
            state_wf(r.0, self.work.recursive@.len()),
    {
        assert(texts(files@).len() == files@.len());
        if files.len() > 0 {
            let hosts = self.usable_hosts(k);
            assert(texts(hosts@) == usable(self.scene(entries@), k as int));
            let path = copy(files[0].as_str());
            assert(texts(files@)[0] == path@);
            (SyncState::AskingFile { entry: k, left: files }, SyncAction::Ask { hosts, path })
        } else {
            let count: usize = self.work.recursive.len();
            assert(k < count);
            self.find_entry(entries, k + 1)
        }
    }

    /// A whole step that has just been taken.
    pub open spec fn taken(&self, notes: Seq<SyncNote>, action: SyncAction) -> Step {
        Step {
            work: self.work@,
            notes: note_views(notes),
            next: Move { state: self.state@, action: action@ },
        }
    }

    /// Whether nothing but the work and the state has changed.
    pub open spec fn goes_on(&self, before: SyncMachine) -> bool {
        self.wf() && self.order == before.order && self.hosts == before.hosts
    }

    fn copy_next(
        &mut self,
        entries: &[SyncEntry],
        notes: Vec<SyncNote>,
        decisions: Vec<SyncDecision>,
    ) -> (r: (Vec<SyncNote>, SyncAction))
        requires
            old(self).wf(),
        ensures
            final(self).goes_on(*old(self)),
            final(self).taken(r.0@, r.1) == noting(
                note_views(notes@),
                copy_next(old(self).scene(entries@), decision_views(decisions@)),
            ),
    {
        let ghost s = self.scene(entries@);
        let ghost ds = decision_views(decisions@);
        let mut out = notes;
        let ghost before = note_views(out@);
        assert(ds.len() == decisions@.len());
        if !self.order.dry_run && decisions.len() > 0 {
            assert(ds[0] == decisions@[0]@);
            push_note(&mut out, SyncNote::Announced(same_decision(&decisions[0])));
            let decision = same_decision(&decisions[0]);
            self.state = SyncState::Copying { decisions };
            assert(note_views(out@) =~= before + seq![NoteView::Announced(ds[0])]);
            return (out, SyncAction::Transfer { decision, pooled: true });
        }
        if self.order.dry_run {
            push_notes(&mut out, rehearse(decisions.as_slice()));
        } else {
            assert(note_views(out@) =~= before + Seq::<NoteView>::empty());
        }
        let next = self.find_entry(entries, 0);
        self.state = next.0;
        (out, next.1)
    }

    fn copy_next_file(
        &mut self,
        entries: &[SyncEntry],
        notes: Vec<SyncNote>,
        k: usize,
        left: Vec<String>,
        decisions: Vec<SyncDecision>,
    ) -> (r: (Vec<SyncNote>, SyncAction))
        requires
            old(self).wf(),
            k < old(self).work.recursive@.len(),
        ensures
            final(self).goes_on(*old(self)),
            final(self).taken(r.0@, r.1) == noting(
                note_views(notes@),
                copy_next_file(
                    old(self).scene(entries@),
                    k as int,
                    texts(left@),
                    decision_views(decisions@),
                ),
            ),
    {
        let ghost ds = decision_views(decisions@);
        let mut out = notes;
        let ghost before = note_views(out@);
        assert(ds.len() == decisions@.len());
        if !self.order.dry_run && decisions.len() > 0 {
            assert(ds[0] == decisions@[0]@);
            push_note(&mut out, SyncNote::Announced(same_decision(&decisions[0])));
            let decision = same_decision(&decisions[0]);
            self.state = SyncState::CopyingFile { entry: k, left, decisions };
            assert(note_views(out@) =~= before + seq![NoteView::Announced(ds[0])]);
            return (out, SyncAction::Transfer { decision, pooled: false });
        }
        if self.order.dry_run {
            push_notes(&mut out, rehearse(decisions.as_slice()));
        } else {
            assert(note_views(out@) =~= before + Seq::<NoteView>::empty());
        }
        let next = self.find_file(entries, k, left);
        self.state = next.0;
        (out, next.1)
    }

    fn expand_next(
        &mut self,
        entries: &[SyncEntry],
        left: Vec<String>,
        found: TextMap<DirExpandResult>,
    ) -> (r: (Vec<SyncNote>, SyncAction))
        requires
            old(self).work.sources.wf(),
            found.wf(),
        ensures
            final(self).goes_on(*old(self)),
            final(self).taken(r.0@, r.1) == expand_next(
                old(self).scene(entries@),
                texts(left@),
                expand_views(found@),
            ),
    {
        let ghost s = self.scene(entries@);
        let ghost m = expand_views(found@);
        let ghost all = texts(left@);
        let mut rest = left;
        while rest.len() > 0
            invariant
                self == old(self),
                old(self).work.sources.wf(),
                s == self.scene(entries@),
                all == texts(left@),
                expand_next(s, all, m) == expand_next(s, texts(rest@), m),
                m == expand_views(found@),
                found.wf(),
            decreases rest@.len(),
        {
            assert(texts(rest@)[0] == rest@[0]@);
            assert(texts(rest@).len() == rest@.len());
            if listed(self.hosts.as_slice(), rest[0].as_str()) {
                let host = copy(rest[0].as_str());
                let paths = list_paths_of_source(
                    &self.work.sources,
                    self.work.paths.as_slice(),
                    host.as_str(),
                );
                self.state = SyncState::Expanding { left: rest, found };
                let none: Vec<SyncNote> = Vec::new();
                assert(note_views(none@) =~= Seq::empty());
                return (none, SyncAction::Expand { host, paths, recursive: false });
            }
            rest = behind_first(rest);
        }
        assert(texts(rest@) =~= Seq::empty());
        let mut work = SyncPaths {
            paths: Vec::new(),
            recursive: Vec::new(),
            host_paths: None,
            sources: TextMap::new(),
        };
        std::mem::swap(&mut work, &mut self.work);
        let (work, empty) = expand_paths(work, &found);
        self.work = work;
        let notes = note_empty(empty.as_slice());
        assert(texts(self.work.paths@).len() == self.work.paths@.len());
        assert(self.work@ == expanded(s.work, m));
        if self.work.paths.len() > 0 {
            self.state = SyncState::Asking;
            (notes, SyncAction::AskAll(copy_all(self.work.paths.as_slice())))
        } else {
            let next = self.find_entry(entries, 0);
            self.state = next.0;
            (notes, next.1)
        }
    }

    /// Begins a sync: with the hosts that files can be copied to and from, and
    /// what it works on.
    pub fn begin(
        order: SyncOrder,
        hosts: Vec<String>,
        work: SyncPaths,
        entries: &[SyncEntry],
    ) -> (r: (SyncMachine, Vec<SyncNote>, SyncAction))
        requires
            work.sources.wf(),
        ensures
            r.0.wf(),
            r.0.order == order,
            r.0.hosts == hosts,
            r.0.taken(r.1@, r.2) == first_step(
                Scene { order: order@, hosts: texts(hosts@), work: work@, entries: entries@ },
            ),
    {
        let sources = list_sources(&work.sources, work.paths.as_slice());
        let mut m = SyncMachine { order, hosts, work, state: SyncState::Finished };
        let found: TextMap<DirExpandResult> = TextMap::new();
        assert(expand_views(found@) =~= Map::<Seq<char>, ExpandView>::empty());
        let (notes, action) = m.expand_next(entries, sources, found);
        (m, notes, action)
    }

    /// Goes on after directories were looked into; `None` where that failed.
    pub fn expanded(
        &mut self,
        entries: &[SyncEntry],
        answer: Option<TextMap<DirExpandResult>>,
    ) -> (r: (Vec<SyncNote>, SyncAction))
        requires
            old(self).wf(),
            old(self).state is Expanding || old(self).state is Opening,
            answer matches Some(m) ==> m.wf(),
        ensures
            final(self).goes_on(*old(self)),
            final(self).taken(r.0@, r.1) == step_expanded(
                old(self).scene(entries@),
                old(self).state@,
                match answer {
                    Some(m) => Some(expand_views(m@)),
                    None => None,
                },
            ),
    {
        let mut state = SyncState::Finished;
        std::mem::swap(&mut state, &mut self.state);
        match state {
            SyncState::Expanding { left, found } => {
                let mut all = found;
                if let Some(more) = answer {
                    absorb(&mut all, more);
                }
                self.expand_next(entries, behind_first(left), all)
            },
            SyncState::Opening { entry } => {
                let ghost e = self.work@.recursive[entry as int];
                assert(e == self.work.recursive@[entry as int]@);
                let paths = paths_of_entry(entries, self.work.recursive[entry].entry);
                let (notes, files) = match answer {
                    Some(m) => {
                        let (files, empty) = expand_entry(paths.as_slice(), &m);
                        (note_empty(empty.as_slice()), files)
                    },
                    None => {
                        let none: Vec<SyncNote> = Vec::new();
                        assert(note_views(none@) =~= Seq::empty());
                        (none, paths)
                    },
                };
                let next = self.find_file(entries, entry, files);
                self.state = next.0;
                (notes, next.1)
            },
            _ => (Vec::new(), SyncAction::End),
        }
    }

    fn plan_batch(&self, c: &CollectResult, path: &str) -> (r: FilePlan)
        requires
            self.work.sources.wf(),
        ensures
            forall|entries: Seq<SyncEntry>|
                r@ == #[trigger] batch_plan(self.scene(entries), *c, path@),
    {
        let source = match &self.order.source {
            Some(s) => Some(s.as_str()),
            None => None,
        };
        let plan = plan_path(
            c,
            path,
            &self.work.host_paths,
            &self.work.sources,
            source,
            &self.order.strategy,
            self.order.push_missing,
        );
        proof {
            let hp = self.work.host_paths;
            let pairs = self.work@.pairs;
            let found = c.found@.filter(|f: FileInfo| in_scope(hp, f.host@, path@));
            let missing = hosts_in_scope(hp, texts(c.missing@), path@);
            assert((|f: FileInfo| in_scope(hp, f.host@, path@)) =~= (|f: FileInfo|
                applies_to(pairs, f.host@, path@)));
            assert((|h: Seq<char>| in_scope(hp, h, path@)) =~= (|h: Seq<char>|
                applies_to(pairs, h, path@)));
            plans_are_determined(
                plan,
                found,
                missing,
                path@,
                run_source(text_opt(self.order.source), self.work@.sources, path@),
                self.order@,
            );
        }
        plan
    }

    /// Goes on after all hosts were asked about all paths.
    pub fn asked(&mut self, entries: &[SyncEntry], batch: &BatchCollectResult) -> (r: (
        Vec<SyncNote>,
        SyncAction,
    ))
        requires
            old(self).wf(),
            batch.per_file.wf(),
        ensures
            final(self).goes_on(*old(self)),
            final(self).taken(r.0@, r.1) == step_asked(
                old(self).scene(entries@),
                batch.per_file@,
            ),
    {
        let ghost s = self.scene(entries@);
        let ghost m = batch.per_file@;
        let mut notes: Vec<SyncNote> = Vec::new();
        let mut decisions: Vec<SyncDecision> = Vec::new();
        let mut i: usize = 0;
        assert(note_views(notes@) =~= batch_notes(s, m, 0));
        assert(decision_views(decisions@) =~= batch_decisions(s, m, 0));
        while i < self.work.paths.len()
            invariant
                i <= self.work.paths@.len(),
                self == old(self),
                self.wf(),
                batch.per_file.wf(),
                s == self.scene(entries@),
                m == batch.per_file@,
                note_views(notes@) == batch_notes(s, m, i as nat),
                decision_views(decisions@) == batch_decisions(s, m, i as nat),
            decreases self.work.paths@.len() - i,
        {
            let path = self.work.paths[i].as_str();
            assert(s.work.paths[i as int] == path@);
            match batch.per_file.get(path) {
                Some(c) => {
                    let plan = self.plan_batch(c, path);
                    let ghost before = note_views(notes@);
                    let ghost ds = decision_views(decisions@);
                    match plan {
                        FilePlan::Copy(list) => {
                            let mut list = list;
                            let ghost more = decision_views(list@);
                            decisions.append(&mut list);
                            assert(decision_views(decisions@) =~= ds + more);
                            assert(note_views(notes@) =~= before + Seq::<NoteView>::empty());
                        },
                        other => {
                            push_note(
                                &mut notes,
                                SyncNote::Settled { plan: other, path: copy(path) },
                            );
                            assert(note_views(notes@) =~= before + plan_notes(other@, path@));
                            assert(decision_views(decisions@) =~= ds + decisions_of(other@));
                        },
                    }
                },
                None => {
                    assert(note_views(notes@) =~= note_views(notes@) + Seq::<NoteView>::empty());
                    assert(decision_views(decisions@) =~= decision_views(decisions@) + Seq::<
                        DecisionView,
                    >::empty());
                },
            }
            i += 1;
        }
        assert(s.work.paths.len() == i);
        self.copy_next(entries, notes, decisions)
    }

    /// Goes on after hosts were asked about a file of a recursive entry.
    pub fn asked_file(&mut self, entries: &[SyncEntry], c: &CollectResult) -> (r: (
        Vec<SyncNote>,
        SyncAction,
    ))
        requires
            old(self).wf(),
            old(self).state is AskingFile,
        ensures
            final(self).goes_on(*old(self)),
            final(self).taken(r.0@, r.1) == step_asked_file(
                old(self).scene(entries@),
                old(self).state@,
                *c,
            ),
    {
        let mut state = SyncState::Finished;
        std::mem::swap(&mut state, &mut self.state);
        match state {
            SyncState::AskingFile { entry, left } => {
                assert(texts(left@)[0] == left@[0]@);
                assert(self.work@.recursive[entry as int] == self.work.recursive@[entry as int]@);
                let path = copy(left[0].as_str());
                let source = match &self.work.recursive[entry].source {
                    Some(s) => Some(s.as_str()),
                    None => None,
                };
                let plan = plan_file(
                    c.found.as_slice(),
                    c.missing.as_slice(),
                    path.as_str(),
                    source,
                    &self.order.strategy,
                    self.order.push_missing,
                );
                proof {
                    plans_are_determined(
                        plan,
                        c.found@,
                        texts(c.missing@),
                        path@,
                        self.work@.recursive[entry as int].source,
                        self.order@,
                    );
                }
                let ghost view = plan@;
                let mut notes: Vec<SyncNote> = Vec::new();
                assert(note_views(notes@) =~= Seq::empty());
                let decisions = match plan {
                    FilePlan::Copy(list) => list,
                    other => {
                        push_note(&mut notes, SyncNote::Settled { plan: other, path });
                        let none: Vec<SyncDecision> = Vec::new();
                        assert(decision_views(none@) =~= Seq::empty());
                        none
                    },
                };
                assert(note_views(notes@) =~= plan_notes(view, texts(left@)[0]));
                self.copy_next_file(entries, notes, entry, behind_first(left), decisions)
            },
            _ => (Vec::new(), SyncAction::End),
        }
    }

    /// Goes on after a file was copied.
    pub fn copied(&mut self, entries: &[SyncEntry], outcome: TransferOutcome) -> (r: (
        Vec<SyncNote>,
        SyncAction,
    ))
        requires
            old(self).wf(),
            old(self).state is Copying || old(self).state is CopyingFile,
        ensures
            final(self).goes_on(*old(self)),
            final(self).taken(r.0@, r.1) == step_copied(
                old(self).scene(entries@),
                old(self).state@,
                outcome@,
            ),
    {
        let mut state = SyncState::Finished;
        std::mem::swap(&mut state, &mut self.state);
        let mut notes: Vec<SyncNote> = Vec::new();
        assert(note_views(notes@) =~= Seq::empty());
        match state {
            SyncState::Copying { decisions } => {
                let ghost ds = decision_views(decisions@);
                let mut rest = decisions;
                let decision = rest.remove(0);
                assert(ds[0] == decision@);
                assert(decision_views(rest@) =~= ds.skip(1));
                push_note(&mut notes, SyncNote::Copied { decision, outcome });
                assert(note_views(notes@) =~= seq![NoteView::Copied(ds[0], outcome@)]);
                self.copy_next(entries, notes, rest)
            },
            SyncState::CopyingFile { entry, left, decisions } => {
                let ghost ds = decision_views(decisions@);
                let mut rest = decisions;
                let decision = rest.remove(0);
                assert(ds[0] == decision@);
                assert(decision_views(rest@) =~= ds.skip(1));
                push_note(&mut notes, SyncNote::Copied { decision, outcome });
                assert(note_views(notes@) =~= seq![NoteView::Copied(ds[0], outcome@)]);
                self.copy_next_file(entries, notes, entry, left, rest)
            },
            _ => (Vec::new(), SyncAction::End),
        }
    }
}

// ---------------------------------------------------------------------------
// Showing and counting
// ---------------------------------------------------------------------------

/// The lines of a note.
pub open spec fn note_lines(note: SyncNote) -> Seq<Seq<char>> {
    match note {
        SyncNote::EmptyDir(p) => seq!["  "@ + p@ + " (empty directory on source, skipping)"@],
        SyncNote::Settled { plan, path } => plan_lines(plan, path@),
        SyncNote::Announced(d) => decision_lines(d@),
        SyncNote::Copied { decision, outcome } => outcome_lines(decision@, outcome),
        SyncNote::Rehearsed => seq!["  [dry-run] No changes applied."@],
    }
}

/// Whether the counters of a summary have room for a note.
pub open spec fn has_room(s: SyncSummary, note: SyncNote) -> bool {
    &&& s.files_synced < usize::MAX
    &&& s.files_skipped < usize::MAX
    &&& match note {
        SyncNote::Settled { plan, path } => plan matches FilePlan::InSync(hosts)
            ==> s.transfers_passed + hosts@.len() <= usize::MAX,
        SyncNote::Copied { decision, outcome } => outcome_fits(s, decision@, outcome),
        _ => true,
    }
}

/// Counts a note in a summary and gives the lines to show.
pub fn tell(summary: &mut SyncSummary, note: &SyncNote) -> (r: Vec<String>)
    requires
        old(summary).wf(),
        has_room(*old(summary), *note),
    ensures
        texts(r@) == note_lines(*note),
        final(summary).wf(),
        match *note {
            SyncNote::Settled { plan, path } => plan_recorded(
                *old(summary),
                *final(summary),
                plan,
            ),
            SyncNote::Copied { decision, outcome } => outcome_recorded(
                *old(summary),
                *final(summary),
                decision@,
                outcome,
            ),
            _ => *final(summary) == *old(summary),
        },
{
    match note {
        SyncNote::EmptyDir(p) => {
            let mut out: Vec<String> = Vec::new();
            out.push(concat3("  ", p.as_str(), " (empty directory on source, skipping)"));
            assert(texts(out@) =~= note_lines(*note));
            out
        },
        SyncNote::Settled { plan, path } => record_plan(summary, plan, path.as_str()),
        SyncNote::Announced(d) => announce(d),
        SyncNote::Copied { decision, outcome } => record_outcome(summary, decision, outcome),
        SyncNote::Rehearsed => {
            let mut out: Vec<String> = Vec::new();
            out.push(copy("  [dry-run] No changes applied."));
            assert(texts(out@) =~= note_lines(*note));
            out
        },
    }
}

// ---------------------------------------------------------------------------
// Laws
// ---------------------------------------------------------------------------

proof fn moves_send_nothing(s: Scene, k: int, files: Seq<Seq<char>>)
    ensures
        !(open_entry(s, k).action is Transfer),
        !(ask_file(s, k, files).action is Transfer),
    decreases s.work.recursive.len() - k,
{
    if 0 <= k < s.work.recursive.len() {
        let paths = entry_paths(s.entries, s.work.recursive[k].entry);
        moves_send_nothing(s, k + 1, files);
        assert(!(ask_file(s, k, paths).action is Transfer));
    }
}

proof fn expanding_sends_nothing(
    s: Scene,
    left: Seq<Seq<char>>,
    found: Map<Seq<char>, ExpandView>,
)
    ensures
        !(expand_next(s, left, found).next.action is Transfer),
    decreases left.len(),
{
    if left.len() == 0 {
        moves_send_nothing(Scene { work: expanded(s.work, found), ..s }, 0, Seq::empty());
    } else if !s.hosts.contains(left[0]) {
        expanding_sends_nothing(s, left.skip(1), found);
    }
}

/// A dry run copies nothing: whatever the hosts answer, no step of it ends in a
/// transfer.
pub proof fn dry_runs_copy_nothing(
    s: Scene,
    state: StateView,
    answer: Option<Map<Seq<char>, ExpandView>>,
    batch: Map<Seq<char>, CollectResult>,
    reports: CollectResult,
    outcome: OutcomeView,
)
    requires
        s.order.dry_run,
    ensures
        !(first_step(s).next.action is Transfer),
        !(step_expanded(s, state, answer).next.action is Transfer),
        !(step_asked(s, batch).next.action is Transfer),
        !(step_asked_file(s, state, reports).next.action is Transfer),
        !(step_copied(s, state, outcome).next.action is Transfer),
{
    expanding_sends_nothing(s, fixed_sources(s.work.sources, s.work.paths), Map::empty());
    moves_send_nothing(s, 0, Seq::empty());
    match state {
        StateView::Expanding(left, found) => {
            let all = match answer {
                Some(more) => found.union_prefer_right(more),
                None => found,
            };
            expanding_sends_nothing(s, left.skip(1), all);
        },
        StateView::Opening(k) => {
            let paths = entry_paths(s.entries, s.work.recursive[k].entry);
            moves_send_nothing(s, k, paths);
            if answer is Some {
                moves_send_nothing(s, k, expanded_entry(answer->0, paths));
            }
        },
        StateView::AskingFile(k, left) => {
            moves_send_nothing(s, k, left.skip(1));
        },
        StateView::CopyingFile(k, left, ds) => {
            moves_send_nothing(s, k, left);
        },
        _ => {},
    }
}

/// Every decision about paths that are not recursive is carried out: the
/// transfers come one by one, in the order of the decisions, and each is
/// announced first.
pub proof fn decisions_are_carried_out_in_order(s: Scene, ds: Seq<DecisionView>, o: OutcomeView)
    requires
        !s.order.dry_run,
        ds.len() > 0,
    ensures
        copy_next(s, ds).next == (Move {
            state: StateView::Copying(ds),
            action: ActionView::Transfer(ds[0], true),
        }),
        copy_next(s, ds).notes == seq![NoteView::Announced(ds[0])],
        step_copied(s, StateView::Copying(ds), o) == noting(
            seq![NoteView::Copied(ds[0], o)],
            copy_next(s, ds.skip(1)),
        ),
        ds.len() == 1 ==> copy_next(s, ds.skip(1)).next == open_entry(s, 0),
{
}

/// Whether an action is the one that a state waits for.
pub open spec fn fitting(m: Move) -> bool {
    match m.state {
        StateView::Expanding(_, _) => m.action is Expand,
        StateView::Asking => m.action is AskAll,
        StateView::Copying(_) => m.action is Transfer,
        StateView::Opening(_) => m.action is Expand,
        StateView::AskingFile(_, _) => m.action is Ask,
        StateView::CopyingFile(_, _, _) => m.action is Transfer,
        StateView::Finished => m.action is End,
    }
}

/// How much of a sync is left, from the largest part to the smallest: sources and
/// recursive entries, files of an entry, decisions.
pub open spec fn rest_of(s: WorkView, state: StateView) -> (int, int, int, int) {
    let n = s.recursive.len() as int;
    match state {
        StateView::Expanding(left, _) => (n + 3, left.len() as int, 0, 0),
        StateView::Asking => (n + 2, 0, 0, 0),
        StateView::Copying(ds) => (n + 1, ds.len() as int, 0, 0),
        StateView::Opening(k) => (n - k, 1, 0, 0),
        StateView::AskingFile(k, left) => (n - k, 0, 2 * left.len() as int, 0),
        StateView::CopyingFile(k, left, ds) => (n - k, 0, 2 * left.len() as int + 1, ds.len() as int),
        StateView::Finished => (0, 0, 0, 0),
    }
}

/// Whether less is left than before.
pub open spec fn less(a: (int, int, int, int), b: (int, int, int, int)) -> bool {
    a.0 < b.0 || (a.0 == b.0 && (a.1 < b.1 || (a.1 == b.1 && (a.2 < b.2 || (a.2 == b.2 && a.3
        < b.3)))))
}

proof fn moves_fit(s: Scene, k: int, files: Seq<Seq<char>>)
    requires
        0 <= k,
    ensures
        fitting(open_entry(s, k)),
        fitting(ask_file(s, k, files)),
        k <= s.work.recursive.len() ==> rest_of(s.work, open_entry(s, k).state).0
            <= s.work.recursive.len() - k,
        k < s.work.recursive.len() ==> less(
            rest_of(s.work, ask_file(s, k, files).state),
            (s.work.recursive.len() - k, 0, 2 * files.len() as int + 1, 0),
        ),
    decreases s.work.recursive.len() - k,
{
    if k < s.work.recursive.len() {
        let paths = entry_paths(s.entries, s.work.recursive[k].entry);
        moves_fit(s, k + 1, files);
        assert(fitting(ask_file(s, k, paths)));
        assert(rest_of(s.work, ask_file(s, k, paths).state).0 <= s.work.recursive.len() - k);
    }
}

proof fn expanding_fits(s: Scene, left: Seq<Seq<char>>, found: Map<Seq<char>, ExpandView>)
    ensures
        fitting(expand_next(s, left, found).next),
        less(
            rest_of(expand_next(s, left, found).work, expand_next(s, left, found).next.state),
            (s.work.recursive.len() as int + 3, left.len() as int + 1, 0, 0),
        ),
    decreases left.len(),
{
    if left.len() == 0 {
        moves_fit(Scene { work: expanded(s.work, found), ..s }, 0, Seq::empty());
    } else if !s.hosts.contains(left[0]) {
        expanding_fits(s, left.skip(1), found);
    }
}

/// Whether a state can occur in the work: it points to an entry, and waits for
/// something.
pub open spec fn possible(w: WorkView, state: StateView) -> bool {
    match state {
        StateView::Expanding(left, _) => left.len() > 0,
        StateView::Copying(ds) => ds.len() > 0,
        StateView::Opening(k) => 0 <= k < w.recursive.len(),
        StateView::AskingFile(k, left) => 0 <= k < w.recursive.len() && left.len() > 0,
        StateView::CopyingFile(k, left, ds) => 0 <= k < w.recursive.len() && ds.len() > 0,
        _ => true,
    }
}

/// Every answer leads on: after it the machine asks for what its state waits for,
/// and less is left than before. So every sync comes to an end.
pub proof fn every_answer_leads_on(
    s: Scene,
    state: StateView,
    answer: Option<Map<Seq<char>, ExpandView>>,
    batch: Map<Seq<char>, CollectResult>,
    reports: CollectResult,
    outcome: OutcomeView,
)
    requires
        possible(s.work, state),
    ensures
        fitting(first_step(s).next),
        state is Expanding || state is Opening ==> {
            let step = step_expanded(s, state, answer);
            fitting(step.next) && less(
                rest_of(step.work, step.next.state),
                rest_of(s.work, state),
            )
        },
        state is Asking ==> {
            let step = step_asked(s, batch);
            fitting(step.next) && less(
                rest_of(step.work, step.next.state),
                rest_of(s.work, state),
            )
        },
        state is AskingFile ==> {
            let step = step_asked_file(s, state, reports);
            fitting(step.next) && less(
                rest_of(step.work, step.next.state),
                rest_of(s.work, state),
            )
        },
        state is Copying || state is CopyingFile ==> {
            let step = step_copied(s, state, outcome);
            fitting(step.next) && less(
                rest_of(step.work, step.next.state),
                rest_of(s.work, state),
            )
        },
{
    expanding_fits(s, fixed_sources(s.work.sources, s.work.paths), Map::empty());
    moves_fit(s, 0, Seq::empty());
    match state {
        StateView::Expanding(left, found) => {
            let all = match answer {
                Some(more) => found.union_prefer_right(more),
                None => found,
            };
            expanding_fits(s, left.skip(1), all);
        },
        StateView::Opening(k) => {
            let paths = entry_paths(s.entries, s.work.recursive[k].entry);
            moves_fit(s, k, paths);
            if answer is Some {
                moves_fit(s, k, expanded_entry(answer->0, paths));
            }
        },
        StateView::AskingFile(k, left) => {
            moves_fit(s, k, left.skip(1));
        },
        StateView::CopyingFile(k, left, ds) => {
            moves_fit(s, k, left);
        },
        _ => {},
    }
}

/// What becomes of a file follows from who has it: with no copy there is nothing to do; with
/// a fixed source that has no copy it is left alone; else one copy goes out under its own
/// path, from the fixed source where there is one, or all hosts that have it are in sync.
pub proof fn plans_follow_what_was_found(
    found: Seq<FileInfo>,
    missing: Seq<Seq<char>>,
    path: Seq<char>,
    source: Option<Seq<char>>,
    order: OrderView,
)
    ensures
        match plan_of(found, missing, path, source, order) {
            PlanView::NotFound => found.len() == 0 && missing.len() > 0,
            PlanView::NoData => found.len() == 0 && missing.len() == 0,
            PlanView::SourceMissing(s, p) => {
                &&& found.len() > 0
                &&& p == path
                &&& source == Some(s)
                &&& forall|i: int| 0 <= i < found.len() ==> (#[trigger] found[i]).host@ != s
            },
            PlanView::InSync(hosts) => {
                &&& found.len() > 0
                &&& hosts.len() == found.len()
                &&& forall|i: int| 0 <= i < found.len() ==> hosts[i] == (#[trigger] found[i]).host@
                &&& source matches Some(s) ==> hosts.contains(s)
            },
            PlanView::Copy(list) => {
                &&& list.len() == 1
                &&& list[0].path == path
                &&& source matches Some(s) ==> list[0].source_host == s
                &&& exists|i: int| 0 <= i < found.len()
                    && (#[trigger] found[i]).host@ == list[0].source_host
                &&& forall|t: Seq<char>| #[trigger]
                    list[0].target_hosts.contains(t)
                        ==> (order.push_missing && missing.contains(t)) || exists|i: int|
                        0 <= i < found.len() && (#[trigger] found[i]).host@ == t
            },
        },
        found.len() > 0 ==> (match source {
            Some(s) => if exists|i: int| 0 <= i < found.len() && (#[trigger] found[i]).host@ == s {
                decisions_of(plan_of(found, missing, path, source, order))
                    == crate::commands::sync::decide::as_list(
                    fixed_decision(found, path, order.push_missing, missing, s),
                )
            } else {
                plan_of(found, missing, path, source, order) == PlanView::SourceMissing(s, path)
            },
            None => decisions_of(plan_of(found, missing, path, source, order))
                == crate::commands::sync::decide::as_list(
                decision(found, order.strategy, path, order.push_missing, missing),
            ),
        }),
{
    let hosts = hosts_of(found);
    if found.len() > 0 {
        assert forall|i: int| 0 <= i < found.len() implies hosts[i] == (#[trigger] found[i]).host@
            && hosts.contains(found[i].host@) by {
            assert(hosts[i] == found[i].host@);
        }
        match source {
            Some(s) => {
                crate::commands::sync::decide::the_fixed_source_goes_out(
                    found,
                    path,
                    order.push_missing,
                    missing,
                    s,
                );
                if hosts.contains(s) {
                    let i = hosts.index_of(s);
                    assert(found[i].host@ == s);
                }
            },
            None => {
                crate::commands::sync::decide::the_newest_copy_goes_out(
                    found,
                    path,
                    order.push_missing,
                    missing,
                );
                crate::commands::sync::decide::differing_copies_can_be_left_alone(
                    found,
                    path,
                    order.push_missing,
                    missing,
                );
                assert(found[0].host@ == found[0].host@);
            },
        }
    }
}

/// The source that is named for the whole run comes before that of a path.
pub proof fn the_named_source_comes_first(
    cli: Option<Seq<char>>,
    sources: Map<Seq<char>, Option<Seq<char>>>,
    path: Seq<char>,
)
    ensures
        cli is Some ==> run_source(cli, sources, path) == cli,
        cli is None && sources.dom().contains(path) ==> run_source(cli, sources, path)
            == sources[path],
        cli is None && !sources.dom().contains(path) ==> run_source(cli, sources, path) is None,
{
}

/// A file of a batch is copied from and to hosts alone to which its path applies.
pub proof fn batches_stay_in_scope(
    s: Scene,
    c: CollectResult,
    path: Seq<char>,
    set: Set<(Seq<char>, Seq<char>)>,
)
    requires
        s.work.pairs == Some(set),
    ensures
        forall|i: int|
            0 <= i < decisions_of(batch_plan(s, c, path)).len() ==> {
                let d = #[trigger] decisions_of(batch_plan(s, c, path))[i];
                &&& d.path == path
                &&& set.contains((d.source_host, path))
                &&& forall|t: Seq<char>| #[trigger]
                    d.target_hosts.contains(t) ==> set.contains((t, path))
            },
        batch_plan(s, c, path) matches PlanView::InSync(hosts) ==> forall|h: Seq<char>| #[trigger]
            hosts.contains(h) ==> set.contains((h, path)),
{
    let p = |f: FileInfo| applies_to(s.work.pairs, f.host@, path);
    let q = |h: Seq<char>| applies_to(s.work.pairs, h, path);
    let found = c.found@.filter(p);
    let missing = texts(c.missing@).filter(q);
    assert forall|i: int| 0 <= i < found.len() implies set.contains(
        ((#[trigger] found[i]).host@, path),
    ) by {
        assert(found.contains(found[i]));
        crate::host::filter::filter_holds(c.found@, p, found[i]);
    }
    assert forall|t: Seq<char>| #[trigger] missing.contains(t) implies set.contains((t, path)) by {
        crate::host::filter::filter_holds(texts(c.missing@), q, t);
    }
    plans_follow_what_was_found(
        found,
        missing,
        path,
        run_source(s.order.source, s.work.sources, path),
        s.order,
    );
    match batch_plan(s, c, path) {
        PlanView::InSync(hosts) => {
            assert forall|h: Seq<char>| #[trigger] hosts.contains(h) implies set.contains(
                (h, path),
            ) by {
                let i = hosts.index_of(h);
                assert(hosts[i] == found[i].host@);
            }
        },
        _ => {},
    }
}

/// Every path of a batch that was asked about is decided on: a decision is among those that
/// are carried out exactly where the plan of some path holds it.
pub proof fn every_path_of_a_batch_is_decided(
    s: Scene,
    m: Map<Seq<char>, CollectResult>,
    n: nat,
    d: DecisionView,
)
    requires
        n <= s.work.paths.len(),
    ensures
        batch_decisions(s, m, n).contains(d) <==> exists|k: int|
            0 <= k < n && m.dom().contains(#[trigger] s.work.paths[k]) && decisions_of(
                batch_plan(s, m[s.work.paths[k]], s.work.paths[k]),
            ).contains(d),
    decreases n,
{
    if n > 0 {
        every_path_of_a_batch_is_decided(s, m, (n - 1) as nat, d);
        let path = s.work.paths[n - 1];
        let before = batch_decisions(s, m, (n - 1) as nat);
        let more = if m.dom().contains(path) {
            decisions_of(batch_plan(s, m[path], path))
        } else {
            Seq::empty()
        };
        let all = before + more;
        assert(batch_decisions(s, m, n) == all);
        if before.contains(d) {
            assert(all[before.index_of(d)] == d);
        }
        if more.contains(d) {
            assert(all[before.len() + more.index_of(d)] == d);
        }
        if all.contains(d) {
            let i = all.index_of(d);
            if i < before.len() {
                assert(before[i] == d);
            } else {
                assert(more[i - before.len()] == d);
            }
        }
    }
}

/// The hosts that take part in a recursive entry are the connected ones that it applies to.
pub proof fn entries_use_their_connected_hosts(s: Scene, k: int, h: Seq<char>)
    ensures
        usable(s, k).contains(h) <==> s.hosts.contains(h) && s.work.recursive[k].hosts.contains(h),
{
    crate::host::filter::filter_holds(
        s.hosts,
        |h: Seq<char>| s.work.recursive[k].hosts.contains(h),
        h,
    );
}

/// Recursive entries are opened in their order. One is passed over exactly where fewer than
/// two of its hosts are connected, or where it has nothing to go over and no source to ask.
pub proof fn entries_are_opened_in_order(s: Scene, k: int)
    requires
        0 <= k <= s.work.recursive.len(),
    ensures
        ({
            let m = open_entry(s, k);
            let last = match m.state {
                StateView::Opening(i) => i,
                StateView::AskingFile(i, _) => i,
                _ => s.work.recursive.len() as int,
            };
            &&& k <= last <= s.work.recursive.len()
            &&& forall|i: int|
                k <= i < last ==> usable(s, i).len() < 2 || (entry_paths(
                    s.entries,
                    (#[trigger] s.work.recursive[i]).entry,
                ).len() == 0 && (s.work.recursive[i].source matches Some(h) ==> !usable(
                    s,
                    i,
                ).contains(h)))
            &&& last < s.work.recursive.len() ==> usable(s, last).len() >= 2
            &&& match m.action {
                ActionView::Expand(host, paths, recursive) => {
                    &&& m.state == StateView::Opening(last)
                    &&& s.work.recursive[last].source == Some(host)
                    &&& usable(s, last).contains(host)
                    &&& paths == entry_paths(s.entries, s.work.recursive[last].entry)
                    &&& recursive
                },
                ActionView::Ask(hosts, path) => {
                    let paths = entry_paths(s.entries, s.work.recursive[last].entry);
                    &&& m.state == StateView::AskingFile(last, paths)
                    &&& paths.len() > 0
                    &&& path == paths[0]
                    &&& hosts == usable(s, last)
                },
                ActionView::End => last == s.work.recursive.len() && m.state is Finished,
                _ => false,
            }
        }),
    decreases s.work.recursive.len() - k,
{
    if k < s.work.recursive.len() {
        let e = s.work.recursive[k];
        let paths = entry_paths(s.entries, e.entry);
        let asked = e.source matches Some(h) && usable(s, k).contains(h);
        if usable(s, k).len() < 2 || (!asked && paths.len() == 0) {
            entries_are_opened_in_order(s, k + 1);
            if usable(s, k).len() >= 2 {
                assert(open_entry(s, k) == ask_file(s, k, paths));
            }
            assert(open_entry(s, k) == open_entry(s, k + 1));
        }
    }
}

/// The first connected one of the sources that are left is asked what its paths are; where
/// none of them is connected, the batch begins.
pub proof fn connected_sources_are_asked(
    s: Scene,
    left: Seq<Seq<char>>,
    found: Map<Seq<char>, ExpandView>,
)
    ensures
        match expand_next(s, left, found).next.state {
            StateView::Expanding(now, seen) => {
                &&& seen == found
                &&& now.len() > 0
                &&& now.len() <= left.len()
                &&& now == left.skip(left.len() - now.len())
                &&& s.hosts.contains(now[0])
                &&& forall|i: int|
                    0 <= i < left.len() - now.len() ==> !s.hosts.contains(#[trigger] left[i])
                &&& expand_next(s, left, found).next.action == ActionView::Expand(
                    now[0],
                    paths_of_source(s.work.sources, s.work.paths, now[0]),
                    false,
                )
                &&& expand_next(s, left, found).work == s.work
            },
            _ => {
                &&& forall|i: int| 0 <= i < left.len() ==> !s.hosts.contains(#[trigger] left[i])
                &&& expand_next(s, left, found).work == expanded(s.work, found)
            },
        },
    decreases left.len(),
{
    if left.len() == 0 {
        let work = expanded(s.work, found);
        entries_are_opened_in_order(Scene { work, ..s }, 0);
    } else if s.hosts.contains(left[0]) {
        assert(left.skip(0) =~= left);
    } else {
        let rest = left.skip(1);
        connected_sources_are_asked(s, rest, found);
        assert forall|i: int| 1 <= i < left.len() implies left[i] == rest[i - 1] by {}
        match expand_next(s, rest, found).next.state {
            StateView::Expanding(now, seen) => {
                assert(now =~= left.skip(left.len() - now.len()));
                assert forall|i: int| 0 <= i < left.len() - now.len() implies !s.hosts.contains(
                    #[trigger] left[i],
                ) by {
                    if i > 0 {
                        assert(left[i] == rest[i - 1]);
                    }
                }
            },
            _ => {
                assert forall|i: int| 0 <= i < left.len() implies !s.hosts.contains(
                    #[trigger] left[i],
                ) by {
                    if i > 0 {
                        assert(left[i] == rest[i - 1]);
                    }
                }
            },
        }
    }
}

/// Where nothing is changed every decision is announced, in order, and it is said that
/// nothing was done.
pub proof fn rehearsals_announce_every_decision(ds: Seq<DecisionView>)
    ensures
        forall|i: int|
            0 <= i < ds.len() ==> #[trigger] rehearsal(ds)[i] == NoteView::Announced(ds[i]),
        ds.len() > 0 ==> rehearsal(ds).len() == ds.len() + 1 && rehearsal(ds)[ds.len() as int]
            == NoteView::Rehearsed,
        ds.len() == 0 ==> rehearsal(ds).len() == 0,
{
}

/// Every path of a batch for which nothing is to be copied is noted with what was found.
pub proof fn settled_paths_are_noted(
    s: Scene,
    m: Map<Seq<char>, CollectResult>,
    n: nat,
    k: int,
)
    requires
        0 <= k < n <= s.work.paths.len(),
        m.dom().contains(s.work.paths[k]),
        !(batch_plan(s, m[s.work.paths[k]], s.work.paths[k]) is Copy),
    ensures
        batch_notes(s, m, n).contains(
            NoteView::Settled(
                batch_plan(s, m[s.work.paths[k]], s.work.paths[k]),
                s.work.paths[k],
            ),
        ),
    decreases n,
{
    let path = s.work.paths[n - 1];
    let before = batch_notes(s, m, (n - 1) as nat);
    let all = batch_notes(s, m, n);
    let note = NoteView::Settled(
        batch_plan(s, m[s.work.paths[k]], s.work.paths[k]),
        s.work.paths[k],
    );
    if k < n - 1 {
        settled_paths_are_noted(s, m, (n - 1) as nat, k);
        assert(all[before.index_of(note)] == note);
    } else {
        assert(all[before.len() as int] == note);
    }
}

/// What the sources tell of their paths adds up: a later answer counts before an earlier one
/// on the same path, and a source that did not answer changes nothing.
pub proof fn listings_add_up(
    s: Scene,
    left: Seq<Seq<char>>,
    found: Map<Seq<char>, ExpandView>,
    more: Map<Seq<char>, ExpandView>,
) -> (all: Map<Seq<char>, ExpandView>)
    requires
        left.len() > 0,
    ensures
        forall|p: Seq<char>| #[trigger]
            all.dom().contains(p) <==> found.dom().contains(p) || more.dom().contains(p),
        forall|p: Seq<char>| #[trigger]
            all.dom().contains(p) ==> all[p] == (if more.dom().contains(p) {
                more[p]
            } else {
                found[p]
            }),
        ({
            let step = step_expanded(s, StateView::Expanding(left, found), Some(more));
            match step.next.state {
                StateView::Expanding(_, seen) => seen == all,
                _ => step.work == expanded(s.work, all),
            }
        }),
        ({
            let step = step_expanded(s, StateView::Expanding(left, found), None);
            match step.next.state {
                StateView::Expanding(_, seen) => seen == found,
                _ => step.work == expanded(s.work, found),
            }
        }),
{
    let all = found.union_prefer_right(more);
    connected_sources_are_asked(s, left.skip(1), all);
    connected_sources_are_asked(s, left.skip(1), found);
    all
}

/// The files of a recursive entry are gone through one after the other: what is decided on a
/// file is carried out before the next one is asked for, and after the last the next entry
/// is opened.
pub proof fn files_are_gone_through_in_order(
    s: Scene,
    k: int,
    left: Seq<Seq<char>>,
    c: CollectResult,
    o: OutcomeView,
)
    requires
        0 <= k < s.work.recursive.len(),
        left.len() > 0,
        !s.order.dry_run,
    ensures
        ({
            let plan = plan_of(
                c.found@,
                texts(c.missing@),
                left[0],
                s.work.recursive[k].source,
                s.order,
            );
            let next = step_asked_file(s, StateView::AskingFile(k, left), c).next;
            let after = if left.len() > 1 {
                Move {
                    state: StateView::AskingFile(k, left.skip(1)),
                    action: ActionView::Ask(usable(s, k), left[1]),
                }
            } else {
                open_entry(s, k + 1)
            };
            match plan {
                PlanView::Copy(list) => list.len() == 1 && next == (Move {
                    state: StateView::CopyingFile(k, left.skip(1), list),
                    action: ActionView::Transfer(list[0], false),
                }) && step_copied(
                    s,
                    StateView::CopyingFile(k, left.skip(1), list),
                    o,
                ).next == after,
                _ => next == after,
            }
        }),
{
    let source = s.work.recursive[k].source;
    plans_follow_what_was_found(c.found@, texts(c.missing@), left[0], source, s.order);
    let plan = plan_of(c.found@, texts(c.missing@), left[0], source, s.order);
    if plan is Copy {
        let list = decisions_of(plan);
        assert(list.len() == 1);
        assert(list.skip(1).len() == 0);
    }
    if left.len() > 1 {
        assert(left.skip(1)[0] == left[1]);
    } else {
        assert(left.skip(1).len() == 0);
    }
}

/// The decisions of a batch are carried out one after the other, and then the recursive
/// entries follow.
pub proof fn batches_are_carried_out_in_order(s: Scene, ds: Seq<DecisionView>, o: OutcomeView)
    requires
        ds.len() > 0,
        !s.order.dry_run,
    ensures
        copy_next(s, ds).next == (Move {
            state: StateView::Copying(ds),
            action: ActionView::Transfer(ds[0], true),
        }),
        copy_next(s, ds).notes == seq![NoteView::Announced(ds[0])],
        ds.len() > 1 ==> step_copied(s, StateView::Copying(ds), o).next == (Move {
            state: StateView::Copying(ds.skip(1)),
            action: ActionView::Transfer(ds[1], true),
        }),
        ds.len() == 1 ==> step_copied(s, StateView::Copying(ds), o).next == open_entry(s, 0),
        step_copied(s, StateView::Copying(ds), o).notes[0] == NoteView::Copied(ds[0], o),
{
    if ds.len() > 1 {
        assert(ds.skip(1)[0] == ds[1]);
    } else {
        assert(ds.skip(1).len() == 0);
    }
}

} // verus!
