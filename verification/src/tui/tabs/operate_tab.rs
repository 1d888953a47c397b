//! The Operate tab: which operation, with what parameters, on which hosts.

use vstd::prelude::*;

use crate::commands::report::HostStatus;
use crate::config::schema::{AppConfig, CheckEntry, SyncEntry};
use crate::order::listed;
use crate::output::printer::{pad, pad_left, padded, padded_left};
use crate::scan::{join, join_all};
use crate::text::{
    bool_text, chars_of, concat2, concat3, copy, decimal, decimal_text, same, show_bool,
    text_opt, texts, texts_push, usize_text,
};
use crate::tui::components::viewport::{min, minus};
use crate::tui::state::persist::{
    OperationKind, ShellMode, SyncMode, TargetFilterMode, TargetFilterState,
};
use crate::tui::width::{cut, truncate};

verus! {

broadcast use texts_push;

/// The part of the tab that has the focus.
#[derive(Debug, Clone, Copy, PartialEq, Eq, Structural)]
pub enum OperateFocus {
    OpRadio,
    ParamPanel,
    TargetRow,
    /// The list of entries that apply, which can only be scrolled.
    ApplicableEntries,
    Execute,
}

/// The parameter that has the focus.
#[derive(Debug, Clone, Copy, PartialEq, Eq, Structural)]
pub enum ParamPanelField {
    CommandOrScript,
    Sudo,
    SecondFlag,
    SyncModeToggle,
    SyncAdHocInput,
    SyncDryRun,
}

impl Default for ParamPanelField {
    fn default() -> (r: Self)
        ensures
            r == ParamPanelField::CommandOrScript,
    {
        ParamPanelField::CommandOrScript
    }
}

// ---------------------------------------------------------------------------
// The choice of the operation and its parameters
// ---------------------------------------------------------------------------

/// The button of an operation, which shows whether it is the chosen one.
pub open spec fn radio_text(op: OperationKind, chosen: OperationKind) -> Seq<char> {
    "["@ + (if op == chosen {
        "◉ "@
    } else {
        "○ "@
    }) + op.spec_name() + "]"@
}

fn radio(op: OperationKind, chosen: OperationKind) -> (r: String)
    ensures
        r@ == radio_text(op, chosen),
{
    let mark = if op == chosen {
        "◉ "
    } else {
        "○ "
    };
    let mut out = concat3("[", mark, op.name());
    out.append("]");
    out
}

/// The four buttons, in their order.
pub open spec fn radio_texts(chosen: OperationKind) -> Seq<Seq<char>> {
    seq![
        radio_text(OperationKind::Check, chosen),
        radio_text(OperationKind::Run, chosen),
        radio_text(OperationKind::Exec, chosen),
        radio_text(OperationKind::Sync, chosen),
    ]
}

/// Writes the four buttons, in their order.
pub fn op_radio(chosen: OperationKind) -> (r: Vec<String>)
    ensures
        texts(r@) == radio_texts(chosen),
{
    let mut out: Vec<String> = Vec::new();
    out.push(radio(OperationKind::Check, chosen));
    out.push(radio(OperationKind::Run, chosen));
    out.push(radio(OperationKind::Exec, chosen));
    out.push(radio(OperationKind::Sync, chosen));
    assert(texts(out@) =~= radio_texts(chosen));
    out
}

/// How many rows the parameters take: of a list of files five are shown.
pub fn param_rows(operation: OperationKind, adhoc_files: usize) -> (r: u16)
    ensures
        r == (match operation {
            OperationKind::Check => 0,
            OperationKind::Run | OperationKind::Exec => 7,
            OperationKind::Sync => 8 + min(adhoc_files as int, 5),
        }),
{
    match operation {
        OperationKind::Check => 0,
        OperationKind::Run | OperationKind::Exec => 7,
        OperationKind::Sync => if adhoc_files < 5 {
            8 + adhoc_files as u16
        } else {
            13
        },
    }
}

/// A box with a label that is ticked or not.
pub open spec fn tick_text(on: bool, label: Seq<char>) -> Seq<char> {
    (if on {
        "[✓] "@
    } else {
        "[ ] "@
    }) + label
}

/// Writes a box with a label that is ticked or not.
pub fn tick(on: bool, label: &str) -> (r: String)
    ensures
        r@ == tick_text(on, label@),
{
    concat2(
        if on {
            "[✓] "
        } else {
            "[ ] "
        },
        label,
    )
}

/// The label of the text parameter; `None` for an operation without one.
pub open spec fn input_text(operation: OperationKind) -> Option<Seq<char>> {
    match operation {
        OperationKind::Run => Some("Command"@),
        OperationKind::Exec => Some("Script path"@),
        _ => None,
    }
}

/// The label of the text parameter; `None` for an operation without one.
pub fn input_label(operation: OperationKind) -> (r: Option<&'static str>)
    ensures
        crate::text::str_opt(r) == input_text(operation),
{
    match operation {
        OperationKind::Run => Some("Command"),
        OperationKind::Exec => Some("Script path"),
        _ => None,
    }
}

/// The label of the second flag.
pub open spec fn second_flag_text(operation: OperationKind) -> Seq<char> {
    match operation {
        OperationKind::Run => "--yes (skip confirmation)"@,
        OperationKind::Exec => "--keep (keep script after exec)"@,
        _ => ""@,
    }
}

/// The label of the second flag.
pub fn second_flag_label(operation: OperationKind) -> (r: &'static str)
    ensures
        r@ == second_flag_text(operation),
{
    match operation {
        OperationKind::Run => "--yes (skip confirmation)",
        OperationKind::Exec => "--keep (keep script after exec)",
        _ => "",
    }
}

/// The label of the choice of what is synced.
pub fn sync_mode_label(mode: SyncMode) -> (r: &'static str)
    ensures
        r@ == (match mode {
            SyncMode::ConfigEntries => "◉ Config entries  ○ Ad-hoc files"@,
            SyncMode::AdHoc => "○ Config entries  ◉ Ad-hoc files"@,
        }),
{
    match mode {
        SyncMode::ConfigEntries => "◉ Config entries  ○ Ad-hoc files",
        SyncMode::AdHoc => "○ Config entries  ◉ Ad-hoc files",
    }
}

/// The files that were added last, the last one first; a note where there is none.
pub open spec fn adhoc_texts(files: Seq<Seq<char>>) -> Seq<Seq<char>> {
    if files.len() == 0 {
        seq!["  (no paths — type above and press Enter)"@]
    } else {
        Seq::new(
            min(files.len() as int, 5) as nat,
            |i: int| "  · "@ + files[files.len() - 1 - i],
        )
    }
}

/// Lists the files that were added last, the last one first; at most five.
pub fn adhoc_lines(files: &[String]) -> (r: Vec<String>)
    ensures
        texts(r@) == adhoc_texts(texts(files@)),
{
    let ghost all = texts(files@);
    let mut out: Vec<String> = Vec::new();
    if files.len() == 0 {
        out.push(copy("  (no paths — type above and press Enter)"));
        assert(texts(out@) =~= adhoc_texts(all));
        return out;
    }
    let n: usize = if files.len() < 5 {
        files.len()
    } else {
        5
    };
    let mut i: usize = 0;
    while i < n
        invariant
            i <= n <= files@.len(),
            all == texts(files@),
            texts(out@) == Seq::new(i as nat, |k: int| "  · "@ + all[all.len() - 1 - k]),
        decreases n - i,
    {
        let line = concat2("  · ", files[files.len() - 1 - i].as_str());
        let ghost text = line@;
        let ghost before = texts(out@);
        assert(text == "  · "@ + all[all.len() - 1 - i]);
        out.push(line);
        i += 1;
        assert(before.push(text) =~= Seq::new(
            i as nat,
            |k: int| "  · "@ + all[all.len() - 1 - k],
        ));
    }
    assert(texts(out@) =~= adhoc_texts(all));
    out
}

/// The text of the button that starts the operation.
pub fn execute_label(operation: OperationKind, is_running: bool) -> (r: String)
    ensures
        r@ == (if is_running {
            " [ running... — Esc to cancel ] "@
        } else {
            " [ Execute "@ + operation.spec_name() + " (Enter) ] "@
        }),
{
    if is_running {
        copy(" [ running... — Esc to cancel ] ")
    } else {
        concat3(" [ Execute ", operation.name(), " (Enter) ] ")
    }
}

/// A shell by its name in the row of targets.
pub open spec fn shell_text(s: ShellMode) -> Seq<char> {
    match s {
        ShellMode::Sh => "Sh"@,
        ShellMode::PowerShell => "PowerShell"@,
        ShellMode::Cmd => "Cmd"@,
    }
}

/// How the hosts are chosen.
pub open spec fn target_mode_text(f: TargetFilterState) -> Seq<char> {
    match f.mode {
        TargetFilterMode::All => "all hosts"@,
        TargetFilterMode::Groups => "groups:"@ + join(texts(f.groups@), ","@),
        TargetFilterMode::Hosts => "hosts:"@ + join(texts(f.hosts@), ","@),
        TargetFilterMode::Shell => "shell:"@ + shell_text(f.shell),
    }
}

/// The row of targets: how hosts are chosen, how many there are, one after the
/// other or not, and the time limit.
pub open spec fn target_text(f: TargetFilterState, count: nat) -> Seq<char> {
    " Target: "@ + target_mode_text(f) + "  ("@ + decimal(count)
        + " hosts)    [f] Filter   serial="@ + bool_text(f.serial) + "   timeout="@ + decimal(
        f.timeout as nat,
    ) + "s"@
}

/// Writes the row of targets.
pub fn target_row(f: &TargetFilterState, count: usize) -> (r: String)
    ensures
        r@ == target_text(*f, count as nat),
{
    let mode = match f.mode {
        TargetFilterMode::All => copy("all hosts"),
        TargetFilterMode::Groups => concat2("groups:", join_all(f.groups.as_slice(), ",").as_str()),
        TargetFilterMode::Hosts => concat2("hosts:", join_all(f.hosts.as_slice(), ",").as_str()),
        TargetFilterMode::Shell => concat2(
            "shell:",
            match f.shell {
                ShellMode::Sh => "Sh",
                ShellMode::PowerShell => "PowerShell",
                ShellMode::Cmd => "Cmd",
            },
        ),
    };
    let mut out = concat2(" Target: ", mode.as_str());
    out.append("  (");
    out.append(usize_text(count).as_str());
    out.append(" hosts)    [f] Filter   serial=");
    out.append(show_bool(f.serial).as_str());
    out.append("   timeout=");
    out.append(decimal_text(f.timeout).as_str());
    out.append("s");
    out
}

// ---------------------------------------------------------------------------
// Entries that apply
// ---------------------------------------------------------------------------

/// How many entries are shown at a time.
pub const PAGE_SIZE: usize = 6;

/// Whether two entries have a certain source, which is not empty.
pub open spec fn is_shared(entries: Seq<SyncEntry>, source: Seq<char>) -> bool {
    source.len() > 0 && exists|i: int, j: int|
        0 <= i < j < entries.len() && text_opt(#[trigger] entries[i].source) == Some(source)
            && text_opt(#[trigger] entries[j].source) == Some(source)
}

/// The sources that more than one entry has.
pub open spec fn shared_sources(entries: Seq<SyncEntry>) -> Set<Seq<char>> {
    Set::new(|s: Seq<char>| is_shared(entries, s))
}

/// Whether an entry after `from` has a certain source.
fn is_repeated(entries: &[SyncEntry], from: usize, source: &str) -> (r: bool)
    requires
        from <= entries@.len(),
    ensures
        r == exists|j: int|
            from <= j < entries@.len() && text_opt(#[trigger] entries@[j].source) == Some(source@),
{
    let mut j: usize = from;
    while j < entries.len()
        invariant
            from <= j <= entries@.len(),
            forall|k: int|
                from <= k < j ==> text_opt(#[trigger] entries@[k].source) != Some(source@),
        decreases entries@.len() - j,
    {
        match &entries[j].source {
            Some(s) => {
                if same(s.as_str(), source) {
                    assert(text_opt(entries@[j as int].source) == Some(source@));
                    return true;
                }
            },
            None => {},
        }
        j += 1;
    }
    false
}

/// The sources that more than one entry has, each once. The order in which they
/// come is left open.
pub fn detect_sync_source_conflicts(sync_entries: &[SyncEntry]) -> (r: Vec<String>)
    ensures
        texts(r@).no_duplicates(),
        forall|s: Seq<char>| texts(r@).contains(s) <==> is_shared(sync_entries@, s),
        shared_sources(sync_entries@).finite(),
        r@.len() == shared_sources(sync_entries@).len(),
{
    let mut out: Vec<String> = Vec::new();
    let mut i: usize = 0;
    assert(texts(out@) =~= Seq::<Seq<char>>::empty());
    while i < sync_entries.len()
        invariant
            i <= sync_entries@.len(),
            texts(out@).no_duplicates(),
            forall|s: Seq<char>| #[trigger]
                texts(out@).contains(s) ==> is_shared(sync_entries@, s),
            forall|a: int, b: int|
                0 <= a < i && a < b < sync_entries@.len() && text_opt(
                    #[trigger] sync_entries@[a].source,
                ) is Some && text_opt(sync_entries@[a].source)->0.len() > 0 && text_opt(
                    #[trigger] sync_entries@[b].source,
                ) == text_opt(sync_entries@[a].source) ==> texts(out@).contains(
                    text_opt(sync_entries@[a].source)->0,
                ),
        decreases sync_entries@.len() - i,
    {
        let ghost before = texts(out@);
        match &sync_entries[i].source {
            Some(s) => {
                if chars_of(s.as_str()).len() > 0 && is_repeated(
                    sync_entries,
                    i + 1,
                    s.as_str(),
                ) && !listed(out.as_slice(), s.as_str()) {
                    let ghost text = s@;
                    assert(text_opt(sync_entries@[i as int].source) == Some(text));
                    out.push(copy(s.as_str()));
                    assert(texts(out@) == before.push(text));
                    assert(is_shared(sync_entries@, text));
                    assert forall|t: Seq<char>| before.contains(t) implies texts(
                        out@,
                    ).contains(t) by {
                        let k = before.index_of(t);
                        assert(texts(out@)[k] == t);
                    }
                    assert(texts(out@)[before.len() as int] == text);
                    assert forall|t: Seq<char>| #[trigger] texts(out@).contains(t) implies is_shared(
                        sync_entries@,
                        t,
                    ) by {
                        let k = texts(out@).index_of(t);
                        if k < before.len() {
                            assert(before[k] == t);
                            assert(before.contains(t));
                        }
                    }
                    assert(texts(out@).no_duplicates()) by {
                        assert(!before.contains(text));
                    }
                }
            },
            None => {},
        }
        i += 1;
    }
    proof {
        let found = texts(out@);
        assert forall|s: Seq<char>| is_shared(sync_entries@, s) implies found.contains(s) by {
            let (a, b) = choose|a: int, b: int|
                0 <= a < b < sync_entries@.len() && text_opt(#[trigger] sync_entries@[a].source)
                    == Some(s) && text_opt(#[trigger] sync_entries@[b].source) == Some(s);
            assert(text_opt(sync_entries@[a].source)->0 == s);
        }
        found.unique_seq_to_set();
        assert(found.to_set() =~= shared_sources(sync_entries@)) by {
            assert forall|s: Seq<char>| found.to_set().contains(s) == shared_sources(
                sync_entries@,
            ).contains(s) by {
                assert(found.to_set().contains(s) == found.contains(s));
            }
        }
        vstd::seq_lib::seq_to_set_is_finite(found);
    }
    out
}

/// Which entries are shown: the first of them, and how far they go.
pub open spec fn page(scroll: int, total: int) -> (int, int) {
    let first = min(scroll, minus(total, PAGE_SIZE as int));
    (first, min(first + PAGE_SIZE, total))
}

/// A hint at what is shown where that is not all.
pub open spec fn page_hint(scroll: int, total: int) -> Seq<char> {
    if total > PAGE_SIZE {
        " ["@ + decimal((page(scroll, total).0 + 1) as nat) + "-"@ + decimal(
            page(scroll, total).1 as nat,
        ) + "/"@ + decimal(total as nat) + "] ↑↓"@
    } else {
        ""@
    }
}

fn page_of(scroll: usize, total: usize) -> (r: (usize, usize))
    ensures
        (r.0 as int, r.1 as int) == page(scroll as int, total as int),
        r.0 <= r.1 <= total,
{
    let last_start: usize = if total > PAGE_SIZE {
        total - PAGE_SIZE
    } else {
        0
    };
    let first: usize = if scroll < last_start {
        scroll
    } else {
        last_start
    };
    let end: usize = if total - first < PAGE_SIZE {
        total
    } else {
        first + PAGE_SIZE
    };
    (first, end)
}

fn hint_of(scroll: usize, total: usize) -> (r: String)
    ensures
        r@ == page_hint(scroll as int, total as int),
{
    if total > PAGE_SIZE {
        let (first, end) = page_of(scroll, total);
        let mut out = concat3(" [", usize_text(first + 1).as_str(), "-");
        out.append(usize_text(end).as_str());
        out.append("/");
        out.append(usize_text(total).as_str());
        out.append("] ↑↓");
        out
    } else {
        copy("")
    }
}

/// The groups of an entry.
pub open spec fn groups_text(groups: Seq<Seq<char>>) -> Seq<char> {
    if groups.len() == 0 {
        "unscoped"@
    } else {
        "groups:["@ + join(groups, ","@) + "]"@
    }
}

fn show_groups(groups: &Vec<String>) -> (r: String)
    ensures
        r@ == groups_text(texts(groups@)),
{
    if groups.len() == 0 {
        copy("unscoped")
    } else {
        concat3("groups:[", join_all(groups.as_slice(), ",").as_str(), "]")
    }
}

/// The label of a check: its name, or its number where it has none.
pub open spec fn check_name(entry: CheckEntry, i: int) -> Seq<char> {
    match text_opt(entry.name) {
        Some(n) => if n.len() > 0 {
            n
        } else {
            "Check #"@ + decimal((i + 1) as nat)
        },
        None => "Check #"@ + decimal((i + 1) as nat),
    }
}

/// The line of a check.
pub open spec fn check_line(entry: CheckEntry, i: int) -> Seq<char> {
    "  ▸ "@ + check_name(entry, i) + " — "@ + groups_text(texts(entry.groups@)) + "  metrics:"@ + (
    if entry.enabled@.len() == 0 {
        "(no metrics)"@
    } else {
        join(texts(entry.enabled@), ","@)
    })
}

fn show_check(entry: &CheckEntry, i: usize) -> (r: String)
    requires
        i < usize::MAX,
    ensures
        r@ == check_line(*entry, i as int),
{
    let label = match &entry.name {
        Some(n) => if chars_of(n.as_str()).len() > 0 {
            copy(n.as_str())
        } else {
            concat2("Check #", usize_text(i + 1).as_str())
        },
        None => concat2("Check #", usize_text(i + 1).as_str()),
    };
    let mut out = concat3("  ▸ ", label.as_str(), " — ");
    out.append(show_groups(&entry.groups).as_str());
    out.append("  metrics:");
    if entry.enabled.len() == 0 {
        out.append("(no metrics)");
    } else {
        out.append(join_all(entry.enabled.as_slice(), ",").as_str());
    }
    out
}

/// The line of a sync entry: its first three paths, its groups and its source.
pub open spec fn sync_line(entry: SyncEntry) -> Seq<char> {
    "  ▸ "@ + join(texts(entry.paths@).take(min(entry.paths@.len() as int, 3)), ", "@) + "  "@
        + groups_text(texts(entry.groups@)) + (match text_opt(entry.source) {
        Some(s) => "  src:"@ + s,
        None => ""@,
    })
}

fn show_sync(entry: &SyncEntry) -> (r: String)
    ensures
        r@ == sync_line(*entry),
{
    let n: usize = if entry.paths.len() < 3 {
        entry.paths.len()
    } else {
        3
    };
    let paths = vstd::slice::slice_subrange(entry.paths.as_slice(), 0, n);
    assert(texts(paths@) =~= texts(entry.paths@).take(n as int));
    let mut out = concat3("  ▸ ", join_all(paths, ", ").as_str(), "  ");
    out.append(show_groups(&entry.groups).as_str());
    match &entry.source {
        Some(s) => {
            out.append("  src:");
            out.append(s.as_str());
        },
        None => {
            out.append("");
        },
    }
    out
}

/// The list of the entries that apply to the chosen operation.
pub struct EntriesPanel {
    pub header: String,
    /// A warning that entries share a source.
    pub warning: Option<String>,
    /// Said in place of the entries where there is none.
    pub note: Option<&'static str>,
    pub lines: Vec<String>,
}

/// The contents of the list.
pub ghost struct EntriesView {
    pub header: Seq<char>,
    pub warning: Option<Seq<char>>,
    pub note: Option<Seq<char>>,
    pub lines: Seq<Seq<char>>,
}

impl View for EntriesPanel {
    type V = EntriesView;

    open spec fn view(&self) -> EntriesView {
        EntriesView {
            header: self.header@,
            warning: text_opt(self.warning),
            note: crate::text::str_opt(self.note),
            lines: texts(self.lines@),
        }
    }
}

/// A warning where entries share a source.
pub open spec fn conflict_warning(entries: Seq<SyncEntry>, rest: Seq<char>) -> Option<Seq<char>> {
    if shared_sources(entries).len() > 0 {
        Some("  ⚠ Source conflict: "@ + decimal(shared_sources(entries).len()) + rest)
    } else {
        None
    }
}

fn warn_of_conflicts(entries: &[SyncEntry], rest: &str) -> (r: Option<String>)
    ensures
        text_opt(r) == conflict_warning(entries@, rest@),
{
    let conflicts = detect_sync_source_conflicts(entries);
    if conflicts.len() > 0 {
        Some(concat3("  ⚠ Source conflict: ", usize_text(conflicts.len()).as_str(), rest))
    } else {
        None
    }
}

/// The lines of the checks that are shown.
pub open spec fn check_lines(entries: Seq<CheckEntry>, scroll: int) -> Seq<Seq<char>> {
    let p = page(scroll, entries.len() as int);
    Seq::new((p.1 - p.0) as nat, |i: int| check_line(entries[p.0 + i], p.0 + i))
}

/// The lines of the sync entries that are shown.
pub open spec fn sync_lines(entries: Seq<SyncEntry>, scroll: int) -> Seq<Seq<char>> {
    let p = page(scroll, entries.len() as int);
    Seq::new((p.1 - p.0) as nat, |i: int| sync_line(entries[p.0 + i]))
}

/// The list of the entries that apply; `None` for an operation that no entry
/// applies to.
pub open spec fn panel(
    config: AppConfig,
    operation: OperationKind,
    mode: SyncMode,
    scroll: int,
) -> Option<EntriesView> {
    if operation == OperationKind::Check {
        Some(
            EntriesView {
                header: "─ Applicable [[check]] entries ─"@ + page_hint(
                    scroll,
                    config.check@.len() as int,
                ),
                warning: conflict_warning(
                    config.sync@,
                    " [[sync]] entries share the same source"@,
                ),
                note: if config.check@.len() == 0 {
                    Some("  (no [[check]] entries — add one to config.toml)"@)
                } else {
                    None
                },
                lines: check_lines(config.check@, scroll),
            },
        )
    } else if operation == OperationKind::Sync && mode == SyncMode::ConfigEntries {
        Some(
            EntriesView {
                header: "─ Applicable [[sync]] entries ─"@ + page_hint(
                    scroll,
                    config.sync@.len() as int,
                ),
                warning: conflict_warning(config.sync@, " entries share the same source path"@),
                note: if config.sync@.len() == 0 {
                    Some("  (no [[sync]] entries — add one to config.toml)"@)
                } else {
                    None
                },
                lines: sync_lines(config.sync@, scroll),
            },
        )
    } else {
        None
    }
}

fn show_checks(entries: &[CheckEntry], scroll: usize) -> (r: Vec<String>)
    ensures
        texts(r@) == check_lines(entries@, scroll as int),
{
    let (first, end) = page_of(scroll, entries.len());
    let ghost all = check_lines(entries@, scroll as int);
    let mut out: Vec<String> = Vec::new();
    let mut i: usize = first;
    assert(texts(out@) =~= all.take(0));
    while i < end
        invariant
            first <= i <= end <= entries@.len(),
            (first as int, end as int) == page(scroll as int, entries@.len() as int),
            all == check_lines(entries@, scroll as int),
            texts(out@) == all.take(i - first),
        decreases end - i,
    {
        let ghost before = texts(out@);
        let line = show_check(&entries[i], i);
        let ghost text = line@;
        assert(text == all[i - first]);
        out.push(line);
        i += 1;
        assert(before.push(text) =~= all.take(i - first));
    }
    assert(all.take(i - first) =~= all);
    out
}

fn show_syncs(entries: &[SyncEntry], scroll: usize) -> (r: Vec<String>)
    ensures
        texts(r@) == sync_lines(entries@, scroll as int),
{
    let (first, end) = page_of(scroll, entries.len());
    let ghost all = sync_lines(entries@, scroll as int);
    let mut out: Vec<String> = Vec::new();
    let mut i: usize = first;
    assert(texts(out@) =~= all.take(0));
    while i < end
        invariant
            first <= i <= end <= entries@.len(),
            (first as int, end as int) == page(scroll as int, entries@.len() as int),
            all == sync_lines(entries@, scroll as int),
            texts(out@) == all.take(i - first),
        decreases end - i,
    {
        let ghost before = texts(out@);
        let line = show_sync(&entries[i]);
        let ghost text = line@;
        assert(text == all[i - first]);
        out.push(line);
        i += 1;
        assert(before.push(text) =~= all.take(i - first));
    }
    assert(all.take(i - first) =~= all);
    out
}

/// Lists the entries that apply to the chosen operation; `None` for an operation
/// that no entry applies to.
pub fn applicable_entries(
    config: &AppConfig,
    operation: OperationKind,
    mode: SyncMode,
    scroll: usize,
) -> (r: Option<EntriesPanel>)
    ensures
        (match r {
            Some(p) => Some(p@),
            None => None,
        }) == panel(*config, operation, mode, scroll as int),
{
    if operation == OperationKind::Check {
        Some(
            EntriesPanel {
                header: concat2(
                    "─ Applicable [[check]] entries ─",
                    hint_of(scroll, config.check.len()).as_str(),
                ),
                warning: warn_of_conflicts(
                    config.sync.as_slice(),
                    " [[sync]] entries share the same source",
                ),
                note: if config.check.len() == 0 {
                    Some("  (no [[check]] entries — add one to config.toml)")
                } else {
                    None
                },
                lines: show_checks(config.check.as_slice(), scroll),
            },
        )
    } else if operation == OperationKind::Sync && mode == SyncMode::ConfigEntries {
        Some(
            EntriesPanel {
                header: concat2(
                    "─ Applicable [[sync]] entries ─",
                    hint_of(scroll, config.sync.len()).as_str(),
                ),
                warning: warn_of_conflicts(
                    config.sync.as_slice(),
                    " entries share the same source path",
                ),
                note: if config.sync.len() == 0 {
                    Some("  (no [[sync]] entries — add one to config.toml)")
                } else {
                    None
                },
                lines: show_syncs(config.sync.as_slice(), scroll),
            },
        )
    } else {
        None
    }
}

// ---------------------------------------------------------------------------
// Progress
// ---------------------------------------------------------------------------

/// How many outcomes are shown at a time while an operation runs.
pub const PROGRESS_ROWS: usize = 12;

/// What is known of a host that an operation is done with: its name, how it ended,
/// in what words, and after how many milliseconds.
pub type HostOutcome = (String, HostStatus, String, u64);

/// The first outcome that is shown: the one that was scrolled to, or as many as
/// fit from the end.
pub open spec fn progress_start(scroll: Option<usize>, total: int) -> int {
    let last = minus(total, PROGRESS_ROWS as int);
    match scroll {
        Some(s) => min(s as int, last),
        None => last,
    }
}

/// The line over the outcomes.
pub open spec fn progress_head(
    targets: nat,
    completed: nat,
    elapsed: nat,
    scroll: Option<usize>,
    total: nat,
) -> Seq<char> {
    "Targets: "@ + decimal(targets) + "    Completed: "@ + decimal(completed)
        + "    Elapsed: "@ + decimal(elapsed) + "s"@ + (if total > PROGRESS_ROWS {
        "  ["@ + decimal((progress_start(scroll, total as int) + 1) as nat) + "/"@ + decimal(
            total,
        ) + "] ↑↓ scroll"@
    } else {
        ""@
    })
}

/// The mark of a status.
pub open spec fn glyph_text(status: HostStatus) -> Seq<char> {
    match status {
        HostStatus::Online => "✓"@,
        HostStatus::Partial => "⚠"@,
        HostStatus::Offline => "✗"@,
        HostStatus::Unreachable => "⊘"@,
        HostStatus::TimedOut => "⏱"@,
        HostStatus::Error => "✗"@,
        HostStatus::Skipped => "⊘"@,
    }
}

/// The mark of a status.
pub fn glyph(status: HostStatus) -> (r: &'static str)
    ensures
        r@ == glyph_text(status),
{
    match status {
        HostStatus::Online => "✓",
        HostStatus::Partial => "⚠",
        HostStatus::Offline => "✗",
        HostStatus::Unreachable => "⊘",
        HostStatus::TimedOut => "⏱",
        HostStatus::Error => "✗",
        HostStatus::Skipped => "⊘",
    }
}

/// The line of an outcome.
pub open spec fn progress_line(o: HostOutcome) -> Seq<char> {
    "  "@ + glyph_text(o.1) + " "@ + padded(cut(o.0@, 16), 16) + " ("@ + padded_left(
        decimal(o.3 as nat),
        4,
    ) + "ms) — "@ + cut(o.2@, 60)
}

fn show_progress_line(o: &HostOutcome) -> (r: String)
    ensures
        r@ == progress_line(*o),
{
    let mut out = concat3("  ", glyph(o.1), " ");
    out.append(pad(truncate(o.0.as_str(), 16).as_str(), 16).as_str());
    out.append(" (");
    out.append(pad_left(decimal_text(o.3).as_str(), 4).as_str());
    out.append("ms) — ");
    out.append(truncate(o.2.as_str(), 60).as_str());
    out
}

/// The lines of the outcomes that are shown.
pub open spec fn progress_texts(outcomes: Seq<HostOutcome>, scroll: Option<usize>) -> Seq<
    Seq<char>,
> {
    let first = progress_start(scroll, outcomes.len() as int);
    let end = min(first + PROGRESS_ROWS, outcomes.len() as int);
    Seq::new((end - first) as nat, |i: int| progress_line(outcomes[first + i]))
}

/// Shows how far a running operation has come: the line over the outcomes, which
/// of them is shown first, and the lines of those that are shown.
pub fn progress_popup(
    outcomes: &[HostOutcome],
    targets: usize,
    elapsed_secs: u64,
    completed: usize,
    scroll: Option<usize>,
) -> (r: (String, usize, Vec<String>))
    ensures
        r.0@ == progress_head(
            targets as nat,
            completed as nat,
            elapsed_secs as nat,
            scroll,
            outcomes@.len(),
        ),
        r.1 == progress_start(scroll, outcomes@.len() as int),
        texts(r.2@) == progress_texts(outcomes@, scroll),
{
    let total: usize = outcomes.len();
    let auto_start: usize = if total > PROGRESS_ROWS {
        total - PROGRESS_ROWS
    } else {
        0
    };
    let first: usize = match scroll {
        Some(s) => if s < auto_start {
            s
        } else {
            auto_start
        },
        None => auto_start,
    };
    let mut head = concat3("Targets: ", usize_text(targets).as_str(), "    Completed: ");
    head.append(usize_text(completed).as_str());
    head.append("    Elapsed: ");
    head.append(decimal_text(elapsed_secs).as_str());
    head.append("s");
    if total > PROGRESS_ROWS {
        let mut hint = concat3("  [", usize_text(first + 1).as_str(), "/");
        hint.append(usize_text(total).as_str());
        hint.append("] ↑↓ scroll");
        head.append(hint.as_str());
    } else {
        head.append("");
    }
    let end: usize = if total - first < PROGRESS_ROWS {
        total
    } else {
        first + PROGRESS_ROWS
    };
    let ghost all = progress_texts(outcomes@, scroll);
    let mut out: Vec<String> = Vec::new();
    let mut i: usize = first;
    assert(texts(out@) =~= all.take(0));
    while i < end
        invariant
            first <= i <= end <= outcomes@.len(),
            first == progress_start(scroll, outcomes@.len() as int),
            end == min(first + PROGRESS_ROWS, outcomes@.len() as int),
            all == progress_texts(outcomes@, scroll),
            texts(out@) == all.take(i - first),
        decreases end - i,
    {
        let ghost before = texts(out@);
        let line = show_progress_line(&outcomes[i]);
        let ghost text = line@;
        assert(text == all[i - first]);
        out.push(line);
        i += 1;
        assert(before.push(text) =~= all.take(i - first));
    }
    assert(all.take(i - first) =~= all);
    (head, first, out)
}

// ---------------------------------------------------------------------------
// Laws
// ---------------------------------------------------------------------------

/// However far the entries are scrolled, the page stays within them, and is full
/// where there are enough.
pub proof fn page_stays_within(scroll: nat, total: nat)
    ensures
        0 <= page(scroll as int, total as int).0 <= page(scroll as int, total as int).1 <= total,
        page(scroll as int, total as int).1 - page(scroll as int, total as int).0 == min(
            total as int,
            PAGE_SIZE as int,
        ),
{
}

/// Without scrolling the last outcomes are shown.
pub proof fn progress_follows_the_end(outcomes: Seq<HostOutcome>)
    requires
        outcomes.len() > 0,
    ensures
        progress_texts(outcomes, None).last() == progress_line(outcomes.last()),
        progress_texts(outcomes, None).len() == min(outcomes.len() as int, PROGRESS_ROWS as int),
{
}

/// Entries with sources of their own do not conflict.
pub proof fn distinct_sources_do_not_conflict(entries: Seq<SyncEntry>)
    requires
        forall|i: int, j: int|
            0 <= i < j < entries.len() ==> (#[trigger] entries[i].source is None
                || #[trigger] entries[j].source is None || text_opt(entries[i].source) != text_opt(
                entries[j].source,
            )),
    ensures
        shared_sources(entries) == Set::<Seq<char>>::empty(),
{
    assert forall|s: Seq<char>| !is_shared(entries, s) by {
        if is_shared(entries, s) {
            let (a, b) = choose|a: int, b: int|
                0 <= a < b < entries.len() && text_opt(#[trigger] entries[a].source) == Some(s)
                    && text_opt(#[trigger] entries[b].source) == Some(s);
            assert(entries[a].source is None || entries[b].source is None || text_opt(
                entries[a].source,
            ) != text_opt(entries[b].source));
        }
    }
    assert(shared_sources(entries) =~= Set::<Seq<char>>::empty());
}

/// A page begins where it was scrolled to, and at the latest so that it is full.
pub proof fn pages_begin_where_they_were_scrolled_to(scroll: nat, total: nat)
    ensures
        scroll + PAGE_SIZE <= total ==> page(scroll as int, total as int).0 == scroll,
        scroll + PAGE_SIZE > total && total >= PAGE_SIZE ==> page(scroll as int, total as int).1
            == total,
        total <= PAGE_SIZE ==> page(scroll as int, total as int) == (0int, total as int),
{
}

/// The progress begins where it was scrolled to, and at the latest so that it is full.
pub proof fn progress_begins_where_it_was_scrolled_to(s: usize, total: nat)
    ensures
        s + PROGRESS_ROWS <= total ==> progress_start(Some(s), total as int) == s,
        s + PROGRESS_ROWS > total && total >= PROGRESS_ROWS ==> progress_start(
            Some(s),
            total as int,
        ) == total - PROGRESS_ROWS,
        total < PROGRESS_ROWS ==> progress_start(Some(s), total as int) == 0,
{
}

} // verus!
