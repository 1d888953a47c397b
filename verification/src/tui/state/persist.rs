//! What the interface keeps from one session to the next.

use vstd::prelude::*;

use crate::commands::{available_groups, collect_available_groups, host_names, names_of};
use crate::config::schema::{AppConfig, ShellType};
use crate::host::filter::{filter_next, filter_none};
use crate::order::listed;
use crate::text::{copy, copy_all, texts, texts_push};
use crate::tui::tabs::TabId;

verus! {

broadcast use texts_push;

/// All that is kept.
#[derive(Debug)]
pub struct TuiPersistedState {
    pub tui_state: TuiSection,
    pub target_filter: TargetFilterState,
    pub operate: OperateState,
}

/// The interface itself.
#[derive(Debug)]
pub struct TuiSection {
    pub active_tab: ActiveTab,
}

/// The tab that was open.
#[derive(Debug, Clone, Copy, PartialEq, Eq, Structural)]
pub enum ActiveTab {
    Config,
    Operate,
    Checkout,
}

impl Default for ActiveTab {
    fn default() -> (r: Self)
        ensures
            r == ActiveTab::Checkout,
    {
        ActiveTab::Checkout
    }
}

impl Default for TuiSection {
    fn default() -> (r: Self)
        ensures
            r.active_tab == ActiveTab::Checkout,
    {
        TuiSection { active_tab: ActiveTab::default() }
    }
}

impl ActiveTab {
    /// The kept form of a tab.
    pub open spec fn spec_from(t: TabId) -> ActiveTab {
        match t {
            TabId::Config => ActiveTab::Config,
            TabId::Operate => ActiveTab::Operate,
            TabId::Checkout => ActiveTab::Checkout,
        }
    }

    /// The tab that a kept form stands for.
    pub open spec fn spec_to(self) -> TabId {
        match self {
            ActiveTab::Config => TabId::Config,
            ActiveTab::Operate => TabId::Operate,
            ActiveTab::Checkout => TabId::Checkout,
        }
    }

    /// The kept form of a tab.
    pub fn from_tab_id(t: TabId) -> (r: Self)
        ensures
            r == ActiveTab::spec_from(t),
    {
        match t {
            TabId::Config => ActiveTab::Config,
            TabId::Operate => ActiveTab::Operate,
            TabId::Checkout => ActiveTab::Checkout,
        }
    }

    /// The tab that a kept form stands for.
    pub fn to_tab_id(self) -> (r: TabId)
        ensures
            r == self.spec_to(),
    {
        match self {
            ActiveTab::Config => TabId::Config,
            ActiveTab::Operate => TabId::Operate,
            ActiveTab::Checkout => TabId::Checkout,
        }
    }
}

/// Which hosts an operation is aimed at.
#[derive(Debug)]
pub struct TargetFilterState {
    pub mode: TargetFilterMode,
    pub groups: Vec<String>,
    pub hosts: Vec<String>,
    pub shell: ShellMode,
    pub serial: bool,
    pub timeout: u64,
}

/// The contents of a filter.
pub ghost struct FilterView {
    pub mode: TargetFilterMode,
    pub groups: Seq<Seq<char>>,
    pub hosts: Seq<Seq<char>>,
    pub shell: ShellMode,
    pub serial: bool,
    pub timeout: nat,
}

impl View for TargetFilterState {
    type V = FilterView;

    open spec fn view(&self) -> FilterView {
        FilterView {
            mode: self.mode,
            groups: texts(self.groups@),
            hosts: texts(self.hosts@),
            shell: self.shell,
            serial: self.serial,
            timeout: self.timeout as nat,
        }
    }
}

impl Default for TargetFilterState {
    fn default() -> (r: Self)
        ensures
            r.mode == TargetFilterMode::All,
            r.groups@.len() == 0,
            r.hosts@.len() == 0,
            r.shell == ShellMode::Sh,
            !r.serial,
            r.timeout == 30,
    {
        TargetFilterState {
            mode: TargetFilterMode::default(),
            groups: Vec::new(),
            hosts: Vec::new(),
            shell: ShellMode::default(),
            serial: false,
            timeout: 30,
        }
    }
}

impl TargetFilterState {
    /// A copy of the filter.
    pub fn copy(&self) -> (r: TargetFilterState)
        ensures
            r@ == self@,
    {
        TargetFilterState {
            mode: self.mode,
            groups: copy_all(self.groups.as_slice()),
            hosts: copy_all(self.hosts.as_slice()),
            shell: self.shell,
            serial: self.serial,
            timeout: self.timeout,
        }
    }
}

/// The texts of a list that are in another list.
pub open spec fn known_texts(list: Seq<Seq<char>>, known: Seq<Seq<char>>) -> Seq<Seq<char>> {
    list.filter(|t: Seq<char>| known.contains(t))
}

fn keep_known(list: &[String], known: &[String]) -> (r: Vec<String>)
    ensures
        texts(r@) == known_texts(texts(list@), texts(known@)),
{
    let ghost p = |t: Seq<char>| texts(known@).contains(t);
    let ghost all = texts(list@);
    let mut out: Vec<String> = Vec::new();
    let mut i: usize = 0;
    proof {
        filter_none(all, p);
        assert(texts(out@) =~= Seq::empty());
    }
    while i < list.len()
        invariant
            i <= list@.len(),
            all == texts(list@),
            p == (|t: Seq<char>| texts(known@).contains(t)),
            texts(out@) == all.take(i as int).filter(p),
        decreases list@.len() - i,
    {
        proof {
            filter_next(all, p, i as int);
        }
        if listed(known, list[i].as_str()) {
            out.push(copy(list[i].as_str()));
        }
        i += 1;
    }
    assert(all.take(i as int) =~= all);
    out
}

/// A filter as far as the configuration knows the groups and hosts it names.
pub open spec fn valid_filter(f: FilterView, config: AppConfig) -> FilterView {
    FilterView {
        groups: known_texts(f.groups, available_groups(config.host@)),
        hosts: known_texts(f.hosts, host_names(config.host@)),
        ..f
    }
}

/// Takes groups and hosts out of a filter that the configuration does not know.
pub fn validate_filter(filter: &mut TargetFilterState, config: &AppConfig)
    ensures
        final(filter)@ == valid_filter(old(filter)@, *config),
{
    filter.groups = keep_known(
        filter.groups.as_slice(),
        collect_available_groups(config).as_slice(),
    );
    filter.hosts = keep_known(filter.hosts.as_slice(), names_of(config.host.as_slice()).as_slice());
}

/// How hosts are chosen.
#[derive(Debug, Clone, Copy, PartialEq, Eq, Structural)]
pub enum TargetFilterMode {
    All,
    Groups,
    Hosts,
    Shell,
}

impl Default for TargetFilterMode {
    fn default() -> (r: Self)
        ensures
            r == TargetFilterMode::All,
    {
        TargetFilterMode::All
    }
}

/// A shell to choose hosts by.
#[derive(Debug, Clone, Copy, PartialEq, Eq, Structural)]
pub enum ShellMode {
    Sh,
    PowerShell,
    Cmd,
}

impl Default for ShellMode {
    fn default() -> (r: Self)
        ensures
            r == ShellMode::Sh,
    {
        ShellMode::Sh
    }
}

impl ShellMode {
    /// The shell itself.
    pub open spec fn spec_shell(self) -> ShellType {
        match self {
            ShellMode::Sh => ShellType::Sh,
            ShellMode::PowerShell => ShellType::PowerShell,
            ShellMode::Cmd => ShellType::Cmd,
        }
    }

    /// The shell itself.
    pub fn to_shell_type(self) -> (r: ShellType)
        ensures
            r == self.spec_shell(),
    {
        match self {
            ShellMode::Sh => ShellType::Sh,
            ShellMode::PowerShell => ShellType::PowerShell,
            ShellMode::Cmd => ShellType::Cmd,
        }
    }
}

/// The settings of the Operate tab.
#[derive(Debug, Clone, Copy, PartialEq, Eq, Structural)]
pub struct OperateState {
    pub operation: OperationKind,
    pub run_sudo: bool,
    pub run_yes: bool,
    pub exec_sudo: bool,
    pub exec_keep: bool,
    pub sync_mode: SyncMode,
    pub sync_dry_run: bool,
}

impl Default for OperateState {
    fn default() -> (r: Self)
        ensures
            r == (OperateState {
                operation: OperationKind::Check,
                run_sudo: false,
                run_yes: false,
                exec_sudo: false,
                exec_keep: false,
                sync_mode: SyncMode::ConfigEntries,
                sync_dry_run: false,
            }),
    {
        OperateState {
            operation: OperationKind::Check,
            run_sudo: false,
            run_yes: false,
            exec_sudo: false,
            exec_keep: false,
            sync_mode: SyncMode::ConfigEntries,
            sync_dry_run: false,
        }
    }
}

/// An operation of the Operate tab.
#[derive(Debug, Clone, Copy, PartialEq, Eq, Structural)]
pub enum OperationKind {
    Check,
    Run,
    Exec,
    Sync,
}

impl Default for OperationKind {
    fn default() -> (r: Self)
        ensures
            r == OperationKind::Check,
    {
        OperationKind::Check
    }
}

impl OperationKind {
    /// The name of the operation.
    pub open spec fn spec_name(self) -> Seq<char> {
        match self {
            OperationKind::Check => "check"@,
            OperationKind::Run => "run"@,
            OperationKind::Exec => "exec"@,
            OperationKind::Sync => "sync"@,
        }
    }

    /// The operation to the right; behind the last comes the first.
    pub open spec fn spec_next(self) -> OperationKind {
        match self {
            OperationKind::Check => OperationKind::Run,
            OperationKind::Run => OperationKind::Exec,
            OperationKind::Exec => OperationKind::Sync,
            OperationKind::Sync => OperationKind::Check,
        }
    }

    /// The operation to the left; before the first comes the last.
    pub open spec fn spec_prev(self) -> OperationKind {
        match self {
            OperationKind::Check => OperationKind::Sync,
            OperationKind::Run => OperationKind::Check,
            OperationKind::Exec => OperationKind::Run,
            OperationKind::Sync => OperationKind::Exec,
        }
    }

    /// The name of the operation.
    pub fn name(self) -> (r: &'static str)
        ensures
            r@ == self.spec_name(),
    {
        match self {
            OperationKind::Check => "check",
            OperationKind::Run => "run",
            OperationKind::Exec => "exec",
            OperationKind::Sync => "sync",
        }
    }

    /// The operation to the right.
    pub fn next(self) -> (r: OperationKind)
        ensures
            r == self.spec_next(),
    {
        match self {
            OperationKind::Check => OperationKind::Run,
            OperationKind::Run => OperationKind::Exec,
            OperationKind::Exec => OperationKind::Sync,
            OperationKind::Sync => OperationKind::Check,
        }
    }

    /// The operation to the left.
    pub fn prev(self) -> (r: OperationKind)
        ensures
            r == self.spec_prev(),
    {
        match self {
            OperationKind::Check => OperationKind::Sync,
            OperationKind::Run => OperationKind::Check,
            OperationKind::Exec => OperationKind::Run,
            OperationKind::Sync => OperationKind::Exec,
        }
    }
}

/// Which files the sync operation works on.
#[derive(Debug, Clone, Copy, PartialEq, Eq, Structural)]
pub enum SyncMode {
    ConfigEntries,
    AdHoc,
}

impl Default for SyncMode {
    fn default() -> (r: Self)
        ensures
            r == SyncMode::ConfigEntries,
    {
        SyncMode::ConfigEntries
    }
}

impl Default for TuiPersistedState {
    fn default() -> (r: Self)
        ensures
            r.tui_state.active_tab == ActiveTab::Checkout,
            r.target_filter.mode == TargetFilterMode::All,
            r.target_filter.groups@.len() == 0,
            r.target_filter.hosts@.len() == 0,
            r.target_filter.timeout == 30,
            r.operate.operation == OperationKind::Check,
    {
        TuiPersistedState {
            tui_state: TuiSection::default(),
            target_filter: TargetFilterState::default(),
            operate: OperateState::default(),
        }
    }
}

/// A tab survives being kept: it comes back as it was, and so does the kept
/// form.
pub proof fn tabs_round_trip(t: TabId, a: ActiveTab)
    ensures
        ActiveTab::spec_from(t).spec_to() == t,
        ActiveTab::spec_from(a.spec_to()) == a,
{
}

/// Cycling through the operations one way and back changes nothing, and four
/// steps go all the way round.
pub proof fn operations_form_a_ring(o: OperationKind)
    ensures
        o.spec_next().spec_prev() == o,
        o.spec_prev().spec_next() == o,
        o.spec_next().spec_next().spec_next().spec_next() == o,
{
}

proof fn filter_keeps_all<T>(list: Seq<T>, p: spec_fn(T) -> bool)
    requires
        forall|i: int| 0 <= i < list.len() ==> p(#[trigger] list[i]),
    ensures
        list.filter(p) == list,
    decreases list.len(),
{
    reveal(Seq::filter);
    if list.len() > 0 {
        filter_keeps_all(list.drop_last(), p);
        assert(list.drop_last().push(list.last()) =~= list);
    }
}

/// A filter that was made to fit a configuration fits it.
pub proof fn valid_filters_stay(f: FilterView, config: AppConfig)
    ensures
        valid_filter(valid_filter(f, config), config) == valid_filter(f, config),
{
    let groups = available_groups(config.host@);
    let hosts = host_names(config.host@);
    let p = |t: Seq<char>| groups.contains(t);
    let q = |t: Seq<char>| hosts.contains(t);
    broadcast use vstd::seq_lib::group_filter_ensures;

    filter_keeps_all(f.groups.filter(p), p);
    filter_keeps_all(f.hosts.filter(q), q);
}

/// A stored filter keeps the groups and hosts that the configuration still has, and everything
/// else as it is.
pub proof fn stale_names_leave_the_filter(f: FilterView, config: AppConfig, name: Seq<char>)
    ensures
        valid_filter(f, config).hosts.contains(name) <==> f.hosts.contains(name) && exists|k: int|
            0 <= k < config.host@.len() && (#[trigger] config.host@[k]).name@ == name,
        valid_filter(f, config).groups.contains(name) <==> f.groups.contains(name) && name.len() > 0
            && exists|k: int, i: int|
            0 <= k < config.host@.len() && 0 <= i < config.host@[k].groups@.len()
                && #[trigger] config.host@[k].groups@[i]@ == name,
        valid_filter(f, config).mode == f.mode,
        valid_filter(f, config).shell == f.shell,
        valid_filter(f, config).serial == f.serial,
        valid_filter(f, config).timeout == f.timeout,
{
    let names = host_names(config.host@);
    let groups = available_groups(config.host@);
    crate::host::filter::filter_holds(f.hosts, |t: Seq<char>| names.contains(t), name);
    crate::host::filter::filter_holds(f.groups, |t: Seq<char>| groups.contains(t), name);
    crate::commands::available_groups_are_named(config.host@, name);
    if names.contains(name) {
        assert(config.host@[names.index_of(name)].name@ == name);
    }
    if exists|k: int| 0 <= k < config.host@.len() && (#[trigger] config.host@[k]).name@ == name {
        let k = choose|k: int|
            0 <= k < config.host@.len() && (#[trigger] config.host@[k]).name@ == name;
        assert(names[k] == name);
    }
}

} // verus!
