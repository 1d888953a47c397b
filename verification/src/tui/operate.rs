//! The state behind the Operate tab: where the focus is, the parameters of the
//! operations, and the job that they make up.

use vstd::prelude::*;

use crate::commands::{host_names, is_target, target_hosts, targeted, TargetMode, TargetView};
use crate::config::schema::{AppConfig, HostEntry, ShellType};
use crate::error::Error;
use crate::host::filter::{filter_next, filter_none};
use crate::scan::{trim, trimmed};
use crate::text::{chars_of, copy, copy_all, texts, texts_push};
use crate::tui::components::input_field::{
    activated, fresh, keyed, InputField, InputMode, InputView,
};
use crate::tui::components::viewport::minus;
use crate::tui::key::{KeyCode, KeyEvent};
use crate::tui::state::persist::{
    FilterView, OperateState, OperationKind, SyncMode, TargetFilterMode, TargetFilterState,
};
use crate::tui::tabs::operate_tab::{OperateFocus, ParamPanelField, PAGE_SIZE};

verus! {

broadcast use texts_push;

// ---------------------------------------------------------------------------
// Targets
// ---------------------------------------------------------------------------

/// The targets that a filter stands for. A list that names nothing stands for all
/// hosts.
pub open spec fn target_mode(f: FilterView) -> TargetView {
    match f.mode {
        TargetFilterMode::All => TargetView::All,
        TargetFilterMode::Groups => if f.groups.len() == 0 {
            TargetView::All
        } else {
            TargetView::Groups(f.groups)
        },
        TargetFilterMode::Hosts => if f.hosts.len() == 0 {
            TargetView::All
        } else {
            TargetView::Hosts(f.hosts)
        },
        TargetFilterMode::Shell => TargetView::Shell(seq![f.shell.spec_shell()]),
    }
}

/// The targets that a filter stands for.
pub fn build_target_mode(filter: &TargetFilterState) -> (r: TargetMode)
    ensures
        r@ == target_mode(filter@),
{
    match filter.mode {
        TargetFilterMode::All => TargetMode::All,
        TargetFilterMode::Groups => {
            if filter.groups.len() == 0 {
                TargetMode::All
            } else {
                TargetMode::Groups(copy_all(filter.groups.as_slice()))
            }
        },
        TargetFilterMode::Hosts => {
            if filter.hosts.len() == 0 {
                TargetMode::All
            } else {
                TargetMode::Hosts(copy_all(filter.hosts.as_slice()))
            }
        },
        TargetFilterMode::Shell => {
            let mut shells: Vec<ShellType> = Vec::new();
            shells.push(filter.shell.to_shell_type());
            assert(shells@ =~= seq![filter.shell.spec_shell()]);
            TargetMode::Shell(shells)
        },
    }
}

/// The names of the targeted hosts, in the order of the configuration.
#[verifier::opaque]
pub open spec fn target_names(hosts: Seq<HostEntry>, mode: TargetView) -> Seq<Seq<char>> {
    host_names(target_hosts(hosts, mode))
}

/// The names of the targeted hosts, in the order of the configuration.
pub fn resolve_target_names(mode: &TargetMode, config: &AppConfig) -> (r: Vec<String>)
    ensures
        texts(r@) == target_names(config.host@, mode@),
{
    proof {
        reveal(target_names);
    }
    let hosts = &config.host;
    let ghost p = |h: HostEntry| is_target(h, mode@);
    let mut out: Vec<String> = Vec::new();
    let mut i: usize = 0;
    proof {
        filter_none(hosts@, p);
        assert(texts(out@) =~= host_names(hosts@.take(0).filter(p)));
    }
    while i < hosts.len()
        invariant
            i <= hosts@.len(),
            p == (|h: HostEntry| is_target(h, mode@)),
            texts(out@) == host_names(hosts@.take(i as int).filter(p)),
        decreases hosts@.len() - i,
    {
        proof {
            filter_next(hosts@, p, i as int);
        }
        let ghost before = texts(out@);
        if targeted(&hosts[i], mode) {
            out.push(copy(hosts[i].name.as_str()));
            assert(before.push(hosts@[i as int].name@) =~= host_names(
                hosts@.take(i + 1).filter(p),
            ));
        }
        i += 1;
    }
    assert(hosts@.take(i as int) =~= hosts@);
    out
}

// ---------------------------------------------------------------------------
// The panel
// ---------------------------------------------------------------------------

/// The state of the Operate tab.
pub struct OperatePanel {
    pub focus: OperateFocus,
    /// The operation that is chosen, and the switches of each.
    pub settings: OperateState,
    pub run_command: InputField,
    pub exec_script: InputField,
    pub adhoc_input: InputField,
    /// The files to sync in place of the configured entries.
    pub adhoc_files: Vec<String>,
    pub param_field: ParamPanelField,
    /// How far the list of entries that apply is scrolled.
    pub entries_scroll: usize,
}

/// The contents of the panel.
pub ghost struct PanelView {
    pub focus: OperateFocus,
    pub settings: OperateState,
    pub run_command: InputView,
    pub exec_script: InputView,
    pub adhoc_input: InputView,
    pub adhoc_files: Seq<Seq<char>>,
    pub param_field: ParamPanelField,
    pub entries_scroll: nat,
}

impl View for OperatePanel {
    type V = PanelView;

    open spec fn view(&self) -> PanelView {
        PanelView {
            focus: self.focus,
            settings: self.settings,
            run_command: self.run_command@,
            exec_script: self.exec_script@,
            adhoc_input: self.adhoc_input@,
            adhoc_files: texts(self.adhoc_files@),
            param_field: self.param_field,
            entries_scroll: self.entries_scroll as nat,
        }
    }
}

/// The fields that text can be typed into.
#[derive(Debug, Clone, Copy, PartialEq, Eq, Structural)]
pub enum TypedField {
    Command,
    Script,
    AdHoc,
}

impl PanelView {
    /// Whether the chosen operation works on configured entries.
    pub open spec fn lists_entries(self) -> bool {
        self.settings.operation == OperationKind::Check || (self.settings.operation
            == OperationKind::Sync && self.settings.sync_mode == SyncMode::ConfigEntries)
    }

    /// How many entries the chosen operation has.
    pub open spec fn entry_count(self, config: AppConfig) -> int {
        match self.settings.operation {
            OperationKind::Check => config.check@.len() as int,
            OperationKind::Sync => config.sync@.len() as int,
            _ => 0,
        }
    }

    /// The farthest that the entries can be scrolled.
    pub open spec fn last_scroll(self, config: AppConfig) -> int {
        minus(self.entry_count(config), PAGE_SIZE as int)
    }

    /// The field that takes all keys, if one does.
    pub open spec fn typed_field(self) -> Option<TypedField> {
        if self.focus != OperateFocus::ParamPanel {
            None
        } else if self.settings.operation == OperationKind::Run && self.run_command.mode
            == InputMode::Active {
            Some(TypedField::Command)
        } else if self.settings.operation == OperationKind::Exec && self.exec_script.mode
            == InputMode::Active {
            Some(TypedField::Script)
        } else if self.settings.operation == OperationKind::Sync && self.param_field
            == ParamPanelField::SyncAdHocInput && self.adhoc_input.mode == InputMode::Active {
            Some(TypedField::AdHoc)
        } else {
            None
        }
    }

    /// The cursor of every field stands within its value.
    pub open spec fn wf(self) -> bool {
        self.run_command.wf() && self.exec_script.wf() && self.adhoc_input.wf()
    }

    /// With the path in the field for paths moved to the list, where the field is
    /// no longer typed into.
    pub open spec fn with_path_added(self) -> PanelView {
        if self.adhoc_input.mode == InputMode::Normal && self.adhoc_input.value.len() > 0 {
            PanelView {
                adhoc_files: self.adhoc_files.push(self.adhoc_input.value),
                adhoc_input: InputView { value: Seq::empty(), cursor: 0, ..self.adhoc_input },
                ..self
            }
        } else {
            self
        }
    }

    /// What a key does to the field that takes all keys, and whether it does
    /// something.
    pub open spec fn typed(self, key: KeyEvent) -> (PanelView, bool) {
        match self.typed_field() {
            Some(TypedField::Command) => (
                PanelView {
                    run_command: field_keyed(self.run_command, key),
                    ..self
                },
                keyed(self.run_command, key) is Some,
            ),
            Some(TypedField::Script) => (
                PanelView {
                    exec_script: field_keyed(self.exec_script, key),
                    ..self
                },
                keyed(self.exec_script, key) is Some,
            ),
            Some(TypedField::AdHoc) => (
                PanelView {
                    adhoc_input: field_keyed(self.adhoc_input, key),
                    ..self
                }.with_path_added(),
                keyed(self.adhoc_input, key) is Some,
            ),
            None => (self, false),
        }
    }

    /// The first parameter of the chosen operation.
    pub open spec fn first_param(self) -> ParamPanelField {
        if self.settings.operation == OperationKind::Sync {
            ParamPanelField::SyncModeToggle
        } else {
            ParamPanelField::CommandOrScript
        }
    }

    /// The last parameter of the chosen operation.
    pub open spec fn last_param(self) -> ParamPanelField {
        if self.settings.operation == OperationKind::Sync {
            ParamPanelField::SyncDryRun
        } else {
            ParamPanelField::SecondFlag
        }
    }

    /// The focus one step up.
    pub open spec fn went_up(self, config: AppConfig) -> PanelView {
        match self.focus {
            OperateFocus::Execute => if self.lists_entries() {
                PanelView {
                    entries_scroll: self.last_scroll(config) as nat,
                    focus: OperateFocus::ApplicableEntries,
                    ..self
                }
            } else {
                PanelView { focus: OperateFocus::TargetRow, ..self }
            },
            OperateFocus::ApplicableEntries => if self.entries_scroll == 0 {
                PanelView { focus: OperateFocus::TargetRow, ..self }
            } else {
                PanelView { entries_scroll: (self.entries_scroll - 1) as nat, ..self }
            },
            OperateFocus::TargetRow => if self.settings.operation == OperationKind::Check {
                PanelView { focus: OperateFocus::OpRadio, ..self }
            } else {
                PanelView {
                    param_field: self.last_param(),
                    focus: OperateFocus::ParamPanel,
                    ..self
                }
            },
            OperateFocus::ParamPanel => match param_above(
                self.settings.operation,
                self.param_field,
            ) {
                Some(field) => PanelView { param_field: field, ..self },
                None => PanelView { focus: OperateFocus::OpRadio, ..self },
            },
            OperateFocus::OpRadio => self,
        }
    }

    /// The focus one step down.
    pub open spec fn went_down(self, config: AppConfig) -> PanelView {
        match self.focus {
            OperateFocus::OpRadio => if self.settings.operation == OperationKind::Check {
                PanelView { focus: OperateFocus::TargetRow, ..self }
            } else {
                PanelView {
                    param_field: self.first_param(),
                    focus: OperateFocus::ParamPanel,
                    ..self
                }
            },
            OperateFocus::ParamPanel => match param_below(
                self.settings.operation,
                self.param_field,
            ) {
                Some(field) => PanelView { param_field: field, ..self },
                None => PanelView { focus: OperateFocus::TargetRow, ..self },
            },
            OperateFocus::TargetRow => if self.lists_entries() {
                PanelView {
                    entries_scroll: 0,
                    focus: OperateFocus::ApplicableEntries,
                    ..self
                }
            } else {
                PanelView { focus: OperateFocus::Execute, ..self }
            },
            OperateFocus::ApplicableEntries => if self.entries_scroll < self.last_scroll(config) {
                PanelView { entries_scroll: self.entries_scroll + 1, ..self }
            } else {
                PanelView { focus: OperateFocus::Execute, ..self }
            },
            OperateFocus::Execute => self,
        }
    }

    /// With another operation chosen.
    pub open spec fn choosing(self, operation: OperationKind) -> PanelView {
        PanelView { settings: OperateState { operation, ..self.settings }, ..self }
    }

    /// With the field that has the focus ready to be typed into.
    pub open spec fn entered(self) -> PanelView {
        if self.param_field == ParamPanelField::CommandOrScript {
            match self.settings.operation {
                OperationKind::Run => PanelView {
                    run_command: activated(self.run_command),
                    ..self
                },
                OperationKind::Exec => PanelView {
                    exec_script: activated(self.exec_script),
                    ..self
                },
                _ => self,
            }
        } else {
            PanelView { adhoc_input: activated(self.adhoc_input), ..self }
        }
    }
}

/// A field after a key.
pub open spec fn field_keyed(v: InputView, key: KeyEvent) -> InputView {
    match keyed(v, key) {
        Some(after) => after,
        None => v,
    }
}

/// The parameter above another; `None` for the first one.
pub open spec fn param_above(op: OperationKind, field: ParamPanelField) -> Option<
    ParamPanelField,
> {
    if op == OperationKind::Sync {
        match field {
            ParamPanelField::SyncDryRun => Some(ParamPanelField::SyncAdHocInput),
            ParamPanelField::SyncAdHocInput => Some(ParamPanelField::SyncModeToggle),
            _ => None,
        }
    } else {
        match field {
            ParamPanelField::SecondFlag => Some(ParamPanelField::Sudo),
            ParamPanelField::Sudo => Some(ParamPanelField::CommandOrScript),
            ParamPanelField::CommandOrScript => None,
            _ => Some(field),
        }
    }
}

/// The parameter below another; `None` for the last one.
pub open spec fn param_below(op: OperationKind, field: ParamPanelField) -> Option<
    ParamPanelField,
> {
    if op == OperationKind::Sync {
        match field {
            ParamPanelField::SyncModeToggle => Some(ParamPanelField::SyncAdHocInput),
            ParamPanelField::SyncAdHocInput => Some(ParamPanelField::SyncDryRun),
            _ => None,
        }
    } else {
        match field {
            ParamPanelField::CommandOrScript => Some(ParamPanelField::Sudo),
            ParamPanelField::Sudo => Some(ParamPanelField::SecondFlag),
            _ => None,
        }
    }
}

/// The switches after the space bar; `None` where the focus is on none.
pub open spec fn toggled(s: OperateState, field: ParamPanelField) -> Option<OperateState> {
    match s.operation {
        OperationKind::Run => match field {
            ParamPanelField::Sudo => Some(OperateState { run_sudo: !s.run_sudo, ..s }),
            ParamPanelField::SecondFlag => Some(OperateState { run_yes: !s.run_yes, ..s }),
            _ => None,
        },
        OperationKind::Exec => match field {
            ParamPanelField::Sudo => Some(OperateState { exec_sudo: !s.exec_sudo, ..s }),
            ParamPanelField::SecondFlag => Some(OperateState { exec_keep: !s.exec_keep, ..s }),
            _ => None,
        },
        OperationKind::Sync => match field {
            ParamPanelField::SyncModeToggle => Some(
                OperateState {
                    sync_mode: match s.sync_mode {
                        SyncMode::ConfigEntries => SyncMode::AdHoc,
                        SyncMode::AdHoc => SyncMode::ConfigEntries,
                    },
                    ..s
                },
            ),
            ParamPanelField::SyncDryRun => Some(OperateState { sync_dry_run: !s.sync_dry_run, ..s }),
            _ => None,
        },
        OperationKind::Check => None,
    }
}

/// Turns the switch that has the focus; `None` where it is on none.
pub fn toggle(s: OperateState, field: ParamPanelField) -> (r: Option<OperateState>)
    ensures
        r == toggled(s, field),
{
    match s.operation {
        OperationKind::Run => match field {
            ParamPanelField::Sudo => Some(OperateState { run_sudo: !s.run_sudo, ..s }),
            ParamPanelField::SecondFlag => Some(OperateState { run_yes: !s.run_yes, ..s }),
            _ => None,
        },
        OperationKind::Exec => match field {
            ParamPanelField::Sudo => Some(OperateState { exec_sudo: !s.exec_sudo, ..s }),
            ParamPanelField::SecondFlag => Some(OperateState { exec_keep: !s.exec_keep, ..s }),
            _ => None,
        },
        OperationKind::Sync => match field {
            ParamPanelField::SyncModeToggle => {
                let sync_mode = match s.sync_mode {
                    SyncMode::ConfigEntries => SyncMode::AdHoc,
                    SyncMode::AdHoc => SyncMode::ConfigEntries,
                };
                Some(OperateState { sync_mode, ..s })
            },
            ParamPanelField::SyncDryRun => Some(OperateState { sync_dry_run: !s.sync_dry_run, ..s }),
            _ => None,
        },
        OperationKind::Check => None,
    }
}

/// What a key came to.
#[derive(Debug, Clone, Copy, PartialEq, Eq, Structural)]
pub enum PanelAnswer {
    /// The key means nothing here.
    Unused,
    /// The panel took the key.
    Taken,
    /// The panel took the key, and what is kept between sessions has changed.
    Save,
    /// The chosen operation is to be started.
    Execute,
    /// The dialog for the targets is to be opened.
    Filter,
}

/// Whether Enter opens a field to be typed into.
pub open spec fn opens_field(v: PanelView) -> bool {
    v.focus == OperateFocus::ParamPanel && (v.param_field == ParamPanelField::CommandOrScript || (
    v.settings.operation == OperationKind::Sync && v.param_field
        == ParamPanelField::SyncAdHocInput))
}

/// What a key does to the panel while no field takes all keys.
#[verifier::opaque]
pub open spec fn panel_keyed(v: PanelView, code: KeyCode, config: AppConfig) -> (
    PanelView,
    PanelAnswer,
) {
    if code == KeyCode::Up || code == KeyCode::Char('k') {
        (v.went_up(config), PanelAnswer::Taken)
    } else if code == KeyCode::Down || code == KeyCode::Char('j') {
        (v.went_down(config), PanelAnswer::Taken)
    } else if code == KeyCode::Left && v.focus == OperateFocus::OpRadio {
        (v.choosing(v.settings.operation.spec_prev()), PanelAnswer::Save)
    } else if code == KeyCode::Right && v.focus == OperateFocus::OpRadio {
        (v.choosing(v.settings.operation.spec_next()), PanelAnswer::Save)
    } else if code == KeyCode::Enter && opens_field(v) {
        (v.entered(), PanelAnswer::Taken)
    } else if code == KeyCode::Char(' ') && v.focus == OperateFocus::ParamPanel {
        match toggled(v.settings, v.param_field) {
            Some(settings) => (PanelView { settings, ..v }, PanelAnswer::Save),
            None => (v, PanelAnswer::Taken),
        }
    } else if code == KeyCode::Delete && v.focus == OperateFocus::ParamPanel
        && v.settings.operation == OperationKind::Sync && v.param_field
        == ParamPanelField::SyncAdHocInput {
        (
            PanelView {
                adhoc_files: if v.adhoc_files.len() > 0 {
                    v.adhoc_files.drop_last()
                } else {
                    v.adhoc_files
                },
                ..v
            },
            PanelAnswer::Taken,
        )
    } else if code == KeyCode::Enter && v.focus == OperateFocus::Execute {
        (v, PanelAnswer::Execute)
    } else if code == KeyCode::Char('f') {
        (v, PanelAnswer::Filter)
    } else {
        (v, PanelAnswer::Unused)
    }
}

/// The panel when the interface starts, with the switches as they were kept.
pub open spec fn new_panel(settings: OperateState) -> PanelView {
    PanelView {
        focus: OperateFocus::Execute,
        settings,
        run_command: fresh(""@),
        exec_script: fresh(""@),
        adhoc_input: fresh(""@),
        adhoc_files: Seq::empty(),
        param_field: ParamPanelField::CommandOrScript,
        entries_scroll: 0,
    }
}

impl OperatePanel {
    /// The panel when the interface starts, with the switches as they were kept.
    pub fn new(settings: OperateState) -> (r: OperatePanel)
        ensures
            r@.wf(),
            r@ == new_panel(settings),
    {
        let r = OperatePanel {
            focus: OperateFocus::Execute,
            settings,
            run_command: InputField::new(""),
            exec_script: InputField::new(""),
            adhoc_input: InputField::new(""),
            adhoc_files: Vec::new(),
            param_field: ParamPanelField::CommandOrScript,
            entries_scroll: 0,
        };
        assert(texts(r.adhoc_files@) =~= Seq::empty());
        r
    }

    /// Whether the chosen operation works on configured entries.
    pub fn has_entries_panel(&self) -> (r: bool)
        ensures
            r == self@.lists_entries(),
    {
        self.settings.operation == OperationKind::Check || (self.settings.operation
            == OperationKind::Sync && self.settings.sync_mode == SyncMode::ConfigEntries)
    }

    /// How many entries the chosen operation has.
    pub fn entries_panel_count(&self, config: &AppConfig) -> (r: usize)
        ensures
            r == self@.entry_count(*config),
    {
        match self.settings.operation {
            OperationKind::Check => config.check.len(),
            OperationKind::Sync => config.sync.len(),
            _ => 0,
        }
    }

    fn farthest_scroll(&self, config: &AppConfig) -> (r: usize)
        ensures
            r == self@.last_scroll(*config),
    {
        let count: usize = self.entries_panel_count(config);
        if count > PAGE_SIZE {
            count - PAGE_SIZE
        } else {
            0
        }
    }

    /// The field that takes all keys, if one does.
    pub fn active_field(&self) -> (r: Option<TypedField>)
        ensures
            r == self@.typed_field(),
    {
        if self.focus != OperateFocus::ParamPanel {
            return None;
        }
        match self.settings.operation {
            OperationKind::Run => if self.run_command.mode == InputMode::Active {
                Some(TypedField::Command)
            } else {
                None
            },
            OperationKind::Exec => if self.exec_script.mode == InputMode::Active {
                Some(TypedField::Script)
            } else {
                None
            },
            OperationKind::Sync => if self.param_field == ParamPanelField::SyncAdHocInput
                && self.adhoc_input.mode == InputMode::Active {
                Some(TypedField::AdHoc)
            } else {
                None
            },
            OperationKind::Check => None,
        }
    }

    /// Gives a key to the field that takes all keys. A path that is confirmed
    /// joins the list of files.
    pub fn type_key(&mut self, key: KeyEvent) -> (r: bool)
        requires
            old(self)@.wf(),
        ensures
            final(self)@.wf(),
            (final(self)@, r) == old(self)@.typed(key),
    {
        match self.active_field() {
            Some(TypedField::Command) => self.run_command.handle_key(key),
            Some(TypedField::Script) => self.exec_script.handle_key(key),
            Some(TypedField::AdHoc) => {
                let changed = self.adhoc_input.handle_key(key);
                if self.adhoc_input.mode == InputMode::Normal && chars_of(
                    self.adhoc_input.value.as_str(),
                ).len() > 0 {
                    let path = copy(self.adhoc_input.value.as_str());
                    let empty: String = String::new();
                    assert(empty@ =~= Seq::empty());
                    self.adhoc_input.value = empty;
                    self.adhoc_input.cursor_pos = 0;
                    self.adhoc_files.push(path);
                }
                changed
            },
            None => false,
        }
    }

    fn go_up(&mut self, config: &AppConfig)
        ensures
            final(self)@ == old(self)@.went_up(*config),
    {
        match self.focus {
            OperateFocus::Execute => {
                if self.has_entries_panel() {
                    self.entries_scroll = self.farthest_scroll(config);
                    self.focus = OperateFocus::ApplicableEntries;
                } else {
                    self.focus = OperateFocus::TargetRow;
                }
            },
            OperateFocus::ApplicableEntries => {
                if self.entries_scroll == 0 {
                    self.focus = OperateFocus::TargetRow;
                } else {
                    self.entries_scroll -= 1;
                }
            },
            OperateFocus::TargetRow => {
                if self.settings.operation == OperationKind::Check {
                    self.focus = OperateFocus::OpRadio;
                } else {
                    self.param_field = if self.settings.operation == OperationKind::Sync {
                        ParamPanelField::SyncDryRun
                    } else {
                        ParamPanelField::SecondFlag
                    };
                    self.focus = OperateFocus::ParamPanel;
                }
            },
            OperateFocus::ParamPanel => {
                if self.settings.operation == OperationKind::Sync {
                    match self.param_field {
                        ParamPanelField::SyncDryRun => {
                            self.param_field = ParamPanelField::SyncAdHocInput;
                        },
                        ParamPanelField::SyncAdHocInput => {
                            self.param_field = ParamPanelField::SyncModeToggle;
                        },
                        _ => {
                            self.focus = OperateFocus::OpRadio;
                        },
                    }
                } else {
                    match self.param_field {
                        ParamPanelField::SecondFlag => {
                            self.param_field = ParamPanelField::Sudo;
                        },
                        ParamPanelField::Sudo => {
                            self.param_field = ParamPanelField::CommandOrScript;
                        },
                        ParamPanelField::CommandOrScript => {
                            self.focus = OperateFocus::OpRadio;
                        },
                        _ => {},
                    }
                }
            },
            OperateFocus::OpRadio => {},
        }
    }

    fn go_down(&mut self, config: &AppConfig)
        ensures
            final(self)@ == old(self)@.went_down(*config),
    {
        match self.focus {
            OperateFocus::OpRadio => {
                if self.settings.operation == OperationKind::Check {
                    self.focus = OperateFocus::TargetRow;
                } else {
                    self.param_field = if self.settings.operation == OperationKind::Sync {
                        ParamPanelField::SyncModeToggle
                    } else {
                        ParamPanelField::CommandOrScript
                    };
                    self.focus = OperateFocus::ParamPanel;
                }
            },
            OperateFocus::ParamPanel => {
                if self.settings.operation == OperationKind::Sync {
                    match self.param_field {
                        ParamPanelField::SyncModeToggle => {
                            self.param_field = ParamPanelField::SyncAdHocInput;
                        },
                        ParamPanelField::SyncAdHocInput => {
                            self.param_field = ParamPanelField::SyncDryRun;
                        },
                        _ => {
                            self.focus = OperateFocus::TargetRow;
                        },
                    }
                } else {
                    match self.param_field {
                        ParamPanelField::CommandOrScript => {
                            self.param_field = ParamPanelField::Sudo;
                        },
                        ParamPanelField::Sudo => {
                            self.param_field = ParamPanelField::SecondFlag;
                        },
                        _ => {
                            self.focus = OperateFocus::TargetRow;
                        },
                    }
                }
            },
            OperateFocus::TargetRow => {
                if self.has_entries_panel() {
                    self.entries_scroll = 0;
                    self.focus = OperateFocus::ApplicableEntries;
                } else {
                    self.focus = OperateFocus::Execute;
                }
            },
            OperateFocus::ApplicableEntries => {
                if self.entries_scroll < self.farthest_scroll(config) {
                    self.entries_scroll += 1;
                } else {
                    self.focus = OperateFocus::Execute;
                }
            },
            OperateFocus::Execute => {},
        }
    }

    fn enter_field(&mut self)
        ensures
            final(self)@ == old(self)@.entered(),
    {
        if self.param_field == ParamPanelField::CommandOrScript {
            match self.settings.operation {
                OperationKind::Run => self.run_command.activate(),
                OperationKind::Exec => self.exec_script.activate(),
                _ => {},
            }
        } else {
            self.adhoc_input.activate();
        }
    }

    /// Takes a key while no field takes all keys.
    pub fn handle_key(&mut self, key: KeyEvent, config: &AppConfig) -> (r: PanelAnswer)
        requires
            old(self)@.wf(),
        ensures
            final(self)@.wf(),
            (final(self)@, r) == panel_keyed(old(self)@, key.code, *config),
    {
        proof {
            reveal(panel_keyed);
        }
        let in_params = self.focus == OperateFocus::ParamPanel;
        match key.code {
            KeyCode::Up => {
                self.go_up(config);
                PanelAnswer::Taken
            },
            KeyCode::Down => {
                self.go_down(config);
                PanelAnswer::Taken
            },
            KeyCode::Left => {
                if self.focus == OperateFocus::OpRadio {
                    self.settings.operation = self.settings.operation.prev();
                    PanelAnswer::Save
                } else {
                    PanelAnswer::Unused
                }
            },
            KeyCode::Right => {
                if self.focus == OperateFocus::OpRadio {
                    self.settings.operation = self.settings.operation.next();
                    PanelAnswer::Save
                } else {
                    PanelAnswer::Unused
                }
            },
            KeyCode::Enter => {
                if in_params && (self.param_field == ParamPanelField::CommandOrScript || (
                self.settings.operation == OperationKind::Sync && self.param_field
                    == ParamPanelField::SyncAdHocInput)) {
                    self.enter_field();
                    PanelAnswer::Taken
                } else if self.focus == OperateFocus::Execute {
                    PanelAnswer::Execute
                } else {
                    PanelAnswer::Unused
                }
            },
            KeyCode::Delete => {
                if in_params && self.settings.operation == OperationKind::Sync
                    && self.param_field == ParamPanelField::SyncAdHocInput {
                    let ghost before = texts(self.adhoc_files@);
                    let n: usize = self.adhoc_files.len();
                    if n > 0 {
                        self.adhoc_files.truncate(n - 1);
                        assert(texts(self.adhoc_files@) =~= before.drop_last());
                    }
                    PanelAnswer::Taken
                } else {
                    PanelAnswer::Unused
                }
            },
            KeyCode::Char(c) => {
                if c == 'k' {
                    self.go_up(config);
                    PanelAnswer::Taken
                } else if c == 'j' {
                    self.go_down(config);
                    PanelAnswer::Taken
                } else if c == ' ' && in_params {
                    match toggle(self.settings, self.param_field) {
                        Some(settings) => {
                            self.settings = settings;
                            PanelAnswer::Save
                        },
                        None => PanelAnswer::Taken,
                    }
                } else if c == 'f' {
                    PanelAnswer::Filter
                } else {
                    PanelAnswer::Unused
                }
            },
            _ => PanelAnswer::Unused,
        }
    }
}

// ---------------------------------------------------------------------------
// Jobs
// ---------------------------------------------------------------------------

/// An operation with its parameters.
pub enum Job {
    Check,
    Run { command: String, sudo: bool, yes: bool },
    Exec { script: String, sudo: bool, keep: bool },
    /// Without files, the configured entries are synced.
    Sync { files: Vec<String>, dry_run: bool },
}

/// An operation with its parameters, as a value of the specification language.
pub ghost enum JobView {
    Check,
    Run { command: Seq<char>, sudo: bool, yes: bool },
    Exec { script: Seq<char>, sudo: bool, keep: bool },
    Sync { files: Seq<Seq<char>>, dry_run: bool },
}

impl View for Job {
    type V = JobView;

    open spec fn view(&self) -> JobView {
        match *self {
            Job::Check => JobView::Check,
            Job::Run { command, sudo, yes } => JobView::Run { command: command@, sudo, yes },
            Job::Exec { script, sudo, keep } => JobView::Exec { script: script@, sudo, keep },
            Job::Sync { files, dry_run } => JobView::Sync { files: texts(files@), dry_run },
        }
    }
}

/// An operation that is ready to be started.
pub struct Start {
    pub job: Job,
    pub mode: TargetMode,
    /// The names of the hosts it is aimed at; there is at least one.
    pub targets: Vec<String>,
    pub serial: bool,
    pub timeout: u64,
}

/// An operation that is ready to be started, as a value of the specification
/// language.
pub ghost struct StartView {
    pub job: JobView,
    pub mode: TargetView,
    pub targets: Seq<Seq<char>>,
    pub serial: bool,
    pub timeout: u64,
}

impl View for Start {
    type V = StartView;

    open spec fn view(&self) -> StartView {
        StartView {
            job: self.job@,
            mode: self.mode@,
            targets: texts(self.targets@),
            serial: self.serial,
            timeout: self.timeout,
        }
    }
}

/// The job that the parameters make up.
#[verifier::opaque]
pub open spec fn job_of(v: PanelView) -> JobView {
    match v.settings.operation {
        OperationKind::Check => JobView::Check,
        OperationKind::Run => JobView::Run {
            command: trim(v.run_command.value),
            sudo: v.settings.run_sudo,
            yes: v.settings.run_yes,
        },
        OperationKind::Exec => JobView::Exec {
            script: trim(v.exec_script.value),
            sudo: v.settings.exec_sudo,
            keep: v.settings.exec_keep,
        },
        OperationKind::Sync => JobView::Sync {
            files: match v.settings.sync_mode {
                SyncMode::AdHoc => v.adhoc_files,
                SyncMode::ConfigEntries => Seq::empty(),
            },
            dry_run: v.settings.sync_dry_run,
        },
    }
}

/// Whether asking for the operation does nothing at all: a check while another
/// operation runs.
pub open spec fn passed_over(v: PanelView, is_running: bool) -> bool {
    is_running && v.settings.operation == OperationKind::Check
}

/// What is said of an operation that cannot be started; `None` where it can be.
#[verifier::opaque]
pub open spec fn obstacle(v: PanelView, is_running: bool, targets: Seq<Seq<char>>) -> Option<
    Seq<char>,
> {
    if is_running {
        if v.settings.operation == OperationKind::Sync {
            Some("An operation is already running."@)
        } else {
            Some("Operation already running"@)
        }
    } else if v.settings.operation == OperationKind::Run && trim(v.run_command.value).len() == 0 {
        Some("Command field is empty."@)
    } else if v.settings.operation == OperationKind::Exec && trim(v.exec_script.value).len() == 0 {
        Some("Script path field is empty."@)
    } else if targets.len() == 0 {
        Some("No hosts matched the current filter."@)
    } else {
        None
    }
}

/// What came of asking for the chosen operation.
pub enum Prepared {
    /// It is ready to be started.
    Ready(Start),
    /// It cannot be started, for this reason.
    Refused(Error),
    /// Nothing is to be done.
    PassedOver,
}

/// The operation that the panel and the filter make up.
#[verifier::opaque]
pub open spec fn start_of(v: PanelView, filter: FilterView, config: AppConfig, timeout: u64) -> StartView {
    StartView {
        job: job_of(v),
        mode: target_mode(filter),
        targets: target_names(config.host@, target_mode(filter)),
        serial: filter.serial,
        timeout,
    }
}

impl OperatePanel {
    fn job(&self) -> (r: Job)
        ensures
            r@ == job_of(self@),
    {
        proof {
            reveal(job_of);
        }
        match self.settings.operation {
            OperationKind::Check => Job::Check,
            OperationKind::Run => Job::Run {
                command: trimmed(self.run_command.value.as_str()),
                sudo: self.settings.run_sudo,
                yes: self.settings.run_yes,
            },
            OperationKind::Exec => Job::Exec {
                script: trimmed(self.exec_script.value.as_str()),
                sudo: self.settings.exec_sudo,
                keep: self.settings.exec_keep,
            },
            OperationKind::Sync => {
                let files = match self.settings.sync_mode {
                    SyncMode::AdHoc => copy_all(self.adhoc_files.as_slice()),
                    SyncMode::ConfigEntries => {
                        let none: Vec<String> = Vec::new();
                        assert(texts(none@) =~= Seq::empty());
                        none
                    },
                };
                Job::Sync { files, dry_run: self.settings.sync_dry_run }
            },
        }
    }

    /// Makes the chosen operation ready to be started, or says why it cannot be. A
    /// check that is asked for while an operation runs is passed over.
    pub fn prepare(
        &self,
        is_running: bool,
        filter: &TargetFilterState,
        config: &AppConfig,
        timeout: u64,
    ) -> (r: Prepared)
        ensures
            r is PassedOver <==> passed_over(self@, is_running),
            ({
                let targets = target_names(config.host@, target_mode(filter@));
                match r {
                    Prepared::Ready(start) => obstacle(self@, is_running, targets) is None && start@
                        == start_of(self@, filter@, *config, timeout),
                    Prepared::Refused(e) => obstacle(self@, is_running, targets) == Some(
                        e.message@,
                    ),
                    Prepared::PassedOver => true,
                }
            }),
    {
        proof {
            reveal(obstacle);
            reveal(start_of);
        }
        let operation = self.settings.operation;
        if is_running {
            return match operation {
                OperationKind::Check => Prepared::PassedOver,
                OperationKind::Sync => Prepared::Refused(
                    Error { message: copy("An operation is already running.") },
                ),
                _ => Prepared::Refused(Error { message: copy("Operation already running") }),
            };
        }
        if operation == OperationKind::Run && chars_of(
            trimmed(self.run_command.value.as_str()).as_str(),
        ).len() == 0 {
            return Prepared::Refused(Error { message: copy("Command field is empty.") });
        }
        if operation == OperationKind::Exec && chars_of(
            trimmed(self.exec_script.value.as_str()).as_str(),
        ).len() == 0 {
            return Prepared::Refused(Error { message: copy("Script path field is empty.") });
        }
        let mode = build_target_mode(filter);
        let targets = resolve_target_names(&mode, config);
        assert(texts(targets@).len() == targets@.len());
        if targets.len() == 0 {
            return Prepared::Refused(
                Error { message: copy("No hosts matched the current filter.") },
            );
        }
        Prepared::Ready(Start { job: self.job(), mode, targets, serial: filter.serial, timeout })
    }
}

// ---------------------------------------------------------------------------
// Laws
// ---------------------------------------------------------------------------

/// Nothing is started without a host, and nothing while something else runs.
pub proof fn starts_need_a_host_and_rest(
    v: PanelView,
    is_running: bool,
    targets: Seq<Seq<char>>,
)
    requires
        obstacle(v, is_running, targets) is None,
    ensures
        targets.len() > 0,
        !is_running,
{
    reveal(obstacle);
}

/// What is typed does not move the focus, choose an operation or turn a switch.
pub proof fn typing_only_types(v: PanelView, key: KeyEvent)
    ensures
        v.typed(key).0.focus == v.focus,
        v.typed(key).0.settings == v.settings,
        v.typed(key).0.param_field == v.param_field,
        v.typed(key).0.entries_scroll == v.entries_scroll,
{
}

/// The space bar twice turns a switch back.
pub proof fn toggling_twice_changes_nothing(s: OperateState, field: ParamPanelField)
    ensures
        toggled(s, field) matches Some(once) ==> toggled(once, field) == Some(s),
{
}

/// The parameters that belong to an operation.
pub open spec fn belongs_to(op: OperationKind, field: ParamPanelField) -> bool {
    if op == OperationKind::Sync {
        field == ParamPanelField::SyncModeToggle || field == ParamPanelField::SyncAdHocInput
            || field == ParamPanelField::SyncDryRun
    } else {
        op != OperationKind::Check && (field == ParamPanelField::CommandOrScript || field
            == ParamPanelField::Sudo || field == ParamPanelField::SecondFlag)
    }
}

/// Among the parameters of an operation a step down undoes a step up and the other
/// way round.
pub proof fn parameter_steps_undo(v: PanelView, config: AppConfig)
    requires
        v.focus == OperateFocus::ParamPanel,
        belongs_to(v.settings.operation, v.param_field),
    ensures
        v.went_up(config).went_down(config) == v,
        v.went_down(config).focus == OperateFocus::ParamPanel ==> v.went_down(config).went_up(
            config,
        ) == v,
{
}

/// However the focus moves, the entries are never scrolled past their end.
pub proof fn scrolling_ends(v: PanelView, config: AppConfig)
    requires
        v.entries_scroll <= v.last_scroll(config),
    ensures
        v.went_up(config).entries_scroll <= v.last_scroll(config),
        v.went_down(config).entries_scroll <= v.last_scroll(config),
{
}

/// A filter of groups or hosts that names none stands for all hosts.
pub proof fn empty_filters_are_no_filters(f: FilterView, hosts: Seq<HostEntry>)
    requires
        f.mode == TargetFilterMode::Groups && f.groups.len() == 0 || f.mode
            == TargetFilterMode::Hosts && f.hosts.len() == 0,
    ensures
        target_names(hosts, target_mode(f)) == target_names(hosts, TargetView::All),
{
}

/// A key that the program has to act on leaves the panel as it is.
pub proof fn requests_change_nothing(v: PanelView, code: KeyCode, config: AppConfig)
    ensures
        ({
            let answer = panel_keyed(v, code, config).1;
            answer == PanelAnswer::Execute || answer == PanelAnswer::Filter || answer
                == PanelAnswer::Unused ==> panel_keyed(v, code, config).0 == v
        }),
{
    reveal(panel_keyed);
}

/// Whether a filter lets a host through; one by groups or hosts that names none lets every
/// host through.
pub open spec fn lets_through(f: FilterView, h: HostEntry) -> bool {
    match f.mode {
        TargetFilterMode::All => true,
        TargetFilterMode::Groups => f.groups.len() == 0 || exists|i: int, j: int|
            0 <= i < h.groups@.len() && 0 <= j < f.groups.len() && #[trigger] h.groups@[i]@
                == #[trigger] f.groups[j],
        TargetFilterMode::Hosts => f.hosts.len() == 0 || exists|i: int|
            0 <= i < f.hosts.len() && #[trigger] f.hosts[i] == h.name@,
        TargetFilterMode::Shell => h.shell == f.shell.spec_shell(),
    }
}

proof fn places_that_are_let_through(f: FilterView, hosts: Seq<HostEntry>) -> (at: Seq<int>)
    ensures
        crate::host::filter::picked(
            hosts,
            at,
            crate::commands::target_hosts(hosts, target_mode(f)),
        ),
        forall|k: int|
            0 <= k < hosts.len() ==> (at.contains(k) <==> lets_through(f, #[trigger] hosts[k])),
{
    match target_mode(f) {
        TargetView::All => {
            crate::commands::all_selects_every_host(hosts);
            let at = Seq::new(hosts.len(), |i: int| i);
            assert forall|k: int| 0 <= k < hosts.len() implies (at.contains(k) <==> lets_through(
                f,
                #[trigger] hosts[k],
            )) by {
                assert(at[k] == k);
            }
            at
        },
        TargetView::Groups(g) => {
            let at = crate::commands::every_group_selects_its_hosts(hosts, f.groups);
            assert forall|k: int| 0 <= k < hosts.len() implies (at.contains(k) <==> lets_through(
                f,
                #[trigger] hosts[k],
            )) by {}
            at
        },
        TargetView::Hosts(h) => {
            let at = crate::commands::every_name_selects_its_host(hosts, f.hosts);
            assert forall|k: int| 0 <= k < hosts.len() implies (at.contains(k) <==> lets_through(
                f,
                #[trigger] hosts[k],
            )) by {}
            at
        },
        TargetView::Shell(s) => {
            let shells = seq![f.shell.spec_shell()];
            let at = crate::commands::every_shell_selects_its_hosts(hosts, shells);
            assert(shells[0] == f.shell.spec_shell());
            assert forall|k: int| 0 <= k < hosts.len() implies (at.contains(k) <==> lets_through(
                f,
                #[trigger] hosts[k],
            )) by {}
            at
        },
    }
}

/// What is started runs on exactly the hosts that the filter lets through, in their order,
/// one after the other where that is asked for.
pub proof fn the_filter_decides_the_targets(
    v: PanelView,
    f: FilterView,
    config: AppConfig,
    timeout: u64,
) -> (at: Seq<int>)
    ensures
        forall|i: int, j: int| 0 <= i < j < at.len() ==> #[trigger] at[i] < #[trigger] at[j],
        forall|k: int|
            0 <= k < config.host@.len() ==> (at.contains(k) <==> lets_through(
                f,
                #[trigger] config.host@[k],
            )),
        start_of(v, f, config, timeout).targets.len() == at.len(),
        forall|i: int|
            0 <= i < at.len() ==> 0 <= at[i] < config.host@.len() && #[trigger] start_of(
                v,
                f,
                config,
                timeout,
            ).targets[i] == config.host@[at[i]].name@,
        start_of(v, f, config, timeout).serial == f.serial,
        start_of(v, f, config, timeout).timeout == timeout,
{
    reveal(start_of);
    reveal(target_names);
    let at = places_that_are_let_through(f, config.host@);
    let list = crate::commands::target_hosts(config.host@, target_mode(f));
    assert forall|i: int| 0 <= i < at.len() implies 0 <= at[i] < config.host@.len()
        && #[trigger] start_of(v, f, config, timeout).targets[i] == config.host@[at[i]].name@ by {
        assert(list[i] == config.host@[at[i]]);
    }
    at
}

/// A toggle flips the flag of its own field and leaves all others alone.
pub proof fn toggles_flip_their_own_flag(s: OperateState, field: ParamPanelField)
    ensures
        match toggled(s, field) {
            Some(t) => {
                &&& t.operation == s.operation
                &&& t.run_sudo != s.run_sudo <==> s.operation == OperationKind::Run && field
                    == ParamPanelField::Sudo
                &&& t.run_yes != s.run_yes <==> s.operation == OperationKind::Run && field
                    == ParamPanelField::SecondFlag
                &&& t.exec_sudo != s.exec_sudo <==> s.operation == OperationKind::Exec && field
                    == ParamPanelField::Sudo
                &&& t.exec_keep != s.exec_keep <==> s.operation == OperationKind::Exec && field
                    == ParamPanelField::SecondFlag
                &&& t.sync_mode != s.sync_mode <==> s.operation == OperationKind::Sync && field
                    == ParamPanelField::SyncModeToggle
                &&& t.sync_dry_run != s.sync_dry_run <==> s.operation == OperationKind::Sync
                    && field
                    == ParamPanelField::SyncDryRun
            },
            None => s.operation == OperationKind::Check || (s.operation == OperationKind::Sync
                && field != ParamPanelField::SyncModeToggle && field != ParamPanelField::SyncDryRun)
                || (s.operation != OperationKind::Sync && field != ParamPanelField::Sudo && field
                != ParamPanelField::SecondFlag),
        },
{
}

/// What is started is what the panel shows: the trimmed command or script with the flags of
/// its operation, or the files that were added.
pub proof fn jobs_follow_the_panel(v: PanelView)
    ensures
        match job_of(v) {
            JobView::Check => v.settings.operation == OperationKind::Check,
            JobView::Run { command, sudo, yes } => {
                &&& v.settings.operation == OperationKind::Run
                &&& command == trim(v.run_command.value)
                &&& sudo == v.settings.run_sudo
                &&& yes == v.settings.run_yes
            },
            JobView::Exec { script, sudo, keep } => {
                &&& v.settings.operation == OperationKind::Exec
                &&& script == trim(v.exec_script.value)
                &&& sudo == v.settings.exec_sudo
                &&& keep == v.settings.exec_keep
            },
            JobView::Sync { files, dry_run } => {
                &&& v.settings.operation == OperationKind::Sync
                &&& dry_run == v.settings.sync_dry_run
                &&& v.settings.sync_mode == SyncMode::AdHoc ==> files == v.adhoc_files
                &&& v.settings.sync_mode == SyncMode::ConfigEntries ==> files.len() == 0
            },
        },
{
    reveal(job_of);
}

/// Nothing stops a start but an operation that runs, a blank command or script, or a filter
/// that lets no host through.
pub proof fn nothing_else_stops_a_start(
    v: PanelView,
    is_running: bool,
    targets: Seq<Seq<char>>,
)
    ensures
        obstacle(v, is_running, targets) is None <==> {
            &&& !is_running
            &&& targets.len() > 0
            &&& v.settings.operation == OperationKind::Run ==> trim(v.run_command.value).len() > 0
            &&& v.settings.operation == OperationKind::Exec ==> trim(v.exec_script.value).len() > 0
        },
{
    reveal(obstacle);
}

/// Each key of the panel does what it is for, and nothing where it has no use.
pub proof fn panel_keys_do_what_they_say(v: PanelView, code: KeyCode, config: AppConfig)
    ensures
        ({
            let (w, answer) = panel_keyed(v, code, config);
            &&& code == KeyCode::Up || code == KeyCode::Char('k') ==> w == v.went_up(config)
                && answer == PanelAnswer::Taken
            &&& code == KeyCode::Down || code == KeyCode::Char('j') ==> w == v.went_down(config)
                && answer == PanelAnswer::Taken
            &&& code == KeyCode::Left && v.focus == OperateFocus::OpRadio ==> answer
                == PanelAnswer::Save && w.settings.operation.spec_next() == v.settings.operation
            &&& code == KeyCode::Right && v.focus == OperateFocus::OpRadio ==> answer
                == PanelAnswer::Save && w.settings.operation == v.settings.operation.spec_next()
            &&& code == KeyCode::Char(' ') && v.focus == OperateFocus::ParamPanel
                ==> (match toggled(
                v.settings,
                v.param_field,
            ) {
                Some(s) => w.settings == s && answer == PanelAnswer::Save,
                None => w == v && answer == PanelAnswer::Taken,
            })
            &&& code == KeyCode::Delete && v.focus == OperateFocus::ParamPanel
                && v.settings.operation == OperationKind::Sync && v.param_field
                == ParamPanelField::SyncAdHocInput && v.adhoc_files.len() > 0 ==> w.adhoc_files
                == v.adhoc_files.take(v.adhoc_files.len() - 1)
            &&& code == KeyCode::Enter && v.focus == OperateFocus::Execute ==> answer
                == PanelAnswer::Execute
            &&& code == KeyCode::Char('f') ==> answer == PanelAnswer::Filter
        }),
{
    reveal(panel_keyed);
    if v.adhoc_files.len() > 0 {
        assert(v.adhoc_files.drop_last() =~= v.adhoc_files.take(v.adhoc_files.len() - 1));
    }
}

/// The focus goes down the panel row by row: operation, parameters, targets, entries where
/// they are listed, and the button; and up the same way.
pub proof fn the_focus_walks_the_panel(v: PanelView, config: AppConfig)
    ensures
        v.focus == OperateFocus::OpRadio ==> v.went_down(config).focus == (if v.settings.operation
            == OperationKind::Check {
            OperateFocus::TargetRow
        } else {
            OperateFocus::ParamPanel
        }),
        v.focus == OperateFocus::TargetRow ==> v.went_down(config).focus == (if v.lists_entries() {
            OperateFocus::ApplicableEntries
        } else {
            OperateFocus::Execute
        }),
        v.focus == OperateFocus::Execute ==> v.went_down(config) == v
            && v.went_up(config).focus == (
        if v.lists_entries() {
            OperateFocus::ApplicableEntries
        } else {
            OperateFocus::TargetRow
        }),
        v.focus == OperateFocus::OpRadio ==> v.went_up(config) == v,
        v.focus == OperateFocus::TargetRow ==> v.went_up(config).focus == (if v.settings.operation
            == OperationKind::Check {
            OperateFocus::OpRadio
        } else {
            OperateFocus::ParamPanel
        }),
        v.lists_entries() <==> v.settings.operation == OperationKind::Check || (v.settings.operation
            == OperationKind::Sync && v.settings.sync_mode == SyncMode::ConfigEntries),
        v.went_down(config).settings == v.settings && v.went_up(config).settings == v.settings,
{
}

/// A path that was typed and confirmed is added behind the others, and the field is empty
/// again.
pub proof fn confirmed_paths_are_added(v: PanelView)
    ensures
        v.adhoc_input.mode == InputMode::Normal && v.adhoc_input.value.len() > 0
            ==> v.with_path_added().adhoc_files.len() == v.adhoc_files.len() + 1
            && v.with_path_added().adhoc_files.last() == v.adhoc_input.value
            && v.with_path_added().adhoc_files.drop_last() == v.adhoc_files
            && v.with_path_added().adhoc_input.value.len() == 0,
        v.adhoc_input.mode != InputMode::Normal || v.adhoc_input.value.len() == 0
            ==> v.with_path_added() == v,
{
    assert(v.adhoc_files.push(v.adhoc_input.value).drop_last() =~= v.adhoc_files);
}

} // verus!
