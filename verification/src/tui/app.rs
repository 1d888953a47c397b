//! The interface as a whole: which part of it a key or an event goes to, and what
//! the program has to do in answer.

use vstd::prelude::*;

use crate::commands::checkout::HostSnapshot;
use crate::commands::report::{CommandReport, HostStatus};
use crate::commands::{available_groups, host_names};
use crate::config::schema::AppConfig;
use crate::order::listed;
use crate::text::{concat2, copy, copy_all, text_opt, texts, texts_push};
use crate::tui::async_bridge::{OutcomeView, RunningOp, RunningView, TuiEvent};
use crate::tui::components::input_field::{
    activated, fresh, InputField, InputMode, InputView,
};
use crate::tui::components::target_filter::{
    popup_keyed, Field, FilterPopup, FilterPopupResult, PopupView,
};
use crate::tui::components::viewport::{minus, Viewport};
use crate::tui::key::{KeyCode, KeyEvent};
use crate::tui::operate::{
    build_target_mode, field_keyed, new_panel, obstacle, panel_keyed, passed_over,
    requests_change_nothing, resolve_target_names, start_of, target_mode, target_names,
    OperatePanel, PanelAnswer, PanelView, Prepared, Start, StartView,
};
use crate::tui::state::persist::{
    valid_filter, validate_filter, ActiveTab, FilterView, OperateState, OperationKind,
    TargetFilterState, TuiPersistedState, TuiSection,
};
use crate::tui::tabs::config_tab::{
    reloaded, scroll, scrolled, sidebar_of, tab_keyed, top, ConfigTabState, ConfigTabView,
    ConfigZone, SidebarItem,
};
use crate::tui::tabs::operate_tab::PROGRESS_ROWS;
use crate::tui::tabs::TabId;

verus! {

broadcast use texts_push;

/// The smallest terminal that the interface is drawn on.
pub const MIN_COLS: u16 = 80;

/// The smallest terminal that the interface is drawn on.
pub const MIN_ROWS: u16 = 24;

/// How long the program waits for a key before it looks for events.
pub const POLL_INTERVAL_MS: u64 = 50;

// ---------------------------------------------------------------------------
// State
// ---------------------------------------------------------------------------

/// A question for a password or a passphrase.
pub struct AuthPopup {
    pub prompt: String,
    pub input: InputField,
}

/// The contents of a question.
pub ghost struct AuthView {
    pub prompt: Seq<char>,
    pub input: InputView,
}

impl View for AuthPopup {
    type V = AuthView;

    open spec fn view(&self) -> AuthView {
        AuthView { prompt: self.prompt@, input: self.input@ }
    }
}

/// A question that waits for its answer to be typed.
pub open spec fn asked(prompt: Seq<char>) -> AuthView {
    AuthView { prompt, input: activated(fresh(""@)) }
}

impl AuthPopup {
    /// A question that waits for its answer to be typed.
    pub fn new(prompt: String) -> (r: AuthPopup)
        ensures
            r.input.wf(),
            r@ == asked(prompt@),
    {
        let mut input = InputField::new("");
        input.activate();
        AuthPopup { prompt, input }
    }
}

/// The kinds of entries that can be added to a configuration.
#[derive(Debug, Clone, Copy, PartialEq, Eq, Structural)]
pub enum EntryFormKind {
    Host,
    Check,
    Sync,
}

/// What is shown over all tabs.
pub struct Screen {
    pub active_tab: TabId,
    pub error: Option<String>,
    pub help_open: bool,
    pub info_open: bool,
    pub should_quit: bool,
}

/// What is shown over all tabs, as a value of the specification language.
pub ghost struct ScreenView {
    pub active_tab: TabId,
    pub error: Option<Seq<char>>,
    pub help_open: bool,
    pub info_open: bool,
    pub should_quit: bool,
}

impl View for Screen {
    type V = ScreenView;

    open spec fn view(&self) -> ScreenView {
        ScreenView {
            active_tab: self.active_tab,
            error: text_opt(self.error),
            help_open: self.help_open,
            info_open: self.info_open,
            should_quit: self.should_quit,
        }
    }
}

/// The window on the log.
#[derive(Debug, Clone, Copy)]
pub struct LogOverlay {
    pub open: bool,
    pub vp: Viewport,
}

/// The Checkout tab.
pub struct CheckoutTab {
    /// The window on the rows.
    pub viewport: Viewport,
    /// The latest snapshot of each host.
    pub all: Vec<HostSnapshot>,
    /// The places of the snapshots that are shown.
    pub rows: Vec<usize>,
    /// Whether there may be newer snapshots.
    pub stale: bool,
}

/// The contents of the Checkout tab.
pub ghost struct CheckoutView {
    pub viewport: Viewport,
    pub all: Seq<HostSnapshot>,
    pub rows: Seq<usize>,
    pub stale: bool,
}

impl View for CheckoutTab {
    type V = CheckoutView;

    open spec fn view(&self) -> CheckoutView {
        CheckoutView {
            viewport: self.viewport,
            all: self.all@,
            rows: self.rows@,
            stale: self.stale,
        }
    }
}

/// The configuration, and the tab that shows it.
pub struct ConfigSource {
    pub config: AppConfig,
    pub path: Option<String>,
    pub tab: ConfigTabState,
    /// Whether the configuration was changed and not saved.
    pub dirty: bool,
    /// Whether a value is being typed.
    pub editing: bool,
    /// Whether the program asks if unsaved changes may be lost.
    pub confirm_open: bool,
}

/// The contents of the configuration and its tab.
pub ghost struct SourceView {
    pub config: AppConfig,
    pub path: Option<String>,
    pub tab: ConfigTabView,
    pub dirty: bool,
    pub editing: bool,
    pub confirm_open: bool,
}

impl View for ConfigSource {
    type V = SourceView;

    open spec fn view(&self) -> SourceView {
        SourceView {
            config: self.config,
            path: self.path,
            tab: self.tab@,
            dirty: self.dirty,
            editing: self.editing,
            confirm_open: self.confirm_open,
        }
    }
}

/// What operations are aimed at.
pub struct Aim {
    pub filter: TargetFilterState,
    /// The dialog in which the filter is chosen, while it is open.
    pub popup: Option<FilterPopup>,
    /// The time limit for a host, in seconds.
    pub timeout: u64,
}

/// What operations are aimed at, as a value of the specification language.
pub ghost struct AimView {
    pub filter: FilterView,
    pub popup: Option<PopupView>,
    pub timeout: u64,
}

impl View for Aim {
    type V = AimView;

    open spec fn view(&self) -> AimView {
        AimView {
            filter: self.filter@,
            popup: match self.popup {
                Some(p) => Some(p@),
                None => None,
            },
            timeout: self.timeout,
        }
    }
}

/// The operation that is under way, or the last one.
pub struct Work {
    pub running: Option<RunningOp>,
    /// What the last operation came to, until it is dismissed.
    pub report: Option<CommandReport>,
    /// The outcome that was scrolled to; `None` while the last ones are followed.
    pub scroll: Option<usize>,
}

/// The operation that is under way, as a value of the specification language.
pub ghost struct WorkView {
    pub running: Option<RunningView>,
    pub report: Option<CommandReport>,
    pub scroll: Option<usize>,
}

impl View for Work {
    type V = WorkView;

    open spec fn view(&self) -> WorkView {
        WorkView {
            running: match self.running {
                Some(op) => Some(op@),
                None => None,
            },
            report: self.report,
            scroll: self.scroll,
        }
    }
}

/// The state of the interface.
pub struct App {
    pub screen: Screen,
    pub log: LogOverlay,
    pub checkout: CheckoutTab,
    pub source: ConfigSource,
    pub aim: Aim,
    pub operate: OperatePanel,
    pub work: Work,
    /// The question for a password that is open, if one is.
    pub auth_popup: Option<AuthPopup>,
}

/// The contents of the state.
pub ghost struct AppView {
    pub screen: ScreenView,
    pub log: LogOverlay,
    pub checkout: CheckoutView,
    pub source: SourceView,
    pub aim: AimView,
    pub operate: PanelView,
    pub work: WorkView,
    pub auth_popup: Option<AuthView>,
}

impl View for App {
    type V = AppView;

    open spec fn view(&self) -> AppView {
        AppView {
            screen: self.screen@,
            log: self.log,
            checkout: self.checkout@,
            source: self.source@,
            aim: self.aim@,
            operate: self.operate@,
            work: self.work@,
            auth_popup: match self.auth_popup {
                Some(p) => Some(p@),
                None => None,
            },
        }
    }
}

/// The places of the first `n` snapshots whose hosts are listed.
pub open spec fn rows_of(all: Seq<HostSnapshot>, visible: Seq<Seq<char>>, n: int) -> Seq<usize>
    decreases n,
{
    if n <= 0 {
        Seq::empty()
    } else if visible.len() == 0 || visible.contains(all[n - 1].host@) {
        rows_of(all, visible, n - 1).push((n - 1) as usize)
    } else {
        rows_of(all, visible, n - 1)
    }
}

impl AppView {
    /// With another screen.
    pub open spec fn with_screen(self, screen: ScreenView) -> AppView {
        AppView { screen, ..self }
    }

    /// With a message shown.
    pub open spec fn saying(self, message: Seq<char>) -> AppView {
        self.with_screen(ScreenView { error: Some(message), ..self.screen })
    }

    /// On another tab.
    pub open spec fn on(self, tab: TabId) -> AppView {
        self.with_screen(ScreenView { active_tab: tab, ..self.screen })
    }

    /// With another dialog for the targets, or none.
    pub open spec fn with_popup(self, popup: Option<PopupView>) -> AppView {
        AppView { aim: AimView { popup, ..self.aim }, ..self }
    }

    /// With another operation under way, or none.
    pub open spec fn with_running(self, running: Option<RunningView>) -> AppView {
        AppView { work: WorkView { running, ..self.work }, ..self }
    }

    /// With the outcomes of the running operation scrolled.
    pub open spec fn with_scroll(self, scroll: Option<usize>) -> AppView {
        AppView { work: WorkView { scroll, ..self.work }, ..self }
    }

    /// With another report shown, or none.
    pub open spec fn with_report(self, report: Option<CommandReport>) -> AppView {
        AppView { work: WorkView { report, ..self.work }, ..self }
    }

    /// With another state of the Config tab.
    pub open spec fn with_config_tab(self, tab: ConfigTabView) -> AppView {
        AppView { source: SourceView { tab, ..self.source }, ..self }
    }

    /// With another question open, or none.
    pub open spec fn with_auth(self, auth_popup: Option<AuthView>) -> AppView {
        AppView { auth_popup, ..self }
    }

    /// The names of the hosts that the filter chooses.
    pub open spec fn targets(self) -> Seq<Seq<char>> {
        target_names(self.source.config.host@, target_mode(self.aim.filter))
    }

    /// With the snapshots of the chosen hosts shown; all of them where the filter
    /// chooses no host.
    #[verifier::opaque]
    pub open spec fn refiltered(self) -> AppView {
        let rows = rows_of(self.checkout.all, self.targets(), self.checkout.all.len() as int);
        AppView {
            checkout: CheckoutView {
                rows,
                viewport: (Viewport {
                    item_count: rows.len() as usize,
                    visible_height: 0,
                    ..self.checkout.viewport
                }).clamped(),
                ..self.checkout
            },
            ..self
        }
    }

    /// What of the state is kept for the next session.
    pub open spec fn kept(self) -> (ActiveTab, FilterView, OperateState) {
        (ActiveTab::spec_from(self.screen.active_tab), self.aim.filter, self.operate.settings)
    }
}

/// What the program has to do in answer to a key.
pub enum Action {
    /// Write what is kept for the next session.
    SaveState,
    /// Hand the typed password or passphrase to the host that asked.
    SubmitCredential(String),
    /// Tell the host that asked that there is no answer.
    DropCredential,
    /// Ask the running operation to stop.
    CancelOperation,
    OpenEditor,
    SaveConfig,
    AddEntry(EntryFormKind),
    RequestDelete,
    StartOperation(Start),
}

/// What the program has to do, as a value of the specification language.
pub ghost enum ActionView {
    SaveState,
    SubmitCredential(Seq<char>),
    DropCredential,
    CancelOperation,
    OpenEditor,
    SaveConfig,
    AddEntry(EntryFormKind),
    RequestDelete,
    StartOperation(StartView),
}

impl View for Action {
    type V = ActionView;

    open spec fn view(&self) -> ActionView {
        match *self {
            Action::SaveState => ActionView::SaveState,
            Action::SubmitCredential(s) => ActionView::SubmitCredential(s@),
            Action::DropCredential => ActionView::DropCredential,
            Action::CancelOperation => ActionView::CancelOperation,
            Action::OpenEditor => ActionView::OpenEditor,
            Action::SaveConfig => ActionView::SaveConfig,
            Action::AddEntry(kind) => ActionView::AddEntry(kind),
            Action::RequestDelete => ActionView::RequestDelete,
            Action::StartOperation(start) => ActionView::StartOperation(start@),
        }
    }
}

/// What a key came to: whether the screen has to be drawn anew, and what the
/// program has to do.
pub struct Reaction {
    pub redraw: bool,
    pub action: Option<Action>,
}

/// What a key came to, with the state after it.
pub ghost struct Step {
    pub app: AppView,
    pub redraw: bool,
    pub action: Option<ActionView>,
}

/// A step to a new state.
pub open spec fn to(app: AppView) -> Step {
    Step { app, redraw: true, action: None }
}

/// A step to a new state with something to do.
pub open spec fn to_do(app: AppView, action: ActionView) -> Step {
    Step { app, redraw: true, action: Some(action) }
}

/// No step at all.
pub open spec fn stay(app: AppView) -> Step {
    Step { app, redraw: false, action: None }
}

/// The step that a reaction stands for.
#[verifier::opaque]
pub open spec fn step_of(app: App, r: Reaction) -> Step {
    Step {
        app: app@,
        redraw: r.redraw,
        action: match r.action {
            Some(a) => Some(a@),
            None => None,
        },
    }
}

fn drawn() -> (r: Reaction)
    ensures
        r.redraw,
        r.action is None,
{
    Reaction { redraw: true, action: None }
}

fn doing(action: Action) -> (r: Reaction)
    ensures
        r.redraw,
        r.action == Some(action),
{
    Reaction { redraw: true, action: Some(action) }
}

fn ignored() -> (r: Reaction)
    ensures
        !r.redraw,
        r.action is None,
{
    Reaction { redraw: false, action: None }
}

// ---------------------------------------------------------------------------
// Where keys go
// ---------------------------------------------------------------------------

/// A key while a question is open.
#[verifier::opaque]
pub open spec fn auth_step(v: AppView, p: AuthView, key: KeyEvent) -> Step {
    if key.code == KeyCode::Enter {
        to_do(v.with_auth(None), ActionView::SubmitCredential(p.input.value))
    } else if key.code == KeyCode::Esc {
        to_do(v.with_auth(None), ActionView::DropCredential)
    } else {
        to(
            AppView {
                auth_popup: Some(
                    AuthView {
                        input: if p.input.mode == InputMode::Active {
                            field_keyed(p.input, key)
                        } else {
                            p.input
                        },
                        ..p
                    },
                ),
                ..v
            },
        )
    }
}

/// A key while a field of the Operate tab takes all keys.
#[verifier::opaque]
pub open spec fn typing_step(v: AppView, key: KeyEvent) -> Step {
    Step {
        app: AppView { operate: v.operate.typed(key).0, ..v },
        redraw: v.operate.typed(key).1,
        action: None,
    }
}

/// With a filter taken over, as far as the configuration knows what it names.
pub open spec fn filtered(v: AppView, filter: FilterView) -> AppView {
    (AppView {
        aim: AimView { filter: valid_filter(filter, v.source.config), ..v.aim },
        ..v
    }).refiltered()
}

/// A key while the dialog for the targets is open.
#[verifier::opaque]
pub open spec fn popup_step(v: AppView, p: PopupView, key: KeyEvent) -> Step {
    let closed = v.with_popup(None);
    match popup_keyed(p, key).1 {
        FilterPopupResult::Continue => to(v.with_popup(Some(popup_keyed(p, key).0))),
        FilterPopupResult::Cancelled => to(closed),
        FilterPopupResult::Applied => to_do(
            filtered(closed, popup_keyed(p, key).0.state),
            ActionView::SaveState,
        ),
    }
}

/// A key while the log is open.
#[verifier::opaque]
pub open spec fn log_step(v: AppView, code: KeyCode) -> Step {
    if code == KeyCode::Esc || code == KeyCode::Char('L') {
        to(AppView { log: LogOverlay { open: false, ..v.log }, ..v })
    } else {
        match scrolled(v.log.vp, code) {
            Some(w) => to(AppView { log: LogOverlay { vp: w, ..v.log }, ..v }),
            None => stay(v),
        }
    }
}

/// What a key asks for while an operation runs.
#[derive(Debug, Clone, Copy, PartialEq, Eq, Structural)]
pub enum RunningMove {
    Cancel,
    Tab(TabId),
    Scroll(Option<usize>),
    Nothing,
}

/// The outcomes one row up: from then on they are no longer followed.
pub open spec fn row_up(scroll: Option<usize>, done: int) -> Option<usize> {
    let from = match scroll {
        Some(s) => s as int,
        None => minus(done, PROGRESS_ROWS as int),
    };
    Some(minus(from, 1) as usize)
}

/// The outcomes one row down: at the end they are followed again.
pub open spec fn row_down(scroll: Option<usize>, done: int) -> Option<usize> {
    let last = minus(done, PROGRESS_ROWS as int);
    match scroll {
        Some(s) => if s + 1 >= last {
            None
        } else {
            Some((s + 1) as usize)
        },
        None => None,
    }
}

/// What a key asks for while an operation runs, on a tab, with so many hosts done.
#[verifier::opaque]
pub open spec fn running_move(
    tab: TabId,
    scroll: Option<usize>,
    done: int,
    code: KeyCode,
) -> RunningMove {
    match code {
        KeyCode::Esc => RunningMove::Cancel,
        KeyCode::Tab => RunningMove::Tab(tab.spec_next()),
        KeyCode::BackTab => RunningMove::Tab(tab.spec_prev()),
        KeyCode::Up => if tab == TabId::Operate {
            RunningMove::Scroll(row_up(scroll, done))
        } else {
            RunningMove::Nothing
        },
        KeyCode::Down => if tab == TabId::Operate {
            RunningMove::Scroll(row_down(scroll, done))
        } else {
            RunningMove::Nothing
        },
        KeyCode::Char(c) => if c == '1' {
            RunningMove::Tab(TabId::Config)
        } else if c == '2' {
            RunningMove::Tab(TabId::Operate)
        } else if c == '3' {
            RunningMove::Tab(TabId::Checkout)
        } else if c == 'k' && tab == TabId::Operate {
            RunningMove::Scroll(row_up(scroll, done))
        } else if c == 'j' && tab == TabId::Operate {
            RunningMove::Scroll(row_down(scroll, done))
        } else {
            RunningMove::Nothing
        },
        _ => RunningMove::Nothing,
    }
}

fn scroll_up(scroll: Option<usize>, done: usize) -> (r: Option<usize>)
    ensures
        r == row_up(scroll, done as int),
{
    let from: usize = match scroll {
        Some(s) => s,
        None => if done > PROGRESS_ROWS {
            done - PROGRESS_ROWS
        } else {
            0
        },
    };
    Some(
        if from > 0 {
            from - 1
        } else {
            0
        },
    )
}

fn scroll_down(scroll: Option<usize>, done: usize) -> (r: Option<usize>)
    requires
        scroll matches Some(s) ==> s < usize::MAX,
    ensures
        r == row_down(scroll, done as int),
{
    let last: usize = if done > PROGRESS_ROWS {
        done - PROGRESS_ROWS
    } else {
        0
    };
    match scroll {
        Some(s) => if s + 1 >= last {
            None
        } else {
            Some(s + 1)
        },
        None => None,
    }
}

/// What a key asks for while an operation runs.
pub fn read_running_key(
    tab: TabId,
    scroll: Option<usize>,
    done: usize,
    code: KeyCode,
) -> (r: RunningMove)
    requires
        scroll matches Some(s) ==> s < usize::MAX,
    ensures
        r == running_move(tab, scroll, done as int, code),
        r matches RunningMove::Scroll(Some(s)) ==> s < usize::MAX,
{
    proof {
        reveal(running_move);
    }
    let scrolls = tab == TabId::Operate;
    match code {
        KeyCode::Esc => RunningMove::Cancel,
        KeyCode::Tab => RunningMove::Tab(tab.next()),
        KeyCode::BackTab => RunningMove::Tab(tab.prev()),
        KeyCode::Up => if scrolls {
            RunningMove::Scroll(scroll_up(scroll, done))
        } else {
            RunningMove::Nothing
        },
        KeyCode::Down => if scrolls {
            RunningMove::Scroll(scroll_down(scroll, done))
        } else {
            RunningMove::Nothing
        },
        KeyCode::Char(c) => if c == '1' {
            RunningMove::Tab(TabId::Config)
        } else if c == '2' {
            RunningMove::Tab(TabId::Operate)
        } else if c == '3' {
            RunningMove::Tab(TabId::Checkout)
        } else if c == 'k' && scrolls {
            RunningMove::Scroll(scroll_up(scroll, done))
        } else if c == 'j' && scrolls {
            RunningMove::Scroll(scroll_down(scroll, done))
        } else {
            RunningMove::Nothing
        },
        _ => RunningMove::Nothing,
    }
}

/// A key while an operation runs.
#[verifier::opaque]
pub open spec fn running_step(v: AppView, op: RunningView, code: KeyCode) -> Step {
    match running_move(
        v.screen.active_tab,
        v.work.scroll,
        op.outcomes.len() as int,
        code,
    ) {
        RunningMove::Cancel => to_do(v, ActionView::CancelOperation),
        RunningMove::Tab(tab) => to(v.on(tab)),
        RunningMove::Scroll(scroll) => to(v.with_scroll(scroll)),
        RunningMove::Nothing => stay(v),
    }
}

/// A key that goes to the list of the Config tab.
#[verifier::opaque]
pub open spec fn config_step(v: AppView, code: KeyCode) -> Step {
    match tab_keyed(v.source.tab, code, v.source.config) {
        Some(tab) => to(v.with_config_tab(tab)),
        None => stay(v),
    }
}

/// Going to a tab by its number: unsaved changes have to be dealt with first.
#[verifier::opaque]
pub open spec fn tab_step(v: AppView, tab: TabId) -> Step {
    if v.screen.active_tab == TabId::Config && v.source.dirty {
        to(v.saying("Unsaved config changes — press S to save or fix first."@))
    } else {
        to(v.on(tab))
    }
}

/// The kind of entry that belongs where the sidebar is.
pub open spec fn add_kind(tab: ConfigTabView) -> Option<EntryFormKind> {
    if tab.sidebar.selected >= tab.items.len() {
        None
    } else {
        match tab.items[tab.sidebar.selected as int] {
            SidebarItem::SectionHosts | SidebarItem::Host(_) => Some(EntryFormKind::Host),
            SidebarItem::SectionChecks | SidebarItem::Check(_) => Some(EntryFormKind::Check),
            SidebarItem::SectionSyncs | SidebarItem::Sync(_) => Some(EntryFormKind::Sync),
            SidebarItem::SectionSettings => None,
        }
    }
}

/// What a key on the Config tab asks for.
#[derive(Debug, Clone, Copy, PartialEq, Eq, Structural)]
pub enum ConfigKey {
    Editor,
    Save,
    Add,
    Delete,
    /// Something of the lists.
    Other,
}

/// What a key on the Config tab asks for.
#[verifier::opaque]
pub open spec fn config_key(code: KeyCode) -> ConfigKey {
    match code {
        KeyCode::Char(c) => if c == 'E' {
            ConfigKey::Editor
        } else if c == 'S' {
            ConfigKey::Save
        } else if c == 'a' {
            ConfigKey::Add
        } else if c == 'd' {
            ConfigKey::Delete
        } else {
            ConfigKey::Other
        },
        _ => ConfigKey::Other,
    }
}

/// What a key on the Config tab asks for.
pub fn read_config_key(code: KeyCode) -> (r: ConfigKey)
    ensures
        r == config_key(code),
{
    proof {
        reveal(config_key);
    }
    match code {
        KeyCode::Char(c) => if c == 'E' {
            ConfigKey::Editor
        } else if c == 'S' {
            ConfigKey::Save
        } else if c == 'a' {
            ConfigKey::Add
        } else if c == 'd' {
            ConfigKey::Delete
        } else {
            ConfigKey::Other
        },
        _ => ConfigKey::Other,
    }
}

/// The key that opens the editor.
#[verifier::opaque]
pub open spec fn editor_step(v: AppView) -> Step {
    if v.work.running is Some {
        to(v.saying("Cannot edit config while an operation is running."@))
    } else if v.source.path is None {
        to(v.saying("No config path set — cannot open editor."@))
    } else if v.source.dirty {
        to(AppView { source: SourceView { confirm_open: true, ..v.source }, ..v })
    } else {
        to_do(v, ActionView::OpenEditor)
    }
}

/// A key on the Config tab.
#[verifier::opaque]
pub open spec fn config_tab_step(v: AppView, code: KeyCode) -> Step {
    match config_key(code) {
        ConfigKey::Editor => editor_step(v),
        ConfigKey::Save => to_do(v, ActionView::SaveConfig),
        ConfigKey::Add => match add_kind(v.source.tab) {
            Some(kind) => to_do(v, ActionView::AddEntry(kind)),
            None => to(v),
        },
        ConfigKey::Delete => if v.source.confirm_open {
            stay(v)
        } else {
            to_do(v, ActionView::RequestDelete)
        },
        ConfigKey::Other => config_step(v, code),
    }
}

/// With an operation under way.
pub open spec fn started(v: AppView) -> AppView {
    AppView {
        work: WorkView {
            scroll: None,
            running: Some(RunningView { targets: v.targets(), outcomes: Seq::empty() }),
            ..v.work
        },
        ..v
    }
}

/// Starting the chosen operation.
#[verifier::opaque]
pub open spec fn start_step(v: AppView) -> Step {
    if passed_over(v.operate, v.work.running is Some) {
        stay(v)
    } else {
        match obstacle(v.operate, v.work.running is Some, v.targets()) {
            Some(message) => to(v.saying(message)),
            None => to_do(
                started(v),
                ActionView::StartOperation(
                    start_of(v.operate, v.aim.filter, v.source.config, v.aim.timeout),
                ),
            ),
        }
    }
}

/// The dialog for the targets as it is opened.
pub open spec fn new_popup(v: AppView, allow_shell: bool) -> PopupView {
    PopupView {
        state: v.aim.filter,
        allow_shell,
        available_groups: available_groups(v.source.config.host@),
        available_hosts: host_names(v.source.config.host@),
        field: Field::Mode(v.aim.filter.mode),
    }
}

/// Opening the dialog for the targets.
#[verifier::opaque]
pub open spec fn filter_step(v: AppView, allow_shell: bool) -> Step {
    to(v.with_popup(Some(new_popup(v, allow_shell))))
}

/// A key on the Operate tab.
#[verifier::opaque]
pub open spec fn operate_step(v: AppView, code: KeyCode) -> Step {
    let panel = panel_keyed(v.operate, code, v.source.config).0;
    match panel_keyed(v.operate, code, v.source.config).1 {
        PanelAnswer::Unused => stay(v),
        PanelAnswer::Taken => to(AppView { operate: panel, ..v }),
        PanelAnswer::Save => to_do(AppView { operate: panel, ..v }, ActionView::SaveState),
        PanelAnswer::Execute => start_step(v),
        PanelAnswer::Filter => filter_step(v, true),
    }
}

/// A key on the Checkout tab.
#[verifier::opaque]
pub open spec fn checkout_step(v: AppView, code: KeyCode) -> Step {
    if code == KeyCode::Char('f') {
        filter_step(v, false)
    } else {
        match scrolled(v.checkout.viewport, code) {
            Some(w) => to(AppView { checkout: CheckoutView { viewport: w, ..v.checkout }, ..v }),
            None => stay(v),
        }
    }
}

/// What a key asks for on every tab.
#[derive(Debug, Clone, Copy, PartialEq, Eq, Structural)]
pub enum GlobalKey {
    Quit,
    Help,
    Info,
    Log,
    Escape,
    /// A tab by its number.
    Tab(TabId),
    /// The next tab or the one before.
    Cycle(TabId),
    /// Something of the tab that is open.
    Other,
}

/// What a key asks for. On the Config tab, the keys that go from tab to tab move
/// the focus instead.
#[verifier::opaque]
pub open spec fn global_key(tab: TabId, code: KeyCode) -> GlobalKey {
    match code {
        KeyCode::Esc => GlobalKey::Escape,
        KeyCode::Tab => if tab == TabId::Config {
            GlobalKey::Other
        } else {
            GlobalKey::Cycle(tab.spec_next())
        },
        KeyCode::BackTab => if tab == TabId::Config {
            GlobalKey::Other
        } else {
            GlobalKey::Cycle(tab.spec_prev())
        },
        KeyCode::Char(c) => if c == 'q' {
            GlobalKey::Quit
        } else if c == '?' {
            GlobalKey::Help
        } else if c == 'i' {
            GlobalKey::Info
        } else if c == 'L' {
            GlobalKey::Log
        } else if c == '1' {
            GlobalKey::Tab(TabId::Config)
        } else if c == '2' {
            GlobalKey::Tab(TabId::Operate)
        } else if c == '3' {
            GlobalKey::Tab(TabId::Checkout)
        } else {
            GlobalKey::Other
        },
        _ => GlobalKey::Other,
    }
}

/// What a key asks for.
pub fn read_global_key(tab: TabId, code: KeyCode) -> (r: GlobalKey)
    ensures
        r == global_key(tab, code),
{
    proof {
        reveal(global_key);
    }
    let on_config = tab == TabId::Config;
    match code {
        KeyCode::Esc => GlobalKey::Escape,
        KeyCode::Tab => if on_config {
            GlobalKey::Other
        } else {
            GlobalKey::Cycle(tab.next())
        },
        KeyCode::BackTab => if on_config {
            GlobalKey::Other
        } else {
            GlobalKey::Cycle(tab.prev())
        },
        KeyCode::Char(c) => if c == 'q' {
            GlobalKey::Quit
        } else if c == '?' {
            GlobalKey::Help
        } else if c == 'i' {
            GlobalKey::Info
        } else if c == 'L' {
            GlobalKey::Log
        } else if c == '1' {
            GlobalKey::Tab(TabId::Config)
        } else if c == '2' {
            GlobalKey::Tab(TabId::Operate)
        } else if c == '3' {
            GlobalKey::Tab(TabId::Checkout)
        } else {
            GlobalKey::Other
        },
        _ => GlobalKey::Other,
    }
}

/// Esc takes a message away.
pub open spec fn escape_step(v: AppView) -> Step {
    if v.screen.error is Some {
        to(v.with_screen(ScreenView { error: None, ..v.screen }))
    } else {
        stay(v)
    }
}

/// What a key on a tab leads to.
#[verifier::opaque]
pub open spec fn tabs_step(v: AppView, code: KeyCode, log_len: usize) -> Step {
    match global_key(v.screen.active_tab, code) {
        GlobalKey::Quit => to(v.with_screen(ScreenView { should_quit: true, ..v.screen })),
        GlobalKey::Help => to(v.with_screen(ScreenView { help_open: true, ..v.screen })),
        GlobalKey::Info => to(v.with_screen(ScreenView { info_open: true, ..v.screen })),
        GlobalKey::Log => to(
            AppView { log: LogOverlay { open: true, vp: top(log_len as nat) }, ..v },
        ),
        GlobalKey::Escape => escape_step(v),
        GlobalKey::Tab(tab) => tab_step(v, tab),
        GlobalKey::Cycle(tab) => to(v.on(tab)),
        GlobalKey::Other => match v.screen.active_tab {
            TabId::Config => config_tab_step(v, code),
            TabId::Operate => operate_step(v, code),
            TabId::Checkout => checkout_step(v, code),
        },
    }
}

/// The part of the interface that a key goes to.
#[derive(Debug, Clone, Copy, PartialEq, Eq, Structural)]
pub enum Receiver {
    Quit,
    Auth,
    Typing,
    FilterDialog,
    Help,
    Info,
    Log,
    Report,
    Running,
    Editing,
    Tabs,
}

impl AppView {
    /// The part of the interface that a key goes to.
    #[verifier::opaque]
    pub open spec fn receiver(self, key: KeyEvent) -> Receiver {
        if key.is_interrupt() {
            Receiver::Quit
        } else if self.auth_popup is Some {
            Receiver::Auth
        } else if self.screen.active_tab == TabId::Operate && self.operate.typed_field() is Some {
            Receiver::Typing
        } else if self.aim.popup is Some {
            Receiver::FilterDialog
        } else if self.screen.help_open {
            Receiver::Help
        } else if self.screen.info_open {
            Receiver::Info
        } else if self.log.open {
            Receiver::Log
        } else if self.work.report is Some {
            Receiver::Report
        } else if self.work.running is Some {
            Receiver::Running
        } else if self.screen.active_tab == TabId::Config && self.source.editing {
            Receiver::Editing
        } else {
            Receiver::Tabs
        }
    }
}

/// A key while the help is open.
pub open spec fn help_step(v: AppView, code: KeyCode) -> Step {
    if code == KeyCode::Esc || code == KeyCode::Char('?') {
        to(v.with_screen(ScreenView { help_open: false, ..v.screen }))
    } else {
        stay(v)
    }
}

/// A key while the notes on the tab are open.
pub open spec fn info_step(v: AppView, code: KeyCode) -> Step {
    if code == KeyCode::Esc || code == KeyCode::Char('i') {
        to(v.with_screen(ScreenView { info_open: false, ..v.screen }))
    } else {
        stay(v)
    }
}

/// A key while the outcome of an operation is shown.
pub open spec fn report_step(v: AppView, code: KeyCode) -> Step {
    if code == KeyCode::Esc || code == KeyCode::Enter {
        to(v.with_report(None))
    } else {
        stay(v)
    }
}

/// What a key leads to.
pub open spec fn key_step(v: AppView, key: KeyEvent, log_len: usize) -> Step {
    match v.receiver(key) {
        Receiver::Quit => to(v.with_screen(ScreenView { should_quit: true, ..v.screen })),
        Receiver::Auth => auth_step(v, v.auth_popup->0, key),
        Receiver::Typing => typing_step(v, key),
        Receiver::FilterDialog => popup_step(v, v.aim.popup->0, key),
        Receiver::Help => help_step(v, key.code),
        Receiver::Info => info_step(v, key.code),
        Receiver::Log => log_step(v, key.code),
        Receiver::Report => report_step(v, key.code),
        Receiver::Running => running_step(v, v.work.running->0, key.code),
        Receiver::Editing => config_step(v, key.code),
        Receiver::Tabs => tabs_step(v, key.code, log_len),
    }
}

// ---------------------------------------------------------------------------
// Taking keys
// ---------------------------------------------------------------------------

impl App {
    /// The windows are round their selections, and the cursors within their fields.
    pub open spec fn wf(&self) -> bool {
        &&& self.operate@.wf()
        &&& self.auth_popup matches Some(p) ==> p.input.wf()
        &&& self.source.tab.wf()
        &&& self.checkout.viewport.wf()
        &&& self.log.vp.wf()
        &&& self.work.scroll matches Some(s) ==> s < usize::MAX
    }

    fn say(&mut self, message: &str)
        requires
            old(self).wf(),
        ensures
            final(self).wf(),
            final(self)@ == old(self)@.saying(message@),
    {
        self.screen.error = Some(copy(message));
    }

    fn go_on(&mut self, tab: TabId) -> (r: Reaction)
        requires
            old(self).wf(),
        ensures
            final(self).wf(),
            step_of(*final(self), r) == to(old(self)@.on(tab)),
    {
        proof {
            reveal(step_of);
        }
        self.screen.active_tab = tab;
        drawn()
    }

    fn scroll_progress(&mut self, scroll: Option<usize>) -> (r: Reaction)
        requires
            old(self).wf(),
            scroll matches Some(s) ==> s < usize::MAX,
        ensures
            final(self).wf(),
            step_of(*final(self), r) == to((old(self)@.with_scroll(scroll))),
    {
        proof {
            reveal(step_of);
        }
        self.work.scroll = scroll;
        drawn()
    }

    fn quit(&mut self) -> (r: Reaction)
        requires
            old(self).wf(),
        ensures
            final(self).wf(),
            step_of(*final(self), r) == to((old(self)@.with_screen(ScreenView { should_quit: true, ..old(self)@.screen }))),
    {
        proof {
            reveal(step_of);
        }
        self.screen.should_quit = true;
        drawn()
    }

    fn show_help(&mut self, open: bool) -> (r: Reaction)
        requires
            old(self).wf(),
        ensures
            final(self).wf(),
            step_of(*final(self), r) == to((old(self)@.with_screen(ScreenView { help_open: open, ..old(self)@.screen }))),
    {
        proof {
            reveal(step_of);
        }
        self.screen.help_open = open;
        drawn()
    }

    fn show_info(&mut self, open: bool) -> (r: Reaction)
        requires
            old(self).wf(),
        ensures
            final(self).wf(),
            step_of(*final(self), r) == to((old(self)@.with_screen(ScreenView { info_open: open, ..old(self)@.screen }))),
    {
        proof {
            reveal(step_of);
        }
        self.screen.info_open = open;
        drawn()
    }

    fn show_report(&mut self, report: Option<CommandReport>)
        requires
            old(self).wf(),
        ensures
            final(self).wf(),
            final(self)@ == old(self)@.with_report(report),
    {
        self.work.report = report;
    }

    fn clear_error(&mut self) -> (r: Reaction)
        requires
            old(self).wf(),
        ensures
            final(self).wf(),
            step_of(*final(self), r) == to((old(self)@.with_screen(ScreenView { error: None, ..old(self)@.screen }))),
    {
        proof {
            reveal(step_of);
        }
        self.screen.error = None;
        drawn()
    }

    fn end_operation(&mut self, stale: bool)
        requires
            old(self).wf(),
        ensures
            final(self).wf(),
            final(self)@ == ended(old(self)@, stale),
    {
        self.work.running = None;
        self.checkout.stale = stale || self.checkout.stale;
    }

    fn take_auth(&mut self) -> (r: Option<AuthPopup>)
        requires
            old(self).wf(),
        ensures
            final(self).wf(),
            r == old(self).auth_popup,
            final(self)@ == old(self)@.with_auth(None),
    {
        let mut taken: Option<AuthPopup> = None;
        std::mem::swap(&mut taken, &mut self.auth_popup);
        taken
    }

    fn put_auth(&mut self, popup: AuthPopup)
        requires
            old(self).wf(),
            popup.input.wf(),
        ensures
            final(self).wf(),
            final(self)@ == old(self)@.with_auth(Some(popup@)),
    {
        self.auth_popup = Some(popup);
    }

    fn take_popup(&mut self) -> (r: Option<FilterPopup>)
        requires
            old(self).wf(),
        ensures
            final(self).wf(),
            r == old(self).aim.popup,
            final(self)@ == old(self)@.with_popup(None),
    {
        let mut taken: Option<FilterPopup> = None;
        std::mem::swap(&mut taken, &mut self.aim.popup);
        taken
    }

    fn put_popup(&mut self, popup: FilterPopup)
        requires
            old(self).wf(),
        ensures
            final(self).wf(),
            final(self)@ == old(self)@.with_popup(Some(popup@)),
    {
        self.aim.popup = Some(popup);
    }

    fn give_panel(&mut self, key: KeyEvent) -> (r: PanelAnswer)
        requires
            old(self).wf(),
        ensures
            final(self).wf(),
            final(self)@ == (AppView {
                operate: panel_keyed(old(self)@.operate, key.code, old(self).source.config).0,
                ..old(self)@
            }),
            r == panel_keyed(old(self)@.operate, key.code, old(self).source.config).1,
    {
        self.operate.handle_key(key, &self.source.config)
    }

    /// The part of the interface that a key goes to.
    pub fn receiver(&self, key: KeyEvent) -> (r: Receiver)
        ensures
            r == self@.receiver(key),
    {
        proof {
            reveal(AppView::receiver);
        }
        if key.interrupts() {
            Receiver::Quit
        } else if self.auth_popup.is_some() {
            Receiver::Auth
        } else if self.screen.active_tab == TabId::Operate && self.operate.active_field().is_some() {
            Receiver::Typing
        } else if self.aim.popup.is_some() {
            Receiver::FilterDialog
        } else if self.screen.help_open {
            Receiver::Help
        } else if self.screen.info_open {
            Receiver::Info
        } else if self.log.open {
            Receiver::Log
        } else if self.work.report.is_some() {
            Receiver::Report
        } else if self.work.running.is_some() {
            Receiver::Running
        } else if self.screen.active_tab == TabId::Config && self.source.editing {
            Receiver::Editing
        } else {
            Receiver::Tabs
        }
    }

    fn on_auth_key(&mut self, key: KeyEvent) -> (r: Reaction)
        requires
            old(self).wf(),
            old(self).auth_popup is Some,
        ensures
            final(self).wf(),
            step_of(*final(self), r) == auth_step(old(self)@, old(self)@.auth_popup->0, key),
    {
        proof {
            reveal(step_of);
            reveal(auth_step);
        }
        match self.take_auth() {
            Some(mut popup) => match key.code {
                KeyCode::Enter => doing(Action::SubmitCredential(popup.input.value)),
                KeyCode::Esc => doing(Action::DropCredential),
                _ => {
                    popup.input.handle_key(key);
                    self.put_auth(popup);
                    drawn()
                },
            },
            None => drawn(),
        }
    }

    /// Shows the snapshots of the chosen hosts; all of them where the filter
    /// chooses no host.
    pub fn apply_checkout_filter(&mut self)
        requires
            old(self).wf(),
        ensures
            final(self).wf(),
            final(self)@ == old(self)@.refiltered(),
    {
        proof {
            reveal(AppView::refiltered);
        }
        let mode = build_target_mode(&self.aim.filter);
        let visible = resolve_target_names(&mode, &self.source.config);
        let ghost names = texts(visible@);
        assert(names.len() == visible@.len());
        let mut rows: Vec<usize> = Vec::new();
        let mut i: usize = 0;
        while i < self.checkout.all.len()
            invariant
                i <= self.checkout.all@.len(),
                names == texts(visible@),
                names.len() == visible@.len(),
                rows@ == rows_of(self.checkout.all@, names, i as int),
            decreases self.checkout.all@.len() - i,
        {
            if visible.len() == 0 || listed(
                visible.as_slice(),
                self.checkout.all[i].host.as_str(),
            ) {
                rows.push(i);
            }
            i += 1;
        }
        let n: usize = rows.len();
        self.checkout.rows = rows;
        self.checkout.viewport.set_dims(n, 0);
    }

    fn on_typed_key(&mut self, key: KeyEvent) -> (r: Reaction)
        requires
            old(self).wf(),
        ensures
            final(self).wf(),
            step_of(*final(self), r) == typing_step(old(self)@, key),
    {
        proof {
            reveal(step_of);
            reveal(typing_step);
        }
        let redraw = self.operate.type_key(key);
        Reaction { redraw, action: None }
    }

    fn take_filter(&mut self, filter: TargetFilterState)
        requires
            old(self).wf(),
        ensures
            final(self).wf(),
            final(self)@ == filtered(old(self)@, filter@),
    {
        let mut chosen = filter;
        validate_filter(&mut chosen, &self.source.config);
        self.aim.filter = chosen;
        self.apply_checkout_filter();
    }

    fn on_filter_key(&mut self, key: KeyEvent) -> (r: Reaction)
        requires
            old(self).wf(),
            old(self).aim.popup is Some,
        ensures
            final(self).wf(),
            step_of(*final(self), r) == popup_step(old(self)@, old(self)@.aim.popup->0, key),
    {
        proof {
            reveal(step_of);
            reveal(popup_step);
        }
        match self.take_popup() {
            Some(mut popup) => match popup.handle_key(key) {
                FilterPopupResult::Continue => {
                    self.put_popup(popup);
                    drawn()
                },
                FilterPopupResult::Cancelled => drawn(),
                FilterPopupResult::Applied => {
                    self.take_filter(popup.state);
                    doing(Action::SaveState)
                },
            },
            None => drawn(),
        }
    }

    /// Takes a key while the log is open.
    pub fn handle_log_overlay_key(&mut self, key: KeyEvent) -> (r: Reaction)
        requires
            old(self).wf(),
        ensures
            final(self).wf(),
            step_of(*final(self), r) == log_step(old(self)@, key.code),
    {
        proof {
            reveal(step_of);
            reveal(log_step);
        }
        if key.code == KeyCode::Esc || key.code == KeyCode::Char('L') {
            self.log.open = false;
            drawn()
        } else if scroll(&mut self.log.vp, key.code) {
            drawn()
        } else {
            ignored()
        }
    }

    fn on_running_key(&mut self, key: KeyEvent) -> (r: Reaction)
        requires
            old(self).wf(),
            old(self).work.running is Some,
        ensures
            final(self).wf(),
            step_of(*final(self), r) == running_step(old(self)@, old(self)@.work.running->0, key.code),
    {
        proof {
            reveal(step_of);
            reveal(running_step);
        }
        let done: usize = match &self.work.running {
            Some(op) => op.completed_count(),
            None => 0,
        };
        match read_running_key(self.screen.active_tab, self.work.scroll, done, key.code) {
            RunningMove::Cancel => doing(Action::CancelOperation),
            RunningMove::Tab(tab) => self.go_on(tab),
            RunningMove::Scroll(scroll) => self.scroll_progress(scroll),
            RunningMove::Nothing => ignored(),
        }
    }

    fn on_config_key(&mut self, key: KeyEvent) -> (r: Reaction)
        requires
            old(self).wf(),
        ensures
            final(self).wf(),
            step_of(*final(self), r) == config_step(old(self)@, key.code),
    {
        proof {
            reveal(step_of);
            reveal(config_step);
        }
        if self.source.tab.handle_key(key, &self.source.config) {
            drawn()
        } else {
            ignored()
        }
    }

    fn go_to_tab(&mut self, tab: TabId) -> (r: Reaction)
        requires
            old(self).wf(),
        ensures
            final(self).wf(),
            step_of(*final(self), r) == tab_step(old(self)@, tab),
    {
        proof {
            reveal(step_of);
            reveal(tab_step);
        }
        if self.screen.active_tab == TabId::Config && self.source.dirty {
            self.say("Unsaved config changes — press S to save or fix first.");
        } else {
            self.screen.active_tab = tab;
        }
        drawn()
    }

    /// The kind of entry that belongs where the sidebar of the Config tab is.
    pub fn config_add_kind(&self) -> (r: Option<EntryFormKind>)
        ensures
            r == add_kind(self.source.tab@),
    {
        if self.source.tab.sidebar_vp.selected >= self.source.tab.items.len() {
            return None;
        }
        match self.source.tab.items[self.source.tab.sidebar_vp.selected] {
            SidebarItem::SectionHosts | SidebarItem::Host(_) => Some(EntryFormKind::Host),
            SidebarItem::SectionChecks | SidebarItem::Check(_) => Some(EntryFormKind::Check),
            SidebarItem::SectionSyncs | SidebarItem::Sync(_) => Some(EntryFormKind::Sync),
            SidebarItem::SectionSettings => None,
        }
    }

    fn ask_for_editor(&mut self) -> (r: Reaction)
        requires
            old(self).wf(),
        ensures
            final(self).wf(),
            step_of(*final(self), r) == editor_step(old(self)@),
    {
        proof {
            reveal(step_of);
            reveal(editor_step);
        }
        if self.work.running.is_some() {
            self.say("Cannot edit config while an operation is running.");
            drawn()
        } else if self.source.path.is_none() {
            self.say("No config path set — cannot open editor.");
            drawn()
        } else if self.source.dirty {
            self.source.confirm_open = true;
            drawn()
        } else {
            doing(Action::OpenEditor)
        }
    }

    fn on_config_tab_key(&mut self, key: KeyEvent) -> (r: Reaction)
        requires
            old(self).wf(),
        ensures
            final(self).wf(),
            step_of(*final(self), r) == config_tab_step(old(self)@, key.code),
    {
        proof {
            reveal(step_of);
            reveal(config_tab_step);
        }
        match read_config_key(key.code) {
            ConfigKey::Editor => self.ask_for_editor(),
            ConfigKey::Save => doing(Action::SaveConfig),
            ConfigKey::Add => match self.config_add_kind() {
                Some(kind) => doing(Action::AddEntry(kind)),
                None => drawn(),
            },
            ConfigKey::Delete => if self.source.confirm_open {
                ignored()
            } else {
                doing(Action::RequestDelete)
            },
            ConfigKey::Other => self.on_config_key(key),
        }
    }

    fn begin(&mut self, targets: Vec<String>)
        requires
            old(self).wf(),
            texts(targets@) == old(self)@.targets(),
        ensures
            final(self).wf(),
            final(self)@ == started(old(self)@),
    {
        self.work.scroll = None;
        self.work.running = Some(RunningOp::new(targets));
    }

    /// Starts the chosen operation, or says why that cannot be. A check that is asked
    /// for while an operation runs does nothing.
    pub fn execute(&mut self) -> (r: Reaction)
        requires
            old(self).wf(),
        ensures
            final(self).wf(),
            step_of(*final(self), r) == start_step(old(self)@),
    {
        proof {
            reveal(step_of);
            reveal(start_step);
            reveal(start_of);
        }
        let prepared = self.operate.prepare(
            self.work.running.is_some(),
            &self.aim.filter,
            &self.source.config,
            self.aim.timeout,
        );
        match prepared {
            Prepared::Ready(start) => {
                self.begin(copy_all(start.targets.as_slice()));
                doing(Action::StartOperation(start))
            },
            Prepared::Refused(e) => {
                self.say(e.message.as_str());
                drawn()
            },
            Prepared::PassedOver => ignored(),
        }
    }

    fn open_filter(&mut self, allow_shell: bool) -> (r: Reaction)
        requires
            old(self).wf(),
        ensures
            final(self).wf(),
            step_of(*final(self), r) == filter_step(old(self)@, allow_shell),
    {
        proof {
            reveal(step_of);
            reveal(filter_step);
        }
        self.aim.popup = Some(
            FilterPopup::new(self.aim.filter.copy(), allow_shell, &self.source.config),
        );
        drawn()
    }

    fn on_operate_key(&mut self, key: KeyEvent) -> (r: Reaction)
        requires
            old(self).wf(),
        ensures
            final(self).wf(),
            step_of(*final(self), r) == operate_step(old(self)@, key.code),
    {
        proof {
            reveal(step_of);
            reveal(operate_step);
            requests_change_nothing(self.operate@, key.code, self.source.config);
        }
        match self.give_panel(key) {
            PanelAnswer::Unused => ignored(),
            PanelAnswer::Taken => drawn(),
            PanelAnswer::Save => doing(Action::SaveState),
            PanelAnswer::Execute => self.execute(),
            PanelAnswer::Filter => self.open_filter(true),
        }
    }

    fn on_checkout_key(&mut self, key: KeyEvent) -> (r: Reaction)
        requires
            old(self).wf(),
        ensures
            final(self).wf(),
            step_of(*final(self), r) == checkout_step(old(self)@, key.code),
    {
        proof {
            reveal(step_of);
            reveal(checkout_step);
        }
        if key.code == KeyCode::Char('f') {
            self.open_filter(false)
        } else if scroll(&mut self.checkout.viewport, key.code) {
            drawn()
        } else {
            ignored()
        }
    }

    fn open_log(&mut self, log_len: usize) -> (r: Reaction)
        requires
            old(self).wf(),
        ensures
            final(self).wf(),
            step_of(*final(self), r) == to((AppView {
                log: LogOverlay { open: true, vp: top(log_len as nat) },
                ..old(self)@
            })),
    {
        proof {
            reveal(step_of);
        }
        self.log.open = true;
        let mut vp = Viewport::new();
        vp.set_dims(log_len, 0);
        self.log.vp = vp;
        drawn()
    }

    fn on_escape(&mut self) -> (r: Reaction)
        requires
            old(self).wf(),
        ensures
            final(self).wf(),
            step_of(*final(self), r) == escape_step(old(self)@),
    {
        if self.screen.error.is_some() {
            self.clear_error()
        } else {
            proof {
                reveal(step_of);
            }
            ignored()
        }
    }

    fn on_tabs_key(&mut self, key: KeyEvent, log_len: usize) -> (r: Reaction)
        requires
            old(self).wf(),
        ensures
            final(self).wf(),
            step_of(*final(self), r) == tabs_step(old(self)@, key.code, log_len),
    {
        proof {
            reveal(tabs_step);
        }
        match read_global_key(self.screen.active_tab, key.code) {
            GlobalKey::Quit => self.quit(),
            GlobalKey::Help => self.show_help(true),
            GlobalKey::Info => self.show_info(true),
            GlobalKey::Log => self.open_log(log_len),
            GlobalKey::Escape => self.on_escape(),
            GlobalKey::Tab(tab) => self.go_to_tab(tab),
            GlobalKey::Cycle(tab) => self.go_on(tab),
            GlobalKey::Other => match self.screen.active_tab {
                TabId::Config => self.on_config_tab_key(key),
                TabId::Operate => self.on_operate_key(key),
                TabId::Checkout => self.on_checkout_key(key),
            },
        }
    }

    fn on_help_key(&mut self, key: KeyEvent) -> (r: Reaction)
        requires
            old(self).wf(),
        ensures
            final(self).wf(),
            step_of(*final(self), r) == help_step(old(self)@, key.code),
    {
        if key.code == KeyCode::Esc || key.code == KeyCode::Char('?') {
            self.show_help(false)
        } else {
            proof {
                reveal(step_of);
            }
            ignored()
        }
    }

    fn on_info_key(&mut self, key: KeyEvent) -> (r: Reaction)
        requires
            old(self).wf(),
        ensures
            final(self).wf(),
            step_of(*final(self), r) == info_step(old(self)@, key.code),
    {
        if key.code == KeyCode::Esc || key.code == KeyCode::Char('i') {
            self.show_info(false)
        } else {
            proof {
                reveal(step_of);
            }
            ignored()
        }
    }

    fn on_report_key(&mut self, key: KeyEvent) -> (r: Reaction)
        requires
            old(self).wf(),
        ensures
            final(self).wf(),
            step_of(*final(self), r) == report_step(old(self)@, key.code),
    {
        proof {
            reveal(step_of);
        }
        if key.code == KeyCode::Esc || key.code == KeyCode::Enter {
            self.show_report(None);
            drawn()
        } else {
            ignored()
        }
    }

    /// Takes a key. What has the screen to itself comes before the tabs: a question
    /// for a password, a field that is typed into, then the dialogs.
    pub fn handle_key(&mut self, key: KeyEvent, log_len: usize) -> (r: Reaction)
        requires
            old(self).wf(),
        ensures
            final(self).wf(),
            step_of(*final(self), r) == key_step(old(self)@, key, log_len),
    {
        proof {
            reveal(AppView::receiver);
        }
        match self.receiver(key) {
            Receiver::Quit => self.quit(),
            Receiver::Auth => self.on_auth_key(key),
            Receiver::Typing => self.on_typed_key(key),
            Receiver::FilterDialog => self.on_filter_key(key),
            Receiver::Help => self.on_help_key(key),
            Receiver::Info => self.on_info_key(key),
            Receiver::Log => self.handle_log_overlay_key(key),
            Receiver::Report => self.on_report_key(key),
            Receiver::Running => self.on_running_key(key),
            Receiver::Editing => self.on_config_key(key),
            Receiver::Tabs => self.on_tabs_key(key, log_len),
        }
    }
}

// ---------------------------------------------------------------------------
// Events
// ---------------------------------------------------------------------------

/// With one more host done, if an operation is under way.
pub open spec fn with_outcome(v: AppView, outcome: OutcomeView) -> AppView {
    v.with_running(
        match v.work.running {
            Some(op) => Some(RunningView { outcomes: op.outcomes.push(outcome), ..op }),
            None => None,
        },
    )
}

/// With no operation under way. One that may have taken snapshots leaves those shown
/// out of date.
pub open spec fn ended(v: AppView, stale: bool) -> AppView {
    AppView {
        work: WorkView { running: None, ..v.work },
        checkout: CheckoutView { stale: stale || v.checkout.stale, ..v.checkout },
        ..v
    }
}

/// What an event of a running operation leads to.
pub open spec fn event_step(v: AppView, ev: TuiEvent) -> AppView {
    match ev {
        TuiEvent::HostStarted(_) => v,
        TuiEvent::HostCompleted { host, status, detail, duration_ms } => with_outcome(
            v,
            (host@, status, detail@, duration_ms),
        ),
        TuiEvent::OperationFinished(report) => ended(v, true).with_report(Some(report)),
        TuiEvent::OperationCancelled => ended(v, true).saying("Operation cancelled"@),
        TuiEvent::OperationError(message) => ended(v, false).saying(
            "Operation failed: "@ + message@,
        ),
        TuiEvent::SshAuthRequired(prompt) => v.with_auth(Some(asked(prompt@))),
    }
}

/// The state when the interface starts.
pub open spec fn initial(
    config: AppConfig,
    config_path: Option<String>,
    kept: TuiPersistedState,
    snapshots: Seq<HostSnapshot>,
) -> AppView {
    let filter = valid_filter(kept.target_filter@, config);
    AppView {
        screen: ScreenView {
            active_tab: kept.tui_state.active_tab.spec_to(),
            error: None,
            help_open: false,
            info_open: false,
            should_quit: false,
        },
        log: LogOverlay { open: false, vp: top(0) },
        checkout: CheckoutView {
            viewport: top(snapshots.len()),
            all: snapshots,
            rows: Seq::new(snapshots.len(), |i: int| i as usize),
            stale: false,
        },
        source: SourceView {
            config,
            path: config_path,
            tab: ConfigTabView {
                zone: ConfigZone::Sidebar,
                items: sidebar_of(config),
                sidebar: top(sidebar_of(config).len()),
                fields: top(0),
            },
            dirty: false,
            editing: false,
            confirm_open: false,
        },
        aim: AimView {
            filter,
            popup: None,
            timeout: if filter.timeout > 0 {
                filter.timeout as u64
            } else {
                config.settings.default_timeout
            },
        },
        operate: new_panel(kept.operate),
        work: WorkView { running: None, report: None, scroll: None },
        auth_popup: None,
    }
}

fn all_rows(n: usize) -> (r: Vec<usize>)
    ensures
        r@ == Seq::new(n as nat, |i: int| i as usize),
{
    let mut rows: Vec<usize> = Vec::new();
    let mut i: usize = 0;
    while i < n
        invariant
            i <= n,
            rows@ == Seq::new(i as nat, |k: int| k as usize),
        decreases n - i,
    {
        rows.push(i);
        i += 1;
        assert(rows@ =~= Seq::new(i as nat, |k: int| k as usize));
    }
    rows
}

impl App {
    /// The interface when it starts: with the configuration, what was kept of the
    /// last session, and the latest snapshot of each host.
    pub fn from_context(
        config: AppConfig,
        config_path: Option<String>,
        kept: TuiPersistedState,
        snapshots: Vec<HostSnapshot>,
    ) -> (r: App)
        ensures
            r.wf(),
            r@ == initial(config, config_path, kept, snapshots@),
    {
        let mut target_filter = kept.target_filter;
        validate_filter(&mut target_filter, &config);
        let timeout: u64 = if target_filter.timeout > 0 {
            target_filter.timeout
        } else {
            config.settings.default_timeout
        };
        let mut viewport = Viewport::new();
        viewport.set_dims(snapshots.len(), 0);
        let config_tab = ConfigTabState::new(&config);
        let rows = all_rows(snapshots.len());
        App {
            screen: Screen {
                active_tab: kept.tui_state.active_tab.to_tab_id(),
                error: None,
                help_open: false,
                info_open: false,
                should_quit: false,
            },
            log: LogOverlay { open: false, vp: Viewport::new() },
            checkout: CheckoutTab { viewport, all: snapshots, rows, stale: false },
            source: ConfigSource {
                config,
                path: config_path,
                tab: config_tab,
                dirty: false,
                editing: false,
                confirm_open: false,
            },
            aim: Aim { filter: target_filter, popup: None, timeout },
            operate: OperatePanel::new(kept.operate),
            work: Work { running: None, report: None, scroll: None },
            auth_popup: None,
        }
    }

    /// What of the state is kept for the next session.
    pub fn save_state(&self) -> (r: TuiPersistedState)
        ensures
            (r.tui_state.active_tab, r.target_filter@, r.operate) == self@.kept(),
    {
        TuiPersistedState {
            tui_state: TuiSection { active_tab: ActiveTab::from_tab_id(self.screen.active_tab) },
            target_filter: self.aim.filter.copy(),
            operate: self.operate.settings,
        }
    }

    fn note_completed(&mut self, host: &str, status: HostStatus, detail: &str, ms: u64)
        requires
            old(self).wf(),
        ensures
            final(self).wf(),
            final(self)@ == with_outcome(old(self)@, (host@, status, detail@, ms)),
    {
        let mut taken: Option<RunningOp> = None;
        std::mem::swap(&mut taken, &mut self.work.running);
        match taken {
            Some(mut op) => {
                op.record_completed(host, status, detail, ms);
                self.work.running = Some(op);
            },
            None => {},
        }
    }

    /// Takes an event of a running operation. The screen always has to be drawn anew.
    pub fn handle_tui_event(&mut self, ev: TuiEvent) -> (r: bool)
        requires
            old(self).wf(),
        ensures
            final(self).wf(),
            final(self)@ == event_step(old(self)@, ev),
            r,
    {
        match ev {
            TuiEvent::HostStarted(_) => {},
            TuiEvent::HostCompleted { host, status, detail, duration_ms } => {
                self.note_completed(host.as_str(), status, detail.as_str(), duration_ms);
            },
            TuiEvent::OperationFinished(report) => {
                self.end_operation(true);
                self.show_report(Some(report));
            },
            TuiEvent::OperationCancelled => {
                self.end_operation(true);
                self.say("Operation cancelled");
            },
            TuiEvent::OperationError(message) => {
                self.end_operation(false);
                self.say(concat2("Operation failed: ", message.as_str()).as_str());
            },
            TuiEvent::SshAuthRequired(prompt) => {
                self.put_auth(AuthPopup::new(prompt));
            },
        }
        true
    }

    /// Takes new snapshots over.
    pub fn take_snapshots(&mut self, snapshots: Vec<HostSnapshot>)
        requires
            old(self).wf(),
        ensures
            final(self).wf(),
            final(self)@ == (AppView {
                checkout: CheckoutView {
                    all: snapshots@,
                    stale: false,
                    ..old(self)@.checkout
                },
                ..old(self)@
            }).refiltered(),
    {
        self.checkout.all = snapshots;
        self.checkout.stale = false;
        self.apply_checkout_filter();
    }

    /// Takes over a configuration that was read again.
    pub fn take_config(&mut self, config: AppConfig)
        requires
            old(self).wf(),
        ensures
            final(self).wf(),
            final(self)@ == (AppView {
                source: SourceView {
                    config,
                    tab: reloaded(old(self)@.source.tab, config),
                    ..old(self)@.source
                },
                ..old(self)@
            }),
    {
        self.source.tab.reload(&config);
        self.source.config = config;
    }

    /// Notes that the configuration was saved, or in which words it was not.
    pub fn config_saved(&mut self, failure: Option<String>)
        requires
            old(self).wf(),
        ensures
            final(self).wf(),
            final(self)@ == (match failure {
                Some(e) => old(self)@.saying("Config save failed: "@ + e@),
                None => AppView {
                    source: SourceView {
                        dirty: false,
                        tab: reloaded(old(self)@.source.tab, old(self).source.config),
                        ..old(self)@.source
                    },
                    ..old(self)@
                },
            }),
    {
        match failure {
            Some(e) => {
                self.say(concat2("Config save failed: ", e.as_str()).as_str());
            },
            None => {
                self.source.dirty = false;
                self.source.tab.reload(&self.source.config);
            },
        }
    }
}

// ---------------------------------------------------------------------------
// Laws
// ---------------------------------------------------------------------------

/// Ctrl+C quits, whatever is open.
pub proof fn interrupt_always_quits(v: AppView, key: KeyEvent, log_len: usize)
    requires
        key.is_interrupt(),
    ensures
        key_step(v, key, log_len).app.screen.should_quit,
{
    reveal(AppView::receiver);
}

/// While an operation runs, asking for another one starts nothing and leaves the one
/// that runs alone; asking for a check changes nothing at all.
pub proof fn a_running_operation_is_left_alone(v: AppView)
    requires
        v.work.running is Some,
    ensures
        start_step(v).app.work == v.work,
        start_step(v).action is None,
        v.operate.settings.operation == OperationKind::Check ==> start_step(v) == stay(v),
{
    reveal(start_step);
    reveal(obstacle);
}

/// While an operation runs, no key starts another one.
pub proof fn one_operation_at_a_time(v: AppView, key: KeyEvent, log_len: usize)
    requires
        v.work.running is Some,
    ensures
        key_step(v, key, log_len).app.work.running == v.work.running,
        !(key_step(v, key, log_len).action matches Some(ActionView::StartOperation(_))),
{
    reveal(AppView::receiver);
    reveal(auth_step);
    reveal(typing_step);
    reveal(popup_step);
    reveal(log_step);
    reveal(running_step);
    reveal(AppView::refiltered);
}

/// A password goes nowhere but to the host that asked for it: while a question is
/// open, no key reaches anything else, and what is typed is in no other field.
pub proof fn questions_take_all_keys(v: AppView, key: KeyEvent, log_len: usize)
    requires
        v.auth_popup is Some,
        !key.is_interrupt(),
    ensures
        ({
            let s = key_step(v, key, log_len);
            &&& s.app == (v.with_auth(s.app.auth_popup))
            &&& s.action is None || s.action == Some(ActionView::DropCredential) || s.action
                == Some(ActionView::SubmitCredential(v.auth_popup->0.input.value))
        }),
{
    reveal(AppView::receiver);
    reveal(auth_step);
}

/// Unsaved changes are not left behind by going to another tab.
pub proof fn unsaved_changes_hold_the_tab(v: AppView, key: KeyEvent, log_len: usize)
    requires
        v.screen.active_tab == TabId::Config,
        v.source.dirty,
        v.work.running is None,
    ensures
        key_step(v, key, log_len).app.screen.active_tab == TabId::Config,
{
    match v.receiver(key) {
        Receiver::Auth => {
            reveal(auth_step);
        },
        Receiver::Typing => {
            reveal(AppView::receiver);
        },
        Receiver::FilterDialog => {
            reveal(popup_step);
            reveal(AppView::refiltered);
        },
        Receiver::Log => {
            reveal(log_step);
        },
        Receiver::Running => {
            reveal(AppView::receiver);
        },
        Receiver::Editing => {
            reveal(config_step);
        },
        Receiver::Tabs => {
            unsaved_changes_hold_the_tabs(v, key.code, log_len);
        },
        _ => {},
    }
}

proof fn unsaved_changes_hold_the_tabs(v: AppView, code: KeyCode, log_len: usize)
    requires
        v.screen.active_tab == TabId::Config,
        v.source.dirty,
    ensures
        tabs_step(v, code, log_len).app.screen.active_tab == TabId::Config,
{
    reveal(tabs_step);
    reveal(global_key);
    match global_key(v.screen.active_tab, code) {
        GlobalKey::Tab(tab) => {
            reveal(tab_step);
        },
        GlobalKey::Other => {
            reveal(config_tab_step);
            reveal(editor_step);
            reveal(config_step);
        },
        _ => {},
    }
}

/// Whatever an operation ends with, another one can be started afterwards.
pub proof fn ended_operations_make_room(v: AppView, ev: TuiEvent)
    requires
        ev is OperationFinished || ev is OperationCancelled || ev is OperationError,
    ensures
        event_step(v, ev).work.running is None,
{
}

/// Every row of the Checkout tab is a snapshot, and no snapshot has two rows.
pub proof fn rows_are_snapshots(all: Seq<HostSnapshot>, visible: Seq<Seq<char>>, n: int)
    requires
        0 <= n <= all.len() <= usize::MAX,
    ensures
        rows_of(all, visible, n).len() <= n,
        forall|i: int|
            0 <= i < rows_of(all, visible, n).len() ==> #[trigger] rows_of(all, visible, n)[i] < n,
        forall|i: int, j: int|
            0 <= i < j < rows_of(all, visible, n).len() ==> #[trigger] rows_of(all, visible, n)[i]
                < #[trigger] rows_of(all, visible, n)[j],
    decreases n,
{
    if n > 0 {
        rows_are_snapshots(all, visible, n - 1);
    }
}

/// What is kept for the next session comes back in it, as far as the configuration
/// still knows the groups and hosts.
pub proof fn sessions_continue(
    v: AppView,
    config: AppConfig,
    path: Option<String>,
    kept: TuiPersistedState,
    snapshots: Seq<HostSnapshot>,
)
    requires
        (kept.tui_state.active_tab, kept.target_filter@, kept.operate) == v.kept(),
    ensures
        initial(config, path, kept, snapshots).screen.active_tab == v.screen.active_tab,
        initial(config, path, kept, snapshots).operate.settings == v.operate.settings,
        initial(config, path, kept, snapshots).aim.filter == valid_filter(
            v.aim.filter,
            config,
        ),
{
}

/// The table shows exactly the snapshots of the hosts that are targeted; with no target
/// every snapshot is shown.
pub proof fn every_visible_host_has_a_row(
    all: Seq<HostSnapshot>,
    visible: Seq<Seq<char>>,
    n: int,
    k: int,
)
    requires
        0 <= n <= all.len() <= usize::MAX,
        0 <= k < n,
    ensures
        rows_of(all, visible, n).contains(k as usize) <==> visible.len() == 0 || exists|i: int|
            0 <= i < visible.len() && #[trigger] visible[i] == all[k].host@,
    decreases n,
{
    let before = rows_of(all, visible, n - 1);
    let rows = rows_of(all, visible, n);
    rows_are_snapshots(all, visible, n - 1);
    let shown = visible.len() == 0 || visible.contains(all[n - 1].host@);
    if shown {
        assert(rows == before.push((n - 1) as usize));
        assert(rows[before.len() as int] == (n - 1) as usize);
    }
    if k < n - 1 {
        every_visible_host_has_a_row(all, visible, n - 1, k);
        if before.contains(k as usize) {
            assert(rows[before.index_of(k as usize)] == k as usize);
        }
        if rows.contains(k as usize) {
            assert(before[rows.index_of(k as usize)] == k as usize);
        }
    } else {
        if before.contains(k as usize) {
            assert(before[before.index_of(k as usize)] < n - 1);
        }
        if exists|i: int| 0 <= i < visible.len() && #[trigger] visible[i] == all[k].host@ {
            let i = choose|i: int| 0 <= i < visible.len() && #[trigger] visible[i] == all[k].host@;
            assert(visible.contains(all[k].host@));
        }
    }
}

/// What the hosts report is kept in the order it came; the end of an operation leaves its
/// report, or says what went wrong.
pub proof fn events_are_shown(v: AppView, ev: TuiEvent)
    ensures
        match ev {
            TuiEvent::HostStarted(_) => event_step(v, ev) == v,
            TuiEvent::HostCompleted { host, status, detail, duration_ms } => match v.work.running {
                Some(op) => {
                    &&& event_step(v, ev).work.running is Some
                    &&& event_step(v, ev).work.running->0.outcomes == op.outcomes.push(
                        (host@, status, detail@, duration_ms),
                    )
                    &&& event_step(v, ev).work.running->0.targets == op.targets
                },
                None => event_step(v, ev).work.running is None,
            },
            TuiEvent::OperationFinished(report) => {
                &&& event_step(v, ev).work.report == Some(report)
                &&& event_step(v, ev).work.running is None
                &&& event_step(v, ev).checkout.stale
                &&& event_step(v, ev).screen == v.screen
            },
            TuiEvent::OperationCancelled => {
                &&& event_step(v, ev).screen.error is Some
                &&& event_step(v, ev).checkout.stale
                &&& event_step(v, ev).work.report == v.work.report
            },
            TuiEvent::OperationError(message) => {
                &&& event_step(v, ev).screen.error == Some("Operation failed: "@ + message@)
                &&& event_step(v, ev).checkout.stale == v.checkout.stale
                &&& event_step(v, ev).work.report == v.work.report
            },
            TuiEvent::SshAuthRequired(prompt) => {
                &&& event_step(v, ev).auth_popup is Some
                &&& event_step(v, ev).auth_popup->0.prompt == prompt@
                &&& event_step(v, ev).auth_popup->0.input.value.len() == 0
                &&& event_step(v, ev).auth_popup->0.input.mode == InputMode::Active
                &&& event_step(v, ev).work == v.work
            },
        },
{
    reveal_strlit("");
}

/// An answer to a question is sent as it was typed, and the question goes away; leaving it
/// sends none.
pub proof fn answers_are_sent_as_typed(v: AppView, key: KeyEvent, log_len: usize)
    requires
        v.auth_popup is Some,
        !key.is_interrupt(),
    ensures
        key.code == KeyCode::Enter ==> key_step(v, key, log_len).action == Some(
            ActionView::SubmitCredential(v.auth_popup->0.input.value),
        ) && key_step(v, key, log_len).app.auth_popup is None,
        key.code == KeyCode::Esc ==> key_step(v, key, log_len).action == Some(
            ActionView::DropCredential,
        ) && key_step(v, key, log_len).app.auth_popup is None,
        key.code != KeyCode::Enter && key.code != KeyCode::Esc ==> key_step(
            v,
            key,
            log_len,
        ).action is None && key_step(v, key, log_len).app.auth_popup is Some,
{
    reveal(AppView::receiver);
    reveal(auth_step);
}

/// What is started is what stands in the panel, aimed at the hosts that the filter lets
/// through, and these are the hosts that the progress is shown for.
pub proof fn starts_follow_the_screen(v: AppView)
    requires
        v.work.running is None,
        obstacle(v.operate, false, v.targets()) is None,
    ensures
        start_step(v).action matches Some(ActionView::StartOperation(s)) && s == start_of(
            v.operate,
            v.aim.filter,
            v.source.config,
            v.aim.timeout,
        ) && s.targets == start_step(v).app.work.running->0.targets && s.timeout == v.aim.timeout
            && s.serial == v.aim.filter.serial,
        start_step(v).app.work.running is Some,
        start_step(v).app.work.running->0.outcomes.len() == 0,
{
    reveal(start_step);
    reveal(start_of);
}

/// Where nothing else takes the keys, `q` quits, `?`, `i` and `L` open their window, and a
/// digit goes to its tab.
pub proof fn free_keys_do_what_they_say(v: AppView, key: KeyEvent, log_len: usize)
    requires
        v.receiver(key) == Receiver::Tabs,
    ensures
        key.code == KeyCode::Char('q') ==> key_step(v, key, log_len).app.screen.should_quit,
        key.code == KeyCode::Char('?') ==> key_step(v, key, log_len).app.screen.help_open,
        key.code == KeyCode::Char('i') ==> key_step(v, key, log_len).app.screen.info_open,
        key.code == KeyCode::Char('L') ==> key_step(v, key, log_len).app.log.open,
        key.code == KeyCode::Esc ==> key_step(v, key, log_len).app.screen.error is None,
        !(v.screen.active_tab == TabId::Config && v.source.dirty) ==> {
            &&& key.code == KeyCode::Char('1') ==> key_step(v, key, log_len).app.screen.active_tab
                == TabId::Config
            &&& key.code == KeyCode::Char('2') ==> key_step(v, key, log_len).app.screen.active_tab
                == TabId::Operate
            &&& key.code == KeyCode::Char('3') ==> key_step(v, key, log_len).app.screen.active_tab
                == TabId::Checkout
        },
{
    reveal(tabs_step);
    reveal(global_key);
    reveal(tab_step);
}

/// A filter that is applied takes effect at once, without the names that are gone, and is
/// kept; leaving the dialog changes nothing but that it closes.
pub proof fn applied_filters_take_effect(v: AppView, p: PopupView, key: KeyEvent)
    requires
        v.aim.popup == Some(p),
    ensures
        popup_keyed(p, key).1 == FilterPopupResult::Applied ==> {
            let s = popup_step(v, p, key);
            &&& s.app.aim.filter == valid_filter(popup_keyed(p, key).0.state, v.source.config)
            &&& s.app.aim.popup is None
            &&& s.action == Some(ActionView::SaveState)
            &&& s.app.checkout.rows == rows_of(
                v.checkout.all,
                s.app.targets(),
                v.checkout.all.len() as int,
            )
        },
        popup_keyed(p, key).1 == FilterPopupResult::Cancelled ==> popup_step(v, p, key).app
            == v.with_popup(None) && popup_step(v, p, key).action is None,
{
    reveal(popup_step);
    reveal(AppView::refiltered);
}

/// While an operation runs, Esc cancels it, and the arrows scroll its progress by one row
/// on the tab that shows it.
pub proof fn running_operations_can_be_cancelled(v: AppView, op: RunningView, code: KeyCode)
    ensures
        code == KeyCode::Esc ==> running_step(v, op, code).action == Some(
            ActionView::CancelOperation,
        ) && running_step(v, op, code).app == v,
        code != KeyCode::Esc ==> running_step(v, op, code).action is None,
        v.screen.active_tab == TabId::Operate && (code == KeyCode::Up || code == KeyCode::Char('k'))
            ==> (v.work.scroll matches Some(s) ==> running_step(v, op, code).app.work.scroll == (
        if s > 0 {
            Some((s - 1) as usize)
        } else {
            Some(0usize)
        })),
        v.screen.active_tab == TabId::Operate && (code == KeyCode::Down || code == KeyCode::Char(
            'j',
        )) ==> (v.work.scroll matches Some(s) ==> running_step(v, op, code).app.work.scroll == (
        if s + 1 + PROGRESS_ROWS < op.outcomes.len() {
            Some((s + 1) as usize)
        } else {
            None
        })),
        code == KeyCode::Char('1') ==> running_step(v, op, code).app.screen.active_tab
            == TabId::Config,
        code == KeyCode::Char('2') ==> running_step(v, op, code).app.screen.active_tab
            == TabId::Operate,
        code == KeyCode::Char('3') ==> running_step(v, op, code).app.screen.active_tab
            == TabId::Checkout,
{
    reveal(running_step);
    reveal(running_move);
}

/// On the configuration tab `E` opens the editor unless changes would be lost or an
/// operation runs, `S` saves, `a` adds an entry of the selected kind and `d` asks to delete.
pub proof fn config_keys_do_what_they_say(v: AppView)
    ensures
        config_tab_step(v, KeyCode::Char('S')).action == Some(ActionView::SaveConfig),
        config_tab_step(v, KeyCode::Char('E')).action == Some(ActionView::OpenEditor)
            <==> v.work.running is None && v.source.path is Some && !v.source.dirty,
        v.work.running is None && v.source.path is Some && v.source.dirty ==> config_tab_step(
            v,
            KeyCode::Char('E'),
        ).app.source.confirm_open,
        config_tab_step(v, KeyCode::Char('d')).action == Some(ActionView::RequestDelete)
            <==> !v.source.confirm_open,
        v.source.tab.sidebar.selected < v.source.tab.items.len() ==> (
        match v.source.tab.items[v.source.tab.sidebar.selected as int] {
            SidebarItem::SectionHosts | SidebarItem::Host(_) => config_tab_step(
                v,
                KeyCode::Char('a'),
            ).action == Some(ActionView::AddEntry(EntryFormKind::Host)),
            SidebarItem::SectionChecks | SidebarItem::Check(_) => config_tab_step(
                v,
                KeyCode::Char('a'),
            ).action == Some(ActionView::AddEntry(EntryFormKind::Check)),
            SidebarItem::SectionSyncs | SidebarItem::Sync(_) => config_tab_step(
                v,
                KeyCode::Char('a'),
            ).action == Some(ActionView::AddEntry(EntryFormKind::Sync)),
            SidebarItem::SectionSettings => config_tab_step(v, KeyCode::Char('a')).action is None,
        }),
{
    reveal(config_tab_step);
    reveal(config_key);
    reveal(editor_step);
}

} // verus!
