use ssync::commands::checkout::HostSnapshot;
use ssync::commands::report::{CommandReport, HostStatus, RunHostResult, RunReport};
use ssync::config::schema::{AppConfig, CheckEntry, HostEntry, Settings, ShellType, SyncEntry};
use ssync::tui::app::{Action, App, Receiver};
use ssync::tui::async_bridge::TuiEvent;
use ssync::tui::components::input_field::{InputField, InputMode};
use ssync::tui::components::target_filter::{Field, FilterPopup, FilterPopupResult};
use ssync::tui::key::{KeyCode, KeyEvent};
use ssync::tui::operate::{resolve_target_names, Job};
use ssync::tui::popups::{hints, log_line, masked, results_popup, too_small};
use ssync::tui::state::persist::{
    validate_filter, ActiveTab, OperationKind, TargetFilterMode, TargetFilterState,
    TuiPersistedState,
};
use ssync::tui::tabs::config_tab::{ConfigTabState, ConfigZone, SidebarItem};
use ssync::tui::tabs::operate_tab::{
    applicable_entries, detect_sync_source_conflicts, op_radio, param_rows, progress_popup,
    target_row, OperateFocus, ParamPanelField,
};
use ssync::tui::tabs::TabId;
use ssync::tui::width::{measure, truncate};

fn host(name: &str, group: &str) -> HostEntry {
    HostEntry {
        name: name.to_string(),
        ssh_host: name.to_string(),
        shell: ShellType::Sh,
        groups: vec![group.to_string()],
        proxy_jump: None,
    }
}

fn sync_entry(source: Option<&str>) -> SyncEntry {
    SyncEntry {
        paths: vec!["~/.bashrc".to_string()],
        groups: vec![],
        enable_hosts: true,
        enable_all: true,
        recursive: false,
        mode: None,
        propagate_deletes: None,
        source: source.map(|s| s.to_string()),
    }
}

fn check_entry() -> CheckEntry {
    CheckEntry {
        name: None,
        enabled: vec!["online".to_string()],
        path: vec![],
        groups: vec!["web".to_string()],
        enable_hosts: true,
        enable_all: true,
    }
}

fn config() -> AppConfig {
    AppConfig {
        settings: Settings::default(),
        host: vec![host("web1", "web"), host("db1", "db")],
        check: vec![check_entry()],
        sync: vec![sync_entry(None)],
    }
}

fn snapshot(name: &str) -> HostSnapshot {
    HostSnapshot {
        host: name.to_string(),
        collected_at: 0,
        online: true,
        data: None,
        last_online: 0,
    }
}

fn app() -> App {
    App::from_context(
        config(),
        Some("/c.toml".to_string()),
        TuiPersistedState::default(),
        vec![snapshot("web1"), snapshot("db1")],
    )
}

fn press(app: &mut App, code: KeyCode) -> (bool, Option<Action>) {
    let key = KeyEvent::plain(code);
    let r = app.handle_key(key, 0);
    (r.redraw, r.action)
}

fn type_text(app: &mut App, text: &str) {
    for c in text.chars() {
        press(app, KeyCode::Char(c));
    }
}

#[test]
fn the_interface_starts_where_it_was_left() {
    let mut kept = TuiPersistedState::default();
    kept.tui_state.active_tab = ActiveTab::Operate;
    kept.operate.operation = OperationKind::Sync;
    kept.target_filter.mode = TargetFilterMode::Groups;
    kept.target_filter.groups = vec!["web".to_string(), "gone".to_string()];
    let app = App::from_context(config(), None, kept, vec![]);
    assert!(app.screen.active_tab == TabId::Operate);
    assert!(app.operate.settings.operation == OperationKind::Sync);
    assert_eq!(app.aim.filter.groups, vec!["web".to_string()]);
    let saved = app.save_state();
    assert!(saved.tui_state.active_tab == ActiveTab::Operate);
}

#[test]
fn ctrl_c_always_quits() {
    let mut a = app();
    a.screen.help_open = true;
    let key = KeyEvent { code: KeyCode::Char('c'), shift: false, control: true, other: false };
    assert!(a.receiver(key) == Receiver::Quit);
    assert!(a.handle_key(key, 0).redraw);
    assert!(a.screen.should_quit);
}

#[test]
fn tabs_are_reached_by_number_and_in_turn() {
    let mut a = app();
    assert!(a.screen.active_tab == TabId::Checkout);
    press(&mut a, KeyCode::Char('2'));
    assert!(a.screen.active_tab == TabId::Operate);
    press(&mut a, KeyCode::Tab);
    assert!(a.screen.active_tab == TabId::Checkout);
    press(&mut a, KeyCode::Char('1'));
    assert!(a.screen.active_tab == TabId::Config);
    press(&mut a, KeyCode::Tab);
    assert!(a.screen.active_tab == TabId::Config);
    assert!(a.source.tab.zone == ConfigZone::FieldTable);
}

#[test]
fn unsaved_changes_hold_the_tab() {
    let mut a = app();
    press(&mut a, KeyCode::Char('1'));
    a.source.dirty = true;
    press(&mut a, KeyCode::Char('2'));
    assert!(a.screen.active_tab == TabId::Config);
    assert_eq!(
        a.screen.error.as_deref(),
        Some("Unsaved config changes — press S to save or fix first.")
    );
    press(&mut a, KeyCode::Esc);
    assert!(a.screen.error.is_none());
    let (_, action) = press(&mut a, KeyCode::Char('E'));
    assert!(action.is_none());
    assert!(a.source.confirm_open);
    assert!(matches!(press(&mut a, KeyCode::Char('S')).1, Some(Action::SaveConfig)));
    a.config_saved(None);
    assert!(!a.source.dirty);
    a.source.confirm_open = false;
    assert!(matches!(press(&mut a, KeyCode::Char('E')).1, Some(Action::OpenEditor)));
}

#[test]
fn a_command_is_typed_and_started() {
    let mut a = app();
    press(&mut a, KeyCode::Char('2'));
    assert!(a.operate.focus == OperateFocus::Execute);
    // up over the entries, the targets, to the choice of the operation
    for _ in 0..3 {
        press(&mut a, KeyCode::Up);
    }
    assert!(a.operate.focus == OperateFocus::OpRadio);
    assert!(matches!(press(&mut a, KeyCode::Right).1, Some(Action::SaveState)));
    assert!(a.operate.settings.operation == OperationKind::Run);
    press(&mut a, KeyCode::Down);
    assert!(a.operate.param_field == ParamPanelField::CommandOrScript);
    press(&mut a, KeyCode::Enter);
    assert!(a.operate.run_command.mode == InputMode::Active);
    type_text(&mut a, " q1 ");
    assert!(!a.screen.should_quit);
    press(&mut a, KeyCode::Enter);
    press(&mut a, KeyCode::Down);
    assert!(matches!(press(&mut a, KeyCode::Char(' ')).1, Some(Action::SaveState)));
    assert!(a.operate.settings.run_sudo);
    for _ in 0..3 {
        press(&mut a, KeyCode::Down);
    }
    assert!(a.operate.focus == OperateFocus::Execute);
    match press(&mut a, KeyCode::Enter).1 {
        Some(Action::StartOperation(start)) => {
            assert_eq!(start.targets, vec!["web1".to_string(), "db1".to_string()]);
            assert_eq!(start.timeout, 30);
            match start.job {
                Job::Run { command, sudo, yes } => {
                    assert_eq!(command, "q1");
                    assert!(sudo);
                    assert!(!yes);
                }
                _ => panic!("a command was chosen"),
            }
        }
        _ => panic!("nothing stands in the way"),
    }
    assert!(a.work.running.is_some());
}

#[test]
fn nothing_starts_without_a_command() {
    let mut a = app();
    press(&mut a, KeyCode::Char('2'));
    a.operate.settings.operation = OperationKind::Run;
    press(&mut a, KeyCode::Enter);
    assert_eq!(a.screen.error.as_deref(), Some("Command field is empty."));
    a.operate.settings.operation = OperationKind::Exec;
    press(&mut a, KeyCode::Enter);
    assert_eq!(a.screen.error.as_deref(), Some("Script path field is empty."));
    assert!(a.work.running.is_none());
}

#[test]
fn nothing_starts_without_hosts() {
    let mut a = app();
    a.source.config.host.clear();
    press(&mut a, KeyCode::Char('2'));
    press(&mut a, KeyCode::Enter);
    assert_eq!(a.screen.error.as_deref(), Some("No hosts matched the current filter."));
}

#[test]
fn a_running_operation_takes_the_keys() {
    let mut a = app();
    press(&mut a, KeyCode::Char('2'));
    press(&mut a, KeyCode::Enter);
    assert!(a.work.running.is_some());
    for i in 0..20 {
        a.handle_tui_event(TuiEvent::HostCompleted {
            host: format!("h{}", i),
            status: HostStatus::Online,
            detail: String::new(),
            duration_ms: 1,
        });
    }
    assert_eq!(a.work.running.as_ref().unwrap().completed_count(), 20);
    press(&mut a, KeyCode::Up);
    assert_eq!(a.work.scroll, Some(7));
    press(&mut a, KeyCode::Down);
    assert_eq!(a.work.scroll, None);
    assert!(!press(&mut a, KeyCode::Char('q')).0);
    assert!(!a.screen.should_quit);
    assert!(matches!(press(&mut a, KeyCode::Esc).1, Some(Action::CancelOperation)));
    a.handle_tui_event(TuiEvent::OperationCancelled);
    assert!(a.work.running.is_none());
    assert!(a.checkout.stale);
    assert_eq!(a.screen.error.as_deref(), Some("Operation cancelled"));
}

#[test]
fn finished_operations_are_reported() {
    let mut a = app();
    a.handle_tui_event(TuiEvent::OperationFinished(CommandReport::Run(RunReport {
        executed_at: "now".to_string(),
        command: "id".to_string(),
        targets: vec![],
        hosts: vec![],
    })));
    assert!(a.work.report.is_some());
    assert!(!press(&mut a, KeyCode::Char('x')).0);
    press(&mut a, KeyCode::Enter);
    assert!(a.work.report.is_none());
    a.handle_tui_event(TuiEvent::OperationError("bad".to_string()));
    assert_eq!(a.screen.error.as_deref(), Some("Operation failed: bad"));
}

#[test]
fn passwords_go_to_the_host_that_asked() {
    let mut a = app();
    a.handle_tui_event(TuiEvent::SshAuthRequired("Password:".to_string()));
    type_text(&mut a, "q1L");
    assert!(!a.screen.should_quit);
    match press(&mut a, KeyCode::Enter).1 {
        Some(Action::SubmitCredential(s)) => assert_eq!(s, "q1L"),
        _ => panic!("the answer was given"),
    }
    assert!(a.auth_popup.is_none());
    a.handle_tui_event(TuiEvent::SshAuthRequired("Password:".to_string()));
    assert!(matches!(press(&mut a, KeyCode::Esc).1, Some(Action::DropCredential)));
}

#[test]
fn filters_choose_the_rows_of_the_checkout_tab() {
    let mut a = app();
    press(&mut a, KeyCode::Char('f'));
    assert!(a.aim.popup.is_some());
    // down to the groups, chosen, with the first one taken over
    press(&mut a, KeyCode::Down);
    press(&mut a, KeyCode::Right);
    press(&mut a, KeyCode::Char(' '));
    for _ in 0..3 {
        press(&mut a, KeyCode::Down);
    }
    assert!(matches!(press(&mut a, KeyCode::Enter).1, Some(Action::SaveState)));
    assert!(a.aim.popup.is_none());
    assert_eq!(a.aim.filter.groups, vec!["db".to_string()]);
    assert_eq!(a.checkout.rows, vec![1]);
    assert_eq!(a.checkout.viewport.item_count, 1);
    a.take_snapshots(vec![snapshot("db1")]);
    assert_eq!(a.checkout.rows, vec![0]);
}

#[test]
fn the_log_is_scrolled_and_closed() {
    let mut a = app();
    assert!(a.handle_key(KeyEvent::plain(KeyCode::Char('L')), 5).redraw);
    assert!(a.log.open);
    assert_eq!(a.log.vp.item_count, 5);
    press(&mut a, KeyCode::Down);
    assert_eq!(a.log.vp.selected, 1);
    press(&mut a, KeyCode::Char('L'));
    assert!(!a.log.open);
    press(&mut a, KeyCode::Char('?'));
    assert!(!press(&mut a, KeyCode::Char('q')).0);
    press(&mut a, KeyCode::Char('?'));
    press(&mut a, KeyCode::Char('i'));
    press(&mut a, KeyCode::Esc);
    assert!(!a.screen.help_open && !a.screen.info_open && !a.screen.should_quit);
}

#[test]
fn files_are_added_and_taken_back() {
    let mut a = app();
    press(&mut a, KeyCode::Char('2'));
    a.operate.settings.operation = OperationKind::Sync;
    a.operate.focus = OperateFocus::ParamPanel;
    a.operate.param_field = ParamPanelField::SyncAdHocInput;
    press(&mut a, KeyCode::Enter);
    type_text(&mut a, "/etc/hosts");
    press(&mut a, KeyCode::Enter);
    assert_eq!(a.operate.adhoc_files, vec!["/etc/hosts".to_string()]);
    assert_eq!(a.operate.adhoc_input.value, "");
    press(&mut a, KeyCode::Delete);
    assert!(a.operate.adhoc_files.is_empty());
}

#[test]
fn the_sidebar_lists_sections_and_entries() {
    let c = config();
    let mut tab = ConfigTabState::new(&c);
    assert_eq!(tab.items.len(), 8);
    assert!(tab.items[2] == SidebarItem::Host(0));
    assert_eq!(tab.breadcrumb(&c), "Config > Settings");
    for _ in 0..2 {
        assert!(tab.handle_key(KeyEvent::plain(KeyCode::Down), &c));
    }
    assert_eq!(tab.breadcrumb(&c), "Config > Hosts > web1");
    assert!(tab.handle_key(KeyEvent::plain(KeyCode::Right), &c));
    assert_eq!(tab.breadcrumb(&c), "Config > Hosts > web1 > name");
    let fields = tab.current_fields(&c);
    assert_eq!(fields[3], ("groups".to_string(), "[web]".to_string()));
    assert!(!tab.handle_key(KeyEvent::plain(KeyCode::Enter), &c));
    let lines = tab.render_sidebar(&c, 4, 20);
    assert_eq!(lines.len(), 4);
    assert_eq!(lines[0].text, ">  web1");
    assert_eq!(lines[2].text, " Checks (1)");
    let table = tab.render_field_table(&c, 3).unwrap();
    assert_eq!(table.name_width, 8);
    assert_eq!(table.rows.len(), 3);
    assert_eq!(table.selected, Some(0));
    let mut smaller = config();
    smaller.host.clear();
    tab.reload(&smaller);
    assert_eq!(tab.items.len(), 6);
    assert_eq!(tab.breadcrumb(&smaller), "Config > Checks");
}

#[test]
fn sources_that_are_shared_conflict() {
    let entries =
        vec![sync_entry(Some("a")), sync_entry(Some("b")), sync_entry(Some("a")), sync_entry(None)];
    assert_eq!(detect_sync_source_conflicts(&entries), vec!["a".to_string()]);
    assert!(detect_sync_source_conflicts(&[sync_entry(Some("")), sync_entry(Some(""))]).is_empty());
}

#[test]
fn entries_that_apply_are_listed() {
    let mut c = config();
    c.check = (0..8).map(|_| check_entry()).collect();
    let panel = applicable_entries(
        &c,
        OperationKind::Check,
        ssync::tui::state::persist::SyncMode::ConfigEntries,
        5,
    )
    .unwrap();
    assert_eq!(panel.header, "─ Applicable [[check]] entries ─ [3-8/8] ↑↓");
    assert_eq!(panel.lines.len(), 6);
    assert_eq!(panel.lines[0], "  ▸ Check #3 — groups:[web]  metrics:online");
    assert!(panel.warning.is_none());
    assert!(applicable_entries(
        &c,
        OperationKind::Run,
        ssync::tui::state::persist::SyncMode::AdHoc,
        0
    )
    .is_none());
}

#[test]
fn the_operate_tab_shows_its_choices() {
    assert_eq!(op_radio(OperationKind::Run), vec!["[○ check]", "[◉ run]", "[○ exec]", "[○ sync]"]);
    assert_eq!(param_rows(OperationKind::Check, 9), 0);
    assert_eq!(param_rows(OperationKind::Run, 9), 7);
    assert_eq!(param_rows(OperationKind::Sync, 9), 13);
    assert_eq!(
        target_row(&TargetFilterState::default(), 2),
        " Target: all hosts  (2 hosts)    [f] Filter   serial=false   timeout=30s"
    );
}

#[test]
fn progress_shows_the_last_hosts() {
    let outcomes: Vec<(String, HostStatus, String, u64)> = (0..14)
        .map(|i| (format!("h{}", i), HostStatus::Online, "fine".to_string(), 5))
        .collect();
    let (head, first, lines) = progress_popup(&outcomes, 20, 3, 14, None);
    assert_eq!(
        head,
        "Targets: 20    Completed: 14    Elapsed: 3s  [3/14] ↑↓ scroll"
    );
    assert_eq!(first, 2);
    assert_eq!(lines.len(), 12);
    assert_eq!(lines[0], "  ✓ h2               (   5ms) — fine");
}

#[test]
fn results_list_hosts_and_their_output() {
    let report = CommandReport::Run(RunReport {
        executed_at: "now".to_string(),
        command: "uptime".to_string(),
        targets: vec![],
        hosts: vec![
            RunHostResult {
                host: "web1".to_string(),
                status: HostStatus::Online,
                duration_ms: Some(12),
                detail: "ok".to_string(),
                stdout: "  up 3 days \nload 1\n".to_string(),
                stderr: String::new(),
            },
            RunHostResult {
                host: "db1".to_string(),
                status: HostStatus::Error,
                duration_ms: None,
                detail: "boom".to_string(),
                stdout: String::new(),
                stderr: String::new(),
            },
        ],
    });
    let (title, lines) = results_popup(&report);
    assert_eq!(title, " Results — 2 hosts  (Enter / Esc to dismiss) ");
    let texts: Vec<&str> = lines.iter().map(|l| l.0.as_str()).collect();
    assert_eq!(
        texts,
        vec![
            "Summary: 1 ok / 1 fail    Executed: now",
            "  cmd: uptime",
            "",
            "  ✓ web1             (  12ms) — ok",
            "     ↳ up 3 days",
            "  ✗ db1              (   0ms) — boom",
        ]
    );
    assert!(lines[5].1 == Some(HostStatus::Error));
}

#[test]
fn texts_are_cut_to_their_width() {
    assert_eq!(measure("日本"), 4);
    assert_eq!(truncate("日本語", 6), "日本語");
    assert_eq!(truncate("日本語", 5), "日本…");
    assert_eq!(truncate("abcdef", 4), "abc…");
}

#[test]
fn passwords_are_masked() {
    assert_eq!(masked("häß"), "***");
    assert_eq!(
        too_small(70, 20),
        "Terminal too small (need 80×24+; have 70×20)\n\nResize the terminal to continue."
    );
    assert!(hints(TabId::Operate).starts_with("↑↓:Zones"));
    let entry = ssync::tui::log_layer::LogEntry {
        when: 0,
        level: "WARN".to_string(),
        target: "t".to_string(),
        text: "x".to_string(),
    };
    assert_eq!(log_line(&entry, true, 40), "▶ WARN  t x");
}

#[test]
fn filters_forget_what_the_configuration_does_not_know() {
    let mut f = TargetFilterState::default();
    f.groups = vec!["web".to_string(), "x".to_string()];
    f.hosts = vec!["y".to_string(), "db1".to_string()];
    validate_filter(&mut f, &config());
    assert_eq!(f.groups, vec!["web".to_string()]);
    assert_eq!(f.hosts, vec!["db1".to_string()]);
    let names = resolve_target_names(&ssync::tui::operate::build_target_mode(&f), &config());
    assert_eq!(names, vec!["web1".to_string(), "db1".to_string()]);
}

#[test]
fn dialogs_are_left_by_esc() {
    let mut p = FilterPopup::new(TargetFilterState::default(), true, &config());
    assert!(p.handle_key(KeyEvent::plain(KeyCode::Esc)) == FilterPopupResult::Cancelled);
}

#[test]
fn characters_of_several_bytes_are_single_characters() {
    let mut f = InputField::new("é");
    f.activate();
    assert_eq!(f.cursor_pos, 1);
    assert!(f.handle_key(KeyEvent::plain(KeyCode::Backspace)));
    assert_eq!(f.value, "");
    assert_eq!(f.cursor_pos, 0);
    f.handle_key(KeyEvent::plain(KeyCode::Char('ü')));
    f.handle_key(KeyEvent::plain(KeyCode::Char('b')));
    f.handle_key(KeyEvent::plain(KeyCode::Left));
    f.handle_key(KeyEvent::plain(KeyCode::Backspace));
    assert_eq!(f.value, "b");
    f.handle_key(KeyEvent::plain(KeyCode::Esc));
    assert_eq!(f.value, "é");
    assert_eq!(f.cursor_pos, 1);
    assert!(f.mode == InputMode::Normal);
}

#[test]
fn a_check_is_passed_over_while_something_runs() {
    let mut a = app();
    press(&mut a, KeyCode::Char('2'));
    press(&mut a, KeyCode::Enter);
    let targets = a.work.running.as_ref().unwrap().targets.clone();
    let r = a.execute();
    assert!(!r.redraw);
    assert!(r.action.is_none());
    assert!(a.screen.error.is_none());
    assert_eq!(a.work.running.as_ref().unwrap().targets, targets);
    a.operate.settings.operation = OperationKind::Run;
    let r = a.execute();
    assert!(r.redraw);
    assert!(r.action.is_none());
    assert_eq!(a.screen.error.as_deref(), Some("Operation already running"));
    a.operate.settings.operation = OperationKind::Sync;
    a.execute();
    assert_eq!(a.screen.error.as_deref(), Some("An operation is already running."));
}

#[test]
fn arrows_toggle_the_first_choice() {
    let mut p = FilterPopup::new(TargetFilterState::default(), true, &config());
    p.field = Field::Mode(TargetFilterMode::Groups);
    assert_eq!(p.available_groups, vec!["db".to_string(), "web".to_string()]);
    p.handle_key(KeyEvent::plain(KeyCode::Right));
    assert_eq!(p.state.groups, vec!["db".to_string()]);
    p.handle_key(KeyEvent::plain(KeyCode::Left));
    assert!(p.state.groups.is_empty());
    p.state.groups = vec!["web".to_string()];
    p.cycle_chip(1);
    assert_eq!(p.state.groups, vec!["web".to_string(), "db".to_string()]);
    p.cycle_chip(1);
    assert_eq!(p.state.groups, vec!["web".to_string()]);
    assert!(p.state.hosts.is_empty());
    p.field = Field::Mode(TargetFilterMode::Hosts);
    p.cycle_chip(-1);
    assert_eq!(p.state.hosts, vec!["web1".to_string()]);
}

#[test]
fn the_focus_goes_round_by_any_step() {
    let mut p = FilterPopup::new(TargetFilterState::default(), true, &config());
    p.move_field(-2);
    assert!(p.field == Field::Apply);
    p.move_field(7);
    assert!(p.field == Field::Apply);
    p.move_field(-16);
    assert!(p.field == Field::Mode(TargetFilterMode::Shell));
    p.move_field(i32::MAX);
    assert!(p.field == Field::SerialToggle);
}

#[test]
fn characters_are_found_by_their_bytes() {
    let f = InputField::new("aéb");
    assert_eq!(f.char_to_byte(0), 0);
    assert_eq!(f.char_to_byte(1), 1);
    assert_eq!(f.char_to_byte(2), 3);
    assert_eq!(f.char_to_byte(9), 4);
}
