use ssync::commands::report::HostStatus;
use ssync::commands::sync::decide::{
    make_decisions, make_decisions_fixed_source, CollectResult, FileInfo,
};
use ssync::commands::sync::machine::{
    tell, SyncAction, SyncMachine, SyncNote, SyncOrder, SyncState,
};
use ssync::commands::sync::plan::{collect_sync_paths_scoped, expand_paths, scope_collect_result};
use ssync::commands::sync::remote::{
    build_batch_metadata_cmd, build_dir_expand_cmd, build_mkdir_command,
    parse_batch_metadata_output, parse_dir_expand_output, prepare_target, quote_single,
    to_tilde_path, BatchCollectResult, DirExpandResult,
};
use ssync::commands::sync::report::{
    report_result, sync_report, sync_result, take_failures, take_note, FileEvent, FileFate,
};
use ssync::commands::sync::run::{after_connect, plan_file, FilePlan, TransferOutcome};
use ssync::commands::{Context, TargetMode};
use ssync::config::schema::{
    AppConfig, ConflictStrategy, HostEntry, Settings, ShellType, SyncEntry,
};
use ssync::lookup::TextMap;
use ssync::output::report::HostOutput;
use ssync::output::summary::SyncSummary;

fn make_file_info(host: &str, path: &str, hash: &str) -> FileInfo {
    FileInfo {
        host: host.to_string(),
        path: path.to_string(),
        mtime: 1000,
        size: 100,
        hash: hash.to_string(),
    }
}

#[test]
fn test_fixed_source_missing_returns_empty_not_error() {
    let infos = vec![
        make_file_info("host-b", "~/.bashrc", "abc123"),
        make_file_info("host-c", "~/.bashrc", "def456"),
    ];
    let missing: Vec<String> = vec![];
    let result = make_decisions_fixed_source(&infos, "~/.bashrc", false, &missing, "host-a");
    assert!(result.is_ok(), "should not return an error");
    let (decisions, skip_info) = result.unwrap();
    assert!(decisions.is_empty(), "decisions should be empty");
    assert!(skip_info.is_some(), "skip_info should be Some");
    let (source, path) = skip_info.unwrap();
    assert_eq!(source, "host-a");
    assert_eq!(path, "~/.bashrc");
}

#[test]
fn test_fixed_source_present_works_normally() {
    let infos = vec![
        make_file_info("host-a", "~/.bashrc", "abc123"),
        make_file_info("host-b", "~/.bashrc", "def456"),
        make_file_info("host-c", "~/.bashrc", "abc123"),
    ];
    let missing: Vec<String> = vec![];
    let result = make_decisions_fixed_source(&infos, "~/.bashrc", false, &missing, "host-a");
    assert!(result.is_ok());
    let (decisions, skip_info) = result.unwrap();
    assert!(skip_info.is_none(), "skip_info should be None when source is found");
    assert_eq!(decisions.len(), 1);
    let d = &decisions[0];
    assert_eq!(d.source_host, "host-a");
    assert_eq!(d.target_hosts, vec!["host-b".to_string()]);
    assert_eq!(d.synced_hosts, vec!["host-c".to_string()]);
    assert!(d.reason.contains("fixed source: host-a"));
}

#[test]
fn test_build_batch_metadata_cmd_sh() {
    let paths = vec!["~/.bashrc".to_string(), "~/.vimrc".to_string()];
    let cmd = build_batch_metadata_cmd(&paths, ShellType::Sh);
    assert!(cmd.contains("---FILE:"));
    assert!(cmd.contains("stat"));
    assert!(cmd.contains("sha256sum") || cmd.contains("shasum"));
    assert!(cmd.contains(".bashrc"));
    assert!(cmd.contains(".vimrc"));
}

#[test]
fn test_build_batch_metadata_cmd_powershell() {
    let paths = vec!["~/.bashrc".to_string()];
    let cmd = build_batch_metadata_cmd(&paths, ShellType::PowerShell);
    assert!(cmd.contains("---FILE:"));
    assert!(cmd.contains("Get-Item"));
    assert!(cmd.contains("Get-FileHash"));
}

#[test]
fn test_parse_batch_metadata_output() {
    let output = "---FILE:$HOME/.bashrc\n1700000000 1234\nabc123def456  /home/user/.bashrc\n---FILE:$HOME/.vimrc\nMISSING\n";
    let paths = vec!["~/.bashrc".to_string(), "~/.vimrc".to_string()];
    let result = parse_batch_metadata_output(output, &paths, "host-a");
    assert_eq!(result.len(), 2);
    let bashrc = result.get("~/.bashrc").unwrap();
    assert!(bashrc.found.is_some());
    let fi = bashrc.found.as_ref().unwrap();
    assert_eq!(fi.mtime, 1700000000);
    assert_eq!(fi.hash, "abc123def456");
    let vimrc = result.get("~/.vimrc").unwrap();
    assert!(vimrc.found.is_none());
    assert!(vimrc.is_missing);
}

#[test]
fn test_parse_batch_metadata_nohash() {
    let output = "---FILE:$HOME/.bashrc\n1700000000 1234\nNOHASH\n";
    let paths = vec!["~/.bashrc".to_string()];
    let result = parse_batch_metadata_output(output, &paths, "host-a");
    let bashrc = result.get("~/.bashrc").unwrap();
    assert!(bashrc.found.is_some());
    let fi = bashrc.found.as_ref().unwrap();
    assert!(fi.hash.is_empty(), "NOHASH sentinel should produce empty hash");
}

#[test]
fn test_build_dir_expand_cmd_sh_shallow() {
    let paths = vec!["~/mydir".to_string(), "~/single.conf".to_string()];
    let cmd = build_dir_expand_cmd(&paths, false, ShellType::Sh);
    assert!(cmd.contains("---PATH:"));
    assert!(cmd.contains("[ -d"));
    assert!(cmd.contains("-maxdepth 1"));
    assert!(cmd.contains("find"));
    assert!(cmd.contains("mydir"));
    assert!(cmd.contains("single.conf"));
}

#[test]
fn test_build_dir_expand_cmd_sh_recursive() {
    let paths = vec!["~/mydir".to_string()];
    let cmd = build_dir_expand_cmd(&paths, true, ShellType::Sh);
    assert!(cmd.contains("---PATH:"));
    assert!(cmd.contains("find"));
    assert!(!cmd.contains("-maxdepth"), "recursive should not have maxdepth");
}

#[test]
fn test_build_dir_expand_cmd_powershell() {
    let paths = vec!["~/mydir".to_string()];
    let cmd = build_dir_expand_cmd(&paths, false, ShellType::PowerShell);
    assert!(cmd.contains("---PATH:"));
    assert!(cmd.contains("Test-Path"));
    assert!(cmd.contains("Get-ChildItem"));
    assert!(!cmd.contains("-Recurse"), "shallow should not have -Recurse");

    let cmd_recursive = build_dir_expand_cmd(&paths, true, ShellType::PowerShell);
    assert!(cmd_recursive.contains("-Recurse"));
}

#[test]
fn test_parse_dir_expand_output_mixed() {
    let output = "---PATH:~/mydir\nDIR\n~/mydir/file1.txt\n~/mydir/file2.txt\n---PATH:~/single.conf\nFILE\n---PATH:~/gone\nMISSING\n";
    let paths = vec![
        "~/mydir".to_string(),
        "~/single.conf".to_string(),
        "~/gone".to_string(),
    ];
    let result = parse_dir_expand_output(output, &paths);
    assert_eq!(result.len(), 3);

    match result.get("~/mydir").unwrap() {
        DirExpandResult::Directory(files) => {
            assert_eq!(files.len(), 2);
            assert_eq!(files[0], "~/mydir/file1.txt");
            assert_eq!(files[1], "~/mydir/file2.txt");
        }
        other => panic!("Expected Directory, got {:?}", other),
    }

    assert!(matches!(result.get("~/single.conf"), Some(DirExpandResult::File)));
    assert!(matches!(result.get("~/gone"), Some(DirExpandResult::Missing)));
}

#[test]
fn test_parse_dir_expand_output_empty_dir() {
    let output = "---PATH:~/emptydir\nDIR\n";
    let paths = vec!["~/emptydir".to_string()];
    let result = parse_dir_expand_output(output, &paths);

    match result.get("~/emptydir").unwrap() {
        DirExpandResult::Directory(files) => {
            assert!(files.is_empty(), "empty directory should have no files");
        }
        other => panic!("Expected Directory, got {:?}", other),
    }
}

#[test]
fn test_parse_dir_expand_output_nested() {
    let output = "---PATH:~/project\nDIR\n~/project/src/main.rs\n~/project/src/lib.rs\n~/project/Cargo.toml\n";
    let paths = vec!["~/project".to_string()];
    let result = parse_dir_expand_output(output, &paths);

    match result.get("~/project").unwrap() {
        DirExpandResult::Directory(files) => {
            assert_eq!(files.len(), 3);
            assert!(files.contains(&"~/project/src/main.rs".to_string()));
            assert!(files.contains(&"~/project/src/lib.rs".to_string()));
            assert!(files.contains(&"~/project/Cargo.toml".to_string()));
        }
        other => panic!("Expected Directory, got {:?}", other),
    }
}

fn info_at(host: &str, mtime: i64, hash: &str) -> FileInfo {
    FileInfo {
        host: host.to_string(),
        path: "/etc/app.conf".to_string(),
        mtime,
        size: 10,
        hash: hash.to_string(),
    }
}

#[test]
fn the_newest_file_is_copied_to_the_others() {
    let infos = vec![
        info_at("old", 100, "aaa"),
        info_at("new", 300, "bbb"),
        info_at("same", 200, "bbb"),
    ];
    let decisions =
        make_decisions(&infos, &ConflictStrategy::Newest, "/etc/app.conf", false, &[]);
    assert_eq!(decisions.len(), 1);
    assert_eq!(decisions[0].source_host, "new");
    assert_eq!(decisions[0].target_hosts, vec!["old".to_string()]);
    assert_eq!(decisions[0].synced_hosts, vec!["same".to_string()]);
}

#[test]
fn files_that_are_alike_are_left_alone() {
    let infos = vec![info_at("a", 100, "aaa"), info_at("b", 300, "aaa")];
    assert!(make_decisions(&infos, &ConflictStrategy::Newest, "/etc/app.conf", false, &[]).is_empty());
    match plan_file(&infos, &[], "/etc/app.conf", None, &ConflictStrategy::Newest, false) {
        FilePlan::InSync(hosts) => assert_eq!(hosts, vec!["a".to_string(), "b".to_string()]),
        _ => panic!("the files are alike"),
    }
}

#[test]
fn conflicts_are_skipped_where_that_is_asked_for() {
    let infos = vec![info_at("a", 100, "aaa"), info_at("b", 300, "bbb")];
    assert!(make_decisions(&infos, &ConflictStrategy::Skip, "/etc/app.conf", false, &[]).is_empty());
}

#[test]
fn missing_files_are_pushed_where_that_is_asked_for() {
    let infos = vec![info_at("a", 100, "aaa")];
    let missing = vec!["b".to_string()];
    let pushed = make_decisions(&infos, &ConflictStrategy::Newest, "/etc/app.conf", true, &missing);
    assert_eq!(pushed.len(), 1);
    assert_eq!(pushed[0].source_host, "a");
    assert_eq!(pushed[0].target_hosts, missing);
    assert!(make_decisions(&infos, &ConflictStrategy::Newest, "/etc/app.conf", false, &missing)
        .is_empty());
}

#[test]
fn a_file_that_is_nowhere_is_not_found() {
    let missing = vec!["a".to_string(), "b".to_string()];
    assert!(matches!(
        plan_file(&[], &missing, "/x", None, &ConflictStrategy::Newest, false),
        FilePlan::NotFound
    ));
    assert!(matches!(
        plan_file(&[], &[], "/x", None, &ConflictStrategy::Newest, false),
        FilePlan::NoData
    ));
}

#[test]
fn a_missing_source_is_named() {
    let infos = vec![info_at("a", 100, "aaa")];
    match plan_file(&infos, &[], "/etc/app.conf", Some("z"), &ConflictStrategy::Newest, false) {
        FilePlan::SourceMissing { source, path } => {
            assert_eq!(source, "z");
            assert_eq!(path, "/etc/app.conf");
        }
        _ => panic!("the source has no such file"),
    }
}

#[test]
fn quotes_are_quoted() {
    assert_eq!(quote_single("it's"), "'it'\\''s'");
    assert_eq!(quote_single("plain"), "'plain'");
}

#[test]
fn home_becomes_a_tilde() {
    assert_eq!(to_tilde_path("/home/me/.bashrc", Some("/home/me")), "~/.bashrc");
    assert_eq!(to_tilde_path("/home/me", Some("/home/me")), "~");
    assert_eq!(to_tilde_path("/home/meadow/x", Some("/home/me")), "/home/meadow/x");
    assert_eq!(to_tilde_path("/etc/hosts", None), "/etc/hosts");
}

#[test]
fn directories_are_made_before_files() {
    assert_eq!(prepare_target("/etc/app/app.conf").unwrap(), "mkdir -p '/etc/app'");
    assert_eq!(prepare_target("~/.config/app/x.toml").unwrap(), "mkdir -p \"$HOME/.config/app\"");
    assert!(prepare_target("~/.bashrc").is_none());
    assert!(prepare_target("/hosts").is_none());
    assert!(prepare_target("hosts").is_none());
    assert_eq!(build_mkdir_command("a'b").unwrap(), "mkdir -p 'a'\\''b'");
    assert_eq!(build_mkdir_command("~/a\"b").unwrap(), "mkdir -p \"$HOME/a\\\"b\"");
    assert!(build_mkdir_command("~other/x").is_none());
}

fn host(name: &str, group: &str) -> HostEntry {
    HostEntry {
        name: name.to_string(),
        ssh_host: name.to_string(),
        shell: ShellType::Sh,
        groups: vec![group.to_string()],
        proxy_jump: None,
    }
}

fn entry(paths: &[&str], groups: &[&str], recursive: bool, source: Option<&str>) -> SyncEntry {
    SyncEntry {
        paths: paths.iter().map(|p| p.to_string()).collect(),
        groups: groups.iter().map(|g| g.to_string()).collect(),
        enable_hosts: true,
        enable_all: true,
        recursive,
        mode: None,
        propagate_deletes: None,
        source: source.map(|s| s.to_string()),
    }
}

fn context(sync: Vec<SyncEntry>, mode: TargetMode) -> Context {
    Context {
        config: AppConfig {
            settings: Settings::default(),
            host: vec![host("a", "web"), host("b", "db")],
            check: vec![],
            sync,
        },
        config_path: None,
        timeout: 30,
        mode,
        serial: false,
        verbose: false,
    }
}

#[test]
fn configured_paths_are_listed_once() {
    let ctx = context(
        vec![
            entry(&["~/.bashrc", "~/.vimrc"], &[], false, None),
            entry(&["~/.vimrc", "~/.profile"], &[], false, Some("a")),
        ],
        TargetMode::All,
    );
    let hosts: Vec<&HostEntry> = ctx.config.host.iter().collect();
    let work = collect_sync_paths_scoped(&ctx, &hosts, None);
    assert_eq!(work.paths, vec!["~/.bashrc", "~/.vimrc", "~/.profile"]);
    assert!(work.recursive.is_empty());
}

#[test]
fn recursive_entries_are_kept_apart() {
    let ctx = context(vec![entry(&["~/dir"], &[], true, None)], TargetMode::All);
    let hosts: Vec<&HostEntry> = ctx.config.host.iter().collect();
    let work = collect_sync_paths_scoped(&ctx, &hosts, None);
    assert!(work.paths.is_empty());
    assert_eq!(work.recursive.len(), 1);
    assert_eq!(work.recursive[0].entry, 0);
}

#[test]
fn directories_are_replaced_by_their_files() {
    let ctx = context(vec![entry(&["~/dir", "~/file"], &[], false, None)], TargetMode::All);
    let hosts: Vec<&HostEntry> = ctx.config.host.iter().collect();
    let work = collect_sync_paths_scoped(&ctx, &hosts, None);
    let found = parse_dir_expand_output(
        "---PATH:~/dir\nDIR\n~/dir/x\n~/dir/y\n---PATH:~/file\nFILE\n",
        &work.paths,
    );
    let (expanded, _notes) = expand_paths(work, &found);
    assert_eq!(expanded.paths, vec!["~/dir/x", "~/dir/y", "~/file"]);
}

#[test]
fn without_scopes_all_reports_count() {
    let collect = CollectResult {
        found: vec![info_at("a", 1, "x")],
        missing: vec!["b".to_string()],
    };
    let (found, missing) = scope_collect_result(&collect, "/etc/app.conf", &None);
    assert_eq!(found.len(), 1);
    assert_eq!(found[0].host, "a");
    assert_eq!(missing, vec!["b".to_string()]);
}

#[test]
fn a_source_must_be_connected() {
    let connected = vec!["a".to_string(), "b".to_string()];
    assert!(after_connect(Some("c"), &connected, 2, 1).is_err());
    assert!(after_connect(Some("a"), &connected, 2, 1).is_ok());
}

fn event(host: &str, path: &str, fate: FileFate) -> FileEvent {
    FileEvent { host: host.to_string(), path: path.to_string(), fate }
}

#[test]
fn sync_rows_hold_the_files_of_their_host() {
    let events = vec![
        event("a", "/etc/x", FileFate::Skipped),
        event("b", "/etc/x", FileFate::Synced),
        event("a", "/etc/y", FileFate::Synced),
        event("a", "/etc/z", FileFate::Synced),
    ];
    let row = sync_result("a", &events);
    assert_eq!(row.host, "a");
    assert_eq!(row.status, HostStatus::Online);
    assert_eq!(row.files_synced, vec!["/etc/y".to_string(), "/etc/z".to_string()]);
    assert_eq!(row.files_skipped, vec!["/etc/x".to_string()]);
    assert!(row.errors.is_empty());
    assert_eq!(row.detail, "2 synced, 1 skipped");
}

#[test]
fn sync_report_counts_over_all_hosts() {
    let events = vec![
        event("a", "/etc/x", FileFate::Skipped),
        event("b", "/etc/x", FileFate::Synced),
        event("b", "/etc/y", FileFate::Failed("no space".to_string())),
    ];
    let report = sync_report(
        "now".to_string(),
        "global".to_string(),
        false,
        vec!["a".to_string(), "b".to_string(), "c".to_string()],
        &events,
    );
    assert_eq!(report.total_files_synced, 1);
    assert_eq!(report.total_files_skipped, 1);
    assert_eq!(report.hosts.len(), 3);
    assert_eq!(report.hosts[0].status, HostStatus::Online);
    assert_eq!(report.hosts[1].status, HostStatus::Error);
    assert_eq!(report.hosts[1].detail, "no space");
    assert_eq!(report.hosts[2].detail, "0 synced, 0 skipped");
}

#[test]
fn sync_result_in_a_report_file() {
    let events = vec![
        event("a", "/etc/x", FileFate::Synced),
        event("a", "/etc/y", FileFate::Failed("first".to_string())),
        event("a", "/etc/z", FileFate::Failed("second".to_string())),
    ];
    let entry = report_result(sync_result("a", &events));
    assert_eq!(entry.status, "error");
    match entry.output {
        HostOutput::Files { synced, skipped, stderr } => {
            assert_eq!(synced, vec!["/etc/x".to_string()]);
            assert!(skipped.is_empty());
            assert_eq!(stderr, "first\nsecond");
        }
        _ => panic!("a sync reports files"),
    }
}

fn order(dry_run: bool) -> SyncOrder {
    SyncOrder { dry_run, push_missing: true, source: None, strategy: ConflictStrategy::Newest }
}

fn texts(list: &[&str]) -> Vec<String> {
    list.iter().map(|s| s.to_string()).collect()
}

/// A machine that has asked about one path, and the reports on it: `a` has the
/// newer version.
fn asked_machine(dry_run: bool) -> (SyncMachine, Vec<SyncEntry>, BatchCollectResult) {
    let ctx = context(vec![entry(&["/etc/x"], &[], false, None)], TargetMode::All);
    let hosts: Vec<&HostEntry> = ctx.config.host.iter().collect();
    let work = collect_sync_paths_scoped(&ctx, &hosts, None);
    let (machine, notes, action) =
        SyncMachine::begin(order(dry_run), texts(&["a", "b"]), work, &ctx.config.sync);
    assert!(notes.is_empty());
    assert!(matches!(action, SyncAction::AskAll(paths) if paths == texts(&["/etc/x"])));
    let mut per_file = TextMap::new();
    per_file.insert(
        "/etc/x".to_string(),
        CollectResult {
            found: vec![info_at("a", 200, "new"), info_at("b", 100, "old")],
            missing: vec![],
        },
    );
    let entries = ctx.config.sync;
    (machine, entries, BatchCollectResult { per_file, unreachable_hosts: vec![] })
}

#[test]
fn dry_runs_only_show_what_they_would_do() {
    let (mut machine, entries, batch) = asked_machine(true);
    let (notes, action) = machine.asked(&entries, &batch);
    assert!(matches!(action, SyncAction::End));
    assert_eq!(notes.len(), 2);
    assert!(matches!(&notes[0], SyncNote::Announced(d) if d.source_host == "a"));
    assert!(matches!(&notes[1], SyncNote::Rehearsed));
    let mut summary = SyncSummary::default();
    assert_eq!(
        tell(&mut summary, &notes[1]),
        vec!["  [dry-run] No changes applied.".to_string()]
    );
    assert_eq!(summary.files_synced, 0);
}

#[test]
fn decisions_are_carried_out_and_counted() {
    let (mut machine, entries, batch) = asked_machine(false);
    let (notes, action) = machine.asked(&entries, &batch);
    assert_eq!(notes.len(), 1);
    match action {
        SyncAction::Transfer { decision, pooled } => {
            assert!(pooled);
            assert_eq!(decision.source_host, "a");
            assert_eq!(decision.target_hosts, texts(&["b"]));
        }
        _ => panic!("the older copy is replaced"),
    }
    let outcome = TransferOutcome::Done { succeeded: texts(&["b"]), failed: vec![] };
    let (notes, action) = machine.copied(&entries, outcome);
    assert!(matches!(action, SyncAction::End));
    assert!(matches!(machine.state, SyncState::Finished));
    assert_eq!(notes.len(), 1);
    let mut summary = SyncSummary::default();
    tell(&mut summary, &notes[0]);
    assert_eq!(summary.files_synced, 1);
    assert_eq!(summary.transfers_synced_hosts, texts(&["b"]));
    let mut events = Vec::new();
    take_note(&mut events, &notes[0]);
    assert_eq!(events.len(), 1);
    assert_eq!(events[0].host, "b");
    assert!(matches!(events[0].fate, FileFate::Synced));
}

#[test]
fn a_source_that_cannot_be_read_fails_for_all() {
    let (mut machine, entries, batch) = asked_machine(false);
    machine.asked(&entries, &batch);
    let (notes, _) =
        machine.copied(&entries, TransferOutcome::SourceFailed("gone".to_string()));
    let mut events = Vec::new();
    take_failures(&mut events, &[("c".to_string(), "refused".to_string())]);
    take_note(&mut events, &notes[0]);
    let hosts: Vec<&str> = events.iter().map(|e| e.host.as_str()).collect();
    assert_eq!(hosts, vec!["c", "a", "b"]);
    assert!(matches!(&events[2].fate, FileFate::Failed(e) if e == "source download failed: gone"));
}

#[test]
fn directories_of_a_fixed_source_are_looked_into() {
    let ctx = context(vec![entry(&["/etc/d"], &[], false, Some("a"))], TargetMode::All);
    let hosts: Vec<&HostEntry> = ctx.config.host.iter().collect();
    let work = collect_sync_paths_scoped(&ctx, &hosts, None);
    let entries = &ctx.config.sync;
    let (mut machine, _, action) =
        SyncMachine::begin(order(false), texts(&["a", "b"]), work, entries);
    match action {
        SyncAction::Expand { host, paths, recursive } => {
            assert_eq!(host, "a");
            assert_eq!(paths, texts(&["/etc/d"]));
            assert!(!recursive);
        }
        _ => panic!("the source is asked first"),
    }
    let mut found = TextMap::new();
    found.insert("/etc/d".to_string(), DirExpandResult::Directory(texts(&["/etc/d/1"])));
    let (notes, action) = machine.expanded(entries, Some(found));
    assert!(notes.is_empty());
    assert!(matches!(action, SyncAction::AskAll(paths) if paths == texts(&["/etc/d/1"])));
}

#[test]
fn empty_directories_are_noted() {
    let ctx = context(vec![entry(&["/etc/d"], &[], false, Some("a"))], TargetMode::All);
    let hosts: Vec<&HostEntry> = ctx.config.host.iter().collect();
    let work = collect_sync_paths_scoped(&ctx, &hosts, None);
    let entries = &ctx.config.sync;
    let (mut machine, _, _) = SyncMachine::begin(order(false), texts(&["a", "b"]), work, entries);
    let mut found = TextMap::new();
    found.insert("/etc/d".to_string(), DirExpandResult::Directory(vec![]));
    let (notes, action) = machine.expanded(entries, Some(found));
    assert!(matches!(action, SyncAction::End));
    let mut summary = SyncSummary::default();
    assert_eq!(
        tell(&mut summary, &notes[0]),
        vec!["  /etc/d (empty directory on source, skipping)".to_string()]
    );
}

#[test]
fn sources_that_are_not_usable_are_passed_over() {
    let ctx = context(vec![entry(&["/etc/d"], &[], false, Some("z"))], TargetMode::All);
    let hosts: Vec<&HostEntry> = ctx.config.host.iter().collect();
    let work = collect_sync_paths_scoped(&ctx, &hosts, None);
    let (_, _, action) =
        SyncMachine::begin(order(false), texts(&["a", "b"]), work, &ctx.config.sync);
    assert!(matches!(action, SyncAction::AskAll(_)));
}

#[test]
fn recursive_entries_are_taken_file_by_file() {
    let ctx = context(vec![entry(&["/srv"], &[], true, Some("a"))], TargetMode::All);
    let hosts: Vec<&HostEntry> = ctx.config.host.iter().collect();
    let work = collect_sync_paths_scoped(&ctx, &hosts, None);
    let entries = &ctx.config.sync;
    let (mut machine, _, action) =
        SyncMachine::begin(order(false), texts(&["a", "b"]), work, entries);
    assert!(matches!(action, SyncAction::Expand { recursive: true, .. }));
    let mut found = TextMap::new();
    let files = texts(&["/srv/1", "/srv/2"]);
    found.insert("/srv".to_string(), DirExpandResult::Directory(files));
    let (_, action) = machine.expanded(entries, Some(found));
    assert!(matches!(action, SyncAction::Ask { path, .. } if path == "/srv/1"));
    let same = CollectResult {
        found: vec![info_at("a", 1, "h"), info_at("b", 1, "h")],
        missing: vec![],
    };
    let (notes, action) = machine.asked_file(entries, &same);
    assert!(matches!(&notes[0], SyncNote::Settled { plan: FilePlan::InSync(_), .. }));
    assert!(matches!(action, SyncAction::Ask { path, .. } if path == "/srv/2"));
    let behind = CollectResult {
        found: vec![info_at("a", 1, "h"), info_at("b", 1, "g")],
        missing: vec![],
    };
    let (_, action) = machine.asked_file(entries, &behind);
    assert!(matches!(action, SyncAction::Transfer { pooled: false, .. }));
    let outcome = TransferOutcome::Done { succeeded: texts(&["b"]), failed: vec![] };
    let (_, action) = machine.copied(entries, outcome);
    assert!(matches!(action, SyncAction::End));
}

#[test]
fn entries_with_one_usable_host_are_passed_over() {
    let ctx = context(vec![entry(&["/srv"], &[], true, None)], TargetMode::All);
    let hosts: Vec<&HostEntry> = ctx.config.host.iter().collect();
    let work = collect_sync_paths_scoped(&ctx, &hosts, None);
    let (_, _, action) = SyncMachine::begin(order(false), texts(&["b"]), work, &ctx.config.sync);
    assert!(matches!(action, SyncAction::End));
}
