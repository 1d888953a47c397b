use ssync::cli::{ActionFilter, TargetArgs};
use ssync::commands::check::{
    asked_result, build_host_check_configs, check_core, enabled_metrics, CheckOutcome,
};
use ssync::commands::checkout::{
    build_json_report, extract_disk, extract_memory, extract_metric_value, format_relative_time,
    latest_snapshot, metric_header, parse_since, render_html, DisplayColumns, MetricValue,
    Selection, StoredSnapshot,
};
use ssync::commands::config::choose_editor;
use ssync::commands::exec::{
    after_run, after_send, compatible_shell, exec_log, exec_result, is_compatible, plan_job,
    start_job, summarize as exec_summarize, ExecAction, ExecEnd, ExecOutcome,
};
use ssync::commands::init::{
    all_skips, batch_keyscan_and_accept, choose_hosts, is_yes, keyscan_args, keyscan_host,
    known_hosts_addition, merge_config, partition_host_key_failures, resolve_ssh_host_port,
    stale_hosts, DetectedHost, Keyscan,
};
use ssync::commands::list::{format_scope, host_lines};
use ssync::commands::log::{build_query, log_line, show_time, since_in_range, Bound, LogEntry};
use ssync::commands::report::HostStatus;
use ssync::commands::run::{
    command_for_host, line_kind as run_line_kind, run_core, run_log, summarize, RunOutcome,
};
use ssync::commands::{resolve_target_mode, Context, TargetMode};
use ssync::config::schema::{
    AppConfig, CheckEntry, CheckPath, HostEntry, Settings, ShellType,
};
use ssync::config::ssh_config::parse_ssh_config_content;
use ssync::error::{Error, Fault};
use ssync::host::session_pool::RemoteOutput;
use ssync::metrics::collector::CollectionResult;
use ssync::metrics::data::{no_fields, no_values, set_field, set_value, MetricData, Scalar};
use ssync::state::db::{migrate, seen_statement, CURRENT_VERSION};
use ssync::state::retention::cleanup;

#[test]
fn test_partition_host_key_failures_mixed() {
    let failures = vec![
        (
            "host-a".to_string(),
            "ControlMaster failed: Host key verification failed.".to_string(),
        ),
        ("host-b".to_string(), "Connection refused".to_string()),
        (
            "host-c".to_string(),
            "ControlMaster failed: Host key verification failed.".to_string(),
        ),
    ];
    let (hk, other) = partition_host_key_failures(failures);
    assert_eq!(hk.len(), 2);
    assert_eq!(hk[0].0, "host-a");
    assert_eq!(hk[1].0, "host-c");
    assert_eq!(other.len(), 1);
    assert_eq!(other[0].0, "host-b");
}

#[test]
fn test_partition_host_key_failures_none() {
    let failures = vec![("host-a".to_string(), "Connection timeout".to_string())];
    let (hk, other) = partition_host_key_failures(failures);
    assert!(hk.is_empty());
    assert_eq!(other.len(), 1);
}

#[test]
fn test_partition_host_key_failures_all() {
    let failures = vec![("host-a".to_string(), "Host key verification failed.".to_string())];
    let (hk, other) = partition_host_key_failures(failures);
    assert_eq!(hk.len(), 1);
    assert!(other.is_empty());
}

fn host(name: &str, shell: ShellType, groups: &[&str]) -> HostEntry {
    HostEntry {
        name: name.to_string(),
        ssh_host: name.to_string(),
        shell,
        groups: groups.iter().map(|g| g.to_string()).collect(),
        proxy_jump: None,
    }
}

fn check(enabled: &[&str], groups: &[&str]) -> CheckEntry {
    CheckEntry {
        name: None,
        enabled: enabled.iter().map(|m| m.to_string()).collect(),
        path: vec![CheckPath { path: "/var/log".to_string(), label: "logs".to_string() }],
        groups: groups.iter().map(|g| g.to_string()).collect(),
        enable_hosts: true,
        enable_all: true,
    }
}

fn config() -> AppConfig {
    AppConfig {
        settings: Settings::default(),
        host: vec![
            host("web1", ShellType::Sh, &["web"]),
            host("win", ShellType::PowerShell, &["office"]),
        ],
        check: vec![check(&["online", "cpu_load"], &[]), check(&["memory", "cpu_load"], &["web"])],
        sync: vec![],
    }
}

fn targets(group: &[&str], hosts: &[&str], all: bool) -> TargetArgs {
    TargetArgs {
        group: group.iter().map(|g| g.to_string()).collect(),
        host: hosts.iter().map(|h| h.to_string()).collect(),
        all,
        shell: vec![],
        serial: false,
        timeout: None,
    }
}

fn output(stdout: &str, success: bool) -> RemoteOutput {
    RemoteOutput {
        stdout: stdout.to_string(),
        stderr: if success { String::new() } else { "boom\n".to_string() },
        exit_code: Some(if success { 0 } else { 2 }),
        success,
    }
}

#[test]
fn targets_are_chosen_by_the_arguments() {
    let c = config();
    assert!(matches!(resolve_target_mode(&targets(&[], &[], true), &c), Ok(TargetMode::All)));
    assert!(matches!(
        resolve_target_mode(&targets(&["web"], &[], false), &c),
        Ok(TargetMode::Groups(ref g)) if g.len() == 1 && g[0] == "web"
    ));
    assert!(resolve_target_mode(&targets(&[], &[], false), &c).is_err());
}

#[test]
fn unmatched_targets_are_an_error() {
    let ctx = Context::new(config(), None, false, &targets(&["nobody"], &[], false)).unwrap();
    let message = ctx.resolve_hosts().unwrap_err().message;
    assert!(message.starts_with("No hosts matched the specified filter."));
    assert!(message.contains("Available groups: office, web"));
    assert!(message.contains("Available hosts: web1, win"));
}

#[test]
fn one_host_at_a_time_where_serial() {
    let mut args = targets(&[], &[], true);
    args.serial = true;
    let ctx = Context::new(config(), None, false, &args).unwrap();
    assert_eq!(ctx.concurrency(), 1);
    assert_eq!(ctx.timeout, 30);
    let parallel = Context::new(config(), None, false, &targets(&[], &[], true)).unwrap();
    assert_eq!(parallel.concurrency(), 10);
}

#[test]
fn metrics_of_all_entries_are_asked_once() {
    let ctx = Context::new(config(), None, false, &targets(&[], &[], true)).unwrap();
    let hosts: Vec<&HostEntry> = ctx.config.host.iter().collect();
    let configs = build_host_check_configs(&ctx, &hosts);
    let mut metrics = enabled_metrics(&configs);
    metrics.sort();
    assert!(metrics.contains(&"cpu_load".to_string()));
    let mut unique = metrics.clone();
    unique.dedup();
    assert_eq!(metrics, unique);
}

fn outcome(host: &str, succeeded: usize, failed: usize) -> CheckOutcome {
    CheckOutcome {
        host: host.to_string(),
        result: Ok(CollectionResult {
            data: no_values(),
            succeeded,
            failed,
            errors: vec!["cpu_load: boom".to_string()],
        }),
        took: "0.5".to_string(),
        ms: 500,
        raw_stdout: String::new(),
        raw_stderr: String::new(),
    }
}

#[test]
fn hosts_are_up_where_something_was_measured() {
    let all = asked_result(outcome("a", 3, 0));
    assert!(all.status == HostStatus::Online);
    assert_eq!(all.detail, "collected (3 metrics, 0.5s)");
    let some = asked_result(outcome("b", 2, 1));
    assert!(some.status == HostStatus::Partial);
    assert_eq!(some.detail, "partial (2/3 metrics, 0.5s) — warn: cpu_load: boom");
    assert!(asked_result(outcome("c", 0, 2)).status == HostStatus::Offline);
}

#[test]
fn checks_list_unreachable_hosts_too() {
    let ctx = Context::new(config(), None, false, &targets(&[], &[], true)).unwrap();
    let hosts: Vec<&HostEntry> = ctx.config.host.iter().collect();
    let configs = build_host_check_configs(&ctx, &hosts);
    let report = check_core(
        "now".to_string(),
        &configs,
        vec!["web1".to_string(), "win".to_string()],
        &[("win".to_string(), "timeout".to_string())],
        vec![outcome("web1", 1, 0)],
    );
    assert_eq!(report.hosts.len(), 2);
    assert!(report.hosts.iter().any(|h| h.host == "win"
        && h.status == HostStatus::Unreachable
        && h.detail == "unreachable — timeout"));
}

#[test]
fn runs_are_counted() {
    let outcomes = vec![
        RunOutcome {
            host: "a".to_string(),
            result: Ok(output("hi\nthere\n", true)),
            took: "0.1".to_string(),
            ms: 100,
        },
        RunOutcome {
            host: "b".to_string(),
            result: Err(Fault::Other(Error::new("broken pipe"))),
            took: "0.2".to_string(),
            ms: 200,
        },
        RunOutcome {
            host: "d".to_string(),
            result: Ok(output("half\n", false)),
            took: "0.3".to_string(),
            ms: 300,
        },
        RunOutcome {
            host: "e".to_string(),
            result: Err(Fault::TimedOut(Error::new("Channel open timeout"))),
            took: "5.0".to_string(),
            ms: 5000,
        },
    ];
    let report = run_core(
        "now".to_string(),
        "uptime",
        ["a", "b", "c", "d", "e"].iter().map(|n| n.to_string()).collect(),
        &[("c".to_string(), "refused".to_string())],
        &outcomes,
    );
    assert_eq!(report.hosts.len(), 5);
    let status = |name: &str| report.hosts.iter().find(|h| h.host == name).unwrap().status;
    assert!(status("a") == HostStatus::Online);
    assert!(status("b") == HostStatus::Error);
    assert!(status("c") == HostStatus::Unreachable);
    assert!(status("d") == HostStatus::Offline);
    assert!(status("e") == HostStatus::TimedOut);
    let d = report.hosts.iter().find(|h| h.host == "d").unwrap();
    assert_eq!(d.detail, "error (0.3s) — boom");
    assert_eq!(d.stdout, "half\n");
    assert_eq!(d.stderr, "boom\n");
    assert_eq!(run_line_kind(d.status), "error");
    let log = run_log(&outcomes[2]);
    assert_eq!(log.status, "error");
    assert_eq!(log.note.as_deref(), Some("boom"));
    let log = run_log(&outcomes[3]);
    assert_eq!(log.note.as_deref(), Some("Channel open timeout"));
    let s = summarize(&report.hosts);
    assert_eq!(s.succeeded, 1);
    assert_eq!(s.failed, 4);
    assert_eq!(command_for_host(ShellType::Sh, "id", true), "sudo id");
    assert_eq!(command_for_host(ShellType::Sh, "id", false), "id");
}

#[test]
fn scripts_need_their_shell() {
    assert!(compatible_shell("deploy.sh") == Some(ShellType::Sh));
    assert!(compatible_shell("a/b.PS1") == Some(ShellType::PowerShell));
    assert!(compatible_shell("x.cmd") == Some(ShellType::Cmd));
    assert!(compatible_shell("x.py").is_none());
    assert!(compatible_shell("Makefile").is_none());
    assert!(compatible_shell("dir.sh/run").is_none());
    assert!(is_compatible(None, ShellType::Cmd));
    assert!(!is_compatible(Some(ShellType::Sh), ShellType::Cmd));
}

#[test]
fn scripts_are_sent_run_and_taken_away() {
    let job = plan_job(ShellType::Sh, "dir/deploy.sh", 42, false, false);
    assert_eq!(job.name, "ssync_42_deploy.sh");
    let (state, action) = start_job(&job);
    assert!(matches!(action, ExecAction::Send(ref p) if p == "/tmp/ssync_42_deploy.sh"));
    let (state, action) = after_send(&job, state, Ok(()));
    assert!(matches!(action, ExecAction::Run(ref c) if c == "chmod +x /tmp/ssync_42_deploy.sh"));
    let (state, action) = after_run(&job, state, Ok(output("", true)));
    assert!(matches!(action, ExecAction::Run(ref c) if c == "/tmp/ssync_42_deploy.sh"));
    let (state, action) = after_run(&job, state, Ok(output("done\n", true)));
    assert!(matches!(action, ExecAction::Run(ref c) if c == "rm -f /tmp/ssync_42_deploy.sh"));
    let (_, action) = after_run(&job, state, Ok(output("", true)));
    assert!(matches!(action, ExecAction::End(ExecEnd::Printed(ref s)) if s == "done\n"));
}

#[test]
fn an_exit_code_is_told_from_a_broken_connection() {
    let job = plan_job(ShellType::Sh, "deploy.sh", 42, false, true);
    let run = |result| {
        let (state, _) = start_job(&job);
        let (state, _) = after_send(&job, state, Ok(()));
        let (state, _) = after_run(&job, state, Ok(output("", true)));
        match after_run(&job, state, result).1 {
            ExecAction::End(end) => end,
            _ => panic!("the script is kept, so nothing is left to do"),
        }
    };
    let outcome = |result| ExecOutcome {
        host: "a".to_string(),
        result,
        took: "1.0".to_string(),
        ms: 1000,
    };
    let exited = outcome(run(Ok(output("", false))));
    assert!(matches!(exited.result, ExecEnd::Exited(_)));
    let row = exec_result(&exited);
    assert!(row.status == HostStatus::Offline);
    assert_eq!(row.detail, "error (1.0s) — Script failed (exit 2): boom");
    assert_eq!(row.stderr, "Script failed (exit 2): boom");
    let broken = outcome(run(Err(Fault::Other(Error::new("broken pipe")))));
    assert!(matches!(broken.result, ExecEnd::Broken(Fault::Other(_))));
    let other = exec_result(&broken);
    assert!(other.status == HostStatus::Error);
    assert_eq!(other.detail, "error (1.0s) — broken pipe");
    assert_eq!(exec_log(&exited).status, "error");
    assert_eq!(exec_log(&broken).note.as_deref(), Some("broken pipe"));
    let printed = outcome(run(Ok(output("fine\n", true))));
    assert!(exec_result(&printed).status == HostStatus::Online);
    assert_eq!(exec_log(&printed).status, "ok");
    let late = exec_result(&outcome(run(Err(Fault::TimedOut(Error::new("timeout"))))));
    assert!(late.status == HostStatus::TimedOut);
    assert_eq!(late.detail, "error (1.0s) — timeout");
    let s = exec_summarize(&[row, other, exec_result(&printed), late]);
    assert_eq!(s.succeeded, 1);
    assert_eq!(s.failed, 3);
}

#[test]
fn names_and_ports_are_found_behind_an_alias() {
    let config = parse_ssh_config_content("Host web\n  HostName 10.0.0.1\n  Port 2200\n").unwrap();
    let found = |alias: &str| resolve_ssh_host_port(alias, Some(&config));
    assert_eq!(found("web"), ("10.0.0.1".to_string(), 2200));
    assert_eq!(found("db"), ("db".to_string(), 22));
    assert_eq!(resolve_ssh_host_port("web", None), ("web".to_string(), 22));
}

#[test]
fn a_path_without_a_name_gets_one() {
    assert_eq!(plan_job(ShellType::Sh, "..", 7, false, false).name, "ssync_7_ssync_script");
}

#[test]
fn hosts_that_left_the_ssh_configuration_are_stale() {
    let hosts = config().host;
    let ssh = vec!["web1".to_string(), "new".to_string()];
    assert_eq!(stale_hosts(&hosts, &ssh), vec!["win".to_string()]);
    let (skipped, detect) = choose_hosts(&ssh, &["new".to_string()], &hosts, true);
    assert_eq!(skipped, vec!["new".to_string()]);
    assert_eq!(detect, vec!["web1".to_string()]);
    let (_, detect) = choose_hosts(&ssh, &[], &hosts, false);
    assert_eq!(detect, vec!["new".to_string()]);
    assert_eq!(
        all_skips(&["a".to_string()], &["b".to_string()]),
        vec!["a".to_string(), "b".to_string()]
    );
    assert!(is_yes(" Y\n"));
    assert!(!is_yes("yes?"));
}

#[test]
fn found_hosts_are_merged_into_the_configuration() {
    let merged = merge_config(
        config(),
        &["win".to_string()],
        &[DetectedHost { name: "new".to_string(), shell: ShellType::Cmd }],
        &["web2".to_string()],
    );
    let names: Vec<&str> = merged.host.iter().map(|h| h.name.as_str()).collect();
    assert_eq!(names, vec!["web1", "new"]);
    assert_eq!(merged.settings.skipped_hosts, vec!["web2".to_string()]);
}

#[test]
fn scanned_keys_are_gathered() {
    assert_eq!(
        keyscan_host("h", "# comment\nh ssh-ed25519 AAAA\n\nh ssh-rsa BBBB\n").unwrap(),
        "h ssh-ed25519 AAAA\nh ssh-rsa BBBB"
    );
    assert_eq!(
        keyscan_host("h", "# comment\n").unwrap_err().message,
        "ssh-keyscan returned no keys for h"
    );
    let scans = vec![
        Keyscan { alias: "a".to_string(), keys: Ok("k1".to_string()) },
        Keyscan { alias: "b".to_string(), keys: Err(Error::new("no route")) },
        Keyscan { alias: "c".to_string(), keys: Ok("k2".to_string()) },
    ];
    let (keys, accepted) = batch_keyscan_and_accept(&scans);
    assert_eq!(keys, "k1\nk2");
    assert_eq!(accepted, vec!["a".to_string(), "c".to_string()]);
    assert!(known_hosts_addition("old", "k1").starts_with('\n'));
    assert!(keyscan_args("h", 2222).contains(&"2222".to_string()));
}

#[test]
fn points_in_time_are_read() {
    let now: i64 = 1_700_000_000;
    assert_eq!(parse_since(None, now).unwrap(), 0);
    assert_eq!(parse_since(Some("7d"), now).unwrap(), now - 7 * 86400);
    assert_eq!(parse_since(Some("24h"), now).unwrap(), now - 24 * 3600);
    assert_eq!(parse_since(Some("1970-01-02"), now).unwrap(), 86400);
    assert_eq!(
        parse_since(Some("soon"), now).unwrap_err().message,
        "Invalid --since value: soon. Use '7d', '24h', or 'YYYY-MM-DD'"
    );
    assert_eq!(
        ssync::commands::log::parse_since("soon", now).unwrap_err().message,
        "Invalid --since value: soon"
    );
    assert!(!since_in_range("9223372036854775807d", now));
    assert!(matches!(build_json_report(false, Some("7d"), now), Ok(Selection::Latest)));
    assert!(matches!(build_json_report(true, None, now), Ok(Selection::Since(0))));
    assert!(build_json_report(true, Some("soon"), now).is_err());
}

#[test]
fn log_queries_number_their_values() {
    let q = build_query(20, Some(5), Some("web1"), Some(ActionFilter::Run), true);
    assert!(q.text.contains("host = ?1"));
    assert!(q.text.contains("command = ?2"));
    assert!(q.text.contains("status = 'error'"));
    assert!(q.text.contains("timestamp >= ?3"));
    assert!(q.text.ends_with("ORDER BY timestamp DESC LIMIT 20"));
    assert_eq!(q.values.len(), 3);
    assert!(matches!(q.values[2], Bound::Number(5)));
}

#[test]
fn log_lines_tell_what_happened() {
    let e = LogEntry {
        timestamp: 86400,
        command: "run".to_string(),
        host: "web1".to_string(),
        action: "uptime".to_string(),
        status: "ok".to_string(),
        took: Some("0.3".to_string()),
        note: None,
    };
    let line = log_line(&e);
    assert!(line.starts_with("1970-01-02 00:00:00 "));
    assert!(line.ends_with("[web1] run uptime (0.3s)"));
    assert_eq!(show_time(0), "1970-01-01 00:00:00");
    assert_eq!(show_time(i64::MAX), "9223372036854775807");
}

#[test]
fn times_are_told_relative_to_now() {
    assert_eq!(format_relative_time(0, 1000), "never");
    assert_eq!(format_relative_time(990, 1000), "10s ago");
    assert_eq!(format_relative_time(1000, 1000 + 120), "2m ago");
    assert_eq!(format_relative_time(1000, 1000 + 7200), "2h ago");
    assert_eq!(format_relative_time(1000, 1000 + 3 * 86400), "3d ago");
}

#[test]
fn memory_is_read_from_nested_json() {
    let nested = MetricData::Scalar(Scalar::Text(
        "{\"TotalVisibleMemorySize\": 100, \"FreePhysicalMemory\": 40}".to_string(),
    ));
    match extract_memory(&nested) {
        MetricValue::Free { free, total } => assert_eq!((free, total), (40, 100)),
        _ => panic!("the numbers are there"),
    }
    let mut record = no_fields();
    set_field(&mut record, "total_bytes", Scalar::Number(8));
    set_field(&mut record, "used_bytes", Scalar::Number(2));
    match extract_memory(&MetricData::Record(record)) {
        MetricValue::Used { used, total } => assert_eq!((used, total), (2, 8)),
        _ => panic!("the numbers are there"),
    }
}

#[test]
fn disks_are_read_from_nested_json() {
    let nested =
        MetricData::Scalar(Scalar::Text("[{\"Used\": 30, \"Free\": 70}]".to_string()));
    match extract_disk(&nested) {
        MetricValue::Parts { used, free } => assert_eq!((used, free), (30, 70)),
        _ => panic!("the numbers are there"),
    }
}

#[test]
fn metrics_that_are_missing_show_as_a_dash() {
    let empty = no_values();
    assert!(matches!(extract_metric_value(&empty, "memory"), MetricValue::Text(ref t) if t == "-"));
    let mut snapshot = no_values();
    set_value(
        &mut snapshot,
        "ip_address",
        MetricData::Scalar(Scalar::Text("10.0.0.1 fe80::1".to_string())),
    );
    assert!(!matches!(
        extract_metric_value(&snapshot, "ip_address"),
        MetricValue::Text(ref t) if t == "-"
    ));
}

#[test]
fn columns_leave_out_whether_a_host_is_up() {
    let ctx = Context::new(config(), None, false, &targets(&["web"], &[], false)).unwrap();
    let columns = DisplayColumns::from_context(&ctx);
    assert!(!columns.metrics.contains(&"online".to_string()));
    assert!(!metric_header("cpu_load").is_empty());
}

#[test]
fn hosts_without_a_snapshot_count_as_down() {
    let none = latest_snapshot("a".to_string(), None, None);
    assert_eq!((none.collected_at, none.online, none.last_online), (0, false, 0));
    assert!(none.data.is_none());
    let some = latest_snapshot(
        "a".to_string(),
        Some(StoredSnapshot { collected_at: 5, online: true, data: None }),
        Some(4),
    );
    assert_eq!((some.collected_at, some.online, some.last_online), (5, true, 4));
}

#[test]
fn pages_hold_time_and_data() {
    let page = render_html("{}", "today");
    assert!(page.starts_with("<!DOCTYPE html>"));
    assert!(page.contains("<p>Generated: today</p>\n<pre>{}</pre>"));
    assert!(page.ends_with("</html>"));
}

#[test]
fn lists_show_scopes_and_hosts() {
    assert_eq!(format_scope(&["a".to_string(), "b".to_string()], &[]), "groups=[a, b]");
    assert_eq!(format_scope(&[], &["h".to_string()]), "hosts=[h]");
    assert_eq!(format_scope(&[], &[]), "global");
    let c = config();
    let hosts: Vec<&HostEntry> = c.host.iter().collect();
    let lines = host_lines(&hosts);
    assert_eq!(lines[0], "── Hosts (2) ──");
    assert_eq!(lines.len(), 5);
}

#[test]
fn editors_are_chosen_in_order() {
    assert_eq!(choose_editor(Some("a"), Some("b"), false), "a");
    assert_eq!(choose_editor(None, Some("b"), false), "b");
    assert_eq!(choose_editor(None, None, false), "vi");
    assert_eq!(choose_editor(None, None, true), "notepad");
}

#[test]
fn old_databases_are_brought_up_to_date() {
    assert_eq!(migrate(0).map(|m| m.1), Some(CURRENT_VERSION));
    assert!(migrate(CURRENT_VERSION).is_none());
    assert_ne!(seen_statement(true), seen_statement(false));
    assert_eq!(cleanup(0), None);
    assert_eq!(cleanup(2), Some(172800));
}
