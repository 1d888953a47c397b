use ssync::output::summary::{Summary, SyncSummary};

#[test]
fn test_skip_reason_recorded() {
    let mut s = Summary::default();
    s.add_skip_with_reason("~/.bashrc", "host-a", "source 'host-a' does not have '~/.bashrc'");
    assert_eq!(s.skipped, 1);
    assert_eq!(s.skip_reasons.len(), 1);
    assert_eq!(s.skip_reasons[0].path, "~/.bashrc");
    assert_eq!(s.skip_reasons[0].host, "host-a");
}

#[test]
fn test_summary_counts() {
    let mut s = Summary::default();
    s.add_success();
    s.add_success();
    s.add_failure("host-x", "timeout");
    s.add_skip_with_reason("~/f", "h", "missing");
    assert_eq!(s.succeeded, 2);
    assert_eq!(s.failed, 1);
    assert_eq!(s.skipped, 1);
}

#[test]
fn test_errors_dedup_pathless() {
    let mut s = Summary::default();
    s.add_failure("host-a", "connection refused");
    s.add_failure("host-a", "connection refused");
    s.add_failure("host-b", "timeout");
    assert_eq!(s.failed, 3);
    assert_eq!(s.errors.len(), 3);
}

#[test]
fn test_errors_with_path_grouping() {
    let mut s = Summary::default();
    s.add_failure_with_path("host-a", "scp failed", "~/.zshrc");
    s.add_failure_with_path("host-b", "scp failed", "~/.zshrc");
    s.add_failure_with_path("host-a", "scp failed", "~/.bashrc");
    s.add_failure_with_path("host-b", "scp failed", "~/.bashrc");
    assert_eq!(s.failed, 4);
    assert_eq!(s.errors.len(), 4);
    assert!(s.errors.iter().all(|e| e.path.is_some()));
}

#[test]
fn test_sync_summary_file_in_sync() {
    let mut s = SyncSummary::default();
    s.file_in_sync(&["host-a", "host-b", "host-c"]);
    assert_eq!(s.files_synced, 1);
    assert_eq!(s.transfers_passed, 3);
    assert_eq!(s.transfers_synced, 0);
    assert_eq!(s.transfers_failed, 0);
}

#[test]
fn test_sync_summary_complete_file_all_success() {
    let mut s = SyncSummary::default();
    s.complete_file(
        "~/.bashrc",
        &["host-a".to_string()],
        &["host-b".to_string(), "host-c".to_string()],
        &[],
    );
    assert_eq!(s.files_synced, 1);
    assert_eq!(s.files_partial, 0);
    assert_eq!(s.files_failed, 0);
    assert_eq!(s.transfers_passed, 1);
    assert_eq!(s.transfers_synced, 2);
    assert_eq!(s.transfers_failed, 0);
}

#[test]
fn test_sync_summary_complete_file_partial() {
    let mut s = SyncSummary::default();
    s.complete_file(
        "~/.zshrc",
        &["host-a".to_string()],
        &["host-b".to_string()],
        &[("host-c".to_string(), "scp failed".to_string())],
    );
    assert_eq!(s.files_synced, 0);
    assert_eq!(s.files_partial, 1);
    assert_eq!(s.files_failed, 0);
    assert_eq!(s.transfers_passed, 1);
    assert_eq!(s.transfers_synced, 1);
    assert_eq!(s.transfers_failed, 1);
    assert_eq!(s.errors.len(), 1);
    assert_eq!(s.errors[0].host, "host-c");
    assert_eq!(s.errors[0].path, Some("~/.zshrc".to_string()));
}

#[test]
fn test_sync_summary_complete_file_all_failed() {
    let mut s = SyncSummary::default();
    s.complete_file(
        "~/config",
        &[],
        &[],
        &[
            ("host-a".to_string(), "download failed".to_string()),
            ("host-b".to_string(), "download failed".to_string()),
        ],
    );
    assert_eq!(s.files_synced, 0);
    assert_eq!(s.files_partial, 0);
    assert_eq!(s.files_failed, 1);
    assert_eq!(s.transfers_failed, 2);
}

#[test]
fn test_sync_summary_host_failure() {
    let mut s = SyncSummary::default();
    s.add_host_failure("host-x", "unreachable");
    assert_eq!(s.transfers_failed, 1);
    assert_eq!(s.errors.len(), 1);
    assert!(s.errors[0].path.is_none());
}

#[test]
fn test_sync_summary_skip() {
    let mut s = SyncSummary::default();
    s.add_skip_with_reason("~/.vimrc", "host-a", "source missing");
    assert_eq!(s.files_skipped, 1);
    assert_eq!(s.skip_reasons.len(), 1);
}

#[test]
fn test_sync_summary_mixed_scenario() {
    let mut s = SyncSummary::default();
    s.add_host_failure("iphone12", "unreachable");
    s.file_in_sync(&["macmini", "smbnfs", "realme", "debian"]);
    s.complete_file(
        "~/.gemini/oauth_creds.json",
        &["smbnfs".to_string(), "realme".to_string(), "debian".to_string()],
        &[],
        &[("realmed".to_string(), "scp upload failed".to_string())],
    );
    s.add_skip_with_reason("~/.vimrc", "macmini", "source does not have file");

    assert_eq!(s.files_synced, 1);
    assert_eq!(s.files_partial, 1);
    assert_eq!(s.files_failed, 0);
    assert_eq!(s.files_skipped, 1);
    assert_eq!(s.transfers_passed, 4 + 3);
    assert_eq!(s.transfers_synced, 0);
    assert_eq!(s.transfers_failed, 1 + 1);
}

#[test]
fn test_sync_summary_tracks_passed_hosts() {
    let mut s = SyncSummary::default();
    s.file_in_sync(&["host-a", "host-b", "host-c"]);
    assert_eq!(s.transfers_passed_hosts, vec!["host-a", "host-b", "host-c"]);
}

#[test]
fn test_sync_summary_tracks_synced_hosts() {
    let mut s = SyncSummary::default();
    s.complete_file(
        "~/.bashrc",
        &["host-a".to_string()],
        &["host-b".to_string(), "host-c".to_string()],
        &[],
    );
    assert_eq!(s.transfers_passed_hosts, vec!["host-a"]);
    assert_eq!(s.transfers_synced_hosts, vec!["host-b", "host-c"]);
}

#[test]
fn test_sync_summary_tracks_failed_hosts() {
    let mut s = SyncSummary::default();
    s.complete_file(
        "~/config",
        &[],
        &[],
        &[
            ("host-a".to_string(), "download failed".to_string()),
            ("host-b".to_string(), "download failed".to_string()),
        ],
    );
    assert_eq!(s.transfers_failed_hosts, vec!["host-a", "host-b"]);
}

#[test]
fn test_sync_summary_tracks_host_failure_hosts() {
    let mut s = SyncSummary::default();
    s.add_host_failure("host-x", "unreachable");
    assert_eq!(s.transfers_failed_hosts, vec!["host-x"]);
}

#[test]
fn test_sync_summary_deduplicates_hosts_in_format() {
    let mut s = SyncSummary::default();
    s.complete_file("~/.bashrc", &[], &["host-a".to_string()], &[]);
    s.complete_file("~/.zshrc", &[], &["host-a".to_string()], &[]);
    assert_eq!(s.transfers_synced, 2);
    assert_eq!(SyncSummary::format_hosts(&s.transfers_synced_hosts), "host-a");
}
