use ssync::config::schema::{HostEntry, ShellType};
use ssync::error::Error;
use ssync::host::auth::{authenticate, key_passphrase, AuthStep};
use ssync::host::connection::{establish_master, master_result, ConnectionManager, ConnectionState};
use ssync::host::executor::{run_remote, transfer_result};
use ssync::host::filter::filter_hosts;
use ssync::host::pool::{filter_reachable, filter_sftp_capable, PoolHostResult};
use ssync::host::session_pool::{
    check_server_key, remote_output, KeyCheck, RemoteOutput, RusshSessionPool,
};
use ssync::host::sftp::{
    check_download_size, check_upload_size, mkdir_p_sftp, remote_home_dir, resolve_remote_path,
    MAX_SFTP_FILE_SIZE,
};
use ssync::host::shell::{detect_russh, sudo_wrap, temp_dir, DetectStep};

fn make_hosts() -> Vec<HostEntry> {
    vec![
        HostEntry {
            name: "a".into(),
            ssh_host: "a".into(),
            shell: ShellType::Sh,
            groups: vec!["web".into()],
            proxy_jump: None,
        },
        HostEntry {
            name: "b".into(),
            ssh_host: "b".into(),
            shell: ShellType::PowerShell,
            groups: vec!["db".into()],
            proxy_jump: None,
        },
        HostEntry {
            name: "c".into(),
            ssh_host: "c".into(),
            shell: ShellType::Sh,
            groups: vec!["web".into()],
            proxy_jump: None,
        },
    ]
}

#[test]
fn test_filter_all() {
    let hosts = make_hosts();
    let result = filter_hosts(&hosts, &[], &[], true);
    assert_eq!(result.len(), 3);
}

#[test]
fn test_filter_by_group() {
    let hosts = make_hosts();
    let result = filter_hosts(&hosts, &["web".into()], &[], false);
    assert_eq!(result.len(), 2);
    assert_eq!(result[0].name, "a");
    assert_eq!(result[1].name, "c");
}

#[test]
fn test_filter_by_host_name() {
    let hosts = make_hosts();
    let result = filter_hosts(&hosts, &[], &["b".into()], false);
    assert_eq!(result.len(), 1);
    assert_eq!(result[0].name, "b");
}

#[test]
fn test_filter_intersection() {
    let hosts = make_hosts();
    let result = filter_hosts(&hosts, &["web".into()], &["c".into()], false);
    assert_eq!(result.len(), 1);
    assert_eq!(result[0].name, "c");
}

#[test]
fn test_pool_host_result_struct() {
    let r: PoolHostResult<String> = PoolHostResult {
        host_name: "h1".into(),
        result: Ok("ok".into()),
        elapsed: std::time::Duration::from_millis(100),
    };
    assert_eq!(r.host_name, "h1");
    assert!(r.result.is_ok());
}

#[test]
fn test_pool_host_result_error() {
    let r: PoolHostResult<String> = PoolHostResult {
        host_name: "h2".into(),
        result: Err(Error::new("connection refused")),
        elapsed: std::time::Duration::from_millis(50),
    };
    assert!(r.result.is_err());
    assert_eq!(r.host_name, "h2");
}

#[test]
fn test_pool_host_result_with_russh_output() {
    let r: PoolHostResult<RemoteOutput> = PoolHostResult {
        host_name: "h1".into(),
        result: Ok(RemoteOutput {
            stdout: "ok".into(),
            stderr: String::new(),
            exit_code: Some(0),
            success: true,
        }),
        elapsed: std::time::Duration::from_millis(50),
    };
    assert!(r.result.is_ok());
}

#[test]
fn test_remote_output_success_flag() {
    let out = RemoteOutput {
        stdout: "hello\n".to_string(),
        stderr: String::new(),
        exit_code: Some(0),
        success: true,
    };
    assert!(out.success);
    assert_eq!(out.stdout.trim(), "hello");
}

#[test]
fn test_remote_output_failure_flag() {
    let out = RemoteOutput {
        stdout: String::new(),
        stderr: "not found\n".to_string(),
        exit_code: Some(127),
        success: false,
    };
    assert!(!out.success);
    assert_eq!(out.exit_code, Some(127));
}

#[test]
fn only_a_zero_exit_is_success() {
    assert!(remote_output("a".into(), "b".into(), Some(0)).success);
    assert!(!remote_output("a".into(), "b".into(), Some(1)).success);
    assert!(!remote_output("a".into(), "b".into(), None).success);
    assert_eq!(remote_output("a".into(), "b".into(), Some(127)).exit_code, Some(127));
}

#[test]
fn test_resolve_path_expands_tilde() {
    assert_eq!(
        resolve_remote_path("~/.config/app.toml", "/home/alice"),
        "/home/alice/.config/app.toml"
    );
}

#[test]
fn test_resolve_path_no_tilde() {
    assert_eq!(resolve_remote_path("/etc/hosts", "/home/alice"), "/etc/hosts");
}

#[test]
fn test_resolve_path_tilde_only() {
    assert_eq!(resolve_remote_path("~", "/home/alice"), "/home/alice");
}

#[test]
fn test_socket_path_short_enough() {
    let mgr = ConnectionManager::new("/tmp/ssync-XXXXXX".to_string());
    let path = mgr.socket_path_for("very-long-hostname.example.com");
    assert!(path.len() < 104, "Socket path too long: {} ({} bytes)", path, path.len());
}

#[test]
fn test_socket_paths_unique() {
    let mgr = ConnectionManager::new("/tmp/ssync-XXXXXX".to_string());
    let p1 = mgr.socket_path_for("host-a");
    let p2 = mgr.socket_path_for("host-b");
    assert_ne!(p1, p2);
}

#[test]
fn test_socket_paths_deterministic() {
    let mgr = ConnectionManager::new("/tmp/ssync-XXXXXX".to_string());
    let p1 = mgr.socket_path_for("host-a");
    let p2 = mgr.socket_path_for("host-a");
    assert_eq!(p1, p2);
}

#[test]
fn connection_test_reachable_hosts_empty_initially() {
    let mgr = ConnectionManager::new("/tmp/ssync-XXXXXX".to_string());
    assert!(mgr.reachable_hosts().is_empty());
    assert!(mgr.failed_hosts().is_empty());
}

#[test]
fn sockets_are_named_after_the_hash_of_the_host() {
    let mgr = ConnectionManager::new("/tmp/d".to_string());
    let hex = blake3::hash("host-a".as_bytes()).to_hex().to_string();
    assert_eq!(mgr.socket_path_for("host-a"), format!("/tmp/d/{}", &hex[..12]));
}

#[test]
fn hosts_are_connected_or_refused() {
    let mut mgr = ConnectionManager::new("/tmp/d".to_string());
    mgr.record("a", "a.example", &Ok(()));
    mgr.record("b", "b.example", &Err(Error::new("timeout")));
    assert_eq!(mgr.reachable_hosts(), vec!["a".to_string()]);
    assert_eq!(mgr.failed_hosts(), vec![("b".to_string(), "timeout".to_string())]);
    assert!(matches!(mgr.state("a"), Some(ConnectionState::Connected { .. })));
    assert!(mgr.socket_for("a").is_some());
    assert!(mgr.socket_for("b").is_none());
    mgr.record_scp_failure("a", "no scp");
    assert_eq!(mgr.scp_failed_hosts(), vec![("a".to_string(), "no scp".to_string())]);
    assert!(mgr.scp_capable_hosts().is_empty());
    mgr.clear();
    assert!(mgr.reachable_hosts().is_empty());
}

#[test]
fn masters_are_asked_for_with_their_socket() {
    let args = establish_master("web", "/tmp/d/s", 7);
    assert!(args.contains(&"ConnectTimeout=7".to_string()));
    assert!(args.iter().any(|a| a.contains("/tmp/d/s")));
    assert_eq!(args.last().map(|s| s.as_str()), Some("web"));
    assert!(master_result(true, "").is_ok());
    assert_eq!(
        master_result(false, " refused \n").unwrap_err().message,
        "ControlMaster failed: refused"
    );
}

#[test]
fn remote_commands_end_with_host_and_command() {
    let hosts = make_hosts();
    let args = run_remote(&hosts[0], "uptime", 5);
    let n = args.len();
    assert_eq!(args[n - 3..], ["a".to_string(), "--".to_string(), "uptime".to_string()]);
    assert!(transfer_result(true, true, "").is_ok());
    assert!(transfer_result(false, false, "denied").is_err());
}

#[test]
fn only_reachable_hosts_go_on() {
    let hosts = make_hosts();
    let all: Vec<&HostEntry> = hosts.iter().collect();
    let left = filter_reachable(&all, &["c".to_string(), "a".to_string()]);
    let names: Vec<&str> = left.iter().map(|h| h.name.as_str()).collect();
    assert_eq!(names, vec!["a", "c"]);
}

#[test]
fn sessions_are_open_or_failed() {
    let mut pool = RusshSessionPool::new();
    pool.record("a", &Ok(()));
    pool.record("b", &Err(Error::new("refused")));
    pool.record_sftp_failure("a", "no sftp");
    assert_eq!(pool.reachable_hosts(), vec!["a".to_string()]);
    assert_eq!(pool.failed_hosts(), vec![("b".to_string(), "refused".to_string())]);
    assert_eq!(pool.sftp_failed_hosts(), vec![("a".to_string(), "no sftp".to_string())]);
    assert!(pool.sftp_capable_hosts().is_empty());
    assert!(pool.check_connected("a").is_ok());
    assert!(pool.check_connected("b").is_err());
}

#[test]
fn changed_keys_are_refused() {
    assert_eq!(check_server_key("h", 22, KeyCheck::Known).unwrap(), true);
    assert!(check_server_key("h", 22, KeyCheck::Changed(3)).is_err());
}

#[test]
fn keys_come_before_passwords() {
    let steps = authenticate(2, false);
    assert_eq!(steps.first(), Some(&AuthStep::Key(0)));
    assert_eq!(steps.last(), Some(&AuthStep::Password));
    assert_eq!(key_passphrase(Some("")), None);
    assert_eq!(key_passphrase(Some("s")), Some("s".to_string()));
}

#[test]
fn large_files_are_refused() {
    assert!(check_upload_size("f", MAX_SFTP_FILE_SIZE).is_ok());
    assert!(check_upload_size("f", MAX_SFTP_FILE_SIZE + 1).is_err());
    assert!(check_download_size("f", MAX_SFTP_FILE_SIZE).is_ok());
    assert!(check_download_size("f", MAX_SFTP_FILE_SIZE + 1).is_err());
}

#[test]
fn directories_are_made_from_the_top() {
    assert_eq!(mkdir_p_sftp("/a/b/c"), vec!["/a", "/a/b", "/a/b/c"]);
    assert_eq!(remote_home_dir("/home/me\r\n"), "/home/me");
}

#[test]
fn commands_are_wrapped_for_the_superuser() {
    assert_eq!(sudo_wrap(ShellType::Sh, "id"), "sudo id");
    assert_eq!(temp_dir(ShellType::Sh), "/tmp");
}

#[test]
fn shells_are_told_apart_by_what_they_print() {
    assert!(matches!(detect_russh("h", &[]), DetectStep::Ask(_)));
    let said = |text: &str, code: u32| Some(remote_output(text.to_string(), String::new(), Some(code)));
    assert!(matches!(
        detect_russh("h", &[said("7\n", 0)]),
        DetectStep::Found(ShellType::PowerShell)
    ));
    assert!(matches!(detect_russh("h", &[said("", 1)]), DetectStep::Ask("ver")));
    assert!(matches!(
        detect_russh("h", &[said("", 1), said("Microsoft Windows", 0)]),
        DetectStep::Found(ShellType::Cmd)
    ));
    assert!(matches!(
        detect_russh("h", &[said("", 1), said("", 1), said("ok\n", 0)]),
        DetectStep::Found(ShellType::Sh)
    ));
    match detect_russh("h", &[None, None, None]) {
        DetectStep::Failed(m) => assert_eq!(
            m,
            "shell detection failed for h: all exec attempts returned errors (session may be dropped)"
        ),
        _ => panic!("no command could be run"),
    }
}

#[test]
fn file_transfer_goes_by_the_ssh_name() {
    let mut hosts = make_hosts();
    hosts[0].ssh_host = "alias".to_string();
    let refs: Vec<&HostEntry> = hosts.iter().collect();
    let capable = filter_sftp_capable(&refs, &["alias".to_string(), "c".to_string()]);
    let names: Vec<&str> = capable.iter().map(|h| h.name.as_str()).collect();
    assert_eq!(names, vec!["a", "c"]);
}

#[test]
fn all_states_are_kept_by_name() {
    let mut m = ConnectionManager::new("/tmp/s".to_string());
    m.record("a", "a", &Ok(()));
    m.record("b", "b", &Err(Error::new("refused")));
    assert_eq!(m.all_states().len(), 2);
    assert!(matches!(m.all_states().get("b"), Some(ConnectionState::Failed { .. })));
}
