use ssync::config::app::{
    apply_config_to_doc, config_dir, inject_config_comments, new_content, resolve_path, strip_bom,
    SaveContent,
};
use ssync::config::paths::{expand_tilde, PathText, Platform};
use ssync::config::schema::{AppConfig, ConflictStrategy, Settings};
use ssync::config::ssh_config::{
    is_wildcard, parse_ssh_config_content, resolve_host_with_config, ParsedSshConfig,
};

fn empty_config() -> AppConfig {
    AppConfig { settings: Settings::default(), host: vec![], check: vec![], sync: vec![] }
}

/// What a save writes over a text.
fn saved_over(original: &str, config: &AppConfig) -> String {
    match new_content(Some(original), "", config) {
        SaveContent::Edited(text) => text,
        _ => panic!("the text is a document with a table of settings"),
    }
}

#[test]
fn bom_is_stripped_on_load() {
    let with_bom = format!("\u{feff}[settings]\ndefault_timeout = 7\n");
    assert_eq!(strip_bom(&with_bom), "[settings]\ndefault_timeout = 7\n");
    assert_eq!(strip_bom("[settings]\n"), "[settings]\n");
    let doc: toml_edit::DocumentMut = strip_bom(&with_bom).parse().unwrap();
    assert_eq!(doc["settings"]["default_timeout"].as_integer(), Some(7));
}

#[test]
fn tilde_resolution() {
    match resolve_path(Some("~/foo/bar.toml"), Platform::Other) {
        PathText::BelowHome(rest) => assert_eq!(rest, "foo/bar.toml"),
        other => panic!("not below the home directory: {:?}", other),
    }
}

#[test]
fn the_default_file_lies_below_the_home_directory() {
    match resolve_path(None, Platform::Other) {
        PathText::BelowHome(rest) => assert_eq!(rest, ".config/ssync/config.toml"),
        other => panic!("not below the home directory: {:?}", other),
    }
    assert!(matches!(config_dir(Platform::Other), PathText::BelowHome(ref d) if d == ".config/ssync"));
    assert!(matches!(
        resolve_path(None, Platform::Windows),
        PathText::BelowConfigDir(ref rest) if rest == "ssync\\config.toml"
    ));
    assert!(matches!(config_dir(Platform::Windows), PathText::BelowConfigDir(ref d) if d == "ssync"));
}

#[test]
fn paths_that_are_asked_for_are_taken() {
    for platform in [Platform::Other, Platform::Windows] {
        assert!(matches!(resolve_path(Some("~"), platform), PathText::Home));
        assert!(matches!(
            resolve_path(Some("~\\c.toml"), platform),
            PathText::BelowHome(ref rest) if rest == "c.toml"
        ));
        for text in ["/etc/c.toml", "c.toml", "a/~/b", "", "~other/c.toml"] {
            assert!(matches!(
                resolve_path(Some(text), platform),
                PathText::AsWritten(ref p) if p == text
            ));
        }
    }
}

#[test]
fn t_wb_2_preserve_unknown_key() {
    let original = "\
[settings]
default_timeout = 30
unknown_future_option = true
";
    let after = saved_over(original, &empty_config());
    assert!(after.contains("unknown_future_option = true"), "unknown key dropped:\n{after}");
}

#[test]
fn t_wb_3_inline_comment_survives_scalar_edit() {
    let original = "\
[settings]
max_concurrency = 10  # max 50
";
    let mut cfg = empty_config();
    cfg.settings.max_concurrency = 20;
    let after = saved_over(original, &cfg);
    assert!(after.contains("max_concurrency = 20"), "value not updated:\n{after}");
    assert!(after.contains("# max 50"), "inline comment dropped:\n{after}");
}

#[test]
fn a_save_edits_what_is_there() {
    let original = "\u{feff}# mine\n[settings]\ndefault_timeout =   7 # short\nconflict_strategy = \"skip\"\nskipped_hosts = [\"x\"]\nstate_dir = \"/s\"\n\n[other]\nkey = 1\n";
    let mut cfg = empty_config();
    cfg.settings.default_timeout = 9;
    cfg.settings.state_dir = Some("/t".to_string());
    let after = saved_over(original, &cfg);
    assert!(after.starts_with("# mine\n[settings]\ndefault_timeout =   9 # short\n"));
    assert!(after.contains("conflict_strategy = \"newest\"\n"));
    assert!(!after.contains("skipped_hosts"));
    assert!(after.contains("state_dir = \"/t\"\n"));
    assert!(after.contains("max_concurrency = 10\n"));
    assert!(after.contains("[other]\nkey = 1\n"));
    let read: toml_edit::DocumentMut = after.parse().unwrap();
    assert_eq!(read["settings"]["default_timeout"].as_integer(), Some(9));
    assert_eq!(saved_over(&after, &cfg), after);
}

#[test]
fn a_save_makes_a_new_file_with_guidance() {
    let fresh = "[settings]\ndefault_timeout = 30\n";
    match new_content(None, fresh, &empty_config()) {
        SaveContent::Created(text) => assert_eq!(text, inject_config_comments(fresh)),
        _ => panic!("there was no file"),
    }
}

#[test]
fn a_save_replaces_what_is_no_document() {
    match new_content(Some("[settings\n"), "fresh = 1\n", &empty_config()) {
        SaveContent::Replaced { text, fault } => {
            assert_eq!(text, "fresh = 1\n");
            assert!(fault.contains("TOML parse error"));
        }
        _ => panic!("the bracket is not closed"),
    }
}

#[test]
fn a_save_refuses_settings_that_are_no_table() {
    assert!(matches!(
        new_content(Some("settings = 3\n"), "", &empty_config()),
        SaveContent::NotATable
    ));
}

#[test]
fn keywords_are_read_whatever_their_case() {
    let config = parse_ssh_config_content("HOST web\n  HOSTNAME 10.0.0.1\n  pOrT 2200\n").unwrap();
    let found = resolve_host_with_config("web", &config).unwrap();
    assert_eq!(found.hostname, "10.0.0.1");
    assert_eq!(found.port, 2200);
}

#[test]
fn identities_only_is_taken_over() {
    let text = "Host a\n  IdentitiesOnly yes\nHost b\n  IdentitiesOnly no\nHost c\n  User u\n";
    let config = parse_ssh_config_content(text).unwrap();
    let only = |alias: &str| resolve_host_with_config(alias, &config).unwrap().identities_only;
    assert!(only("a"));
    assert!(!only("b"));
    assert!(!only("c"));
    let config = parse_ssh_config_content(&format!("{text}Host *\n  identitiesonly YES\n"));
    let config = config.unwrap();
    let only = |alias: &str| resolve_host_with_config(alias, &config).unwrap().identities_only;
    assert!(!only("b"));
    assert!(only("c"));
    assert!(only("unknown"));
}

#[test]
fn every_setting_is_written() {
    let mut doc: toml_edit::DocumentMut = "".parse().unwrap();
    let mut cfg = empty_config();
    cfg.settings.default_timeout = 12;
    cfg.settings.conflict_strategy = ConflictStrategy::Skip;
    cfg.settings.skipped_hosts = vec!["x".to_string(), "y".to_string()];
    assert!(apply_config_to_doc(&mut doc, &cfg));
    let s = &doc["settings"];
    assert_eq!(s["default_timeout"].as_integer(), Some(12));
    assert_eq!(s["conflict_strategy"].as_str(), Some("skip"));
    let skipped: Vec<&str> =
        s["skipped_hosts"].as_array().unwrap().iter().map(|v| v.as_str().unwrap()).collect();
    assert_eq!(skipped, vec!["x", "y"]);
}

#[test]
fn saving_twice_writes_the_same() {
    let mut doc: toml_edit::DocumentMut = "[settings]\nkeep = 1 # why\n".parse().unwrap();
    let cfg = empty_config();
    assert!(apply_config_to_doc(&mut doc, &cfg));
    let once = doc.to_string();
    assert!(apply_config_to_doc(&mut doc, &cfg));
    assert_eq!(doc.to_string(), once);
}

#[test]
fn settings_that_are_no_table_are_refused() {
    let mut doc: toml_edit::DocumentMut = "settings = 3\n".parse().unwrap();
    assert!(!apply_config_to_doc(&mut doc, &empty_config()));
    assert_eq!(doc["settings"].as_integer(), Some(3));
}

#[test]
fn comments_are_added_to_a_new_file() {
    let with = inject_config_comments("[settings]\ndefault_timeout = 30\n");
    assert!(with.contains("[settings]\n"));
    assert!(with.contains("default_timeout = 30"));
    assert!(with.len() > "[settings]\ndefault_timeout = 30\n".len());
}

#[test]
fn test_per_host_concurrency_default() {
    let settings = Settings::default();
    assert_eq!(settings.max_per_host_concurrency, 4);
}

#[test]
fn settings_have_their_defaults() {
    let s = Settings::default();
    assert_eq!(s.default_timeout, 30);
    assert_eq!(s.data_retention_days, 90);
    assert_eq!(s.max_concurrency, 10);
    assert!(s.conflict_strategy == ConflictStrategy::Newest);
    assert!(!s.propagate_deletes);
    assert!(s.skipped_hosts.is_empty());
}

#[test]
fn tildes_stand_for_the_home_directory() {
    assert!(matches!(expand_tilde("~/x"), PathText::BelowHome(ref r) if r == "x"));
    assert!(matches!(expand_tilde("/x"), PathText::AsWritten(ref r) if r == "/x"));
    assert!(matches!(expand_tilde("~other/x"), PathText::AsWritten(ref r) if r == "~other/x"));
}

#[test]
fn test_parse_basic_config() {
    let content = r#"
Host home-linux
    HostName 192.168.1.10
    User alice
    Port 22
    IdentityFile ~/.ssh/id_rsa

Host work-windows
    HostName 10.0.0.5
    User bob

Host *
    ServerAliveInterval 60
"#;
    let config = parse_ssh_config_content(content).unwrap();
    assert_eq!(config.hosts.len(), 2);
    assert_eq!(config.hosts[0].name, "home-linux");
    assert_eq!(config.hosts[0].hostname.as_deref(), Some("192.168.1.10"));
    assert_eq!(config.hosts[0].user.as_deref(), Some("alice"));
    assert_eq!(config.hosts[0].port, Some(22));
    assert_eq!(config.hosts[1].name, "work-windows");
    assert_eq!(config.hosts[1].hostname.as_deref(), Some("10.0.0.5"));
}

#[test]
fn test_skip_wildcards_in_hosts_list() {
    let content = "Host *\n    ServerAliveInterval 60\n\nHost ?\n    Foo bar\n";
    let config = parse_ssh_config_content(content).unwrap();
    assert!(config.hosts.is_empty());
}

#[test]
fn test_multi_alias_parsed_as_separate_hosts() {
    let content = r#"
Host bastion.bss-qa slb225
    HostName 10.0.0.1
    User admin
    Port 2222

Host web1
    HostName 192.168.1.10
"#;
    let config = parse_ssh_config_content(content).unwrap();
    assert_eq!(config.hosts.len(), 3);
    let bss = config.hosts.iter().find(|h| h.name == "bastion.bss-qa").unwrap();
    let slb = config.hosts.iter().find(|h| h.name == "slb225").unwrap();
    let web = config.hosts.iter().find(|h| h.name == "web1").unwrap();
    assert_eq!(bss.hostname.as_deref(), Some("10.0.0.1"));
    assert_eq!(bss.port, Some(2222));
    assert_eq!(slb.hostname.as_deref(), Some("10.0.0.1"));
    assert_eq!(slb.port, Some(2222));
    assert_eq!(web.hostname.as_deref(), Some("192.168.1.10"));
}

#[test]
fn test_proxy_jump_parsed() {
    let content = r#"
Host internal
    HostName 10.10.0.5
    ProxyJump bastion
"#;
    let config = parse_ssh_config_content(content).unwrap();
    assert_eq!(config.hosts[0].proxy_jump.as_deref(), Some("bastion"));
}

#[test]
fn test_wildcard_inheritance_fills_missing_fields() {
    let content = r#"
Host specific
    HostName 10.0.0.1

Host *
    User defaultuser
    IdentityFile ~/.ssh/id_rsa
    Port 2222
"#;
    let config = parse_ssh_config_content(content).unwrap();
    let resolved = config.query("specific");
    assert_eq!(resolved.hostname, "10.0.0.1");
    assert_eq!(resolved.user, "defaultuser");
    assert_eq!(resolved.port, 2222);
    assert!(!resolved.identity_files.is_empty());
}

#[test]
fn test_specific_host_overrides_wildcard() {
    let content = r#"
Host myhost
    HostName 10.0.0.5
    User specialuser
    Port 443

Host *
    User defaultuser
    Port 22
"#;
    let config = parse_ssh_config_content(content).unwrap();
    let resolved = config.query("myhost");
    assert_eq!(resolved.user, "specialuser");
    assert_eq!(resolved.port, 443);
}

#[test]
fn test_unknown_host_falls_back_to_alias_as_hostname() {
    let content = r#"
Host known
    HostName 192.168.1.1
"#;
    let config = parse_ssh_config_content(content).unwrap();
    let resolved = config.query("unknown-host");
    assert_eq!(resolved.hostname, "unknown-host");
    assert_eq!(resolved.port, 22);
}

#[test]
fn test_resolve_host_falls_back_to_alias() {
    let result =
        resolve_host_with_config("nonexistent-test-host-xyz", &ParsedSshConfig::default());
    let resolved = result.unwrap();
    assert_eq!(resolved.hostname, "nonexistent-test-host-xyz");
    assert_eq!(resolved.port, 22);
}

#[test]
fn test_proxy_alias_resolved_from_config() {
    let resolved = resolve_host_with_config("nonexistent-xyz-direct", &ParsedSshConfig::default());
    let r = resolved.unwrap();
    assert!(r.proxy_jump.is_none(), "Host not in config should have no ProxyJump");
}

#[test]
fn a_host_without_a_user_is_entered_under_the_login_name() {
    let config = parse_ssh_config_content("Host a\n  HostName b\n").unwrap();
    assert_eq!(config.query("a").user, whoami::username());
    assert_eq!(config.query_as("a", "me").user, "me");
}

#[test]
fn keys_below_home_are_kept_as_such() {
    let config = parse_ssh_config_content("Host a\n  IdentityFile ~/.ssh/key\n").unwrap();
    let resolved = config.query_as("a", "me");
    assert_eq!(resolved.identity_files.len(), 1);
    assert!(matches!(resolved.identity_files[0], PathText::BelowHome(ref r) if r == ".ssh/key"));
}

#[test]
fn patterns_are_no_hosts() {
    assert!(is_wildcard("*"));
    assert!(is_wildcard("web?"));
    assert!(!is_wildcard("web1"));
}
