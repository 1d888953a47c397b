use ssync::config::schema::ShellType;
use ssync::error::Error;
use ssync::host::session_pool::RemoteOutput;
use ssync::metrics::collector::{
    asked_metrics, collect, collect_pooled, metric_batch, path_size_batch, CollectionResult,
};
use ssync::metrics::data::{MetricData, Scalar, Snapshot};
use ssync::metrics::number::reads_as_float;
use ssync::metrics::parser::{
    parse, parse_batch, parse_batch_paths, parse_path_size, split_by_marker,
};
use ssync::metrics::probes::{batch_command, batch_path_command, command_for, path_size_command};

fn text(d: &MetricData) -> &str {
    match d {
        MetricData::Scalar(Scalar::Text(t)) => t,
        _ => panic!("not a text"),
    }
}

fn field<'a>(d: &'a MetricData, name: &str) -> Option<&'a Scalar> {
    match d {
        MetricData::Record(r) => r.get(name),
        _ => panic!("not a record"),
    }
}

fn number(s: Option<&Scalar>) -> Option<u64> {
    match s {
        Some(Scalar::Number(n)) => Some(*n),
        _ => None,
    }
}

fn output(success: bool, stdout: &str, stderr: &str) -> RemoteOutput {
    RemoteOutput {
        stdout: stdout.to_string(),
        stderr: stderr.to_string(),
        exit_code: Some(if success { 0 } else { 1 }),
        success,
    }
}

#[test]
fn test_parse_batch_splits_metrics() {
    let out = "---METRIC:online\nok\n---METRIC:cpu_arch\nx86_64\n";
    let metrics: Vec<String> = vec!["online".into(), "cpu_arch".into()];
    let result = parse_batch(ShellType::Sh, &metrics, out);
    assert_eq!(result.len(), 2);
    assert!(result.get("online").is_some());
    assert!(result.get("cpu_arch").is_some());
    assert_eq!(text(result.get("cpu_arch").unwrap()), "x86_64");
}

#[test]
fn test_parse_batch_empty_output() {
    let result = parse_batch(ShellType::Sh, &["online".into()], "");
    assert_eq!(result.len(), 0);
}

#[test]
fn test_parse_batch_ignores_unknown_metrics() {
    let out = "---METRIC:online\nok\n---METRIC:unknown_thing\nfoo\n";
    let metrics: Vec<String> = vec!["online".into()];
    let result = parse_batch(ShellType::Sh, &metrics, out);
    assert_eq!(result.len(), 1);
    assert!(result.get("online").is_some());
}

#[test]
fn test_parse_batch_paths_ok() {
    let out = "---PATH:home\n12345\t/home\n---PATH:logs\nMISSING\n";
    let paths: Vec<(String, String)> =
        vec![("~/".into(), "home".into()), ("/var".into(), "logs".into())];
    let result = parse_batch_paths(ShellType::Sh, &paths, out);
    assert_eq!(result.len(), 2);
    assert_eq!(*result.get("home").unwrap(), Some(12345u64));
    assert_eq!(*result.get("logs").unwrap(), None);
}

#[test]
fn test_parse_batch_paths_empty() {
    let result = parse_batch_paths(ShellType::Sh, &[], "");
    assert_eq!(result.len(), 0);
}

#[test]
fn test_split_by_marker() {
    let out = "---METRIC:a\nline1\nline2\n---METRIC:b\nline3\n";
    let result = split_by_marker(out, "---METRIC:");
    assert_eq!(result.len(), 2);
    assert_eq!(result[0].0, "a");
    assert!(result[0].1.contains("line1"));
    assert_eq!(result[1].0, "b");
    assert!(result[1].1.contains("line3"));
}

#[test]
fn test_batch_command_sh_markers() {
    let metrics: Vec<String> = vec!["online".into(), "memory".into()];
    let cmd = batch_command(ShellType::Sh, &metrics);
    assert!(cmd.contains("---METRIC:online"));
    assert!(cmd.contains("---METRIC:memory"));
}

#[test]
fn test_batch_command_ps_markers() {
    let metrics: Vec<String> = vec!["online".into()];
    let cmd = batch_command(ShellType::PowerShell, &metrics);
    assert!(cmd.contains("---METRIC:online"));
}

#[test]
fn test_batch_command_cmd_markers() {
    let metrics: Vec<String> = vec!["online".into(), "cpu_arch".into()];
    let cmd = batch_command(ShellType::Cmd, &metrics);
    assert!(cmd.contains("---METRIC:online"));
    assert!(cmd.contains("---METRIC:cpu_arch"));
}

#[test]
fn test_batch_command_empty() {
    assert!(batch_command(ShellType::Sh, &[]).is_empty());
    assert!(batch_command(ShellType::PowerShell, &[]).is_empty());
    assert!(batch_command(ShellType::Cmd, &[]).is_empty());
}

#[test]
fn test_batch_path_command_sh() {
    let paths: Vec<(String, String)> =
        vec![("~/docs".into(), "docs".into()), ("/var".into(), "var".into())];
    let cmd = batch_path_command(ShellType::Sh, &paths);
    assert!(cmd.contains("---PATH:docs"));
    assert!(cmd.contains("---PATH:var"));
}

#[test]
fn test_batch_path_command_empty() {
    assert!(batch_path_command(ShellType::Sh, &[]).is_empty());
}

#[test]
fn test_collection_result_defaults() {
    let mut data: Snapshot = Snapshot::new();
    data.insert("schema_version".to_string(), MetricData::Scalar(Scalar::Number(1)));
    let cr = CollectionResult { data, succeeded: 0, failed: 0, errors: vec![] };
    assert_eq!(cr.succeeded, 0);
    assert_eq!(cr.failed, 0);
    assert!(cr.errors.is_empty());
}

#[test]
fn batch_commands_are_written_out() {
    let metrics: Vec<String> = vec!["online".into(), "nothing".into(), "cpu_arch".into()];
    assert_eq!(
        batch_command(ShellType::Sh, &metrics),
        "echo '---METRIC:online'; { echo ok; } 2>&1; echo '---METRIC:cpu_arch'; { uname -m; } 2>&1"
    );
    assert_eq!(
        batch_command(ShellType::Cmd, &metrics),
        "echo ---METRIC:online & echo ok & echo ---METRIC:cpu_arch & wmic cpu get AddressWidth /value"
    );
    let paths: Vec<(String, String)> = vec![("/a".into(), "x".into()), ("/b".into(), "y".into())];
    assert_eq!(
        batch_path_command(ShellType::Sh, &paths),
        "echo '---PATH:x'; du -sb /a 2>/dev/null || echo MISSING; \
         echo '---PATH:y'; du -sb /b 2>/dev/null || echo MISSING"
    );
    assert_eq!(
        batch_path_command(ShellType::Cmd, &paths),
        "echo ---PATH:x & dir /s /a \"/a\" 2>nul & echo ---PATH:y & dir /s /a \"/b\" 2>nul"
    );
    assert!(batch_path_command(ShellType::PowerShell, &paths).contains("---PATH:y"));
}

#[test]
fn single_commands_are_written_out() {
    assert_eq!(command_for(ShellType::Sh, "disk"), "df -B1 2>/dev/null || df -k");
    assert_eq!(command_for(ShellType::PowerShell, "cpu_arch"), "$env:PROCESSOR_ARCHITECTURE");
    assert_eq!(command_for(ShellType::Cmd, "network"), "ipconfig");
    assert_eq!(command_for(ShellType::Sh, "gpu"), "");
    assert!(command_for(ShellType::Sh, "ip_address").ends_with("| tr '\\n' ' ')"));
    assert_eq!(path_size_command(ShellType::Sh, "/srv"), "du -sb /srv 2>/dev/null");
    assert_eq!(path_size_command(ShellType::Cmd, "C:\\x"), "dir /s /a \"C:\\x\" 2>nul");
    assert_eq!(
        path_size_command(ShellType::PowerShell, "C:\\x"),
        "(Get-ChildItem -Recurse -File 'C:\\x' | Measure-Object -Property Length -Sum).Sum"
    );
}

#[test]
fn memory_and_swap_are_read_from_free() {
    let out = "       total  used  free\nMem:  16000  9000  7000\nSwap:  200  50  150\n";
    let mem = parse(ShellType::Sh, "memory", out);
    assert_eq!(number(field(&mem, "total_bytes")), Some(16000));
    assert_eq!(number(field(&mem, "used_bytes")), Some(9000));
    let swap = parse(ShellType::Sh, "swap", out);
    assert_eq!(number(field(&swap, "total_bytes")), Some(200));
    assert_eq!(number(field(&swap, "used_bytes")), Some(50));
    let odd = parse(ShellType::Sh, "memory", "Mem: x 5\nMem: 1\n");
    assert_eq!(number(field(&odd, "total_bytes")), None);
    assert_eq!(number(field(&odd, "used_bytes")), Some(5));
}

#[test]
fn disks_are_read_line_by_line() {
    let out = "Filesystem 1B-blocks Used Available Use% Mounted on\n\
               /dev/sda1 1000 400 600 40% /\n\
               tmpfs 5\n\
               /dev/sdb1 x 7 1 1% /mnt/data\n";
    match parse(ShellType::Sh, "disk", out) {
        MetricData::Records(rows) => {
            assert_eq!(rows.len(), 2);
            assert_eq!(number(rows[0].get("total_bytes")), Some(1000));
            assert_eq!(number(rows[0].get("used_bytes")), Some(400));
            assert!(matches!(rows[0].get("mount"), Some(Scalar::Text(t)) if t == "/"));
            assert!(rows[1].get("total_bytes").is_none());
            assert!(matches!(rows[1].get("mount"), Some(Scalar::Text(t)) if t == "/mnt/data"));
        }
        _ => panic!("not a list"),
    }
    assert!(matches!(parse(ShellType::Sh, "disk", ""), MetricData::Records(r) if r.is_empty()));
}

#[test]
fn system_info_keeps_the_line_and_two_words() {
    let d = parse(ShellType::Sh, "system_info", "Linux web1 6.1.0 #1 SMP\nweb1\n");
    assert!(matches!(field(&d, "uname"), Some(Scalar::Text(t)) if t == "Linux web1 6.1.0 #1 SMP"));
    assert!(matches!(field(&d, "hostname"), Some(Scalar::Text(t)) if t == "web1"));
    assert!(matches!(field(&d, "kernel"), Some(Scalar::Text(t)) if t == "6.1.0"));
    assert!(field(&parse(ShellType::Sh, "system_info", ""), "uname").is_none());
}

#[test]
fn loads_are_kept_as_written() {
    let d = parse(ShellType::Sh, "cpu_load", "0.52 x 0.21 1/234 5678\n");
    assert!(matches!(field(&d, "load1"), Some(Scalar::Decimal(t)) if t == "0.52"));
    assert!(field(&d, "load5").is_none());
    assert!(matches!(field(&d, "load15"), Some(Scalar::Decimal(t)) if t == "0.21"));
}

#[test]
fn float_texts_are_those_that_std_reads() {
    let cases = [
        "0.52", "1", "+1", "-1.", ".5", "1e5", "1E-5", "2.5e+10", "inf", "-INF", "Infinity", "nan",
        "", "+", ".", "e5", "1e", "1e+", "1.2.3", "0x10", "1 ", "infin", "--1", "1f", "+.e1", "5e5e5",
    ];
    for c in cases {
        assert_eq!(reads_as_float(c), c.parse::<f64>().is_ok(), "{}", c);
    }
}

#[test]
fn batteries_are_found_and_measured() {
    let none = parse(ShellType::Sh, "battery", "\n");
    assert!(matches!(field(&none, "present"), Some(Scalar::Flag(false))));
    let missing = parse(ShellType::Sh, "battery", "cat: BAT0: No such file or directory");
    assert!(matches!(field(&missing, "present"), Some(Scalar::Flag(false))));
    let full = parse(ShellType::Sh, "battery", "state: x\n 87 %\n50%\n");
    assert!(matches!(field(&full, "present"), Some(Scalar::Flag(true))));
    assert_eq!(number(field(&full, "percent")), Some(87));
    let plain = parse(ShellType::Sh, "battery", "87\n");
    assert_eq!(number(field(&plain, "percent")), None);
}

#[test]
fn other_shells_keep_the_text() {
    assert_eq!(text(&parse(ShellType::PowerShell, "memory", " {\"a\":1} \n")), "{\"a\":1}");
    assert_eq!(text(&parse(ShellType::Cmd, "disk", " x \n")), "x");
    assert_eq!(text(&parse(ShellType::Sh, "network", " x \n")), "x");
}

#[test]
fn sizes_are_the_first_word() {
    assert_eq!(parse_path_size(ShellType::Sh, "12345\t/home\n"), 12345);
    assert_eq!(parse_path_size(ShellType::Sh, "du: x"), 0);
    assert_eq!(parse_path_size(ShellType::Sh, ""), 0);
}

#[test]
fn a_batch_that_fails_may_still_measure() {
    let enabled: Vec<String> = vec!["online".into(), "disk".into()];
    let paths: Vec<(String, String)> = vec![("/a".into(), "x".into()), ("/b".into(), "y".into())];
    let c = collect_pooled(
        ShellType::Sh,
        &enabled,
        &paths,
        &Some(Ok(output(false, "---METRIC:online\nok\n", " broken \n"))),
        &Some(Ok(output(true, "---PATH:x\n7 /a\n---PATH:y\nMISSING\n", ""))),
    );
    assert_eq!((c.succeeded, c.failed), (2, 2));
    assert_eq!(c.errors, vec!["disk: broken", "path(y): MISSING"]);
    assert_eq!(text(c.data.get("online").unwrap()), "ok");
    match c.data.get("paths").unwrap() {
        MetricData::Records(rows) => {
            assert_eq!(rows.len(), 1);
            assert_eq!(number(rows[0].get("size_bytes")), Some(7));
            assert!(matches!(rows[0].get("path"), Some(Scalar::Text(t)) if t == "/a"));
            assert!(matches!(rows[0].get("label"), Some(Scalar::Text(t)) if t == "x"));
        }
        _ => panic!("not a list"),
    }
    let d = collect_pooled(
        ShellType::Sh,
        &enabled,
        &paths,
        &Some(Ok(output(true, "", ""))),
        &Some(Err(Error::new("timeout"))),
    );
    assert_eq!((d.succeeded, d.failed), (0, 4));
    assert_eq!(
        d.errors,
        vec!["online: no output in batch", "disk: no output in batch", "batch paths: timeout"]
    );
    let e = collect_pooled(ShellType::Sh, &enabled, &paths, &Some(Err(Error::new("gone"))), &None);
    assert_eq!((e.succeeded, e.failed), (0, 2));
    assert_eq!(e.errors, vec!["batch metrics: gone"]);
    assert!(e.data.get("schema_version").is_some());
    let f = collect_pooled(
        ShellType::Sh,
        &enabled,
        &paths,
        &None,
        &Some(Ok(output(true, "---PATH:x\n1\n", ""))),
    );
    assert_eq!(f.errors, vec!["path(y): no output in batch"]);
}

#[test]
fn answers_one_by_one() {
    let enabled: Vec<String> = vec!["online".into(), "nothing".into(), "disk".into()];
    let asked = asked_metrics(ShellType::Sh, &enabled);
    assert_eq!(asked, vec!["online", "disk"]);
    let c = collect(
        ShellType::Sh,
        &asked,
        &[Ok(output(true, "ok\n", "")), Err(Error::new("timeout"))],
        &[("/a".into(), "x".into()), ("/b".into(), "y".into())],
        &[Ok(output(true, "9 /a", "")), Ok(output(false, "", " denied "))],
    );
    assert_eq!((c.succeeded, c.failed), (2, 2));
    assert_eq!(c.errors, vec!["disk: timeout", "path(y): denied"]);
}

#[test]
fn batches_are_left_out_where_nothing_is_asked() {
    assert!(metric_batch(ShellType::Sh, &[]).is_none());
    assert!(metric_batch(ShellType::Sh, &["nothing".into()]).is_none());
    assert!(metric_batch(ShellType::Sh, &["online".into()]).is_some());
    assert!(path_size_batch(ShellType::Sh, &[]).is_none());
    assert!(path_size_batch(ShellType::Cmd, &[("a".into(), "b".into())]).is_some());
}
