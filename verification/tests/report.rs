use ssync::commands::TargetMode;
use ssync::output::printer::host_line;
use ssync::output::report::{
    choose_format, count_results, html_escape, render_html_report, render_output_html, write_report, FilterInfo,
    HostOutput, HostResult, OperationReport, OutputBody, PageRow, ReportFormat, ReportPage,
    ReportSummary,
};

fn sample_page(command: &str) -> ReportPage {
    ReportPage {
        command: command.to_string(),
        executed_at: "2026-04-29T10:00:00Z".to_string(),
        filter: FilterInfo {
            mode: "hosts".to_string(),
            values: Some(vec!["host1".to_string()]),
        },
        task_json: "{\n  \"command\": \"echo hi\"\n}".to_string(),
        targets_json: "[\n  \"host1\"\n]".to_string(),
        summary: ReportSummary { total: 1, success: 1, failed: 0, skipped: 0 },
        rows: vec![PageRow {
            host: "host1".to_string(),
            status: "success".to_string(),
            duration_ms: Some(42),
            body: OutputBody::Streams { stdout: "hi\n".to_string(), stderr: String::new() },
            raw: "{}".to_string(),
        }],
    }
}

fn sample_report(command: &str) -> OperationReport {
    let results = vec![HostResult {
        host: "host1".to_string(),
        status: "success".to_string(),
        duration_ms: Some(42),
        output: HostOutput::Streams { stdout: "hi\n".to_string(), stderr: String::new() },
    }];
    let summary = count_results(&results);
    OperationReport {
        executed_at: "2026-04-29T10:00:00Z".to_string(),
        command: command.to_string(),
        filter: FilterInfo::from_mode(&TargetMode::Hosts(vec!["host1".to_string()])),
        targets: vec!["host1".to_string()],
        results,
        summary,
    }
}

#[test]
fn test_write_report_json_explicit_path() {
    let report = sample_report("run");
    let (path, format) = write_report("/tmp/x/out.json", &report.command, "stamp", None).unwrap();
    assert_eq!(path, "/tmp/x/out.json");
    assert!(format == ReportFormat::Json);
    assert_eq!(report.command, "run");
    assert_eq!(report.summary.total, 1);
    assert!(report.summary == ReportSummary { total: 1, success: 1, failed: 0, skipped: 0 });
    assert_eq!(report.filter.mode, "hosts");
    assert_eq!(report.filter.values, Some(vec!["host1".to_string()]));
}

#[test]
fn test_write_report_html_explicit_path() {
    let (path, format) = write_report("/tmp/x/out.html", "run", "stamp", None).unwrap();
    assert_eq!(path, "/tmp/x/out.html");
    assert!(format == ReportFormat::Html);
    let content = render_html_report(&sample_page("run"));
    assert!(content.contains("<!DOCTYPE html>"));
    assert!(content.contains("host1"));
    assert!(content.contains("success"));
    assert!(content.contains("<h1>ssync run report</h1>"));
    assert!(content.contains("Total: 1</span>"));
    assert!(content.contains("<strong>Filter:</strong> hosts"));
}

#[test]
fn test_write_report_auto_filename() {
    let report = sample_report("check");
    let (path, format) =
        write_report("/tmp/x/ssync-check-test.json", &report.command, "stamp", None).unwrap();
    assert_eq!(path, "/tmp/x/ssync-check-test.json");
    assert!(format == ReportFormat::Json);
    assert_eq!(report.command, "check");
    let (path, format) = write_report("", "check", "20260429-100000", None).unwrap();
    assert_eq!(path, "ssync-check-20260429-100000.json");
    assert!(format == ReportFormat::Json);
    let (path, _) = write_report("", "check", "s", Some("html")).unwrap();
    assert_eq!(path, "ssync-check-s.html");
}

#[test]
fn test_write_report_unsupported_extension() {
    let result = write_report("/tmp/x/out.csv", "run", "stamp", None);
    assert!(result.is_err());
    let message = result.unwrap_err().message;
    assert!(message.contains("Unsupported"));
    assert_eq!(message, "Unsupported output format '.csv'. Use .json or .html");
}

#[test]
fn test_write_report_configured_default_html() {
    let (path, format) = write_report("/tmp/x/report", "check", "stamp", Some("html")).unwrap();
    assert_eq!(path, "/tmp/x/report");
    assert!(format == ReportFormat::Html);
    let content = render_html_report(&sample_page("check"));
    assert!(content.contains("<!DOCTYPE html>"));
    assert!(content.contains("<title>ssync check report</title>"));
}

#[test]
fn test_write_report_path_extension_overrides_configured_default() {
    let report = sample_report("run");
    let (_, format) =
        write_report("/tmp/x/out.json", &report.command, "stamp", Some("html")).unwrap();
    assert!(format == ReportFormat::Json);
    assert_eq!(report.command, "run");
}

#[test]
fn test_filter_info_all_has_no_values() {
    let fi = FilterInfo::from_mode(&TargetMode::All);
    assert_eq!(fi.mode, "all");
    assert!(fi.values.is_none());
}

#[test]
fn extensions_are_read_whatever_their_case() {
    assert!(choose_format(Some("HTML"), None).unwrap() == ReportFormat::Html);
    assert!(choose_format(Some(""), Some("html")).unwrap() == ReportFormat::Html);
    assert!(choose_format(None, None).unwrap() == ReportFormat::Json);
    assert_eq!(
        choose_format(Some("XML"), None).unwrap_err().message,
        "Unsupported output format '.xml'. Use .json or .html"
    );
}

#[test]
fn nothing_in_a_text_is_taken_for_markup() {
    assert_eq!(html_escape("<a href=\"x\">&'"), "&lt;a href=&quot;x&quot;&gt;&amp;&#x27;");
    assert_eq!(html_escape("plain"), "plain");
    let body = render_output_html(&OutputBody::Streams {
        stdout: "<script>".to_string(),
        stderr: String::new(),
    });
    assert!(!body.contains("<script>"));
    assert!(body.contains("&lt;script&gt;"));
}

#[test]
fn filters_are_named() {
    let hosts = FilterInfo::from_mode(&TargetMode::Hosts(vec!["a".to_string()]));
    assert_eq!(hosts.mode, "hosts");
    assert_eq!(hosts.values, Some(vec!["a".to_string()]));
}

#[test]
fn host_lines_name_the_host() {
    assert!(host_line("web1", "ok", "fine").contains("web1"));
}
