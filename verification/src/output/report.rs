//! The report of a command that is written to a file.

use vstd::prelude::*;

use crate::commands::{shell_names, TargetMode, TargetView};
use crate::error::Error;
use crate::metrics::data::Snapshot;
use crate::order::{lowercase, to_lowercase};
use crate::path_parts::{extension_fits, extension_of, plain, plain_extension};
use crate::scan::{join, join_all};
use crate::text::{
    chars_of, concat2, concat3, copy, copy_all, decimal, decimal_text, same, str_opt, texts,
    texts_push, usize_text,
};

verus! {

broadcast use texts_push;

// ---------------------------------------------------------------------------
// The parts of a report
// ---------------------------------------------------------------------------

/// How the hosts were chosen.
#[derive(Debug)]
pub struct FilterInfo {
    pub mode: String,
    pub values: Option<Vec<String>>,
}

/// How the hosts were chosen, as values of the specification language.
pub open spec fn filter_info(mode: TargetView) -> (Seq<char>, Option<Seq<Seq<char>>>) {
    match mode {
        TargetView::All => ("all"@, None),
        TargetView::Groups(g) => ("groups"@, Some(g)),
        TargetView::Hosts(h) => ("hosts"@, Some(h)),
        TargetView::Shell(s) => ("shell"@, Some(shell_names(s))),
    }
}

/// The texts of an optional list.
pub open spec fn texts_opt(list: Option<Vec<String>>) -> Option<Seq<Seq<char>>> {
    match list {
        Some(v) => Some(texts(v@)),
        None => None,
    }
}

impl FilterInfo {
    /// Describes how the hosts were chosen.
    pub fn from_mode(mode: &TargetMode) -> (r: FilterInfo)
        ensures
            (r.mode@, texts_opt(r.values)) == filter_info(mode@),
    {
        match mode {
            TargetMode::All => FilterInfo { mode: copy("all"), values: None },
            TargetMode::Groups(g) => FilterInfo {
                mode: copy("groups"),
                values: Some(copy_all(g.as_slice())),
            },
            TargetMode::Hosts(h) => FilterInfo {
                mode: copy("hosts"),
                values: Some(copy_all(h.as_slice())),
            },
            TargetMode::Shell(s) => {
                let mut names: Vec<String> = Vec::new();
                let mut i: usize = 0;
                while i < s.len()
                    invariant
                        i <= s@.len(),
                        texts(names@) == shell_names(s@).take(i as int),
                    decreases s@.len() - i,
                {
                    names.push(copy(s[i].name()));
                    i += 1;
                    assert(texts(names@) =~= shell_names(s@).take(i as int));
                }
                assert(shell_names(s@).take(i as int) =~= shell_names(s@));
                FilterInfo { mode: copy("shell"), values: Some(names) }
            },
        }
    }
}

/// What a report holds of one host.
pub enum HostOutput {
    /// What a check measured, and what the commands printed.
    Check { metrics: Snapshot, stdout: String, stderr: String },
    /// Why nothing was measured.
    CheckError(String),
    /// What a command printed.
    Streams { stdout: String, stderr: String },
    /// The files that were sent, those that were equal already, and the errors.
    Files { synced: Vec<String>, skipped: Vec<String>, stderr: String },
}

/// The entry of one host in a report.
pub struct HostResult {
    pub host: String,
    pub status: String,
    pub duration_ms: Option<u64>,
    pub output: HostOutput,
}

/// The entry of one host, without its output.
pub ghost struct ResultView {
    pub host: Seq<char>,
    pub status: Seq<char>,
    pub duration_ms: Option<u64>,
}

impl View for HostResult {
    type V = ResultView;

    open spec fn view(&self) -> ResultView {
        ResultView { host: self.host@, status: self.status@, duration_ms: self.duration_ms }
    }
}

/// The counts of a report.
#[derive(Debug, Clone, Copy, PartialEq, Eq, Structural)]
pub struct ReportSummary {
    pub total: usize,
    pub success: usize,
    pub failed: usize,
    pub skipped: usize,
}

impl Default for ReportSummary {
    fn default() -> (r: ReportSummary)
        ensures
            r == (ReportSummary { total: 0, success: 0, failed: 0, skipped: 0 }),
    {
        ReportSummary { total: 0, success: 0, failed: 0, skipped: 0 }
    }
}

/// The status of every entry.
pub open spec fn statuses(list: Seq<HostResult>) -> Seq<Seq<char>> {
    Seq::new(list.len(), |i: int| list[i].status@)
}

/// How many of the statuses are the given one.
pub open spec fn how_many(list: Seq<Seq<char>>, status: Seq<char>) -> nat
    decreases list.len(),
{
    if list.len() == 0 {
        0
    } else {
        how_many(list.drop_last(), status) + (if list.last() == status {
            1nat
        } else {
            0nat
        })
    }
}

proof fn how_many_bound(list: Seq<Seq<char>>, status: Seq<char>)
    ensures
        how_many(list, status) <= list.len(),
    decreases list.len(),
{
    if list.len() > 0 {
        how_many_bound(list.drop_last(), status);
    }
}

/// Counts the entries of a report by their status.
pub fn count_results(results: &[HostResult]) -> (r: ReportSummary)
    ensures
        r.total == results@.len(),
        r.success == how_many(statuses(results@), "success"@),
        r.failed == how_many(statuses(results@), "error"@),
        r.skipped == how_many(statuses(results@), "skipped"@),
{
    let ghost all = statuses(results@);
    let mut success: usize = 0;
    let mut failed: usize = 0;
    let mut skipped: usize = 0;
    let mut i: usize = 0;
    while i < results.len()
        invariant
            i <= results@.len(),
            all == statuses(results@),
            success == how_many(all.take(i as int), "success"@),
            failed == how_many(all.take(i as int), "error"@),
            skipped == how_many(all.take(i as int), "skipped"@),
        decreases results@.len() - i,
    {
        proof {
            assert(all.take(i + 1).drop_last() =~= all.take(i as int));
            assert(all.take(i + 1).last() == results@[i as int].status@);
            how_many_bound(all.take(i as int), "success"@);
            how_many_bound(all.take(i as int), "error"@);
            how_many_bound(all.take(i as int), "skipped"@);
        }
        let s = results[i].status.as_str();
        if same(s, "success") {
            success += 1;
        }
        if same(s, "error") {
            failed += 1;
        }
        if same(s, "skipped") {
            skipped += 1;
        }
        i += 1;
    }
    assert(all.take(i as int) =~= all);
    ReportSummary { total: results.len(), success, failed, skipped }
}

/// A whole report.
pub struct OperationReport {
    pub executed_at: String,
    pub command: String,
    pub filter: FilterInfo,
    pub targets: Vec<String>,
    pub results: Vec<HostResult>,
    pub summary: ReportSummary,
}

// ---------------------------------------------------------------------------
// Where and in which format
// ---------------------------------------------------------------------------

/// The format of a report.
#[derive(Debug, Clone, Copy, PartialEq, Eq, Structural)]
pub enum ReportFormat {
    Json,
    Html,
}

/// The extension that counts: that of the path, or else the configured one, or
/// else JSON; in lower case.
pub open spec fn effective_extension(ext: Option<Seq<char>>, configured: Option<Seq<char>>) -> Seq<
    char,
> {
    lowercase(
        match ext {
            Some(e) => if e.len() > 0 {
                e
            } else {
                default_extension(configured)
            },
            None => default_extension(configured),
        },
    )
}

/// The extension where the path has none.
pub open spec fn default_extension(configured: Option<Seq<char>>) -> Seq<char> {
    match configured {
        Some(c) => c,
        None => "json"@,
    }
}

/// Decides on the format of a report from the extension of its path and the
/// configured default.
pub fn choose_format(ext: Option<&str>, configured: Option<&str>) -> (r: Result<
    ReportFormat,
    Error,
>)
    ensures
        ({
            let e = effective_extension(str_opt(ext), str_opt(configured));
            if e == "json"@ {
                r == Ok::<ReportFormat, Error>(ReportFormat::Json)
            } else if e == "html"@ {
                r == Ok::<ReportFormat, Error>(ReportFormat::Html)
            } else {
                r matches Err(m) && m@ == "Unsupported output format '."@ + e
                    + "'. Use .json or .html"@
            }
        }),
{
    let fallback = match configured {
        Some(c) => c,
        None => "json",
    };
    let chosen = match ext {
        Some(e) => if chars_of(e).len() > 0 {
            e
        } else {
            fallback
        },
        None => fallback,
    };
    let e = to_lowercase(chosen);
    if same(e.as_str(), "json") {
        Ok(ReportFormat::Json)
    } else if same(e.as_str(), "html") {
        Ok(ReportFormat::Html)
    } else {
        Err(
            Error {
                message: concat3(
                    "Unsupported output format '.",
                    e.as_str(),
                    "'. Use .json or .html",
                ),
            },
        )
    }
}

/// The path of a report: the one that was asked for, or one made of the command,
/// the time stamp and the default extension.
pub open spec fn report_path_text(
    out: Seq<char>,
    command: Seq<char>,
    stamp: Seq<char>,
    configured: Option<Seq<char>>,
) -> Seq<char> {
    if out.len() == 0 {
        "ssync-"@ + command + "-"@ + stamp + "."@ + default_extension(configured)
    } else {
        out
    }
}

/// Works out the path of a report.
pub fn report_path(out: &str, command: &str, stamp: &str, configured: Option<&str>) -> (r: String)
    ensures
        r@ == report_path_text(out@, command@, stamp@, str_opt(configured)),
{
    if chars_of(out).len() > 0 {
        return copy(out);
    }
    let mut path = concat3("ssync-", command, "-");
    path.append(stamp);
    path.append(".");
    path.append(
        match configured {
            Some(c) => c,
            None => "json",
        },
    );
    path
}

/// Decides where a report goes and in which format: the path, and what its
/// extension makes of it. A path without a dot is written in the default format.
pub fn write_report(out: &str, command: &str, stamp: &str, configured: Option<&str>) -> (r: Result<
    (String, ReportFormat),
    Error,
>)
    ensures
        r matches Ok(p) ==> p.0@ == report_path_text(out@, command@, stamp@, str_opt(configured)),
        exists|ext: Option<Seq<char>>|
            {
                let e = #[trigger] effective_extension(ext, str_opt(configured));
                &&& extension_fits(
                    report_path_text(out@, command@, stamp@, str_opt(configured)),
                    ext,
                )
                &&& r is Ok <==> (e == "json"@ || e == "html"@)
                &&& r matches Ok(p) ==> (p.1 == ReportFormat::Json <==> e == "json"@)
                &&& r matches Err(m) ==> m@ == "Unsupported output format '."@ + e
                    + "'. Use .json or .html"@
            },
        ({
            let path = report_path_text(out@, command@, stamp@, str_opt(configured));
            let e = effective_extension(plain_extension(path), str_opt(configured));
            plain(path) ==> {
                &&& r is Ok <==> (e == "json"@ || e == "html"@)
                &&& r matches Ok(p) ==> (p.1 == ReportFormat::Json <==> e == "json"@)
            }
        }),
{
    let path = report_path(out, command, stamp, configured);
    let ext = extension_of(path.as_str());
    let ext_str = match &ext {
        Some(e) => Some(e.as_str()),
        None => None,
    };
    let ghost e = effective_extension(str_opt(ext_str), str_opt(configured));
    let chosen = choose_format(ext_str, configured);
    proof {
        reveal_strlit("json");
        reveal_strlit("html");
        assert("json"@[0] != "html"@[0]);
    }
    match chosen {
        Ok(f) => Ok((path, f)),
        Err(m) => Err(m),
    }
}

// ---------------------------------------------------------------------------
// HTML
// ---------------------------------------------------------------------------

/// A character in HTML.
pub open spec fn escaped_char(c: char) -> Seq<char> {
    if c == '&' {
        "&amp;"@
    } else if c == '<' {
        "&lt;"@
    } else if c == '>' {
        "&gt;"@
    } else if c == '"' {
        "&quot;"@
    } else if c == '\'' {
        "&#x27;"@
    } else {
        seq![c]
    }
}

/// A text in HTML: the characters that mean something there are written out.
pub open spec fn escaped(s: Seq<char>) -> Seq<char>
    decreases s.len(),
{
    if s.len() == 0 {
        Seq::empty()
    } else {
        escaped(s.drop_last()) + escaped_char(s.last())
    }
}

/// Writes a text in HTML.
pub fn html_escape(s: &str) -> (r: String)
    ensures
        r@ == escaped(s@),
{
    let cs = chars_of(s);
    let mut out = String::new();
    let mut i: usize = 0;
    while i < cs.len()
        invariant
            cs@ == s@,
            i <= cs.len(),
            out@ == escaped(s@.take(i as int)),
        decreases cs.len() - i,
    {
        assert(s@.take(i + 1).drop_last() =~= s@.take(i as int));
        let c = cs[i];
        if c == '&' {
            out.append("&amp;");
        } else if c == '<' {
            out.append("&lt;");
        } else if c == '>' {
            out.append("&gt;");
        } else if c == '"' {
            out.append("&quot;");
        } else if c == '\'' {
            out.append("&#x27;");
        } else {
            out.push(c);
        }
        i += 1;
        assert(out@ =~= escaped(s@.take(i as int)));
    }
    assert(s@.take(i as int) =~= s@);
    out
}

/// What the page shows of one host. Values are given as JSON texts.
pub enum OutputBody {
    /// The name and the value of every metric, and the raw output of the probes.
    Metrics { entries: Vec<(String, String)>, probes: Option<String> },
    /// The files that were sent, those that were equal already, and the errors.
    Files { synced: Vec<String>, skipped: Vec<String>, stderr: String },
    /// A stored snapshot.
    Snapshot { online: bool, collected_at: Option<String>, snapshot: String },
    /// What a command printed.
    Streams { stdout: String, stderr: String },
}

/// What the page shows of one host, as a value of the specification language.
pub ghost enum BodyView {
    Metrics { entries: Seq<(Seq<char>, Seq<char>)>, probes: Option<Seq<char>> },
    Files { synced: Seq<Seq<char>>, skipped: Seq<Seq<char>>, stderr: Seq<char> },
    Snapshot { online: bool, collected_at: Option<Seq<char>>, snapshot: Seq<char> },
    Streams { stdout: Seq<char>, stderr: Seq<char> },
}

impl View for OutputBody {
    type V = BodyView;

    open spec fn view(&self) -> BodyView {
        match self {
            OutputBody::Metrics { entries, probes } => BodyView::Metrics {
                entries: crate::text::pair_texts(entries@),
                probes: crate::text::text_opt(*probes),
            },
            OutputBody::Files { synced, skipped, stderr } => BodyView::Files {
                synced: texts(synced@),
                skipped: texts(skipped@),
                stderr: stderr@,
            },
            OutputBody::Snapshot { online, collected_at, snapshot } => BodyView::Snapshot {
                online: *online,
                collected_at: crate::text::text_opt(*collected_at),
                snapshot: snapshot@,
            },
            OutputBody::Streams { stdout, stderr } => BodyView::Streams {
                stdout: stdout@,
                stderr: stderr@,
            },
        }
    }
}

/// The lines of the metrics.
pub open spec fn metric_lines(entries: Seq<(Seq<char>, Seq<char>)>) -> Seq<char>
    decreases entries.len(),
{
    if entries.len() == 0 {
        Seq::empty()
    } else {
        metric_lines(entries.drop_last()) + (escaped(entries.last().0) + ": "@ + escaped(
            entries.last().1,
        ) + "<br>"@)
    }
}

/// The lines of a list of files.
pub open spec fn file_lines(files: Seq<Seq<char>>) -> Seq<char>
    decreases files.len(),
{
    if files.len() == 0 {
        Seq::empty()
    } else {
        file_lines(files.drop_last()) + ("  "@ + escaped(files.last()) + "<br>"@)
    }
}

/// A heading and a list of files, where there are any.
pub open spec fn file_section(heading: Seq<char>, files: Seq<Seq<char>>) -> Seq<char> {
    if files.len() == 0 {
        Seq::empty()
    } else {
        heading + file_lines(files)
    }
}

/// What a command printed on one of its streams, where it printed something.
pub open spec fn stream_section(heading: Seq<char>, text: Seq<char>) -> Seq<char> {
    if text.len() == 0 {
        Seq::empty()
    } else {
        heading + escaped(text) + "</pre>"@
    }
}

/// What the page shows of one host.
pub open spec fn body_html(b: BodyView) -> Seq<char> {
    match b {
        BodyView::Metrics { entries, probes } => {
            let lines = "<strong>Metrics:</strong><br>"@ + metric_lines(entries);
            match probes {
                Some(p) => lines + "<details><summary>Raw probe output</summary><pre>"@ + escaped(p)
                    + "</pre></details>"@,
                None => lines,
            }
        },
        BodyView::Files { synced, skipped, stderr } => file_section(
            "<strong>Synced:</strong><br>"@,
            synced,
        ) + file_section("<strong>Skipped (in-sync):</strong><br>"@, skipped) + stream_section(
            "<strong>stderr:</strong><pre>"@,
            stderr,
        ),
        BodyView::Snapshot { online, collected_at, snapshot } => "Online: "@ + (if online {
            "✓"@
        } else {
            "✗"@
        }) + " | Collected: "@ + escaped(
            match collected_at {
                Some(t) => t,
                None => "—"@,
            },
        ) + "<details><summary>Snapshot</summary><pre>"@ + escaped(snapshot)
            + "</pre></details>"@,
        BodyView::Streams { stdout, stderr } => stream_section(
            "<strong>stdout:</strong><pre>"@,
            stdout,
        ) + stream_section("<strong>stderr:</strong><pre>"@, stderr),
    }
}

fn push_files(out: &mut String, heading: &str, files: &Vec<String>)
    ensures
        final(out)@ == old(out)@ + file_section(heading@, texts(files@)),
{
    let ghost all = texts(files@);
    let ghost start = out@;
    if files.len() == 0 {
        assert(out@ =~= start + file_section(heading@, all));
        return;
    }
    out.append(heading);
    let mut i: usize = 0;
    assert(out@ =~= start + heading@ + file_lines(all.take(0)));
    while i < files.len()
        invariant
            i <= files@.len(),
            all == texts(files@),
            out@ == start + heading@ + file_lines(all.take(i as int)),
        decreases files@.len() - i,
    {
        assert(all.take(i + 1).drop_last() =~= all.take(i as int));
        assert(all.take(i + 1).last() == files@[i as int]@);
        out.append("  ");
        out.append(html_escape(files[i].as_str()).as_str());
        out.append("<br>");
        i += 1;
        assert(out@ =~= start + heading@ + file_lines(all.take(i as int)));
    }
    assert(all.take(i as int) =~= all);
    assert(out@ =~= start + file_section(heading@, all));
}

fn push_stream(out: &mut String, heading: &str, text: &str)
    ensures
        final(out)@ == old(out)@ + stream_section(heading@, text@),
{
    let ghost start = out@;
    if chars_of(text).len() > 0 {
        out.append(heading);
        out.append(html_escape(text).as_str());
        out.append("</pre>");
    }
    assert(out@ =~= start + stream_section(heading@, text@));
}

/// Writes what the page shows of one host.
pub fn render_output_html(output: &OutputBody) -> (r: String)
    ensures
        r@ == body_html(output@),
{
    match output {
        OutputBody::Metrics { entries, probes } => {
            let mut html = copy("<strong>Metrics:</strong><br>");
            let ghost head = html@;
            let ghost all = crate::text::pair_texts(entries@);
            let mut i: usize = 0;
            assert(html@ =~= head + metric_lines(all.take(0)));
            while i < entries.len()
                invariant
                    i <= entries@.len(),
                    all == crate::text::pair_texts(entries@),
                    html@ == head + metric_lines(all.take(i as int)),
                decreases entries@.len() - i,
            {
                assert(all.take(i + 1).drop_last() =~= all.take(i as int));
                assert(all.take(i + 1).last() == (entries@[i as int].0@, entries@[i as int].1@));
                html.append(html_escape(entries[i].0.as_str()).as_str());
                html.append(": ");
                html.append(html_escape(entries[i].1.as_str()).as_str());
                html.append("<br>");
                i += 1;
                assert(html@ =~= head + metric_lines(all.take(i as int)));
            }
            assert(all.take(i as int) =~= all);
            match probes {
                Some(p) => {
                    html.append("<details><summary>Raw probe output</summary><pre>");
                    html.append(html_escape(p.as_str()).as_str());
                    html.append("</pre></details>");
                },
                None => {},
            }
            html
        },
        OutputBody::Files { synced, skipped, stderr } => {
            let mut html = String::new();
            push_files(&mut html, "<strong>Synced:</strong><br>", synced);
            push_files(&mut html, "<strong>Skipped (in-sync):</strong><br>", skipped);
            push_stream(&mut html, "<strong>stderr:</strong><pre>", stderr.as_str());
            assert(html@ =~= body_html(output@));
            html
        },
        OutputBody::Snapshot { online, collected_at, snapshot } => {
            let mut html = copy("Online: ");
            html.append(
                if *online {
                    "✓"
                } else {
                    "✗"
                },
            );
            html.append(" | Collected: ");
            let at = match collected_at {
                Some(t) => html_escape(t.as_str()),
                None => html_escape("—"),
            };
            html.append(at.as_str());
            html.append("<details><summary>Snapshot</summary><pre>");
            html.append(html_escape(snapshot.as_str()).as_str());
            html.append("</pre></details>");
            html
        },
        OutputBody::Streams { stdout, stderr } => {
            let mut html = String::new();
            push_stream(&mut html, "<strong>stdout:</strong><pre>", stdout.as_str());
            push_stream(&mut html, "<strong>stderr:</strong><pre>", stderr.as_str());
            assert(html@ =~= body_html(output@));
            html
        },
    }
}

/// One row of the table on the page.
pub struct PageRow {
    pub host: String,
    pub status: String,
    pub duration_ms: Option<u64>,
    pub body: OutputBody,
    /// The whole output as JSON.
    pub raw: String,
}

/// One row of the table, as a value of the specification language.
pub ghost struct RowView {
    pub host: Seq<char>,
    pub status: Seq<char>,
    pub duration_ms: Option<u64>,
    pub body: BodyView,
    pub raw: Seq<char>,
}

impl View for PageRow {
    type V = RowView;

    open spec fn view(&self) -> RowView {
        RowView {
            host: self.host@,
            status: self.status@,
            duration_ms: self.duration_ms,
            body: self.body@,
            raw: self.raw@,
        }
    }
}

/// The style of a status.
pub open spec fn status_class(status: Seq<char>) -> Seq<char> {
    if status == "success"@ {
        "status-ok"@
    } else if status == "error"@ {
        "status-err"@
    } else {
        "status-skip"@
    }
}

/// How long something took.
pub open spec fn duration_text(ms: Option<u64>) -> Seq<char> {
    match ms {
        Some(n) => decimal(n as nat) + "ms"@,
        None => "—"@,
    }
}

fn class_of(status: &str) -> (r: &'static str)
    ensures
        r@ == status_class(status@),
{
    if same(status, "success") {
        "status-ok"
    } else if same(status, "error") {
        "status-err"
    } else {
        "status-skip"
    }
}

fn show_duration(ms: Option<u64>) -> (r: String)
    ensures
        r@ == duration_text(ms),
{
    match ms {
        Some(n) => concat2(decimal_text(n).as_str(), "ms"),
        None => copy("—"),
    }
}

/// The row of a host up to its host.
pub const ROW_HOST: &'static str = "<tr>
  <td>";

/// The row of a host up to its class.
pub const ROW_CLASS: &'static str = "</td>
  <td><span class=\"";

/// The row of a host up to its duration.
pub const ROW_DURATION: &'static str = "</span></td>
  <td>";

/// The row of a host up to its output.
pub const ROW_OUTPUT: &'static str = "</td>
  <td class=\"output-cell\">
    ";

/// The row of a host up to its raw.
pub const ROW_RAW: &'static str = "
    <details>
      <summary>Raw output JSON</summary>
      <pre>";

/// The row of a host up to its end.
pub const ROW_END: &'static str = "</pre>
    </details>
  </td>
</tr>";

/// The row of a host.
pub open spec fn row_html(r: RowView) -> Seq<char> {
    ROW_HOST@
        + escaped(r.host)
        + ROW_CLASS@
        + status_class(r.status)
        + "\">"@
        + escaped(r.status)
        + ROW_DURATION@
        + duration_text(r.duration_ms)
        + ROW_OUTPUT@
        + body_html(r.body)
        + ROW_RAW@
        + escaped(r.raw)
        + ROW_END@
}

fn render_row(r: &PageRow) -> (t: String)
    ensures
        t@ == row_html(r@),
{
    let mut out = String::new();
    out.append(ROW_HOST);
    out.append(html_escape(r.host.as_str()).as_str());
    out.append(ROW_CLASS);
    out.append(class_of(r.status.as_str()));
    out.append("\">");
    out.append(html_escape(r.status.as_str()).as_str());
    out.append(ROW_DURATION);
    out.append(show_duration(r.duration_ms).as_str());
    out.append(ROW_OUTPUT);
    out.append(render_output_html(&r.body).as_str());
    out.append(ROW_RAW);
    out.append(html_escape(r.raw.as_str()).as_str());
    out.append(ROW_END);
    assert(out@ =~= row_html(r@));
    out
}

/// How the hosts were chosen, in words.
pub open spec fn filter_text(mode: Seq<char>, values: Option<Seq<Seq<char>>>) -> Seq<char> {
    match values {
        Some(v) => mode + ": "@ + join(v, ", "@),
        None => mode,
    }
}

fn show_filter(f: &FilterInfo) -> (r: String)
    ensures
        r@ == filter_text(f.mode@, texts_opt(f.values)),
{
    match &f.values {
        Some(v) => concat3(f.mode.as_str(), ": ", join_all(v.as_slice(), ", ").as_str()),
        None => copy(f.mode.as_str()),
    }
}

/// The page of a report.
pub struct ReportPage {
    pub command: String,
    pub executed_at: String,
    pub filter: FilterInfo,
    /// What was asked for, as JSON.
    pub task_json: String,
    /// The targeted hosts, as JSON.
    pub targets_json: String,
    pub summary: ReportSummary,
    pub rows: Vec<PageRow>,
}

/// The page of a report, as a value of the specification language.
pub ghost struct PageView {
    pub command: Seq<char>,
    pub executed_at: Seq<char>,
    pub mode: Seq<char>,
    pub values: Option<Seq<Seq<char>>>,
    pub task_json: Seq<char>,
    pub targets_json: Seq<char>,
    pub summary: ReportSummary,
    pub rows: Seq<RowView>,
}

impl View for ReportPage {
    type V = PageView;

    open spec fn view(&self) -> PageView {
        PageView {
            command: self.command@,
            executed_at: self.executed_at@,
            mode: self.filter.mode@,
            values: texts_opt(self.filter.values),
            task_json: self.task_json@,
            targets_json: self.targets_json@,
            summary: self.summary,
            rows: Seq::new(self.rows@.len(), |i: int| self.rows@[i]@),
        }
    }
}

/// The rows of the table.
pub open spec fn row_texts(rows: Seq<RowView>) -> Seq<Seq<char>> {
    Seq::new(rows.len(), |i: int| row_html(rows[i]))
}

/// The page up to its title.
pub const PAGE_TITLE: &'static str = "<!DOCTYPE html>
<html lang=\"en\">
<head>
<meta charset=\"utf-8\">
<title>ssync ";

/// The page up to its style.
pub const PAGE_STYLE: &'static str = " report</title>
<style>
  body { font-family: -apple-system, BlinkMacSystemFont, \"Segoe UI\", sans-serif; margin: 2rem; background: #f8f9fa; color: #212529; }
  h1 { font-size: 1.4rem; margin-bottom: 0.25rem; }
  .meta { color: #6c757d; font-size: 0.9rem; margin-bottom: 1.5rem; }
  .summary { display: flex; gap: 1rem; margin-bottom: 1.5rem; }
  .badge { padding: 0.35rem 0.75rem; border-radius: 4px; font-weight: 600; font-size: 0.85rem; }
  .badge-total { background: #e9ecef; }
  .badge-ok { background: #d4edda; color: #155724; }
  .badge-err { background: #f8d7da; color: #721c24; }
  .badge-skip { background: #fff3cd; color: #856404; }
  table { width: 100%; border-collapse: collapse; background: white; border-radius: 8px; overflow: hidden; box-shadow: 0 1px 3px rgba(0,0,0,0.1); }
  th { background: #343a40; color: white; text-align: left; padding: 0.6rem 1rem; font-size: 0.85rem; }
  td { padding: 0.6rem 1rem; border-bottom: 1px solid #dee2e6; vertical-align: top; font-size: 0.85rem; }
  tr:last-child td { border-bottom: none; }
  .status-ok { color: #28a745; font-weight: 600; }
  .status-err { color: #dc3545; font-weight: 600; }
  .status-skip { color: #ffc107; font-weight: 600; }
  .output-cell { font-family: monospace; white-space: pre-wrap; word-break: break-all; max-width: 600px; }
  details summary { cursor: pointer; color: #0066cc; }
</style>
</head>
<body>
<h1>ssync ";

/// The page up to its executed.
pub const PAGE_EXECUTED: &'static str = " report</h1>
<div class=\"meta\">
  <strong>Executed:</strong> ";

/// The page up to its filter.
pub const PAGE_FILTER: &'static str = " &nbsp;|&nbsp;
  <strong>Filter:</strong> ";

/// The page up to its task.
pub const PAGE_TASK: &'static str = "
</div>
<details>
  <summary>Task (JSON)</summary>
  <pre>";

/// The page up to its targets.
pub const PAGE_TARGETS: &'static str = "</pre>
</details>
<details>
  <summary>Targets (JSON)</summary>
  <pre>";

/// The page up to its total.
pub const PAGE_TOTAL: &'static str = "</pre>
</details>
<div class=\"summary\">
  <span class=\"badge badge-total\">Total: ";

/// The page up to its success.
pub const PAGE_SUCCESS: &'static str = "</span>
  <span class=\"badge badge-ok\">Success: ";

/// The page up to its failed.
pub const PAGE_FAILED: &'static str = "</span>
  <span class=\"badge badge-err\">Failed: ";

/// The page up to its skipped.
pub const PAGE_SKIPPED: &'static str = "</span>
  <span class=\"badge badge-skip\">Skipped: ";

/// The page up to its rows.
pub const PAGE_ROWS: &'static str = "</span>
</div>
<table>
<thead><tr><th>Host</th><th>Status</th><th>Duration</th><th>Output</th></tr></thead>
<tbody>
";

/// The page up to its end.
pub const PAGE_END: &'static str = "
</tbody>
</table>
</body>
</html>";

/// The page of a report.
pub open spec fn page_html(p: PageView) -> Seq<char> {
    PAGE_TITLE@
        + escaped(p.command)
        + PAGE_STYLE@
        + escaped(p.command)
        + PAGE_EXECUTED@
        + escaped(p.executed_at)
        + PAGE_FILTER@
        + escaped(filter_text(p.mode, p.values))
        + PAGE_TASK@
        + escaped(p.task_json)
        + PAGE_TARGETS@
        + escaped(p.targets_json)
        + PAGE_TOTAL@
        + decimal(p.summary.total as nat)
        + PAGE_SUCCESS@
        + decimal(p.summary.success as nat)
        + PAGE_FAILED@
        + decimal(p.summary.failed as nat)
        + PAGE_SKIPPED@
        + decimal(p.summary.skipped as nat)
        + PAGE_ROWS@
        + join(row_texts(p.rows), "\n"@)
        + PAGE_END@
}

/// Writes the page of a report.
pub fn render_html_report(p: &ReportPage) -> (r: String)
    ensures
        r@ == page_html(p@),
{
    let ghost all = row_texts(p@.rows);
    let mut parts: Vec<String> = Vec::new();
    let mut i: usize = 0;
    while i < p.rows.len()
        invariant
            i <= p.rows@.len(),
            all == row_texts(p@.rows),
            texts(parts@) == all.take(i as int),
        decreases p.rows@.len() - i,
    {
        parts.push(render_row(&p.rows[i]));
        i += 1;
        assert(texts(parts@) =~= all.take(i as int));
    }
    assert(all.take(i as int) =~= all);
    let rows = join_all(parts.as_slice(), "\n");
    let mut out = String::new();
    out.append(PAGE_TITLE);
    out.append(html_escape(p.command.as_str()).as_str());
    out.append(PAGE_STYLE);
    out.append(html_escape(p.command.as_str()).as_str());
    out.append(PAGE_EXECUTED);
    out.append(html_escape(p.executed_at.as_str()).as_str());
    out.append(PAGE_FILTER);
    out.append(html_escape(show_filter(&p.filter).as_str()).as_str());
    out.append(PAGE_TASK);
    out.append(html_escape(p.task_json.as_str()).as_str());
    out.append(PAGE_TARGETS);
    out.append(html_escape(p.targets_json.as_str()).as_str());
    out.append(PAGE_TOTAL);
    out.append(usize_text(p.summary.total).as_str());
    out.append(PAGE_SUCCESS);
    out.append(usize_text(p.summary.success).as_str());
    out.append(PAGE_FAILED);
    out.append(usize_text(p.summary.failed).as_str());
    out.append(PAGE_SKIPPED);
    out.append(usize_text(p.summary.skipped).as_str());
    out.append(PAGE_ROWS);
    out.append(rows.as_str());
    out.append(PAGE_END);
    assert(out@ =~= page_html(p@));
    out
}

// ---------------------------------------------------------------------------
// Laws
// ---------------------------------------------------------------------------

/// A text in HTML holds none of the characters that would end or open a tag or a
/// quotation.
pub proof fn escaped_text_is_harmless(s: Seq<char>, c: char)
    requires
        c == '<' || c == '>' || c == '"' || c == '\'',
    ensures
        !escaped(s).contains(c),
    decreases s.len(),
{
    if s.len() > 0 {
        escaped_text_is_harmless(s.drop_last(), c);
        let tail = escaped_char(s.last());
        reveal_strlit("&amp;");
        reveal_strlit("&lt;");
        reveal_strlit("&gt;");
        reveal_strlit("&quot;");
        reveal_strlit("&#x27;");
        assert forall|i: int| 0 <= i < tail.len() implies tail[i] != c by {}
        let head = escaped(s.drop_last());
        assert forall|i: int| 0 <= i < escaped(s).len() implies escaped(s)[i] != c by {
            if i < head.len() {
                assert(head.contains(head[i]));
            } else {
                assert(escaped(s)[i] == tail[i - head.len()]);
            }
        }
    }
}

/// Every entry of a report has one status, so that no more entries are counted
/// than there are.
pub proof fn counts_do_not_exceed_total(list: Seq<Seq<char>>)
    ensures
        how_many(list, "success"@) + how_many(list, "error"@) + how_many(list, "skipped"@)
            <= list.len(),
    decreases list.len(),
{
    reveal_strlit("success");
    reveal_strlit("error");
    reveal_strlit("skipped");
    assert("success"@ != "error"@) by {
        assert("success"@[0] != "error"@[0]);
    }
    assert("skipped"@ != "error"@) by {
        assert("skipped"@[0] != "error"@[0]);
    }
    assert("success"@ != "skipped"@) by {
        assert("success"@[1] != "skipped"@[1]);
    }
    if list.len() > 0 {
        counts_do_not_exceed_total(list.drop_last());
    }
}

/// What a browser reads out of a text with character references.
pub open spec fn unescaped(s: Seq<char>) -> Seq<char>
    decreases s.len(),
{
    if s.len() == 0 {
        Seq::empty()
    } else if s.len() >= 5 && s.take(5) == "&amp;"@ {
        seq!['&'] + unescaped(s.skip(5))
    } else if s.len() >= 4 && s.take(4) == "&lt;"@ {
        seq!['<'] + unescaped(s.skip(4))
    } else if s.len() >= 4 && s.take(4) == "&gt;"@ {
        seq!['>'] + unescaped(s.skip(4))
    } else if s.len() >= 6 && s.take(6) == "&quot;"@ {
        seq!['"'] + unescaped(s.skip(6))
    } else if s.len() >= 6 && s.take(6) == "&#x27;"@ {
        seq!['\''] + unescaped(s.skip(6))
    } else {
        seq![s[0]] + unescaped(s.skip(1))
    }
}

proof fn one_reference_is_read_back(c: char, tail: Seq<char>)
    ensures
        unescaped(escaped_char(c) + tail) == seq![c] + unescaped(tail),
{
    reveal_strlit("&amp;");
    reveal_strlit("&lt;");
    reveal_strlit("&gt;");
    reveal_strlit("&quot;");
    reveal_strlit("&#x27;");
    let e = escaped_char(c);
    let s = e + tail;
    let n = e.len() as int;
    assert(s.skip(n) =~= tail);
    assert(s.take(n) =~= e);
    assert(s[0] == e[0]);
    if n > 1 {
        assert(s[1] == e[1]);
    }
    assert("&amp;"@[0] == '&' && "&amp;"@[1] == 'a');
    if s.len() >= 5 {
        assert(s.take(5)[0] == s[0] && s.take(5)[1] == s[1]);
    }
    assert("&lt;"@[0] == '&' && "&lt;"@[1] == 'l');
    if s.len() >= 4 {
        assert(s.take(4)[0] == s[0] && s.take(4)[1] == s[1]);
    }
    assert("&gt;"@[0] == '&' && "&gt;"@[1] == 'g');
    if s.len() >= 4 {
        assert(s.take(4)[0] == s[0] && s.take(4)[1] == s[1]);
    }
    assert("&quot;"@[0] == '&' && "&quot;"@[1] == 'q');
    if s.len() >= 6 {
        assert(s.take(6)[0] == s[0] && s.take(6)[1] == s[1]);
    }
    assert("&#x27;"@[0] == '&' && "&#x27;"@[1] == '#');
    if s.len() >= 6 {
        assert(s.take(6)[0] == s[0] && s.take(6)[1] == s[1]);
    }
}

proof fn references_are_read_back(s: Seq<char>, tail: Seq<char>)
    ensures
        unescaped(escaped(s) + tail) == s + unescaped(tail),
    decreases s.len(),
{
    if s.len() == 0 {
        assert(escaped(s) + tail =~= tail);
        assert(s + unescaped(tail) =~= unescaped(tail));
    } else {
        let rest = s.drop_last();
        let c = s.last();
        let e = escaped_char(c);
        references_are_read_back(rest, e + tail);
        one_reference_is_read_back(c, tail);
        assert(escaped(s) + tail =~= escaped(rest) + (e + tail));
        assert(rest + (seq![c] + unescaped(tail)) =~= s + unescaped(tail));
    }
}

/// A browser shows an escaped text as the text it was.
pub proof fn escaped_texts_are_read_back(s: Seq<char>)
    ensures
        unescaped(escaped(s)) == s,
{
    let none = Seq::<char>::empty();
    references_are_read_back(s, none);
    assert(escaped(s) + none =~= escaped(s));
    assert(s + unescaped(none) =~= s);
}

/// As many results have a status as there are places where it stands.
pub proof fn statuses_are_counted(list: Seq<Seq<char>>, status: Seq<char>) -> (at: Seq<int>)
    ensures
        forall|i: int, j: int| 0 <= i < j < at.len() ==> #[trigger] at[i] < #[trigger] at[j],
        forall|k: int| #[trigger] at.contains(k) <==> 0 <= k < list.len() && list[k] == status,
        how_many(list, status) == at.len(),
    decreases list.len(),
{
    if list.len() == 0 {
        Seq::empty()
    } else {
        let rest = list.drop_last();
        let n = list.len() - 1;
        let before = statuses_are_counted(rest, status);
        assert forall|i: int| 0 <= i < before.len() implies 0 <= #[trigger] before[i] < n by {
            assert(before.contains(before[i]));
        }
        let at = if list[n] == status {
            before.push(n)
        } else {
            before
        };
        assert forall|k: int| #[trigger] at.contains(k) <==> 0 <= k < list.len() && list[k]
            == status by {
            assert(before.contains(k) <==> 0 <= k < n && rest[k] == status);
            if list[n] == status {
                assert(at[before.len() as int] == n);
                if before.contains(k) {
                    assert(at[before.index_of(k)] == k);
                }
                if at.contains(k) && k != n {
                    assert(before[at.index_of(k)] == k);
                }
            }
        }
        at
    }
}

/// The extension of a report file decides on its format; without one the configured format
/// does, and without that it is JSON. A file that is not named gets the format as its
/// extension.
pub proof fn formats_are_chosen_in_turn(
    ext: Seq<char>,
    configured: Option<Seq<char>>,
    out: Seq<char>,
    command: Seq<char>,
    stamp: Seq<char>,
)
    ensures
        ext.len() > 0 ==> effective_extension(Some(ext), configured) == lowercase(ext),
        configured matches Some(c) ==> effective_extension(None, configured) == lowercase(c)
            && effective_extension(Some(Seq::empty()), configured) == lowercase(c),
        effective_extension(None, None) == lowercase("json"@),
        out.len() > 0 ==> report_path_text(out, command, stamp, configured) == out,
        configured matches Some(c) ==> report_path_text(Seq::empty(), command, stamp, configured)
            == "ssync-"@ + command + "-"@ + stamp + "."@ + c,
        report_path_text(Seq::empty(), command, stamp, None) == "ssync-"@ + command + "-"@ + stamp
            + "."@ + "json"@,
{
}

/// Every host has its row in the page.
pub proof fn every_row_is_on_the_page(p: PageView, i: int) -> (around: (Seq<char>, Seq<char>))
    requires
        0 <= i < p.rows.len(),
    ensures
        page_html(p) == around.0 + row_html(p.rows[i]) + around.1,
{
    let rows = row_texts(p.rows);
    let (a, b) = crate::scan::joined_texts_hold_their_parts(rows, "\n"@, i);
    assert(rows[i] == row_html(p.rows[i]));
    let all = join(rows, "\n"@);
    let page = page_html(p);
    let head = page.take(page.len() - PAGE_END@.len() - all.len());
    assert(page =~= head + all + PAGE_END@);
    assert(page =~= (head + a) + row_html(p.rows[i]) + (b + PAGE_END@));
    (head + a, b + PAGE_END@)
}

/// A success and an error are marked as such, and everything else as neither.
pub proof fn statuses_are_marked(status: Seq<char>)
    ensures
        status_class(status) == "status-ok"@ <==> status == "success"@,
        status_class(status) == "status-err"@ <==> status == "error"@,
{
    reveal_strlit("status-ok");
    reveal_strlit("status-err");
    reveal_strlit("status-skip");
    reveal_strlit("success");
    reveal_strlit("error");
    assert("status-ok"@.len() == 9 && "status-err"@.len() == 10 && "status-skip"@.len() == 11);
    assert("success"@.len() == 7 && "error"@.len() == 5);
}

/// What a command printed is shown where there is something, escaped.
pub proof fn printed_text_is_shown(stdout: Seq<char>, stderr: Seq<char>) -> (around: (
    Seq<char>,
    Seq<char>,
))
    ensures
        stdout.len() > 0 ==> body_html(BodyView::Streams { stdout, stderr })
            == "<strong>stdout:</strong><pre>"@ + escaped(stdout) + around.0,
        stderr.len() > 0 ==> body_html(BodyView::Streams { stdout, stderr }) == around.1
            + "<strong>stderr:</strong><pre>"@ + escaped(stderr) + "</pre>"@,
        stdout.len() == 0 && stderr.len() == 0 ==> body_html(
            BodyView::Streams { stdout, stderr },
        ).len() == 0,
{
    let a = stream_section("<strong>stdout:</strong><pre>"@, stdout);
    let b = stream_section("<strong>stderr:</strong><pre>"@, stderr);
    let html = body_html(BodyView::Streams { stdout, stderr });
    let rest = "</pre>"@ + b;
    if stdout.len() > 0 {
        assert(html =~= "<strong>stdout:</strong><pre>"@ + escaped(stdout) + rest);
    }
    if stderr.len() > 0 {
        assert(html =~= a + "<strong>stderr:</strong><pre>"@ + escaped(stderr) + "</pre>"@);
    }
    (rest, a)
}

/// Every metric of a host is in its report, by name and value.
pub proof fn every_metric_is_reported(entries: Seq<(Seq<char>, Seq<char>)>, i: int) -> (around: (
    Seq<char>,
    Seq<char>,
))
    requires
        0 <= i < entries.len(),
    ensures
        metric_lines(entries) == around.0 + escaped(entries[i].0) + ": "@ + escaped(entries[i].1)
            + "<br>"@ + around.1,
    decreases entries.len(),
{
    let rest = entries.drop_last();
    let none = Seq::<char>::empty();
    let before = metric_lines(rest);
    let last = entries.last();
    if i < rest.len() {
        assert(rest[i] == entries[i]);
        let (a, b) = every_metric_is_reported(rest, i);
        let more = b + (escaped(last.0) + ": "@ + escaped(last.1) + "<br>"@);
        assert(metric_lines(entries) =~= a + escaped(entries[i].0) + ": "@ + escaped(entries[i].1)
            + "<br>"@ + more);
        (a, more)
    } else {
        assert(metric_lines(entries) =~= before + escaped(entries[i].0) + ": "@ + escaped(
            entries[i].1,
        ) + "<br>"@ + none);
        (before, none)
    }
}

/// Every file of a host is in its report.
pub proof fn every_file_is_reported(files: Seq<Seq<char>>, i: int) -> (around: (
    Seq<char>,
    Seq<char>,
))
    requires
        0 <= i < files.len(),
    ensures
        file_lines(files) == around.0 + escaped(files[i]) + around.1,
    decreases files.len(),
{
    let rest = files.drop_last();
    let before = file_lines(rest);
    if i < rest.len() {
        assert(rest[i] == files[i]);
        let (a, b) = every_file_is_reported(rest, i);
        let more = b + ("  "@ + escaped(files.last()) + "<br>"@);
        assert(file_lines(files) =~= a + escaped(files[i]) + more);
        (a, more)
    } else {
        let a = before + "  "@;
        assert(file_lines(files) =~= a + escaped(files[i]) + "<br>"@);
        (a, "<br>"@)
    }
}

} // verus!
