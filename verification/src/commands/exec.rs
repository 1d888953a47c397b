//! Sending a script to many hosts and running it there.

use vstd::prelude::*;

use crate::commands::report::{
    count, no_summary, no_tally, run_rows, tally_of, ExecHostResult, ExecReport, HostStatus,
    RunRow, Tally, Verdict, VerdictView,
};
use crate::commands::run::{
    broken_row, failed_result, failed_row, ok_detail, sent_command, show_ok, unreachable_results,
    unreachable_row, LogRecord,
};
use crate::config::schema::{HostEntry, ShellType};
use crate::error::{Error, Fault, FaultView};
use crate::host::filter::pointees;
use crate::host::session_pool::RemoteOutput;
use crate::host::shell::sudo_wrap;
use crate::order::{lowercase, to_lowercase};
use crate::output::report::{HostOutput, HostResult, ResultView};
use crate::output::summary::Summary;
use crate::path_parts::{
    extension_fits, extension_of, file_name_of, name_fits, plain, plain_extension, plain_name,
};
use crate::scan::{trim, trimmed};
use crate::text::{
    concat2, concat3, copy, decimal, decimal_text, pair_texts, same, signed_decimal, signed_text,
    str_opt, text_opt, texts, texts_push,
};

verus! {

broadcast use texts_push;

// ---------------------------------------------------------------------------
// Which hosts can run a script
// ---------------------------------------------------------------------------

/// The kind of shell that a script needs, by its extension; none where any will
/// do.
pub open spec fn shell_for(ext: Option<Seq<char>>) -> Option<ShellType> {
    let e = lowercase(
        match ext {
            Some(e) => e,
            None => ""@,
        },
    );
    if e == "sh"@ {
        Some(ShellType::Sh)
    } else if e == "ps1"@ {
        Some(ShellType::PowerShell)
    } else if e == "bat"@ || e == "cmd"@ {
        Some(ShellType::Cmd)
    } else {
        None
    }
}

/// The kind of shell that a script with an extension needs.
pub fn shell_for_extension(ext: Option<&str>) -> (r: Option<ShellType>)
    ensures
        r == shell_for(str_opt(ext)),
{
    let e = to_lowercase(
        match ext {
            Some(e) => e,
            None => "",
        },
    );
    if same(e.as_str(), "sh") {
        Some(ShellType::Sh)
    } else if same(e.as_str(), "ps1") {
        Some(ShellType::PowerShell)
    } else if same(e.as_str(), "bat") || same(e.as_str(), "cmd") {
        Some(ShellType::Cmd)
    } else {
        None
    }
}

/// The kind of shell that a script needs. A path without a dot tells nothing.
pub fn compatible_shell(script: &str) -> (r: Option<ShellType>)
    ensures
        exists|ext: Option<Seq<char>>| #[trigger]
            shell_for(ext) == r && extension_fits(script@, ext),
        plain(script@) ==> r == shell_for(plain_extension(script@)),
{
    let ext = extension_of(script);
    let e = match &ext {
        Some(e) => Some(e.as_str()),
        None => None,
    };
    shell_for_extension(e)
}

/// Whether a host can run the script.
pub open spec fn can_run(required: Option<ShellType>, shell: ShellType) -> bool {
    required is None || required == Some(shell)
}

/// Whether a host can run the script.
pub fn is_compatible(required: Option<ShellType>, shell: ShellType) -> (r: bool)
    ensures
        r == can_run(required, shell),
{
    match required {
        Some(s) => s == shell,
        None => true,
    }
}

/// The name of a kind of shell, as it is shown in messages.
pub open spec fn shell_label(shell: ShellType) -> Seq<char> {
    match shell {
        ShellType::Sh => "Sh"@,
        ShellType::PowerShell => "PowerShell"@,
        ShellType::Cmd => "Cmd"@,
    }
}

fn label_of(shell: ShellType) -> (r: &'static str)
    ensures
        r@ == shell_label(shell),
{
    match shell {
        ShellType::Sh => "Sh",
        ShellType::PowerShell => "PowerShell",
        ShellType::Cmd => "Cmd",
    }
}

/// The row of a host that was left out because it has another shell.
pub open spec fn skipped_row(host: Seq<char>, required: ShellType, shell: ShellType) -> RunRow {
    RunRow {
        host,
        status: HostStatus::Skipped,
        duration_ms: None,
        detail: "skipped (shell mismatch: need "@ + shell_label(required) + ", have "@
            + shell_label(shell) + ")"@,
        stdout: Seq::empty(),
        stderr: Seq::empty(),
    }
}

/// The result for a host that was left out because it has another shell.
pub fn skipped_result(host: &str, required: ShellType, shell: ShellType) -> (r: ExecHostResult)
    ensures
        r@ == skipped_row(host@, required, shell),
{
    let mut detail = concat3("skipped (shell mismatch: need ", label_of(required), ", have ");
    detail.append(label_of(shell));
    detail.append(")");
    let r = ExecHostResult {
        host: copy(host),
        status: HostStatus::Skipped,
        duration_ms: None,
        detail,
        stdout: String::new(),
        stderr: String::new(),
    };
    assert(r.stdout@ =~= Seq::empty());
    r
}

/// The rows of the hosts that are left out.
pub open spec fn skipped_rows(hosts: Seq<HostEntry>, required: Option<ShellType>) -> Seq<RunRow>
    decreases hosts.len(),
{
    if hosts.len() == 0 {
        Seq::empty()
    } else {
        let before = skipped_rows(hosts.drop_last(), required);
        let h = hosts.last();
        match required {
            Some(s) => if s != h.shell {
                before.push(skipped_row(h.name@, s, h.shell))
            } else {
                before
            },
            None => before,
        }
    }
}

fn skipped_results(hosts: &[&HostEntry], required: Option<ShellType>) -> (r: Vec<ExecHostResult>)
    ensures
        run_rows(r@) == skipped_rows(pointees(hosts@), required),
{
    let ghost all = pointees(hosts@);
    let mut out: Vec<ExecHostResult> = Vec::new();
    let mut i: usize = 0;
    assert(run_rows(out@) =~= skipped_rows(all.take(0), required));
    while i < hosts.len()
        invariant
            i <= hosts@.len(),
            all == pointees(hosts@),
            run_rows(out@) == skipped_rows(all.take(i as int), required),
        decreases hosts@.len() - i,
    {
        assert(all.take(i + 1).drop_last() =~= all.take(i as int));
        assert(all.take(i + 1).last() == *hosts@[i as int]);
        let h = hosts[i];
        let ghost before = run_rows(out@);
        match required {
            Some(s) => {
                if s != h.shell {
                    let row = skipped_result(h.name.as_str(), s, h.shell);
                    let ghost v = row@;
                    out.push(row);
                    assert(run_rows(out@) =~= before.push(v));
                }
            },
            None => {},
        }
        i += 1;
    }
    assert(all.take(i as int) =~= all);
    out
}

// ---------------------------------------------------------------------------
// The steps on one host
// ---------------------------------------------------------------------------

/// What is to be done on one host.
pub struct ExecJob {
    pub shell: ShellType,
    /// The name of the script on the host.
    pub name: String,
    pub sudo: bool,
    pub keep: bool,
}

/// The name of the script on a host: marked with the number of the process, so
/// that two runs do not get into each other's way.
pub open spec fn remote_script_name(pid: u32, name: Seq<char>) -> Seq<char> {
    "ssync_"@ + decimal(pid as nat) + "_"@ + name
}

/// A file name, or the one that is taken where there is none.
pub open spec fn name_or_default(name: Option<Seq<char>>) -> Seq<char> {
    match name {
        Some(n) => n,
        None => "ssync_script"@,
    }
}

fn build_script_name(pid: u32, name: &str) -> (r: String)
    ensures
        r@ == remote_script_name(pid, name@),
{
    let mut out = concat3("ssync_", decimal_text(pid as u64).as_str(), "_");
    out.append(name);
    out
}

/// Plans what is to be done on one host. A path without a file name gets one.
pub fn plan_job(shell: ShellType, script: &str, pid: u32, sudo: bool, keep: bool) -> (r: ExecJob)
    ensures
        r.shell == shell,
        r.sudo == sudo,
        r.keep == keep,
        exists|name: Option<Seq<char>>| #[trigger]
            name_fits(script@, name) && r.name@ == remote_script_name(pid, name_or_default(name)),
        plain(script@) ==> r.name@ == remote_script_name(
            pid,
            name_or_default(plain_name(script@)),
        ),
{
    let found = file_name_of(script);
    assert(name_fits(script@, text_opt(found)));
    let name = match found {
        Some(n) => n,
        None => copy("ssync_script"),
    };
    ExecJob { shell, name: build_script_name(pid, name.as_str()), sudo, keep }
}

/// How far the work on a host has come; the path is where the script lies.
pub enum ExecState {
    /// Waiting for the name of the directory for temporary files.
    Asking,
    /// Waiting for the script to be sent.
    Sending(String),
    /// Waiting for the script to be sent to the home directory instead.
    Retrying(String),
    /// Waiting for the script to be made executable.
    Marking(String),
    /// Waiting for the script to end.
    Running(String),
    /// Waiting for the script to be taken away again.
    Cleaning(RemoteOutput),
    /// Nothing is left to do.
    Finished,
}

/// What to do next on a host.
pub enum ExecAction {
    /// Run this command and hand its outcome back.
    Run(String),
    /// Send the script to this path and hand the outcome back.
    Send(String),
    /// The work has ended.
    End(ExecEnd),
}

/// What the work on a host came to.
pub enum ExecEnd {
    /// The script exited with zero, and printed this.
    Printed(String),
    /// The script exited with a code other than zero.
    Exited(Error),
    /// The script could not be sent or run.
    Broken(Fault),
}

/// How far the work has come, as a value of the specification language.
pub ghost enum StateView {
    Asking,
    Sending(Seq<char>),
    Retrying(Seq<char>),
    Marking(Seq<char>),
    Running(Seq<char>),
    Cleaning(Seq<char>, Seq<char>, Option<i32>, bool),
    Finished,
}

/// What to do next, as a value of the specification language.
pub ghost enum ActionView {
    Run(Seq<char>),
    Send(Seq<char>),
    Done(Seq<char>),
    Exited(Seq<char>),
    Failed(FaultView),
}

impl ActionView {
    /// Whether the work ends here.
    pub open spec fn ends(self) -> bool {
        self is Done || self is Exited || self is Failed
    }
}

impl View for ExecState {
    type V = StateView;

    open spec fn view(&self) -> StateView {
        match self {
            ExecState::Asking => StateView::Asking,
            ExecState::Sending(p) => StateView::Sending(p@),
            ExecState::Retrying(p) => StateView::Retrying(p@),
            ExecState::Marking(p) => StateView::Marking(p@),
            ExecState::Running(p) => StateView::Running(p@),
            ExecState::Cleaning(o) => StateView::Cleaning(
                o.stdout@,
                o.stderr@,
                o.exit_code,
                o.success,
            ),
            ExecState::Finished => StateView::Finished,
        }
    }
}

impl View for ExecAction {
    type V = ActionView;

    open spec fn view(&self) -> ActionView {
        match self {
            ExecAction::Run(c) => ActionView::Run(c@),
            ExecAction::Send(p) => ActionView::Send(p@),
            ExecAction::End(r) => match r {
                ExecEnd::Printed(s) => ActionView::Done(s@),
                ExecEnd::Exited(e) => ActionView::Exited(e@),
                ExecEnd::Broken(e) => ActionView::Failed(e@),
            },
        }
    }
}

/// The command that runs the script.
pub open spec fn script_command(shell: ShellType, path: Seq<char>, sudo: bool) -> Seq<char> {
    sent_command(
        shell,
        match shell {
            ShellType::Sh => path,
            ShellType::PowerShell => "powershell -File "@ + ("'"@ + path + "'"@),
            ShellType::Cmd => path,
        },
        sudo,
    )
}

fn build_script_command(shell: ShellType, path: &str, sudo: bool) -> (r: String)
    ensures
        r@ == script_command(shell, path@, sudo),
{
    let cmd = match shell {
        ShellType::Sh => copy(path),
        ShellType::PowerShell => concat2(
            "powershell -File ",
            concat3("'", path, "'").as_str(),
        ),
        ShellType::Cmd => copy(path),
    };
    if sudo {
        sudo_wrap(shell, cmd.as_str())
    } else {
        cmd
    }
}

/// The command that takes the script away again.
pub open spec fn removal(shell: ShellType, path: Seq<char>) -> Seq<char> {
    match shell {
        ShellType::Sh => "rm -f "@ + path,
        ShellType::PowerShell => "Remove-Item -Force "@ + ("'"@ + path + "'"@),
        ShellType::Cmd => "del /f \""@ + path + "\""@,
    }
}

fn build_removal(shell: ShellType, path: &str) -> (r: String)
    ensures
        r@ == removal(shell, path@),
{
    match shell {
        ShellType::Sh => concat2("rm -f ", path),
        ShellType::PowerShell => concat2(
            "Remove-Item -Force ",
            concat3("'", path, "'").as_str(),
        ),
        ShellType::Cmd => concat3("del /f \"", path, "\""),
    }
}

/// What a script came to: what it printed, or the error with its exit code.
pub open spec fn verdict_on(
    stdout: Seq<char>,
    stderr: Seq<char>,
    exit_code: Option<i32>,
    success: bool,
) -> ActionView {
    if success {
        ActionView::Done(stdout)
    } else {
        ActionView::Exited(
            "Script failed (exit "@ + signed_decimal(
                match exit_code {
                    Some(c) => c as int,
                    None => -1,
                },
            ) + "): "@ + trim(stderr),
        )
    }
}

fn judge(o: &RemoteOutput) -> (r: ExecAction)
    ensures
        r@ == verdict_on(o.stdout@, o.stderr@, o.exit_code, o.success),
{
    if o.success {
        return ExecAction::End(ExecEnd::Printed(copy(o.stdout.as_str())));
    }
    let code: i64 = match o.exit_code {
        Some(c) => c as i64,
        None => -1,
    };
    let mut m = concat3("Script failed (exit ", signed_text(code).as_str(), "): ");
    m.append(trimmed(o.stderr.as_str()).as_str());
    ExecAction::End(ExecEnd::Exited(Error { message: m }))
}

/// The first step on a host: a POSIX host takes the script in `/tmp`; any other
/// is asked for its directory for temporary files.
pub open spec fn first_step(job: ExecJob) -> (StateView, ActionView) {
    match job.shell {
        ShellType::Sh => {
            let path = "/tmp"@ + "/"@ + job.name@;
            (StateView::Sending(path), ActionView::Send(path))
        },
        ShellType::PowerShell => (StateView::Asking, ActionView::Run("echo $env:TEMP"@)),
        ShellType::Cmd => (StateView::Asking, ActionView::Run("echo %TEMP%"@)),
    }
}

/// Begins the work on a host.
pub fn start_job(job: &ExecJob) -> (r: (ExecState, ExecAction))
    ensures
        (r.0@, r.1@) == first_step(*job),
{
    match job.shell {
        ShellType::Sh => {
            let path = concat3("/tmp", "/", job.name.as_str());
            (ExecState::Sending(copy(path.as_str())), ExecAction::Send(path))
        },
        ShellType::PowerShell => (ExecState::Asking, ExecAction::Run(copy("echo $env:TEMP"))),
        ShellType::Cmd => (ExecState::Asking, ExecAction::Run(copy("echo %TEMP%"))),
    }
}

/// The step after the script has been sent: on a POSIX host it is made executable
/// first.
pub open spec fn after_sending(job: ExecJob, path: Seq<char>) -> (StateView, ActionView) {
    if job.shell == ShellType::Sh {
        (StateView::Marking(path), ActionView::Run("chmod +x "@ + path))
    } else {
        (StateView::Running(path), ActionView::Run(script_command(job.shell, path, job.sudo)))
    }
}

fn proceed(job: &ExecJob, path: String) -> (r: (ExecState, ExecAction))
    ensures
        (r.0@, r.1@) == after_sending(*job, path@),
{
    if job.shell == ShellType::Sh {
        let cmd = concat2("chmod +x ", path.as_str());
        (ExecState::Marking(path), ExecAction::Run(cmd))
    } else {
        let cmd = build_script_command(job.shell, path.as_str(), job.sudo);
        (ExecState::Running(path), ExecAction::Run(cmd))
    }
}

/// The step after an attempt to send the script. A POSIX host that does not take
/// it in `/tmp` gets it in its home directory.
pub open spec fn sent_step(job: ExecJob, state: StateView, error: Option<FaultView>) -> (
    StateView,
    ActionView,
) {
    match (state, error) {
        (StateView::Sending(path), None) => after_sending(job, path),
        (StateView::Retrying(path), None) => after_sending(job, path),
        (StateView::Sending(path), Some(e)) => if job.shell == ShellType::Sh {
            let fallback = "~/"@ + job.name@;
            (StateView::Retrying(fallback), ActionView::Send(fallback))
        } else {
            (StateView::Finished, ActionView::Failed(e))
        },
        (_, Some(e)) => (StateView::Finished, ActionView::Failed(e)),
        (_, None) => (state, ActionView::Failed(FaultView::Other("nothing was sent"@))),
    }
}

/// Goes on after an attempt to send the script.
pub fn after_send(job: &ExecJob, state: ExecState, result: Result<(), Fault>) -> (r: (
    ExecState,
    ExecAction,
))
    requires
        state is Sending || state is Retrying,
    ensures
        (r.0@, r.1@) == sent_step(
            *job,
            state@,
            match result {
                Ok(_) => None,
                Err(e) => Some(e@),
            },
        ),
{
    match result {
        Ok(_) => match state {
            ExecState::Sending(path) => proceed(job, path),
            ExecState::Retrying(path) => proceed(job, path),
            other => (other, ExecAction::End(ExecEnd::Broken(Fault::Other(Error::new("nothing was sent"))))),
        },
        Err(e) => match state {
            ExecState::Sending(path) => if job.shell == ShellType::Sh {
                let fallback = concat2("~/", job.name.as_str());
                (ExecState::Retrying(copy(fallback.as_str())), ExecAction::Send(fallback))
            } else {
                (ExecState::Finished, ExecAction::End(ExecEnd::Broken(e)))
            },
            _ => (ExecState::Finished, ExecAction::End(ExecEnd::Broken(e))),
        },
    }
}

/// The step after a command has been run.
pub open spec fn ran_step(
    job: ExecJob,
    state: StateView,
    result: Result<RemoteOutput, Fault>,
) -> (StateView, ActionView) {
    match (state, result) {
        (StateView::Cleaning(stdout, stderr, code, success), _) => (
            StateView::Finished,
            verdict_on(stdout, stderr, code, success),
        ),
        (_, Err(e)) => (StateView::Finished, ActionView::Failed(e@)),
        (StateView::Asking, Ok(o)) => if o.success {
            let path = trim(o.stdout@) + "/"@ + job.name@;
            (StateView::Sending(path), ActionView::Send(path))
        } else {
            (
                StateView::Finished,
                ActionView::Failed(FaultView::Other("Failed to get temp directory: "@ + trim(o.stderr@))),
            )
        },
        (StateView::Marking(path), Ok(o)) => (
            StateView::Running(path),
            ActionView::Run(script_command(job.shell, path, job.sudo)),
        ),
        (StateView::Running(path), Ok(o)) => if job.keep {
            (StateView::Finished, verdict_on(o.stdout@, o.stderr@, o.exit_code, o.success))
        } else {
            (
                StateView::Cleaning(o.stdout@, o.stderr@, o.exit_code, o.success),
                ActionView::Run(removal(job.shell, path)),
            )
        },
        (_, Ok(o)) => (state, ActionView::Failed(FaultView::Other("nothing was run"@))),
    }
}

/// Goes on after a command has been run.
pub fn after_run(job: &ExecJob, state: ExecState, result: Result<RemoteOutput, Fault>) -> (r: (
    ExecState,
    ExecAction,
))
    requires
        state is Asking || state is Marking || state is Running || state is Cleaning,
    ensures
        (r.0@, r.1@) == ran_step(*job, state@, result),
{
    match state {
        ExecState::Cleaning(o) => (ExecState::Finished, judge(&o)),
        ExecState::Asking => match result {
            Err(e) => (ExecState::Finished, ExecAction::End(ExecEnd::Broken(e))),
            Ok(o) => if o.success {
                let path = concat3(trimmed(o.stdout.as_str()).as_str(), "/", job.name.as_str());
                (ExecState::Sending(copy(path.as_str())), ExecAction::Send(path))
            } else {
                (
                    ExecState::Finished,
                    ExecAction::End(
                        ExecEnd::Broken(
                            Fault::Other(
                                Error {
                                    message: concat2(
                                        "Failed to get temp directory: ",
                                        trimmed(o.stderr.as_str()).as_str(),
                                    ),
                                },
                            ),
                        ),
                    ),
                )
            },
        },
        ExecState::Marking(path) => match result {
            Err(e) => (ExecState::Finished, ExecAction::End(ExecEnd::Broken(e))),
            Ok(o) => {
                let cmd = build_script_command(job.shell, path.as_str(), job.sudo);
                (ExecState::Running(path), ExecAction::Run(cmd))
            },
        },
        ExecState::Running(path) => match result {
            Err(e) => (ExecState::Finished, ExecAction::End(ExecEnd::Broken(e))),
            Ok(o) => if job.keep {
                (ExecState::Finished, judge(&o))
            } else {
                let cmd = build_removal(job.shell, path.as_str());
                (ExecState::Cleaning(o), ExecAction::Run(cmd))
            },
        },
        other => (other, ExecAction::End(ExecEnd::Broken(Fault::Other(Error::new("nothing was run"))))),
    }
}

// ---------------------------------------------------------------------------
// Outcomes
// ---------------------------------------------------------------------------

/// What came back from a host.
pub struct ExecOutcome {
    pub host: String,
    pub result: ExecEnd,
    /// The time it took, in seconds with one digit behind the point.
    pub took: String,
    pub ms: u64,
}

impl ExecOutcome {
    /// The row of the host.
    pub open spec fn row(&self) -> RunRow {
        match self.result {
            ExecEnd::Printed(stdout) => RunRow {
                host: self.host@,
                status: HostStatus::Online,
                duration_ms: Some(self.ms),
                detail: ok_detail(self.took@, stdout@),
                stdout: stdout@,
                stderr: Seq::empty(),
            },
            ExecEnd::Exited(e) => failed_row(
                self.host@,
                HostStatus::Offline,
                self.took@,
                self.ms,
                e@,
            ),
            ExecEnd::Broken(f) => broken_row(self.host@, f@, self.took@, self.ms),
        }
    }
}

fn failed_on(o: &ExecOutcome, status: HostStatus, error: &Error) -> (r: ExecHostResult)
    ensures
        r@ == failed_row(o.host@, status, o.took@, o.ms, error@),
{
    failed_result(o.host.as_str(), status, o.took.as_str(), o.ms, error.message.as_str())
}

/// The result for a host on which the script was run.
pub fn exec_result(o: &ExecOutcome) -> (r: ExecHostResult)
    ensures
        r@ == o.row(),
{
    match &o.result {
        ExecEnd::Printed(stdout) => {
            let r = ExecHostResult {
                host: copy(o.host.as_str()),
                status: HostStatus::Online,
                duration_ms: Some(o.ms),
                detail: show_ok(o.took.as_str(), stdout.as_str()),
                stdout: copy(stdout.as_str()),
                stderr: String::new(),
            };
            assert(r.stderr@ =~= Seq::empty());
            r
        },
        ExecEnd::Exited(e) => failed_on(o, HostStatus::Offline, e),
        ExecEnd::Broken(Fault::TimedOut(e)) => failed_on(o, HostStatus::TimedOut, e),
        ExecEnd::Broken(Fault::Other(e)) => failed_on(o, HostStatus::Error, e),
    }
}

/// Decides what the operation log keeps of a script on one host.
pub fn exec_log(o: &ExecOutcome) -> (r: LogRecord)
    ensures
        r.status@ == (if o.result is Printed {
            "ok"@
        } else {
            "error"@
        }),
        text_opt(r.note) == (match o.result {
            ExecEnd::Printed(s) => None,
            ExecEnd::Exited(e) => Some(e@),
            ExecEnd::Broken(Fault::TimedOut(e)) => Some(e@),
            ExecEnd::Broken(Fault::Other(e)) => Some(e@),
        }),
{
    match &o.result {
        ExecEnd::Printed(s) => LogRecord { status: "ok", note: None },
        ExecEnd::Exited(e) => LogRecord { status: "error", note: Some(copy(e.message.as_str())) },
        ExecEnd::Broken(Fault::TimedOut(e)) => LogRecord {
            status: "error",
            note: Some(copy(e.message.as_str())),
        },
        ExecEnd::Broken(Fault::Other(e)) => LogRecord {
            status: "error",
            note: Some(copy(e.message.as_str())),
        },
    }
}

/// The rows of a script run: the hosts that could not be reached, then those that
/// were left out, then the others.
pub open spec fn exec_result_rows(
    failed: Seq<(Seq<char>, Seq<char>)>,
    reachable: Seq<HostEntry>,
    required: Option<ShellType>,
    outcomes: Seq<ExecOutcome>,
) -> Seq<RunRow> {
    Seq::new(failed.len(), |i: int| unreachable_row(failed[i].0, failed[i].1)) + skipped_rows(
        reachable,
        required,
    ) + Seq::new(outcomes.len(), |i: int| outcomes[i].row())
}

/// Puts the report of a script run together.
pub fn exec_core(
    executed_at: String,
    script: &str,
    targets: Vec<String>,
    failed: &[(String, String)],
    reachable: &[&HostEntry],
    required: Option<ShellType>,
    outcomes: &[ExecOutcome],
) -> (r: ExecReport)
    ensures
        r.executed_at == executed_at,
        r.script@ == script@,
        r.targets == targets,
        run_rows(r.hosts@) == exec_result_rows(
            pair_texts(failed@),
            pointees(reachable@),
            required,
            outcomes@,
        ),
{
    let mut hosts = unreachable_results(failed);
    let ghost down = run_rows(hosts@);
    let mut skipped = skipped_results(reachable, required);
    let ghost left = run_rows(skipped@);
    hosts.append(&mut skipped);
    assert(run_rows(hosts@) =~= down + left);
    let ghost start = run_rows(hosts@);
    let ghost want = Seq::new(outcomes@.len(), |i: int| outcomes@[i].row());
    let mut i: usize = 0;
    assert(start + want.take(0) =~= start);
    while i < outcomes.len()
        invariant
            i <= outcomes@.len(),
            want == Seq::new(outcomes@.len(), |i: int| outcomes@[i].row()),
            run_rows(hosts@) == start + want.take(i as int),
        decreases outcomes@.len() - i,
    {
        let ghost before = run_rows(hosts@);
        let row = exec_result(&outcomes[i]);
        let ghost v = row@;
        hosts.push(row);
        assert(run_rows(hosts@) =~= before.push(v));
        assert(want[i as int] == v);
        i += 1;
        assert(before.push(v) =~= start + want.take(i as int));
    }
    assert(want.take(i as int) =~= want);
    assert(down =~= Seq::new(
        pair_texts(failed@).len(),
        |i: int| unreachable_row(pair_texts(failed@)[i].0, pair_texts(failed@)[i].1),
    ));
    ExecReport { executed_at, script: copy(script), targets, hosts }
}

/// The error where the script does not exist.
pub fn not_found(script: &str) -> (r: Error)
    ensures
        r@ == "Script not found: "@ + script@,
{
    Error { message: concat2("Script not found: ", script) }
}

/// What a dry run says first: the script and the shell that it needs.
pub open spec fn dry_run_head(script: Seq<char>, required: Option<ShellType>) -> Seq<Seq<char>> {
    seq![
        "[dry-run] Script: "@ + script,
        "[dry-run] Compatible shell: "@ + (match required {
            Some(s) => "Some("@ + shell_label(s) + ")"@,
            None => "None"@,
        }),
    ]
}

/// Writes what a dry run says first.
pub fn dry_run_lines(script: &str, required: Option<ShellType>) -> (r: Vec<String>)
    ensures
        texts(r@) == dry_run_head(script@, required),
{
    let mut out: Vec<String> = Vec::new();
    out.push(concat2("[dry-run] Script: ", script));
    let shell = match required {
        Some(s) => concat3("Some(", label_of(s), ")"),
        None => copy("None"),
    };
    out.push(concat2("[dry-run] Compatible shell: ", shell.as_str()));
    assert(texts(out@) =~= dry_run_head(script@, required));
    out
}

/// What a dry run says of a host: the kind of line, and what would be done.
pub fn dry_run_host(required: Option<ShellType>, shell: ShellType) -> (r: (
    &'static str,
    &'static str,
))
    ensures
        (r.0@, r.1@) == (if can_run(required, shell) {
            ("ok"@, "would execute"@)
        } else {
            ("skip"@, "shell mismatch"@)
        }),
{
    if is_compatible(required, shell) {
        ("ok", "would execute")
    } else {
        ("skip", "shell mismatch")
    }
}

// ---------------------------------------------------------------------------
// What is shown
// ---------------------------------------------------------------------------

/// The kind of line that is printed for a host.
pub fn line_kind(status: HostStatus) -> (r: &'static str)
    ensures
        r@ == (match status {
            HostStatus::Online => "ok"@,
            HostStatus::Skipped => "skip"@,
            _ => "error"@,
        }),
{
    match status {
        HostStatus::Online => "ok",
        HostStatus::Skipped => "skip",
        _ => "error",
    }
}

/// How a host counts.
pub open spec fn exec_verdict(row: RunRow) -> VerdictView {
    match row.status {
        HostStatus::Online => VerdictView::Success,
        HostStatus::Skipped => VerdictView::Skip,
        HostStatus::Offline
        | HostStatus::Unreachable
        | HostStatus::TimedOut
        | HostStatus::Error => VerdictView::Failure(row.detail),
        _ => VerdictView::Uncounted,
    }
}

/// The counts of a script run.
pub open spec fn exec_tally(rows: Seq<RunRow>) -> Tally
    decreases rows.len(),
{
    if rows.len() == 0 {
        no_tally()
    } else {
        exec_tally(rows.drop_last()).counted(rows.last().host, exec_verdict(rows.last()))
    }
}

proof fn exec_tally_counts(rows: Seq<RunRow>)
    ensures
        exec_tally(rows).succeeded + exec_tally(rows).failed + exec_tally(rows).skipped
            <= rows.len(),
    decreases rows.len(),
{
    if rows.len() > 0 {
        exec_tally_counts(rows.drop_last());
    }
}

/// Sums a script run up.
pub fn summarize(hosts: &[ExecHostResult]) -> (r: Summary)
    ensures
        r.wf(),
        tally_of(r) == exec_tally(run_rows(hosts@)),
        r.skip_reasons@.len() == 0,
{
    let ghost rows = run_rows(hosts@);
    let mut s = no_summary();
    let mut i: usize = 0;
    assert(rows.take(0) =~= Seq::empty());
    while i < hosts.len()
        invariant
            i <= hosts@.len(),
            rows == run_rows(hosts@),
            s.wf(),
            s.skip_reasons@.len() == 0,
            tally_of(s) == exec_tally(rows.take(i as int)),
        decreases hosts@.len() - i,
    {
        proof {
            assert(rows.take(i + 1).drop_last() =~= rows.take(i as int));
            assert(rows.take(i + 1).last() == hosts@[i as int]@);
            exec_tally_counts(rows.take(i as int));
        }
        let h = &hosts[i];
        let v = match h.status {
            HostStatus::Online => Verdict::Success,
            HostStatus::Skipped => Verdict::Skip,
            HostStatus::Offline
            | HostStatus::Unreachable
            | HostStatus::TimedOut
            | HostStatus::Error => Verdict::Failure(copy(h.detail.as_str())),
            _ => Verdict::Uncounted,
        };
        count(&mut s, h.host.as_str(), v);
        i += 1;
    }
    assert(rows.take(i as int) =~= rows);
    s
}

/// The entry of a host in the written report.
pub open spec fn exec_report_entry(row: RunRow) -> ResultView {
    ResultView {
        host: row.host,
        status: match row.status {
            HostStatus::Online => "success"@,
            HostStatus::Skipped => "skipped"@,
            _ => "error"@,
        },
        duration_ms: row.duration_ms,
    }
}

/// Writes the entry of a host in the written report.
pub fn report_result(h: ExecHostResult) -> (r: HostResult)
    ensures
        r@ == exec_report_entry(h@),
        r.output matches HostOutput::Streams { stdout, stderr } && stdout@ == h.stdout@ && stderr@
            == h.stderr@,
{
    let status = match h.status {
        HostStatus::Online => copy("success"),
        HostStatus::Skipped => copy("skipped"),
        _ => copy("error"),
    };
    HostResult {
        host: h.host,
        status,
        duration_ms: h.duration_ms,
        output: HostOutput::Streams { stdout: h.stdout, stderr: h.stderr },
    }
}

// ---------------------------------------------------------------------------
// Laws
// ---------------------------------------------------------------------------

/// How many steps a state is at most away from the end.
pub open spec fn steps_left(state: StateView) -> nat {
    match state {
        StateView::Asking => 6,
        StateView::Sending(p) => 5,
        StateView::Retrying(p) => 4,
        StateView::Marking(p) => 3,
        StateView::Running(p) => 2,
        StateView::Cleaning(o, e, c, s) => 1,
        StateView::Finished => 0,
    }
}

/// The work on a host comes to an end: every step brings it nearer, and it ends
/// exactly in the final state.
pub proof fn every_step_leads_on(job: ExecJob, state: StateView, result: Result<RemoteOutput, Fault>)
    requires
        state is Asking || state is Marking || state is Running || state is Cleaning,
    ensures
        steps_left(ran_step(job, state, result).0) < steps_left(state),
        ran_step(job, state, result).0 is Finished <==> ran_step(job, state, result).1.ends(),
{
}

/// The same after an attempt to send the script.
pub proof fn every_send_leads_on(job: ExecJob, state: StateView, error: Option<FaultView>)
    requires
        state is Sending || state is Retrying,
    ensures
        steps_left(sent_step(job, state, error).0) < steps_left(state),
        sent_step(job, state, error).0 is Finished <==> sent_step(job, state, error).1.ends(),
{
}

/// A script that has been run is taken away again, unless it is to be kept; and
/// whether that works does not change what the script came to.
pub proof fn scripts_are_taken_away(
    job: ExecJob,
    path: Seq<char>,
    output: RemoteOutput,
    cleaned: Result<RemoteOutput, Fault>,
)
    ensures
        ({
            let (state, action) = ran_step(job, StateView::Running(path), Ok(output));
            let end = verdict_on(
                output.stdout@,
                output.stderr@,
                output.exit_code,
                output.success,
            );
            if job.keep {
                action == end
            } else {
                &&& action == ActionView::Run(removal(job.shell, path))
                &&& ran_step(job, state, cleaned).1 == end
            }
        }),
{
}

/// A script that ran and exited non-zero ends as one that exited; an error of the
/// connection ends as a broken one; and only a script that exited with zero ends well.
pub proof fn only_the_exit_decides(
    job: ExecJob,
    path: Seq<char>,
    output: RemoteOutput,
    fault: Fault,
)
    requires
        job.keep,
    ensures
        ran_step(job, StateView::Running(path), Ok(output)).1 is Done <==> output.success,
        ran_step(job, StateView::Running(path), Ok(output)).1 is Exited <==> !output.success,
        ran_step(job, StateView::Running(path), Err(fault)).1 == ActionView::Failed(fault@),
{
}

/// A script is only run on hosts that can run it: every host that can be reached
/// is either left out or can run it.
pub proof fn skipped_hosts_cannot_run(hosts: Seq<HostEntry>, required: Option<ShellType>)
    ensures
        skipped_rows(hosts, required).len() + hosts.filter(
            |h: HostEntry| can_run(required, h.shell),
        ).len() == hosts.len(),
    decreases hosts.len(),
{
    let p = |h: HostEntry| can_run(required, h.shell);
    if hosts.len() == 0 {
        crate::host::filter::filter_none(hosts, p);
        assert(hosts.take(0) =~= hosts);
    } else {
        skipped_hosts_cannot_run(hosts.drop_last(), required);
        crate::host::filter::filter_next(hosts, p, hosts.len() - 1);
        assert(hosts.take(hosts.len() as int) =~= hosts);
        assert(hosts.take(hosts.len() - 1) =~= hosts.drop_last());
    }
}

/// The command that runs the script is the path alone, or what the shell needs to run a
/// file at that path, and begins with what raises the rights exactly where the job asks
/// for that.
pub proof fn sudo_is_used_where_it_is_asked_for(
    job: ExecJob,
    path: Seq<char>,
    output: RemoteOutput,
)
    ensures
        job.shell == ShellType::Sh ==> ran_step(job, StateView::Marking(path), Ok(output)).1
            == ActionView::Run(
            if job.sudo {
                "sudo "@ + path
            } else {
                path
            },
        ),
        job.shell == ShellType::PowerShell ==> sent_step(job, StateView::Sending(path), None).1
            == ActionView::Run(
            if job.sudo {
                "Start-Process powershell -ArgumentList '-Command "@ + ("powershell -File "@ + ("'"@
                    + path + "'"@)) + "' -Verb RunAs"@
            } else {
                "powershell -File "@ + ("'"@ + path + "'"@)
            },
        ),
        job.shell == ShellType::Cmd ==> sent_step(job, StateView::Sending(path), None).1
            == ActionView::Run(
            if job.sudo {
                "runas /user:Administrator \""@ + path + "\""@
            } else {
                path
            },
        ),
{
}

/// On a POSIX host a script is sent to `/tmp`, made executable, run, and taken away
/// again, all at one path that holds the name of the job.
pub proof fn posix_scripts_take_four_steps(
    job: ExecJob,
    made: RemoteOutput,
    ran: RemoteOutput,
    removed: Result<RemoteOutput, Fault>,
)
    requires
        job.shell == ShellType::Sh,
        !job.keep,
        !job.sudo,
    ensures
        ({
            let path = "/tmp/"@ + job.name@;
            let (s1, a1) = first_step(job);
            let (s2, a2) = sent_step(job, s1, None);
            let (s3, a3) = ran_step(job, s2, Ok(made));
            let (s4, a4) = ran_step(job, s3, Ok(ran));
            let (s5, a5) = ran_step(job, s4, removed);
            &&& a1 == ActionView::Send(path)
            &&& a2 == ActionView::Run("chmod +x "@ + path)
            &&& a3 == ActionView::Run(path)
            &&& a4 == ActionView::Run("rm -f "@ + path)
            &&& ran.success ==> a5 == ActionView::Done(ran.stdout@)
            &&& !ran.success ==> a5 is Exited
            &&& s5 is Finished
        }),
{
    reveal_strlit("/tmp/");
    reveal_strlit("/tmp");
    reveal_strlit("/");
    assert("/tmp"@ + "/"@ + job.name@ =~= "/tmp/"@ + job.name@);
}

/// On a Windows host a script is sent to the directory for temporary files that the host
/// names, run there, and taken away again.
pub proof fn windows_scripts_ask_for_their_place(
    job: ExecJob,
    place: RemoteOutput,
    ran: RemoteOutput,
)
    requires
        job.shell != ShellType::Sh,
        place.success,
    ensures
        ({
            let path = trim(place.stdout@) + "/"@ + job.name@;
            let (s1, a1) = first_step(job);
            let (s2, a2) = ran_step(job, s1, Ok(place));
            let (s3, a3) = sent_step(job, s2, None);
            let (s4, a4) = ran_step(job, s3, Ok(ran));
            &&& a1 == ActionView::Run(
                if job.shell == ShellType::PowerShell {
                    "echo $env:TEMP"@
                } else {
                    "echo %TEMP%"@
                },
            )
            &&& a2 == ActionView::Send(path)
            &&& !job.keep && job.shell == ShellType::PowerShell ==> a4 == ActionView::Run(
                "Remove-Item -Force "@ + ("'"@ + path + "'"@),
            )
            &&& !job.keep && job.shell == ShellType::Cmd ==> a4 == ActionView::Run(
                "del /f \""@ + path + "\""@,
            )
            &&& job.keep && ran.success ==> a4 == ActionView::Done(ran.stdout@)
        }),
{
}

/// A POSIX host that does not take the script in `/tmp` gets it in its home directory
/// once; a second refusal, or one of another host, ends the work with that error.
pub proof fn a_refused_script_is_sent_home_once(
    job: ExecJob,
    path: Seq<char>,
    first: FaultView,
    second: FaultView,
)
    ensures
        job.shell == ShellType::Sh ==> ({
            let (s, a) = sent_step(job, StateView::Sending(path), Some(first));
            &&& a == ActionView::Send("~/"@ + job.name@)
            &&& sent_step(job, s, Some(second)) == (StateView::Finished, ActionView::Failed(second))
            &&& sent_step(job, s, None).1 == ActionView::Run("chmod +x "@ + ("~/"@ + job.name@))
        }),
        job.shell != ShellType::Sh ==> sent_step(job, StateView::Sending(path), Some(first)) == (
            StateView::Finished,
            ActionView::Failed(first),
        ),
{
}

/// A script that exits with a code other than zero ends with that code and with what it
/// wrote to its error output.
pub proof fn exit_codes_are_told(stdout: Seq<char>, stderr: Seq<char>, code: i32)
    ensures
        verdict_on(stdout, stderr, Some(code), false) == ActionView::Exited(
            "Script failed (exit "@ + signed_decimal(code as int) + "): "@ + trim(stderr),
        ),
        verdict_on(stdout, stderr, None, false) == ActionView::Exited(
            "Script failed (exit "@ + signed_decimal(-1) + "): "@ + trim(stderr),
        ),
        verdict_on(stdout, stderr, Some(code), true) == ActionView::Done(stdout),
{
}

/// The extension of a script decides which shell it needs, whatever its case: `.sh`,
/// `.ps1`, and `.bat` or `.cmd`; any other script runs everywhere.
pub proof fn extensions_choose_the_shell(ext: Seq<char>)
    ensures
        shell_for(None) is None,
        lowercase(ext) == "sh"@ ==> shell_for(Some(ext)) == Some(ShellType::Sh),
        lowercase(ext) == "ps1"@ ==> shell_for(Some(ext)) == Some(ShellType::PowerShell),
        lowercase(ext) == "bat"@ || lowercase(ext) == "cmd"@ ==> shell_for(Some(ext)) == Some(
            ShellType::Cmd,
        ),
        lowercase(ext) != "sh"@ && lowercase(ext) != "ps1"@ && lowercase(ext) != "bat"@
            && lowercase(ext) != "cmd"@ ==> shell_for(Some(ext)) is None,
{
    reveal_strlit("");
    reveal_strlit("sh");
    reveal_strlit("ps1");
    reveal_strlit("bat");
    reveal_strlit("cmd");
    assert(lowercase(""@).len() == 0) by {
        assert(crate::order::ascii_only(""@));
    }
    assert("sh"@.len() == 2);
    assert("ps1"@[0] == 'p');
    assert("bat"@[0] == 'b');
    assert("cmd"@[0] == 'c');
}

/// A script that needs a shell is left out on exactly the hosts with another one, each
/// with its row; a script that needs none is left out nowhere.
pub proof fn other_shells_are_left_out(
    hosts: Seq<HostEntry>,
    required: ShellType,
    row: RunRow,
)
    ensures
        skipped_rows(hosts, None).len() == 0,
        skipped_rows(hosts, Some(required)).contains(row) <==> exists|k: int|
            0 <= k < hosts.len() && (#[trigger] hosts[k]).shell != required && row == skipped_row(
                hosts[k].name@,
                required,
                hosts[k].shell,
            ),
        skipped_rows(hosts, Some(required)).contains(row) ==> row.status == HostStatus::Skipped,
    decreases hosts.len(),
{
    if hosts.len() > 0 {
        let rest = hosts.drop_last();
        let h = hosts.last();
        other_shells_are_left_out(rest, required, row);
        let before = skipped_rows(rest, Some(required));
        let all = skipped_rows(hosts, Some(required));
        assert(hosts[hosts.len() - 1] == h);
        if h.shell != required {
            let mine = skipped_row(h.name@, required, h.shell);
            assert(all == before.push(mine));
            assert(all[before.len() as int] == mine);
            if before.contains(row) {
                assert(all[before.index_of(row)] == row);
            }
            if all.contains(row) && row != mine {
                assert(before[all.index_of(row)] == row);
            }
        }
        if before.contains(row) {
            let k = choose|k: int|
                0 <= k < rest.len() && (#[trigger] rest[k]).shell != required && row == skipped_row(
                    rest[k].name@,
                    required,
                    rest[k].shell,
                );
            assert(hosts[k] == rest[k]);
        }
        if exists|k: int|
            0 <= k < hosts.len() && (#[trigger] hosts[k]).shell != required && row == skipped_row(
                hosts[k].name@,
                required,
                hosts[k].shell,
            ) {
            let k = choose|k: int|
                0 <= k < hosts.len() && (#[trigger] hosts[k]).shell != required && row
                    == skipped_row(hosts[k].name@, required, hosts[k].shell);
            if k < rest.len() {
                assert(rest[k] == hosts[k]);
            }
        }
    }
}

/// A host runs a script that needs its own shell, and any script that needs none.
pub proof fn hosts_run_what_fits(shell: ShellType, other: ShellType)
    ensures
        can_run(None, shell),
        can_run(Some(shell), shell),
        other != shell ==> !can_run(Some(other), shell),
{
}

/// A script run counts every host once: those where the script exited with zero as
/// successes, those that were left out as skipped, and all others as failures.
pub proof fn every_script_counts(
    failed: Seq<(Seq<char>, Seq<char>)>,
    reachable: Seq<HostEntry>,
    required: ShellType,
    outcomes: Seq<ExecOutcome>,
)
    ensures
        ({
            let t = exec_tally(exec_result_rows(failed, reachable, Some(required), outcomes));
            &&& t.succeeded == outcomes.filter(|o: ExecOutcome| o.result is Printed).len()
            &&& t.skipped == reachable.filter(|h: HostEntry| h.shell != required).len()
            &&& t.failed == failed.len() + outcomes.filter(
                |o: ExecOutcome| !(o.result is Printed),
            ).len()
        }),
    decreases failed.len() + reachable.len() + outcomes.len(),
{
    reveal(Seq::filter);
    let rows = exec_result_rows(failed, reachable, Some(required), outcomes);
    if outcomes.len() > 0 {
        every_script_counts(failed, reachable, required, outcomes.drop_last());
        assert(rows.drop_last() =~= exec_result_rows(
            failed,
            reachable,
            Some(required),
            outcomes.drop_last(),
        ));
        assert(rows.last() == outcomes.last().row());
    } else if reachable.len() > 0 {
        every_script_counts(failed, reachable.drop_last(), required, outcomes);
        let fewer = exec_result_rows(failed, reachable.drop_last(), Some(required), outcomes);
        let h = reachable.last();
        if h.shell != required {
            assert(rows =~= fewer.push(skipped_row(h.name@, required, h.shell)));
            assert(rows.drop_last() =~= fewer);
        } else {
            assert(rows =~= fewer);
        }
    } else if failed.len() > 0 {
        every_script_counts(failed.drop_last(), reachable, required, outcomes);
        assert(rows.drop_last() =~= exec_result_rows(
            failed.drop_last(),
            reachable,
            Some(required),
            outcomes,
        ));
        assert(rows.last() == unreachable_row(failed.last().0, failed.last().1));
    }
}

/// The name of a script on a host holds the number of the process and the name of the
/// script, so that two processes never use the same one for the same script.
pub proof fn script_names_tell_processes_apart(a: u32, b: u32, name: Seq<char>)
    ensures
        remote_script_name(a, name) == "ssync_"@ + decimal(a as nat) + "_"@ + name,
        remote_script_name(a, name) == remote_script_name(b, name) ==> decimal(a as nat) == decimal(
            b as nat,
        ),
{
    let x = remote_script_name(a, name);
    let y = remote_script_name(b, name);
    if x == y {
        let da = decimal(a as nat);
        let db = decimal(b as nat);
        reveal_strlit("ssync_");
        reveal_strlit("_");
        assert(x.len() == 6 + da.len() + 1 + name.len());
        assert(y.len() == 6 + db.len() + 1 + name.len());
        assert(x.subrange(6, (6 + da.len()) as int) =~= da);
        assert(y.subrange(6, (6 + db.len()) as int) =~= db);
    }
}

/// A host counts in the report as a success where its script succeeded, as skipped where it
/// was left out, and else as an error.
pub proof fn scripts_are_reported_as_they_ended(row: RunRow)
    ensures
        exec_report_entry(row).host == row.host,
        exec_report_entry(row).duration_ms == row.duration_ms,
        exec_report_entry(row).status == "success"@ <==> row.status == HostStatus::Online,
        exec_report_entry(row).status == "skipped"@ <==> row.status == HostStatus::Skipped,
        exec_report_entry(row).status == "error"@ <==> row.status != HostStatus::Online
            && row.status
            != HostStatus::Skipped,
{
    reveal_strlit("success");
    reveal_strlit("skipped");
    reveal_strlit("error");
    assert("success"@.len() == 7 && "error"@.len() == 5 && "skipped"@.len() == 7);
    assert("success"@[1] == 'u' && "skipped"@[1] == 'k');
}

} // verus!
