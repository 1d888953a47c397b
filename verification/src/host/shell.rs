//! What differs between the shells of remote hosts.

use vstd::prelude::*;

use crate::config::schema::ShellType;
use crate::host::session_pool::RemoteOutput;
use crate::scan::{contains_text, has_text, trim, trimmed};
use crate::text::{chars_of, concat2, concat3};

verus! {

/// The directory for temporary files, in the words of the shell.
pub open spec fn temp_dir_name(shell: ShellType) -> Seq<char> {
    match shell {
        ShellType::Sh => "/tmp"@,
        ShellType::PowerShell => "$env:TEMP"@,
        ShellType::Cmd => "%TEMP%"@,
    }
}

/// The directory for temporary files, in the words of the shell.
pub fn temp_dir(shell: ShellType) -> (r: &'static str)
    ensures
        r@ == temp_dir_name(shell),
{
    match shell {
        ShellType::Sh => "/tmp",
        ShellType::PowerShell => "$env:TEMP",
        ShellType::Cmd => "%TEMP%",
    }
}

/// A command that runs with the rights of an administrator.
pub open spec fn elevated(shell: ShellType, command: Seq<char>) -> Seq<char> {
    match shell {
        ShellType::Sh => "sudo "@ + command,
        ShellType::PowerShell => "Start-Process powershell -ArgumentList '-Command "@ + command
            + "' -Verb RunAs"@,
        ShellType::Cmd => "runas /user:Administrator \""@ + command + "\""@,
    }
}

/// Makes a command run with the rights of an administrator.
pub fn sudo_wrap(shell: ShellType, command: &str) -> (r: String)
    ensures
        r@ == elevated(shell, command@),
{
    match shell {
        ShellType::Sh => concat2("sudo ", command),
        ShellType::PowerShell => concat3(
            "Start-Process powershell -ArgumentList '-Command ",
            command,
            "' -Verb RunAs",
        ),
        ShellType::Cmd => concat3("runas /user:Administrator \"", command, "\""),
    }
}

// ---------------------------------------------------------------------------
// Finding out which shell a host has
// ---------------------------------------------------------------------------

/// What to do next to find out which shell a host has.
#[derive(Debug)]
pub enum DetectStep {
    /// Run this command and hand its outcome back.
    Ask(&'static str),
    /// The shell is known.
    Found(ShellType),
    /// No command could be run at all.
    Failed(String),
}

/// What to do next, as a value of the specification language.
pub ghost enum DetectView {
    Ask(Seq<char>),
    Found(ShellType),
    Failed(Seq<char>),
}

impl View for DetectStep {
    type V = DetectView;

    open spec fn view(&self) -> DetectView {
        match self {
            DetectStep::Ask(c) => DetectView::Ask(c@),
            DetectStep::Found(s) => DetectView::Found(*s),
            DetectStep::Failed(e) => DetectView::Failed(e@),
        }
    }
}

/// Whether the first command shows that the host runs PowerShell.
pub open spec fn shows_powershell(a: Option<RemoteOutput>) -> bool {
    a matches Some(o) && o.success && trim(o.stdout@).len() > 0
}

/// Whether the second command shows that the host runs the command prompt.
pub open spec fn shows_cmd(a: Option<RemoteOutput>) -> bool {
    a matches Some(o) && o.success && has_text(o.stdout@, "Windows"@)
}

/// Whether the third command shows that the host runs a POSIX shell.
pub open spec fn shows_sh(a: Option<RemoteOutput>) -> bool {
    a matches Some(o) && o.success
}

/// Three commands are tried in turn, each until it shows its shell. A host that
/// answers but shows none is taken for a POSIX one; a host on which no command
/// could be run (no answer) has failed.
pub open spec fn detection(ssh_host: Seq<char>, answers: Seq<Option<RemoteOutput>>) -> DetectView {
    if answers.len() == 0 {
        DetectView::Ask("$PSVersionTable.PSVersion.Major"@)
    } else if shows_powershell(answers[0]) {
        DetectView::Found(ShellType::PowerShell)
    } else if answers.len() == 1 {
        DetectView::Ask("ver"@)
    } else if shows_cmd(answers[1]) {
        DetectView::Found(ShellType::Cmd)
    } else if answers.len() == 2 {
        DetectView::Ask("echo ok"@)
    } else if shows_sh(answers[2]) {
        DetectView::Found(ShellType::Sh)
    } else if answers[0] is None && answers[1] is None && answers[2] is None {
        DetectView::Failed(
            "shell detection failed for "@ + ssh_host
                + ": all exec attempts returned errors (session may be dropped)"@,
        )
    } else {
        DetectView::Found(ShellType::Sh)
    }
}

/// Decides the next step from the answers so far; a command that could not be
/// run counts as no answer.
pub fn detect_russh(ssh_host: &str, answers: &[Option<RemoteOutput>]) -> (r: DetectStep)
    ensures
        r@ == detection(ssh_host@, answers@),
{
    if answers.len() == 0 {
        return DetectStep::Ask("$PSVersionTable.PSVersion.Major");
    }
    match &answers[0] {
        Some(o) => {
            let shown = trimmed(o.stdout.as_str());
            if o.success && chars_of(shown.as_str()).len() > 0 {
                return DetectStep::Found(ShellType::PowerShell);
            }
        },
        None => {},
    }
    if answers.len() == 1 {
        return DetectStep::Ask("ver");
    }
    match &answers[1] {
        Some(o) => {
            if o.success && contains_text(o.stdout.as_str(), "Windows") {
                return DetectStep::Found(ShellType::Cmd);
            }
        },
        None => {},
    }
    if answers.len() == 2 {
        return DetectStep::Ask("echo ok");
    }
    match &answers[2] {
        Some(o) => {
            if o.success {
                return DetectStep::Found(ShellType::Sh);
            }
        },
        None => {},
    }
    if answers[0].is_none() && answers[1].is_none() && answers[2].is_none() {
        return DetectStep::Failed(
            concat3(
                "shell detection failed for ",
                ssh_host,
                ": all exec attempts returned errors (session may be dropped)",
            ),
        );
    }
    DetectStep::Found(ShellType::Sh)
}

/// After three answers the shell is known, or every attempt has failed.
pub proof fn detection_ends(ssh_host: Seq<char>, answers: Seq<Option<RemoteOutput>>)
    requires
        answers.len() >= 3,
    ensures
        !(detection(ssh_host, answers) is Ask),
        detection(ssh_host, answers) is Failed <==> answers[0] is None && answers[1] is None
            && answers[2] is None,
{
}

/// A host is taken for PowerShell where it tells a version, else for `cmd` where it names
/// Windows, else for a POSIX shell; only where no question was answered at all is nothing
/// known.
pub proof fn answers_decide_the_shell(
    ssh_host: Seq<char>,
    answers: Seq<Option<RemoteOutput>>,
)
    requires
        answers.len() == 3,
    ensures
        ({
            let told = answers[0] matches Some(o) && o.success && trim(o.stdout@).len() > 0;
            let windows = answers[1] matches Some(o) && o.success && has_text(
                o.stdout@,
                "Windows"@,
            );
            &&& detection(ssh_host, answers) == DetectView::Found(ShellType::PowerShell) <==> told
            &&& detection(ssh_host, answers) == DetectView::Found(ShellType::Cmd) <==> !told
                && windows
            &&& detection(ssh_host, answers) is Failed <==> answers[0] is None && answers[1] is None
                && answers[2] is None
            &&& !told && !windows
                && (answers[0] is Some || answers[1] is Some || answers[2] is Some)
                ==> detection(ssh_host, answers) == DetectView::Found(ShellType::Sh)
            &&& told ==> detection(ssh_host, answers.take(1)) == DetectView::Found(
                ShellType::PowerShell,
            )
            &&& !told ==> detection(ssh_host, answers.take(1)) is Ask
        }),
{
}

} // verus!
