//! The command lines of `ssh` and `scp`.

use vstd::prelude::*;

use crate::config::schema::{HostEntry, ShellType};
use crate::error::Error;
pub use crate::host::session_pool::RemoteOutput;
use crate::scan::{after_prefix, strip_prefix, trim, trimmed};
use crate::text::{concat2, concat3, copy, decimal, decimal_text, str_opt, texts, texts_push};

verus! {

broadcast use texts_push;

/// The options that every call has: no questions, a time limit, and the socket
/// of an open connection where there is one.
pub open spec fn base_args(timeout_secs: nat, socket: Option<Seq<char>>) -> Seq<Seq<char>> {
    let args = seq![
        "-o"@,
        "BatchMode=yes"@,
        "-o"@,
        "ConnectTimeout="@ + decimal(timeout_secs),
    ];
    match socket {
        Some(s) => args + seq!["-o"@, "ControlPath="@ + s],
        None => args,
    }
}

/// Builds the options that every call has.
pub fn ssh_base_args(timeout_secs: u64, socket: Option<&str>) -> (r: Vec<String>)
    ensures
        texts(r@) == base_args(timeout_secs as nat, str_opt(socket)),
{
    let mut args: Vec<String> = Vec::new();
    args.push(copy("-o"));
    args.push(copy("BatchMode=yes"));
    args.push(copy("-o"));
    args.push(concat2("ConnectTimeout=", decimal_text(timeout_secs).as_str()));
    match socket {
        Some(s) => {
            args.push(copy("-o"));
            args.push(concat2("ControlPath=", s));
        },
        None => {},
    }
    assert(texts(args@) =~= base_args(timeout_secs as nat, str_opt(socket)));
    args
}

/// The arguments of `ssh` that run a command on a host.
pub open spec fn run_args(
    ssh_host: Seq<char>,
    command: Seq<char>,
    timeout_secs: nat,
    socket: Option<Seq<char>>,
) -> Seq<Seq<char>> {
    base_args(timeout_secs, socket) + seq![ssh_host, "--"@, command]
}

/// Builds the arguments of `ssh` that run a command on a host, over the socket
/// of an open connection where there is one.
pub fn run_remote_pooled(
    host: &HostEntry,
    command: &str,
    timeout_secs: u64,
    socket: Option<&str>,
) -> (r: Vec<String>)
    ensures
        texts(r@) == run_args(host.ssh_host@, command@, timeout_secs as nat, str_opt(socket)),
{
    let mut args = ssh_base_args(timeout_secs, socket);
    args.push(copy(host.ssh_host.as_str()));
    args.push(copy("--"));
    args.push(copy(command));
    assert(texts(args@) =~= run_args(
        host.ssh_host@,
        command@,
        timeout_secs as nat,
        str_opt(socket),
    ));
    args
}

/// Builds the arguments of `ssh` that run a command on a host.
pub fn run_remote(host: &HostEntry, command: &str, timeout_secs: u64) -> (r: Vec<String>)
    ensures
        texts(r@) == run_args(host.ssh_host@, command@, timeout_secs as nat, None),
{
    run_remote_pooled(host, command, timeout_secs, None)
}

/// A path on a host, as `scp` writes it.
pub open spec fn remote_name(ssh_host: Seq<char>, path: Seq<char>) -> Seq<char> {
    ssh_host + ":"@ + path
}

/// The arguments of `scp` that send a file.
pub open spec fn upload_args(
    ssh_host: Seq<char>,
    local: Seq<char>,
    remote: Seq<char>,
    timeout_secs: nat,
    socket: Option<Seq<char>>,
) -> Seq<Seq<char>> {
    base_args(timeout_secs, socket) + seq![local, remote_name(ssh_host, remote)]
}

/// The arguments of `scp` that fetch a file.
pub open spec fn download_args(
    ssh_host: Seq<char>,
    remote: Seq<char>,
    local: Seq<char>,
    timeout_secs: nat,
    socket: Option<Seq<char>>,
) -> Seq<Seq<char>> {
    base_args(timeout_secs, socket) + seq![remote_name(ssh_host, remote), local]
}

/// Builds the arguments of `scp` that send a file, over the socket of an open
/// connection where there is one.
pub fn upload_pooled(
    host: &HostEntry,
    local_path: &str,
    remote_path: &str,
    timeout_secs: u64,
    socket: Option<&str>,
) -> (r: Vec<String>)
    ensures
        texts(r@) == upload_args(
            host.ssh_host@,
            local_path@,
            remote_path@,
            timeout_secs as nat,
            str_opt(socket),
        ),
{
    let mut args = ssh_base_args(timeout_secs, socket);
    args.push(copy(local_path));
    args.push(concat3(host.ssh_host.as_str(), ":", remote_path));
    assert(texts(args@) =~= upload_args(
        host.ssh_host@,
        local_path@,
        remote_path@,
        timeout_secs as nat,
        str_opt(socket),
    ));
    args
}

/// Builds the arguments of `scp` that send a file.
pub fn upload(host: &HostEntry, local_path: &str, remote_path: &str, timeout_secs: u64) -> (r: Vec<
    String,
>)
    ensures
        texts(r@) == upload_args(
            host.ssh_host@,
            local_path@,
            remote_path@,
            timeout_secs as nat,
            None,
        ),
{
    upload_pooled(host, local_path, remote_path, timeout_secs, None)
}

/// Builds the arguments of `scp` that fetch a file, over the socket of an open
/// connection where there is one.
pub fn download_pooled(
    host: &HostEntry,
    remote_path: &str,
    local_path: &str,
    timeout_secs: u64,
    socket: Option<&str>,
) -> (r: Vec<String>)
    ensures
        texts(r@) == download_args(
            host.ssh_host@,
            remote_path@,
            local_path@,
            timeout_secs as nat,
            str_opt(socket),
        ),
{
    let mut args = ssh_base_args(timeout_secs, socket);
    args.push(concat3(host.ssh_host.as_str(), ":", remote_path));
    args.push(copy(local_path));
    assert(texts(args@) =~= download_args(
        host.ssh_host@,
        remote_path@,
        local_path@,
        timeout_secs as nat,
        str_opt(socket),
    ));
    args
}

/// Builds the arguments of `scp` that fetch a file.
pub fn download(host: &HostEntry, remote_path: &str, local_path: &str, timeout_secs: u64) -> (r: Vec<
    String,
>)
    ensures
        texts(r@) == download_args(
            host.ssh_host@,
            remote_path@,
            local_path@,
            timeout_secs as nat,
            None,
        ),
{
    download_pooled(host, remote_path, local_path, timeout_secs, None)
}

/// What became of a transfer: done where `scp` succeeded, and an error with what
/// it complained of where not.
pub fn transfer_result(upload: bool, success: bool, stderr: &str) -> (r: Result<(), Error>)
    ensures
        r is Ok <==> success,
        r matches Err(e) ==> e@ == (if upload {
            "scp upload failed: "@
        } else {
            "scp download failed: "@
        }) + trim(stderr@),
{
    if success {
        return Ok(());
    }
    let head = if upload {
        "scp upload failed: "
    } else {
        "scp download failed: "
    };
    Err(Error { message: concat2(head, trimmed(stderr).as_str()) })
}

// ---------------------------------------------------------------------------
// Trying whether a host takes files
// ---------------------------------------------------------------------------

/// Where a trial file is put: on POSIX hosts in the temporary directory or else
/// in the home directory, elsewhere in the home directory.
pub open spec fn trial_paths(shell: ShellType) -> Seq<Seq<char>> {
    match shell {
        ShellType::Sh => seq!["/tmp/.ssync_probe"@, "~/.ssync_probe"@],
        ShellType::PowerShell => seq!["~/.ssync_probe"@],
        ShellType::Cmd => seq!["~/.ssync_probe"@],
    }
}

/// Lists where a trial file is put, first choice first.
pub fn probe_paths(shell: ShellType) -> (r: Vec<String>)
    ensures
        texts(r@) == trial_paths(shell),
{
    let mut out: Vec<String> = Vec::new();
    if shell == ShellType::Sh {
        out.push(copy("/tmp/.ssync_probe"));
    }
    out.push(copy("~/.ssync_probe"));
    assert(texts(out@) =~= trial_paths(shell));
    out
}

/// The command that takes a trial file away again.
pub open spec fn cleanup(shell: ShellType, path: Seq<char>) -> Seq<char> {
    match shell {
        ShellType::Sh => match after_prefix(path, "~/"@) {
            Some(rest) => "rm -f \"$HOME/"@ + rest + "\" 2>/dev/null; exit 0"@,
            None => "rm -f '"@ + path + "' 2>/dev/null; exit 0"@,
        },
        ShellType::PowerShell => "Remove-Item -Force '"@ + path
            + "' -ErrorAction SilentlyContinue"@,
        ShellType::Cmd => "del /f /q \""@ + path + "\" 2>nul"@,
    }
}

/// Builds the command that takes a trial file away again.
pub fn probe_cleanup(shell: ShellType, path: &str) -> (r: String)
    ensures
        r@ == cleanup(shell, path@),
{
    match shell {
        ShellType::Sh => match strip_prefix(path, "~/") {
            Some(rest) => concat3("rm -f \"$HOME/", rest.as_str(), "\" 2>/dev/null; exit 0"),
            None => concat3("rm -f '", path, "' 2>/dev/null; exit 0"),
        },
        ShellType::PowerShell => concat3(
            "Remove-Item -Force '",
            path,
            "' -ErrorAction SilentlyContinue",
        ),
        ShellType::Cmd => concat3("del /f /q \"", path, "\" 2>nul"),
    }
}

/// What to do next to try whether a host takes files.
#[derive(Debug)]
pub enum ProbeStep {
    /// Send the trial file to this path and hand the outcome back.
    Send(String),
    /// The file was taken; run this command to take it away again.
    Done(String),
    /// No path took the file.
    Failed(String),
}

/// What to do next, as a value of the specification language.
pub ghost enum ProbeView {
    Send(Seq<char>),
    Done(Seq<char>),
    Failed(Seq<char>),
}

impl View for ProbeStep {
    type V = ProbeView;

    open spec fn view(&self) -> ProbeView {
        match self {
            ProbeStep::Send(s) => ProbeView::Send(s@),
            ProbeStep::Done(s) => ProbeView::Done(s@),
            ProbeStep::Failed(s) => ProbeView::Failed(s@),
        }
    }
}

/// The errors of the attempts so far.
pub open spec fn error_texts(list: Seq<Error>) -> Seq<Seq<char>> {
    Seq::new(list.len(), |i: int| list[i]@)
}

/// The paths are tried in their order until one takes the file. The error that
/// is reported is that of the last attempt.
pub open spec fn probing(shell: ShellType, failures: Seq<Seq<char>>, taken: bool) -> ProbeView {
    let paths = trial_paths(shell);
    if failures.len() >= paths.len() {
        ProbeView::Failed(failures.last())
    } else if taken {
        ProbeView::Done(cleanup(shell, paths[failures.len() as int]))
    } else {
        ProbeView::Send(paths[failures.len() as int])
    }
}

/// Decides the next step from the attempts that failed, and whether the one
/// after them was taken.
pub fn scp_probe(shell: ShellType, failures: &[Error], taken: bool) -> (r: ProbeStep)
    ensures
        r@ == probing(shell, error_texts(failures@), taken),
{
    let paths = probe_paths(shell);
    assert(texts(paths@).len() == paths@.len());
    if failures.len() >= paths.len() {
        assert(error_texts(failures@).last() == failures@.last()@);
        return ProbeStep::Failed(copy(failures[failures.len() - 1].message.as_str()));
    }
    assert(texts(paths@)[failures@.len() as int] == paths@[failures@.len() as int]@);
    let path = paths[failures.len()].as_str();
    if taken {
        ProbeStep::Done(probe_cleanup(shell, path))
    } else {
        ProbeStep::Send(copy(path))
    }
}

// ---------------------------------------------------------------------------
// Laws
// ---------------------------------------------------------------------------

/// A command is handed over last and behind `--`, in front of which stands its host; the
/// time limit and the socket are passed on.
pub proof fn commands_go_to_their_host(
    ssh_host: Seq<char>,
    command: Seq<char>,
    timeout_secs: nat,
    socket: Option<Seq<char>>,
)
    ensures
        ({
            let args = run_args(ssh_host, command, timeout_secs, socket);
            let n = args.len() as int;
            &&& n >= 7
            &&& args[n - 1] == command
            &&& args[n - 2] == "--"@
            &&& args[n - 3] == ssh_host
            &&& args[0] == "-o"@ && args[1] == "BatchMode=yes"@
            &&& args[2] == "-o"@ && args[3] == "ConnectTimeout="@ + decimal(timeout_secs)
            &&& socket matches Some(s) ==> n == 9 && args[4] == "-o"@ && args[5] == "ControlPath="@
                + s
            &&& socket is None ==> n == 7
        }),
{
}

/// An upload goes from the local file to the host's, a download the other way, over the same
/// connection.
pub proof fn copies_name_both_ends(
    ssh_host: Seq<char>,
    local: Seq<char>,
    remote: Seq<char>,
    timeout_secs: nat,
    socket: Option<Seq<char>>,
)
    ensures
        ({
            let up = upload_args(ssh_host, local, remote, timeout_secs, socket);
            let down = download_args(ssh_host, remote, local, timeout_secs, socket);
            let n = up.len() as int;
            &&& n >= 6
            &&& down.len() == n
            &&& up[n - 2] == local && up[n - 1] == ssh_host + ":"@ + remote
            &&& down[n - 2] == ssh_host + ":"@ + remote && down[n - 1] == local
            &&& up.take(n - 2) == down.take(n - 2)
            &&& up[3] == "ConnectTimeout="@ + decimal(timeout_secs)
            &&& socket matches Some(s) ==> n == 8 && up[5] == "ControlPath="@ + s
        }),
{
    let up = upload_args(ssh_host, local, remote, timeout_secs, socket);
    let down = download_args(ssh_host, remote, local, timeout_secs, socket);
    let n = up.len() as int;
    assert(up.take(n - 2) =~= down.take(n - 2));
}

/// The places to write to are tried in turn: each one after the failure of the one before,
/// until one takes the file or none is left, and then the last failure is told.
pub proof fn places_are_tried_in_turn(shell: ShellType, failures: Seq<Seq<char>>)
    ensures
        failures.len() == 0 && shell == ShellType::Sh ==> probing(shell, failures, false)
            == ProbeView::Send("/tmp/.ssync_probe"@),
        failures.len() == 1 && shell == ShellType::Sh ==> probing(shell, failures, false)
            == ProbeView::Send("~/.ssync_probe"@),
        failures.len() == 0 && shell != ShellType::Sh ==> probing(shell, failures, false)
            == ProbeView::Send("~/.ssync_probe"@),
        failures.len() >= 2 || (failures.len() == 1 && shell != ShellType::Sh) ==> probing(
            shell,
            failures,
            false,
        ) == ProbeView::Failed(failures[failures.len() - 1]),
        failures.len() == 0 || (failures.len() == 1 && shell == ShellType::Sh) ==> (probing(
            shell,
            failures,
            false,
        ) matches ProbeView::Send(p) && probing(shell, failures, true) == ProbeView::Done(
            cleanup(shell, p),
        )),
{
}

} // verus!
