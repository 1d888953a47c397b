//! What comes back from a command on a host, and the sessions it runs over.

use vstd::prelude::*;

use crate::error::Error;
use crate::host::filter::{filter_next, filter_none};
use crate::order::{listed, push_new, with_new};
use crate::text::{concat3, copy, copy_all, decimal, decimal_text, pair_texts, texts, texts_push};

verus! {

broadcast use texts_push;

/// What a command on a host left behind.
#[derive(Debug)]
pub struct RemoteOutput {
    pub stdout: String,
    pub stderr: String,
    pub exit_code: Option<i32>,
    pub success: bool,
}

/// Puts together what a command left behind: it succeeded where it exited with
/// code 0, and a command without an exit code did not.
pub fn remote_output(stdout: String, stderr: String, exit_code: Option<u32>) -> (r: RemoteOutput)
    ensures
        r.stdout == stdout,
        r.stderr == stderr,
        r.exit_code == (match exit_code {
            Some(c) => Some(c as i32),
            None => None,
        }),
        r.success == (r.exit_code == Some(0i32)),
{
    let code: Option<i32> = match exit_code {
        Some(c) => Some(
            #[verifier::truncate]
            (c as i32),
        ),
        None => None,
    };
    let success = match code {
        Some(c) => c == 0,
        None => false,
    };
    RemoteOutput { stdout, stderr, exit_code: code, success }
}

// ---------------------------------------------------------------------------
// Host keys
// ---------------------------------------------------------------------------

/// What the file of known hosts says of the key that a host showed.
#[derive(Debug, Clone, Copy, PartialEq, Eq, Structural)]
pub enum KeyCheck {
    /// There is no such file.
    NoFile,
    /// The key is known.
    Known,
    /// The host is not listed.
    Unknown,
    /// Another key is listed, on this line.
    Changed(usize),
}

/// A host and its port.
pub open spec fn address(hostname: Seq<char>, port: u16) -> Seq<char> {
    hostname + ":"@ + decimal(port as nat)
}

/// Decides on the key that a host showed: only a known key is accepted.
pub fn check_server_key(hostname: &str, port: u16, check: KeyCheck) -> (r: Result<bool, Error>)
    ensures
        r is Ok <==> check == KeyCheck::Known,
        r matches Ok(b) ==> b,
        r matches Err(e) ==> e@ == (match check {
            KeyCheck::NoFile => "Unknown host key for "@ + address(hostname@, port)
                + " — run `ssync init` to add the host to known_hosts"@,
            KeyCheck::Changed(line) => "HOST KEY MISMATCH for "@ + address(hostname@, port)
                + " at line "@ + decimal(line as nat) + " — possible man-in-the-middle attack"@,
            _ => "Unknown host key for "@ + address(hostname@, port)
                + " — run `ssync init` to accept the key first"@,
        }),
{
    let at = concat3(hostname, ":", decimal_text(port as u64).as_str());
    match check {
        KeyCheck::Known => Ok(true),
        KeyCheck::NoFile => Err(
            Error {
                message: concat3(
                    "Unknown host key for ",
                    at.as_str(),
                    " — run `ssync init` to add the host to known_hosts",
                ),
            },
        ),
        KeyCheck::Unknown => Err(
            Error {
                message: concat3(
                    "Unknown host key for ",
                    at.as_str(),
                    " — run `ssync init` to accept the key first",
                ),
            },
        ),
        KeyCheck::Changed(line) => {
            let mut m = concat3("HOST KEY MISMATCH for ", at.as_str(), " at line ");
            m.append(decimal_text(line as u64).as_str());
            m.append(" — possible man-in-the-middle attack");
            Err(Error { message: m })
        },
    }
}

// ---------------------------------------------------------------------------
// The table of sessions
// ---------------------------------------------------------------------------

/// Which hosts have an open session, and which have none and why.
pub struct RusshSessionPool {
    pub sessions: Vec<String>,
    pub failed: Vec<(String, String)>,
    /// Hosts with a session that take no files, and why.
    pub sftp_failed: Vec<(String, String)>,
}

/// Adds a pair to a list of pairs.
pub fn push_pair_text(list: &mut Vec<(String, String)>, name: &str, error: &str)
    ensures
        pair_texts(final(list)@) == pair_texts(old(list)@).push((name@, error@)),
{
    let ghost before = pair_texts(list@);
    list.push((copy(name), copy(error)));
    assert(pair_texts(list@) =~= before.push((name@, error@)));
}

/// A copy of a list of pairs.
pub fn copy_pairs(list: &[(String, String)]) -> (r: Vec<(String, String)>)
    ensures
        pair_texts(r@) == pair_texts(list@),
{
    let mut out: Vec<(String, String)> = Vec::new();
    let mut i: usize = 0;
    while i < list.len()
        invariant
            i <= list.len(),
            pair_texts(out@) == pair_texts(list@).take(i as int),
        decreases list.len() - i,
    {
        let ghost before = pair_texts(out@);
        push_pair_text(&mut out, list[i].0.as_str(), list[i].1.as_str());
        i += 1;
        assert(before.push(pair_texts(list@)[i - 1]) =~= pair_texts(list@).take(i as int));
    }
    assert(pair_texts(list@).take(i as int) =~= pair_texts(list@));
    out
}

/// The first text of every pair.
pub open spec fn first_texts(list: Seq<(Seq<char>, Seq<char>)>) -> Seq<Seq<char>> {
    Seq::new(list.len(), |i: int| list[i].0)
}

/// Whether a name is the first of one of the pairs.
pub fn pair_named(list: &[(String, String)], name: &str) -> (r: bool)
    ensures
        r == first_texts(pair_texts(list@)).contains(name@),
{
    let ghost names = first_texts(pair_texts(list@));
    let mut i: usize = 0;
    while i < list.len()
        invariant
            i <= list.len(),
            names == first_texts(pair_texts(list@)),
            forall|j: int| 0 <= j < i ==> #[trigger] names[j] != name@,
        decreases list.len() - i,
    {
        assert(names[i as int] == list@[i as int].0@);
        if crate::text::same(list[i].0.as_str(), name) {
            return true;
        }
        i += 1;
    }
    false
}

impl RusshSessionPool {
    /// No session yet.
    pub fn new() -> (r: RusshSessionPool)
        ensures
            r.sessions@.len() == 0,
            r.failed@.len() == 0,
            r.sftp_failed@.len() == 0,
    {
        RusshSessionPool { sessions: Vec::new(), failed: Vec::new(), sftp_failed: Vec::new() }
    }

    /// Takes down the outcome of connecting to a host.
    pub fn record(&mut self, alias: &str, result: &Result<(), Error>)
        ensures
            final(self).sftp_failed == old(self).sftp_failed,
            result is Ok ==> {
                &&& texts(final(self).sessions@) == with_new(texts(old(self).sessions@), alias@)
                &&& final(self).failed == old(self).failed
            },
            result matches Err(e) ==> {
                &&& final(self).sessions == old(self).sessions
                &&& pair_texts(final(self).failed@) == pair_texts(old(self).failed@).push(
                    (alias@, e@),
                )
            },
    {
        match result {
            Ok(_) => push_new(&mut self.sessions, alias),
            Err(e) => push_pair_text(&mut self.failed, alias, e.message.as_str()),
        }
    }

    /// Takes down that a host takes no files.
    pub fn record_sftp_failure(&mut self, alias: &str, error: &str)
        ensures
            final(self).sessions == old(self).sessions,
            final(self).failed == old(self).failed,
            pair_texts(final(self).sftp_failed@) == pair_texts(old(self).sftp_failed@).push(
                (alias@, error@),
            ),
    {
        push_pair_text(&mut self.sftp_failed, alias, error);
    }

    /// The hosts without a session, each with its error.
    pub fn failed_hosts(&self) -> (r: Vec<(String, String)>)
        ensures
            pair_texts(r@) == pair_texts(self.failed@),
    {
        copy_pairs(self.failed.as_slice())
    }

    /// The hosts with a session.
    pub fn reachable_hosts(&self) -> (r: Vec<String>)
        ensures
            texts(r@) == texts(self.sessions@),
    {
        copy_all(self.sessions.as_slice())
    }

    /// The hosts that take no files, each with its error.
    pub fn sftp_failed_hosts(&self) -> (r: Vec<(String, String)>)
        ensures
            pair_texts(r@) == pair_texts(self.sftp_failed@),
    {
        copy_pairs(self.sftp_failed.as_slice())
    }

    /// The hosts with a session that take files.
    pub fn sftp_capable_hosts(&self) -> (r: Vec<String>)
        ensures
            texts(r@) == texts(self.sessions@).filter(
                |h: Seq<char>| !first_texts(pair_texts(self.sftp_failed@)).contains(h),
            ),
    {
        let ghost all = texts(self.sessions@);
        let ghost p = |h: Seq<char>| !first_texts(pair_texts(self.sftp_failed@)).contains(h);
        let mut out: Vec<String> = Vec::new();
        let mut i: usize = 0;
        proof {
            filter_none(all, p);
            assert(texts(out@) =~= Seq::empty());
        }
        while i < self.sessions.len()
            invariant
                i <= self.sessions@.len(),
                all == texts(self.sessions@),
                p == (|h: Seq<char>| !first_texts(pair_texts(self.sftp_failed@)).contains(h)),
                texts(out@) == all.take(i as int).filter(p),
            decreases self.sessions@.len() - i,
        {
            proof {
                filter_next(all, p, i as int);
                assert(all[i as int] == self.sessions@[i as int]@);
            }
            if !pair_named(self.sftp_failed.as_slice(), self.sessions[i].as_str()) {
                out.push(copy(self.sessions[i].as_str()));
            }
            i += 1;
        }
        assert(all.take(i as int) =~= all);
        out
    }

    /// Whether a command can be run on a host; an error that names the host
    /// where it has no session.
    pub fn check_connected(&self, host_alias: &str) -> (r: Result<(), Error>)
        ensures
            r is Ok <==> texts(self.sessions@).contains(host_alias@),
            r matches Err(e) ==> e@ == "Host '"@ + host_alias@ + "' is not connected"@,
    {
        if listed(self.sessions.as_slice(), host_alias) {
            Ok(())
        } else {
            Err(Error { message: concat3("Host '", host_alias, "' is not connected") })
        }
    }
}

// ---------------------------------------------------------------------------
// Laws
// ---------------------------------------------------------------------------

/// A server is addressed by its name and its own port.
pub proof fn addresses_tell_name_and_port(hostname: Seq<char>, port: u16, other: u16)
    ensures
        address(hostname, port).take(hostname.len() as int) == hostname,
        address(hostname, port)[hostname.len() as int] == ':',
        address(hostname, port).skip(hostname.len() as int + 1) == decimal(port as nat),
        address(hostname, port) == address(hostname, other) ==> port == other,
{
    reveal_strlit(":");
    let a = address(hostname, port);
    let b = address(hostname, other);
    let n = hostname.len() as int;
    assert(a.take(n) =~= hostname);
    assert(a.skip(n + 1) =~= decimal(port as nat));
    assert(b.skip(n + 1) =~= decimal(other as nat));
    crate::text::decimals_differ(port as nat, other as nat);
}

} // verus!
