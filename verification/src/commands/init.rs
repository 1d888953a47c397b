//! Importing hosts from the SSH configuration.

use vstd::prelude::*;

use crate::commands::report::{count, tally_of, Tally, Verdict, VerdictView};
use crate::config::schema::{host_views, AppConfig, HostEntry, HostView, ShellType};
use crate::config::ssh_config::{effective, resolve_host_with_config, ParsedSshConfig};
use crate::error::Error;
use crate::host::filter::{filter_holds, filter_next, filter_none, filter_picks, picked};
use crate::host::session_pool::push_pair_text;
use crate::metrics::number::same_letters;
use crate::order::{listed, push_all_new, with_all_new};
use crate::output::summary::Summary;
use crate::scan::{contains_text, has_text, join, join_all, lines, split_lines, trim, trimmed};
use crate::text::{
    chars_of, concat2, concat3, copy, copy_all, decimal, decimal_text, pair_texts, same, texts,
    texts_push, usize_text,
};

verus! {

broadcast use texts_push;

// ---------------------------------------------------------------------------
// Which hosts
// ---------------------------------------------------------------------------

/// The SSH name of every configured host.
pub open spec fn ssh_names(hosts: Seq<HostEntry>) -> Seq<Seq<char>> {
    Seq::new(hosts.len(), |i: int| hosts[i].ssh_host@)
}

/// The configured hosts that the SSH configuration no longer has.
pub open spec fn stale(hosts: Seq<HostEntry>, ssh: Seq<Seq<char>>) -> Seq<Seq<char>> {
    ssh_names(hosts).filter(|n: Seq<char>| !ssh.contains(n))
}

/// Lists the configured hosts that the SSH configuration no longer has.
pub fn stale_hosts(hosts: &[HostEntry], ssh: &[String]) -> (r: Vec<String>)
    ensures
        texts(r@) == stale(hosts@, texts(ssh@)),
{
    let ghost all = ssh_names(hosts@);
    let ghost p = |n: Seq<char>| !texts(ssh@).contains(n);
    let mut out: Vec<String> = Vec::new();
    let mut i: usize = 0;
    proof {
        filter_none(all, p);
        assert(texts(out@) =~= Seq::empty());
    }
    while i < hosts.len()
        invariant
            i <= hosts@.len(),
            all == ssh_names(hosts@),
            p == (|n: Seq<char>| !texts(ssh@).contains(n)),
            texts(out@) == all.take(i as int).filter(p),
        decreases hosts@.len() - i,
    {
        proof {
            filter_next(all, p, i as int);
            assert(all[i as int] == hosts@[i as int].ssh_host@);
        }
        if !listed(ssh, hosts[i].ssh_host.as_str()) {
            out.push(copy(hosts[i].ssh_host.as_str()));
        }
        i += 1;
    }
    assert(all.take(i as int) =~= all);
    out
}

/// The hosts that are left out because the user wants it so.
pub open spec fn skipped(ssh: Seq<Seq<char>>, skips: Seq<Seq<char>>) -> Seq<Seq<char>> {
    ssh.filter(|n: Seq<char>| skips.contains(n))
}

/// The hosts whose shell is to be found out: all that are not left out, and
/// without an update only those that are not configured yet.
pub open spec fn to_detect(
    ssh: Seq<Seq<char>>,
    skips: Seq<Seq<char>>,
    known: Seq<Seq<char>>,
    update: bool,
) -> Seq<Seq<char>> {
    ssh.filter(|n: Seq<char>| !skips.contains(n) && (update || !known.contains(n)))
}

fn is_known(hosts: &[HostEntry], name: &str) -> (r: bool)
    ensures
        r == ssh_names(hosts@).contains(name@),
{
    let ghost all = ssh_names(hosts@);
    let mut i: usize = 0;
    while i < hosts.len()
        invariant
            i <= hosts@.len(),
            all == ssh_names(hosts@),
            forall|j: int| 0 <= j < i ==> #[trigger] all[j] != name@,
        decreases hosts@.len() - i,
    {
        assert(all[i as int] == hosts@[i as int].ssh_host@);
        if same(hosts[i].ssh_host.as_str(), name) {
            return true;
        }
        i += 1;
    }
    false
}

/// Parts the hosts of the SSH configuration: those that are left out, and those
/// whose shell is to be found out.
pub fn choose_hosts(ssh: &[String], skips: &[String], hosts: &[HostEntry], update: bool) -> (r: (
    Vec<String>,
    Vec<String>,
))
    ensures
        texts(r.0@) == skipped(texts(ssh@), texts(skips@)),
        texts(r.1@) == to_detect(texts(ssh@), texts(skips@), ssh_names(hosts@), update),
{
    let ghost all = texts(ssh@);
    let ghost known = ssh_names(hosts@);
    let ghost p = |n: Seq<char>| texts(skips@).contains(n);
    let ghost q = |n: Seq<char>| !texts(skips@).contains(n) && (update || !known.contains(n));
    let mut left: Vec<String> = Vec::new();
    let mut detect: Vec<String> = Vec::new();
    let mut i: usize = 0;
    proof {
        filter_none(all, p);
        filter_none(all, q);
        assert(texts(left@) =~= Seq::empty());
        assert(texts(detect@) =~= Seq::empty());
    }
    while i < ssh.len()
        invariant
            i <= ssh@.len(),
            all == texts(ssh@),
            known == ssh_names(hosts@),
            p == (|n: Seq<char>| texts(skips@).contains(n)),
            q == (|n: Seq<char>|
                !texts(skips@).contains(n) && (update || !known.contains(n))),
            texts(left@) == all.take(i as int).filter(p),
            texts(detect@) == all.take(i as int).filter(q),
        decreases ssh@.len() - i,
    {
        proof {
            filter_next(all, p, i as int);
            filter_next(all, q, i as int);
            assert(all[i as int] == ssh@[i as int]@);
        }
        let name = ssh[i].as_str();
        if listed(skips, name) {
            left.push(copy(name));
        } else if update || !is_known(hosts, name) {
            detect.push(copy(name));
        }
        i += 1;
    }
    assert(all.take(i as int) =~= all);
    (left, detect)
}

/// Whether the hosts that are configured already are looked at again: where that
/// was asked for, or there is a configuration already.
pub fn effective_update(update: bool, config_exists: bool) -> (r: bool)
    ensures
        r == (update || config_exists),
{
    update || config_exists
}

/// All the hosts to leave out: those of the configuration and those of this run.
pub fn all_skips(persisted: &[String], skip: &[String]) -> (r: Vec<String>)
    ensures
        texts(r@) == texts(persisted@) + texts(skip@),
{
    let mut out = copy_all(persisted);
    crate::output::summary::push_lines(&mut out, copy_all(skip));
    out
}

/// A host about which nothing but its name is known.
pub open spec fn provisional(name: Seq<char>, shell: ShellType) -> HostView {
    HostView { name, ssh_host: name, shell, groups: Seq::empty(), proxy_jump: None }
}

/// Makes an entry for a host about which nothing but its name is known.
pub fn new_entry(name: &str, shell: ShellType) -> (r: HostEntry)
    ensures
        r@ == provisional(name@, shell),
{
    let r = HostEntry {
        name: copy(name),
        ssh_host: copy(name),
        shell,
        groups: Vec::new(),
        proxy_jump: None,
    };
    assert(texts(r.groups@) =~= Seq::empty());
    r
}

/// Whether an answer is a yes.
pub open spec fn means_yes(answer: Seq<char>) -> bool {
    same_letters(trim(answer), "y"@)
}

/// Whether an answer is a yes.
pub fn is_yes(answer: &str) -> (r: bool)
    ensures
        r == means_yes(answer@),
{
    let t = trimmed(answer);
    let cs = chars_of(t.as_str());
    proof {
        reveal_strlit("y");
    }
    cs.len() == 1 && (cs[0] == 'y' || cs[0] == 'Y')
}

// ---------------------------------------------------------------------------
// Host keys
// ---------------------------------------------------------------------------

/// Whether an error says that the key of the host is not known.
pub open spec fn is_key_error(error: Seq<char>) -> bool {
    has_text(error, "Host key verification failed"@)
}

/// Parts failures into those of an unknown host key and all others.
pub fn partition_host_key_failures(failures: Vec<(String, String)>) -> (r: (
    Vec<(String, String)>,
    Vec<(String, String)>,
))
    ensures
        pair_texts(r.0@) == pair_texts(failures@).filter(
            |f: (Seq<char>, Seq<char>)| is_key_error(f.1),
        ),
        pair_texts(r.1@) == pair_texts(failures@).filter(
            |f: (Seq<char>, Seq<char>)| !is_key_error(f.1),
        ),
{
    let ghost all = pair_texts(failures@);
    let ghost p = |f: (Seq<char>, Seq<char>)| is_key_error(f.1);
    let ghost q = |f: (Seq<char>, Seq<char>)| !is_key_error(f.1);
    let mut key: Vec<(String, String)> = Vec::new();
    let mut other: Vec<(String, String)> = Vec::new();
    let mut i: usize = 0;
    proof {
        filter_none(all, p);
        filter_none(all, q);
        assert(pair_texts(key@) =~= Seq::empty());
        assert(pair_texts(other@) =~= Seq::empty());
    }
    while i < failures.len()
        invariant
            i <= failures@.len(),
            all == pair_texts(failures@),
            p == (|f: (Seq<char>, Seq<char>)| is_key_error(f.1)),
            q == (|f: (Seq<char>, Seq<char>)| !is_key_error(f.1)),
            pair_texts(key@) == all.take(i as int).filter(p),
            pair_texts(other@) == all.take(i as int).filter(q),
        decreases failures@.len() - i,
    {
        proof {
            filter_next(all, p, i as int);
            filter_next(all, q, i as int);
            assert(all[i as int] == (failures@[i as int].0@, failures@[i as int].1@));
        }
        let name = failures[i].0.as_str();
        let error = failures[i].1.as_str();
        if contains_text(error, "Host key verification failed") {
            push_pair_text(&mut key, name, error);
        } else {
            push_pair_text(&mut other, name, error);
        }
        i += 1;
    }
    assert(all.take(i as int) =~= all);
    (key, other)
}

/// The host name and port behind an alias: those of the SSH configuration; the alias
/// itself and port 22 where the configuration could not be read.
pub fn resolve_ssh_host_port(alias: &str, config: Option<&ParsedSshConfig>) -> (r: (String, u16))
    ensures
        (r.0@, r.1) == (match config {
            Some(c) => {
                let s = effective(c@, alias@);
                (
                    match s.hostname {
                        Some(h) => h,
                        None => alias@,
                    },
                    match s.port {
                        Some(p) => p,
                        None => 22u16,
                    },
                )
            },
            None => (alias@, 22u16),
        }),
{
    match config {
        Some(c) => match resolve_host_with_config(alias, c) {
            Ok(found) => (found.hostname, found.port),
            Err(_) => (copy(alias), 22),
        },
        None => (copy(alias), 22),
    }
}

/// The arguments of `ssh-keyscan` that ask a host for its keys.
pub fn keyscan_args(hostname: &str, port: u16) -> (r: Vec<String>)
    ensures
        texts(r@) == seq!["-H"@, "-p"@, decimal(port as nat), hostname@],
{
    let mut out: Vec<String> = Vec::new();
    out.push(copy("-H"));
    out.push(copy("-p"));
    out.push(decimal_text(port as u64));
    out.push(copy(hostname));
    assert(texts(out@) =~= seq!["-H"@, "-p"@, decimal(port as nat), hostname@]);
    out
}

/// Whether a line holds a key: it is not blank and no comment.
pub open spec fn holds_key(line: Seq<char>) -> bool {
    trim(line).len() > 0 && !(line.len() > 0 && line[0] == '#')
}

/// The lines with keys.
pub open spec fn key_lines(stdout: Seq<char>) -> Seq<char> {
    join(lines(stdout).filter(|l: Seq<char>| holds_key(l)), "\n"@)
}

/// Takes the keys out of what `ssh-keyscan` printed; an error where there is
/// none.
pub fn keyscan_host(alias: &str, stdout: &str) -> (r: Result<String, Error>)
    ensures
        r is Ok <==> key_lines(stdout@).len() > 0,
        r matches Ok(k) ==> k@ == key_lines(stdout@),
        r matches Err(e) ==> e@ == "ssh-keyscan returned no keys for "@ + alias@,
{
    let ls = split_lines(stdout);
    let ghost all = texts(ls@);
    let ghost p = |l: Seq<char>| holds_key(l);
    let mut keys: Vec<String> = Vec::new();
    let mut i: usize = 0;
    proof {
        filter_none(all, p);
        assert(texts(keys@) =~= Seq::empty());
    }
    while i < ls.len()
        invariant
            i <= ls@.len(),
            all == texts(ls@),
            p == (|l: Seq<char>| holds_key(l)),
            texts(keys@) == all.take(i as int).filter(p),
        decreases ls@.len() - i,
    {
        proof {
            filter_next(all, p, i as int);
            assert(all[i as int] == ls@[i as int]@);
        }
        let line = ls[i].as_str();
        let cs = chars_of(line);
        let bare = trimmed(line);
        if chars_of(bare.as_str()).len() > 0 && !(cs.len() > 0 && cs[0] == '#') {
            keys.push(copy(line));
        }
        i += 1;
    }
    assert(all.take(i as int) =~= all);
    let text = join_all(keys.as_slice(), "\n");
    if chars_of(text.as_str()).len() == 0 {
        Err(Error { message: concat2("ssh-keyscan returned no keys for ", alias) })
    } else {
        Ok(text)
    }
}

/// A host and what `ssh-keyscan` brought.
pub struct Keyscan {
    pub alias: String,
    pub keys: Result<String, Error>,
}

/// The keys of a row of scans, one after the other.
pub open spec fn all_keys(scans: Seq<Keyscan>) -> Seq<char>
    decreases scans.len(),
{
    if scans.len() == 0 {
        Seq::empty()
    } else {
        let before = all_keys(scans.drop_last());
        match scans.last().keys {
            Ok(k) => if before.len() == 0 {
                k@
            } else {
                before.push('\n') + k@
            },
            Err(e) => before,
        }
    }
}

/// The hosts that showed their keys.
pub open spec fn accepted(scans: Seq<Keyscan>) -> Seq<Seq<char>>
    decreases scans.len(),
{
    if scans.len() == 0 {
        Seq::empty()
    } else {
        let before = accepted(scans.drop_last());
        if scans.last().keys is Ok {
            before.push(scans.last().alias@)
        } else {
            before
        }
    }
}

/// Gathers the keys of a row of scans: all of them as text, and the hosts that
/// showed theirs.
pub fn batch_keyscan_and_accept(scans: &[Keyscan]) -> (r: (String, Vec<String>))
    ensures
        r.0@ == all_keys(scans@),
        texts(r.1@) == accepted(scans@),
{
    let mut keys = String::new();
    let mut names: Vec<String> = Vec::new();
    let mut i: usize = 0;
    assert(keys@ =~= all_keys(scans@.take(0)));
    assert(texts(names@) =~= accepted(scans@.take(0)));
    while i < scans.len()
        invariant
            i <= scans@.len(),
            keys@ == all_keys(scans@.take(i as int)),
            texts(names@) == accepted(scans@.take(i as int)),
        decreases scans@.len() - i,
    {
        assert(scans@.take(i + 1).drop_last() =~= scans@.take(i as int));
        assert(scans@.take(i + 1).last() == scans@[i as int]);
        match &scans[i].keys {
            Ok(k) => {
                if chars_of(keys.as_str()).len() > 0 {
                    keys.push('\n');
                }
                let ghost before = keys@;
                keys.append(k.as_str());
                assert(before.len() == 0 ==> keys@ =~= k@);
                names.push(copy(scans[i].alias.as_str()));
            },
            Err(e) => {},
        }
        i += 1;
    }
    assert(scans@.take(i as int) =~= scans@);
    (keys, names)
}

/// What is shown of a scan: the kind of line and the detail.
pub fn scan_note(scan: &Keyscan) -> (r: (&'static str, String))
    ensures
        (r.0@, r.1@) == (match scan.keys {
            Ok(k) => ("ok"@, "host key accepted"@),
            Err(e) => ("error"@, "keyscan failed: "@ + e@),
        }),
{
    match &scan.keys {
        Ok(k) => ("ok", copy("host key accepted")),
        Err(e) => ("error", concat2("keyscan failed: ", e.message.as_str())),
    }
}

/// The text with a line feed at its end.
pub open spec fn with_line_feed(s: Seq<char>) -> Seq<char> {
    if s.len() > 0 && s.last() == '\n' {
        s
    } else {
        s.push('\n')
    }
}

/// What is added to the file of known hosts: the keys on lines of their own, also
/// where the file does not end in a line feed.
pub open spec fn known_hosts_text(existing: Seq<char>, keys: Seq<char>) -> Seq<char> {
    if existing.len() > 0 && existing.last() != '\n' {
        with_line_feed(seq!['\n'] + keys)
    } else {
        with_line_feed(keys)
    }
}

/// Works out what is added to the file of known hosts; `existing` is what it
/// holds, empty where there is no such file.
pub fn known_hosts_addition(existing: &str, keys: &str) -> (r: String)
    ensures
        r@ == known_hosts_text(existing@, keys@),
{
    let cs = chars_of(existing);
    let mut out = String::new();
    if cs.len() > 0 && cs[cs.len() - 1] != '\n' {
        out.push('\n');
    }
    out.append(keys);
    assert(out@ =~= (if existing@.len() > 0 && existing@.last() != '\n' {
        seq!['\n'] + keys@
    } else {
        keys@
    }));
    let so_far = chars_of(out.as_str());
    if !(so_far.len() > 0 && so_far[so_far.len() - 1] == '\n') {
        out.push('\n');
    }
    out
}

// ---------------------------------------------------------------------------
// Counting
// ---------------------------------------------------------------------------

/// The counts with a row of failures added.
pub open spec fn with_failures(t: Tally, failures: Seq<(Seq<char>, Seq<char>)>) -> Tally
    decreases failures.len(),
{
    if failures.len() == 0 {
        t
    } else {
        with_failures(t, failures.drop_last()).counted(
            failures.last().0,
            VerdictView::Failure(failures.last().1),
        )
    }
}

proof fn with_failures_counts(t: Tally, failures: Seq<(Seq<char>, Seq<char>)>)
    ensures
        with_failures(t, failures).failed == t.failed + failures.len(),
        with_failures(t, failures).succeeded == t.succeeded,
        with_failures(t, failures).skipped == t.skipped,
    decreases failures.len(),
{
    if failures.len() > 0 {
        with_failures_counts(t, failures.drop_last());
    }
}

/// Counts a row of failures.
pub fn count_failures(s: &mut Summary, failures: &[(String, String)])
    requires
        old(s).wf(),
        old(s).succeeded < usize::MAX,
        old(s).skipped < usize::MAX,
        old(s).failed + failures@.len() <= usize::MAX,
    ensures
        final(s).wf(),
        tally_of(*final(s)) == with_failures(tally_of(*old(s)), pair_texts(failures@)),
        final(s).skip_reasons == old(s).skip_reasons,
{
    let ghost start = tally_of(*s);
    let ghost all = pair_texts(failures@);
    let ghost reasons = s.skip_reasons;
    let mut i: usize = 0;
    assert(all.take(0) =~= Seq::empty());
    while i < failures.len()
        invariant
            i <= failures@.len(),
            all == pair_texts(failures@),
            s.wf(),
            s.skip_reasons == reasons,
            start.succeeded < usize::MAX,
            start.skipped < usize::MAX,
            start.failed + failures@.len() <= usize::MAX,
            tally_of(*s) == with_failures(start, all.take(i as int)),
        decreases failures@.len() - i,
    {
        proof {
            assert(all.take(i + 1).drop_last() =~= all.take(i as int));
            assert(all.take(i + 1).last() == (failures@[i as int].0@, failures@[i as int].1@));
            with_failures_counts(start, all.take(i as int));
        }
        count(s, failures[i].0.as_str(), Verdict::Failure(copy(failures[i].1.as_str())));
        i += 1;
    }
    assert(all.take(i as int) =~= all);
}

/// The hosts whose keys could not be had, each with its error.
pub open spec fn unscanned(
    failures: Seq<(Seq<char>, Seq<char>)>,
    accepted: Seq<Seq<char>>,
) -> Seq<(Seq<char>, Seq<char>)>
    decreases failures.len(),
{
    if failures.len() == 0 {
        Seq::empty()
    } else {
        let before = unscanned(failures.drop_last(), accepted);
        if accepted.contains(failures.last().0) {
            before
        } else {
            before.push((failures.last().0, "keyscan failed"@))
        }
    }
}

/// Lists the hosts whose keys could not be had, each with its error.
pub fn keyscan_failures(failures: &[(String, String)], accepted: &[String]) -> (r: Vec<
    (String, String),
>)
    ensures
        pair_texts(r@) == unscanned(pair_texts(failures@), texts(accepted@)),
{
    let ghost all = pair_texts(failures@);
    let mut out: Vec<(String, String)> = Vec::new();
    let mut i: usize = 0;
    assert(pair_texts(out@) =~= unscanned(all.take(0), texts(accepted@)));
    while i < failures.len()
        invariant
            i <= failures@.len(),
            all == pair_texts(failures@),
            pair_texts(out@) == unscanned(all.take(i as int), texts(accepted@)),
        decreases failures@.len() - i,
    {
        assert(all.take(i + 1).drop_last() =~= all.take(i as int));
        assert(all.take(i + 1).last() == (failures@[i as int].0@, failures@[i as int].1@));
        if !listed(accepted, failures[i].0.as_str()) {
            push_pair_text(&mut out, failures[i].0.as_str(), "keyscan failed");
        }
        i += 1;
    }
    assert(all.take(i as int) =~= all);
    out
}

// ---------------------------------------------------------------------------
// The new configuration
// ---------------------------------------------------------------------------

/// Where a host first stands in a list; the length where it does not.
pub open spec fn find_ssh(hosts: Seq<HostView>, name: Seq<char>, from: int) -> int
    decreases hosts.len() - from,
{
    if from < 0 || from >= hosts.len() {
        hosts.len() as int
    } else if hosts[from].ssh_host == name {
        from
    } else {
        find_ssh(hosts, name, from + 1)
    }
}

/// The hosts with one whose shell was found out: a host that is there already gets
/// the shell, any other is added.
pub open spec fn with_host(hosts: Seq<HostView>, name: Seq<char>, shell: ShellType) -> Seq<
    HostView,
> {
    let i = find_ssh(hosts, name, 0);
    if i < hosts.len() {
        hosts.update(i, HostView { shell, ..hosts[i] })
    } else {
        hosts.push(provisional(name, shell))
    }
}

/// The hosts with all of those whose shell was found out.
pub open spec fn with_hosts(hosts: Seq<HostView>, found: Seq<(Seq<char>, ShellType)>) -> Seq<
    HostView,
>
    decreases found.len(),
{
    if found.len() == 0 {
        hosts
    } else {
        with_host(with_hosts(hosts, found.drop_last()), found.last().0, found.last().1)
    }
}

/// A host and the shell that was found on it.
pub struct DetectedHost {
    pub name: String,
    pub shell: ShellType,
}

/// The name and the shell of every host of a list.
pub open spec fn detected(list: Seq<DetectedHost>) -> Seq<(Seq<char>, ShellType)> {
    Seq::new(list.len(), |i: int| (list[i].name@, list[i].shell))
}

/// The hosts without the stale ones.
pub open spec fn without_stale(hosts: Seq<HostEntry>, stale: Seq<Seq<char>>) -> Seq<HostEntry> {
    hosts.filter(|h: HostEntry| !stale.contains(h.ssh_host@))
}

fn drop_stale(hosts: Vec<HostEntry>, stale: &[String]) -> (r: Vec<HostEntry>)
    ensures
        host_views(r@) == host_views(without_stale(hosts@, texts(stale@))),
{
    let ghost all = hosts@;
    let ghost p = |h: HostEntry| !texts(stale@).contains(h.ssh_host@);
    let mut out: Vec<HostEntry> = Vec::new();
    let mut i: usize = 0;
    proof {
        filter_none(all, p);
        assert(host_views(out@) =~= host_views(all.take(0).filter(p)));
    }
    while i < hosts.len()
        invariant
            i <= hosts@.len(),
            all == hosts@,
            p == (|h: HostEntry| !texts(stale@).contains(h.ssh_host@)),
            host_views(out@) == host_views(all.take(i as int).filter(p)),
        decreases hosts@.len() - i,
    {
        let ghost kept = all.take(i as int).filter(p);
        let ghost before = host_views(out@);
        proof {
            filter_next(all, p, i as int);
        }
        if !listed(stale, hosts[i].ssh_host.as_str()) {
            out.push(hosts[i].copy());
            assert(host_views(out@) =~= before.push(hosts@[i as int]@));
            assert(host_views(kept.push(hosts@[i as int])) =~= host_views(kept).push(
                hosts@[i as int]@,
            ));
        }
        i += 1;
    }
    assert(all.take(i as int) =~= all);
    out
}

fn add_host(hosts: &mut Vec<HostEntry>, name: &str, shell: ShellType)
    ensures
        host_views(final(hosts)@) == with_host(host_views(old(hosts)@), name@, shell),
{
    let ghost all = host_views(hosts@);
    let mut i: usize = 0;
    while i < hosts.len() && !same(hosts[i].ssh_host.as_str(), name)
        invariant
            i <= hosts@.len(),
            all == host_views(hosts@),
            find_ssh(all, name@, 0) == find_ssh(all, name@, i as int),
        decreases hosts@.len() - i,
    {
        assert(all[i as int] == hosts@[i as int]@);
        i += 1;
    }
    if i < hosts.len() {
        assert(all[i as int] == hosts@[i as int]@);
        let mut entry = hosts[i].copy();
        entry.shell = shell;
        let ghost v = entry@;
        hosts.set(i, entry);
        assert(host_views(hosts@) =~= all.update(i as int, v));
    } else {
        let entry = new_entry(name, shell);
        let ghost v = entry@;
        hosts.push(entry);
        assert(host_views(hosts@) =~= all.push(v));
    }
}

/// Whether a configuration differs from another in its hosts and in the hosts to
/// leave out at most.
pub open spec fn same_but_hosts(a: AppConfig, b: AppConfig) -> bool {
    &&& a.check == b.check
    &&& a.sync == b.sync
    &&& a.settings.default_timeout == b.settings.default_timeout
    &&& a.settings.data_retention_days == b.settings.data_retention_days
    &&& a.settings.conflict_strategy == b.settings.conflict_strategy
    &&& a.settings.propagate_deletes == b.settings.propagate_deletes
    &&& a.settings.max_concurrency == b.settings.max_concurrency
    &&& a.settings.max_per_host_concurrency == b.settings.max_per_host_concurrency
    &&& a.settings.state_dir == b.settings.state_dir
    &&& a.settings.default_output_format == b.settings.default_output_format
}

/// Works what was found into a configuration: stale hosts go (none where the user
/// keeps them), hosts whose shell was found out come or are brought up to date,
/// and hosts to leave out are remembered.
pub fn merge_config(
    config: AppConfig,
    stale: &[String],
    found: &[DetectedHost],
    skip: &[String],
) -> (r: AppConfig)
    ensures
        host_views(r.host@) == with_hosts(
            host_views(without_stale(config.host@, texts(stale@))),
            detected(found@),
        ),
        texts(r.settings.skipped_hosts@) == with_all_new(
            texts(config.settings.skipped_hosts@),
            texts(skip@),
        ),
        same_but_hosts(r, config),
        (forall|a: int, b: int|
            0 <= a < b < found@.len() ==> (#[trigger] found@[a]).name@ != (
            #[trigger] found@[b]).name@) ==> forall|k: int|
            0 <= k < found@.len() ==> exists|i: int|
                0 <= i < r.host@.len() && (#[trigger] r.host@[i]).ssh_host@ == (
                #[trigger] found@[k]).name@ && r.host@[i].shell == found@[k].shell && forall|j: int|
                    0 <= j < i ==> (#[trigger] r.host@[j]).ssh_host@ != found@[k].name@,
{
    let mut config = config;
    let ghost start = config;
    let mut hosts = drop_stale(config.host, stale);
    let ghost kept = host_views(hosts@);
    let ghost all = detected(found@);
    let mut i: usize = 0;
    assert(all.take(0) =~= Seq::empty());
    while i < found.len()
        invariant
            i <= found@.len(),
            all == detected(found@),
            host_views(hosts@) == with_hosts(kept, all.take(i as int)),
        decreases found@.len() - i,
    {
        assert(all.take(i + 1).drop_last() =~= all.take(i as int));
        assert(all.take(i + 1).last() == (found@[i as int].name@, found@[i as int].shell));
        add_host(&mut hosts, found[i].name.as_str(), found[i].shell);
        i += 1;
    }
    assert(all.take(i as int) =~= all);
    config.host = hosts;
    push_all_new(&mut config.settings.skipped_hosts, skip);
    proof {
        detected_hosts_are_there(config.host@, kept, found@);
    }
    config
}

proof fn detected_hosts_are_there(
    hosts: Seq<HostEntry>,
    kept: Seq<HostView>,
    found: Seq<DetectedHost>,
)
    requires
        host_views(hosts) == with_hosts(kept, detected(found)),
    ensures
        (forall|a: int, b: int|
            0 <= a < b < found.len() ==> (#[trigger] found[a]).name@ != (#[trigger] found[b]).name@)
            ==> forall|k: int|
            0 <= k < found.len() ==> exists|i: int|
                0 <= i < hosts.len() && (#[trigger] hosts[i]).ssh_host@ == (
                #[trigger] found[k]).name@ && hosts[i].shell == found[k].shell && forall|j: int|
                    0 <= j < i ==> (#[trigger] hosts[j]).ssh_host@ != found[k].name@,
{
    let all = detected(found);
    let after = host_views(hosts);
    if forall|a: int, b: int|
        0 <= a < b < found.len() ==> (#[trigger] found[a]).name@ != (#[trigger] found[b]).name@ {
        assert forall|a: int, b: int| 0 <= a < b < all.len() implies (#[trigger] all[a]).0 != (
        #[trigger] all[b]).0 by {
            assert(found[a].name@ != found[b].name@);
        }
        assert forall|k: int| 0 <= k < found.len() implies exists|i: int|
            0 <= i < hosts.len() && (#[trigger] hosts[i]).ssh_host@ == (#[trigger] found[k]).name@
                && hosts[i].shell == found[k].shell && forall|j: int|
                0 <= j < i ==> (#[trigger] hosts[j]).ssh_host@ != found[k].name@ by {
            let i = detected_shells_are_taken_over(kept, all, k);
            assert(all[k] == (found[k].name@, found[k].shell));
            assert(after[i] == hosts[i]@);
            assert forall|j: int| 0 <= j < i implies (#[trigger] hosts[j]).ssh_host@
                != found[k].name@ by {
                assert(after[j] == hosts[j]@);
            }
        }
    }
}

/// How an import ends.
#[derive(Debug, Clone, Copy, PartialEq, Eq, Structural)]
pub enum InitEnd {
    /// Nothing is written, because it was only tried.
    DryRun,
    /// Nothing is written, because nothing is new.
    NothingNew,
    /// The configuration is written.
    Save,
}

/// Decides how an import ends after shells were looked for.
pub fn end_after_detection(dry_run: bool, found: usize, skips: usize, stale_removed: bool) -> (r:
    InitEnd)
    ensures
        r == (if dry_run {
            InitEnd::DryRun
        } else if found == 0 && skips == 0 && !stale_removed {
            InitEnd::NothingNew
        } else {
            InitEnd::Save
        }),
{
    if dry_run {
        InitEnd::DryRun
    } else if found == 0 && skips == 0 && !stale_removed {
        InitEnd::NothingNew
    } else {
        InitEnd::Save
    }
}

/// Decides how an import ends where no shell had to be looked for: a dry run is
/// announced only where there are hosts to leave out.
pub fn end_without_detection(dry_run: bool, skips: usize, stale_removed: bool) -> (r: InitEnd)
    ensures
        r == (if skips > 0 && dry_run {
            InitEnd::DryRun
        } else if skips > 0 || stale_removed {
            InitEnd::Save
        } else {
            InitEnd::NothingNew
        }),
{
    if skips > 0 && dry_run {
        InitEnd::DryRun
    } else if skips > 0 || stale_removed {
        InitEnd::Save
    } else {
        InitEnd::NothingNew
    }
}

// ---------------------------------------------------------------------------
// What is said
// ---------------------------------------------------------------------------

/// A text with a number in it.
pub fn with_count(before: &str, n: usize, after: &str) -> (r: String)
    ensures
        r@ == before@ + decimal(n as nat) + after@,
{
    concat3(before, usize_text(n).as_str(), after)
}

/// The names of a list, one to a line.
pub open spec fn bullets(names: Seq<Seq<char>>) -> Seq<Seq<char>> {
    Seq::new(names.len(), |i: int| "  - "@ + names[i])
}

/// Writes the names of a list, one to a line.
pub fn bullet_lines(names: &[String]) -> (r: Vec<String>)
    ensures
        texts(r@) == bullets(texts(names@)),
{
    let ghost all = bullets(texts(names@));
    let mut out: Vec<String> = Vec::new();
    let mut i: usize = 0;
    while i < names.len()
        invariant
            i <= names@.len(),
            all == bullets(texts(names@)),
            texts(out@) == all.take(i as int),
        decreases names@.len() - i,
    {
        out.push(concat2("  - ", names[i].as_str()));
        i += 1;
        assert(texts(out@) =~= all.take(i as int));
    }
    assert(all.take(i as int) =~= all);
    out
}

/// The question whether stale hosts may go.
pub fn removal_question(n: usize) -> (r: String)
    ensures
        r@ == "Remove these "@ + decimal(n as nat) + " host(s) from ssync config? [y/N]: "@,
{
    with_count("Remove these ", n, " host(s) from ssync config? [y/N]: ")
}

// ---------------------------------------------------------------------------
// Laws
// ---------------------------------------------------------------------------

/// Every failure is either one of an unknown host key or another one.
pub proof fn failures_are_parted(failures: Seq<(Seq<char>, Seq<char>)>)
    ensures
        failures.filter(|f: (Seq<char>, Seq<char>)| is_key_error(f.1)).len() + failures.filter(
            |f: (Seq<char>, Seq<char>)| !is_key_error(f.1),
        ).len() == failures.len(),
    decreases failures.len(),
{
    let p = |f: (Seq<char>, Seq<char>)| is_key_error(f.1);
    let q = |f: (Seq<char>, Seq<char>)| !is_key_error(f.1);
    if failures.len() == 0 {
        filter_none(failures, p);
        filter_none(failures, q);
        assert(failures.take(0) =~= failures);
    } else {
        failures_are_parted(failures.drop_last());
        filter_next(failures, p, failures.len() - 1);
        filter_next(failures, q, failures.len() - 1);
        assert(failures.take(failures.len() as int) =~= failures);
        assert(failures.take(failures.len() - 1) =~= failures.drop_last());
    }
}

proof fn find_ssh_finds(hosts: Seq<HostView>, name: Seq<char>, from: int)
    requires
        0 <= from <= hosts.len(),
    ensures
        from <= find_ssh(hosts, name, from) <= hosts.len(),
        find_ssh(hosts, name, from) < hosts.len() ==> hosts[find_ssh(hosts, name, from)].ssh_host
            == name,
        forall|i: int|
            from <= i < find_ssh(hosts, name, from) ==> (#[trigger] hosts[i]).ssh_host != name,
    decreases hosts.len() - from,
{
    if from < hosts.len() && hosts[from].ssh_host != name {
        find_ssh_finds(hosts, name, from + 1);
    }
}

/// Importing a host changes nothing but its shell where it is configured already,
/// leaves every other host as it is and never makes a host appear twice.
pub proof fn importing_keeps_other_hosts(hosts: Seq<HostView>, name: Seq<char>, shell: ShellType)
    ensures
        ({
            let after = with_host(hosts, name, shell);
            &&& hosts.len() <= after.len() <= hosts.len() + 1
            &&& forall|i: int|
                0 <= i < hosts.len() ==> {
                    ||| (#[trigger] after[i]) == hosts[i]
                    ||| hosts[i].ssh_host == name && after[i] == (HostView { shell, ..hosts[i] })
                }
            &&& after.len() > hosts.len() ==> after.last() == provisional(name, shell) && forall|
                i: int,
            |
                0 <= i < hosts.len() ==> (#[trigger] hosts[i]).ssh_host != name
        }),
{
    find_ssh_finds(hosts, name, 0);
}

/// After an import every host that was detected is configured with the shell that was
/// found on it: of the hosts with its name the first one has that shell.
pub proof fn detected_shells_are_taken_over(
    hosts: Seq<HostView>,
    found: Seq<(Seq<char>, ShellType)>,
    k: int,
) -> (i: int)
    requires
        0 <= k < found.len(),
        forall|a: int, b: int|
            0 <= a < b < found.len() ==> (#[trigger] found[a]).0 != (#[trigger] found[b]).0,
    ensures
        ({
            let after = with_hosts(hosts, found);
            &&& 0 <= i < after.len()
            &&& after[i].ssh_host == found[k].0
            &&& after[i].shell == found[k].1
            &&& forall|j: int| 0 <= j < i ==> (#[trigger] after[j]).ssh_host != found[k].0
        }),
    decreases found.len(),
{
    let rest = found.drop_last();
    let n = found.len() - 1;
    let before = with_hosts(hosts, rest);
    let after = with_hosts(hosts, found);
    let name = found.last().0;
    find_ssh_finds(before, name, 0);
    if k == n {
        let i = find_ssh(before, name, 0);
        assert forall|j: int| 0 <= j < i implies (#[trigger] after[j]).ssh_host != name by {
            assert(after[j] == before[j]);
        }
        i
    } else {
        assert forall|a: int, b: int| 0 <= a < b < rest.len() implies (#[trigger] rest[a]).0 != (
        #[trigger] rest[b]).0 by {
            assert(found[a].0 != found[b].0);
        }
        let i = detected_shells_are_taken_over(hosts, rest, k);
        assert(found[k].0 != found[n].0);
        assert(rest[k] == found[k]);
        assert(after[i] == before[i]);
        assert forall|j: int| 0 <= j < i implies (#[trigger] after[j]).ssh_host != found[k].0 by {
            assert(after[j].ssh_host == before[j].ssh_host);
        }
        i
    }
}

/// An import keeps every host that was there, with its names, its groups and its jump
/// host, and changes a shell only to one that was found; a host that comes new has a name
/// that was found and that no host had, and no groups.
pub proof fn imports_only_add(hosts: Seq<HostView>, found: Seq<(Seq<char>, ShellType)>)
    ensures
        ({
            let after = with_hosts(hosts, found);
            &&& after.len() >= hosts.len()
            &&& forall|i: int|
                0 <= i < hosts.len() ==> {
                    &&& (#[trigger] after[i]).name == hosts[i].name
                    &&& after[i].ssh_host == hosts[i].ssh_host
                    &&& after[i].groups == hosts[i].groups
                    &&& after[i].proxy_jump == hosts[i].proxy_jump
                    &&& after[i].shell == hosts[i].shell || found.contains(
                        (hosts[i].ssh_host, after[i].shell),
                    )
                }
            &&& forall|i: int|
                hosts.len() <= i < after.len() ==> {
                    &&& (#[trigger] after[i]).name == after[i].ssh_host
                    &&& after[i].groups.len() == 0
                    &&& after[i].proxy_jump is None
                    &&& found.contains((after[i].ssh_host, after[i].shell))
                    &&& forall|j: int| 0 <= j < i ==> (#[trigger] after[j]).ssh_host
                        != after[i].ssh_host
                }
        }),
    decreases found.len(),
{
    if found.len() > 0 {
        let rest = found.drop_last();
        let before = with_hosts(hosts, rest);
        let after = with_hosts(hosts, found);
        let (name, shell) = found.last();
        imports_only_add(hosts, rest);
        find_ssh_finds(before, name, 0);
        assert(found[found.len() - 1] == (name, shell));
        assert(found.contains((name, shell)));
        assert forall|x: (Seq<char>, ShellType)| #[trigger] rest.contains(x) implies found.contains(
            x,
        ) by {
            assert(found[rest.index_of(x)] == x);
        }
        assert forall|i: int| 0 <= i < hosts.len() implies {
            &&& (#[trigger] after[i]).name == hosts[i].name
            &&& after[i].ssh_host == hosts[i].ssh_host
            &&& after[i].groups == hosts[i].groups
            &&& after[i].proxy_jump == hosts[i].proxy_jump
            &&& after[i].shell == hosts[i].shell || found.contains(
                (hosts[i].ssh_host, after[i].shell),
            )
        } by {
            assert(before[i].name == hosts[i].name);
            if before[i].shell != hosts[i].shell {
                assert(rest.contains((hosts[i].ssh_host, before[i].shell)));
            }
        }
        assert forall|i: int| hosts.len() <= i < after.len() implies {
            &&& (#[trigger] after[i]).name == after[i].ssh_host
            &&& after[i].groups.len() == 0
            &&& after[i].proxy_jump is None
            &&& found.contains((after[i].ssh_host, after[i].shell))
            &&& forall|j: int| 0 <= j < i ==> (#[trigger] after[j]).ssh_host != after[i].ssh_host
        } by {
            if i < before.len() {
                assert(before[i].name == before[i].ssh_host);
                assert(rest.contains((before[i].ssh_host, before[i].shell)));
                assert forall|j: int| 0 <= j < i implies (#[trigger] after[j]).ssh_host
                    != after[i].ssh_host by {
                    assert(before[j].ssh_host != before[i].ssh_host);
                }
            } else {
                assert forall|j: int| 0 <= j < i implies (#[trigger] after[j]).ssh_host
                    != after[i].ssh_host by {
                    assert(before[j].ssh_host != name);
                }
            }
        }
    }
}

/// A configured host is stale exactly where no host of the SSH configuration has its
/// name; and of the hosts, those that are not stale stay, in their order.
pub proof fn stale_hosts_have_left(hosts: Seq<HostEntry>, ssh: Seq<Seq<char>>) -> (at: Seq<int>)
    ensures
        forall|n: Seq<char>| #[trigger]
            stale(hosts, ssh).contains(n) <==> (exists|k: int|
                0 <= k < hosts.len() && (#[trigger] hosts[k]).ssh_host@ == n) && (forall|j: int|
                0 <= j < ssh.len() ==> #[trigger] ssh[j] != n),
        picked(hosts, at, without_stale(hosts, stale(hosts, ssh))),
        forall|k: int|
            0 <= k < hosts.len() ==> (at.contains(k) <==> exists|j: int|
                0 <= j < ssh.len() && #[trigger] ssh[j] == (#[trigger] hosts[k]).ssh_host@),
{
    let names = ssh_names(hosts);
    let gone = stale(hosts, ssh);
    assert forall|n: Seq<char>| #[trigger] gone.contains(n) <==> (exists|k: int|
        0 <= k < hosts.len() && (#[trigger] hosts[k]).ssh_host@ == n) && (forall|j: int|
        0 <= j < ssh.len() ==> #[trigger] ssh[j] != n) by {
        filter_holds(names, |x: Seq<char>| !ssh.contains(x), n);
        if names.contains(n) {
            assert(hosts[names.index_of(n)].ssh_host@ == n);
        }
        if exists|k: int| 0 <= k < hosts.len() && (#[trigger] hosts[k]).ssh_host@ == n {
            let k = choose|k: int| 0 <= k < hosts.len() && (#[trigger] hosts[k]).ssh_host@ == n;
            assert(names[k] == n);
            assert(names.contains(n));
        }
        if ssh.contains(n) {
            assert(ssh[ssh.index_of(n)] == n);
        }
    }
    let at = filter_picks(hosts, |h: HostEntry| !gone.contains(h.ssh_host@));
    assert forall|k: int| 0 <= k < hosts.len() implies (at.contains(k) <==> exists|j: int|
        0 <= j < ssh.len() && #[trigger] ssh[j] == (#[trigger] hosts[k]).ssh_host@) by {
        let n = hosts[k].ssh_host@;
        assert(gone.contains(n)
            <==> (forall|j: int| 0 <= j < ssh.len() ==> #[trigger] ssh[j] != n));
    }
    at
}

/// Every host of the SSH configuration is left out where the user names it, and else
/// detected where that is due: always with an update, and without one where it is not
/// configured yet. No host is both.
pub proof fn every_ssh_host_is_placed(
    ssh: Seq<Seq<char>>,
    skips: Seq<Seq<char>>,
    hosts: Seq<HostEntry>,
    update: bool,
    k: int,
)
    requires
        0 <= k < ssh.len(),
    ensures
        skipped(ssh, skips).contains(ssh[k]) <==> exists|j: int|
            0 <= j < skips.len() && #[trigger] skips[j] == ssh[k],
        to_detect(ssh, skips, ssh_names(hosts), update).contains(ssh[k]) <==> (forall|j: int|
            0 <= j < skips.len() ==> #[trigger] skips[j] != ssh[k]) && (update || forall|i: int|
            0 <= i < hosts.len() ==> (#[trigger] hosts[i]).ssh_host@ != ssh[k]),
        !(skipped(ssh, skips).contains(ssh[k]) && to_detect(
            ssh,
            skips,
            ssh_names(hosts),
            update,
        ).contains(ssh[k])),
{
    let n = ssh[k];
    let known = ssh_names(hosts);
    assert(ssh.contains(n));
    filter_holds(ssh, |x: Seq<char>| skips.contains(x), n);
    filter_holds(ssh, |x: Seq<char>| !skips.contains(x) && (update || !known.contains(x)), n);
    if skips.contains(n) {
        assert(skips[skips.index_of(n)] == n);
    }
    if known.contains(n) {
        assert(hosts[known.index_of(n)].ssh_host@ == n);
    }
    if !known.contains(n) {
        assert forall|i: int| 0 <= i < hosts.len() implies (#[trigger] hosts[i]).ssh_host@ != n by {
            assert(known[i] == hosts[i].ssh_host@);
        }
    }
}

/// The hosts whose keys were taken are those whose scan succeeded, in order.
pub proof fn scanned_hosts_are_accepted(scans: Seq<Keyscan>) -> (at: Seq<int>)
    ensures
        forall|i: int, j: int|
            0 <= i < j < at.len() ==> #[trigger] at[i] < #[trigger] at[j],
        forall|k: int| #[trigger] at.contains(k) <==> 0 <= k < scans.len() && (scans[k].keys is Ok),
        accepted(scans).len() == at.len(),
        forall|i: int|
            0 <= i < at.len() ==> #[trigger] accepted(scans)[i] == scans[at[i]].alias@,
    decreases scans.len(),
{
    if scans.len() == 0 {
        Seq::empty()
    } else {
        let rest = scans.drop_last();
        let n = scans.len() - 1;
        let before = scanned_hosts_are_accepted(rest);
        assert forall|i: int| 0 <= i < before.len() implies 0 <= #[trigger] before[i] < n by {
            assert(before.contains(before[i]));
        }
        let keep = (scans[n].keys is Ok);
        let at = if keep {
            before.push(n)
        } else {
            before
        };
        assert forall|k: int| #[trigger] at.contains(k) <==> 0 <= k < scans.len()
            && (scans[k].keys is Ok) by {
            assert(before.contains(k) <==> 0 <= k < n && (rest[k].keys is Ok));
            if keep {
                assert(at[before.len() as int] == n);
                if before.contains(k) {
                    assert(at[before.index_of(k)] == k);
                }
                if at.contains(k) && k != n {
                    assert(before[at.index_of(k)] == k);
                }
            }
        }
        assert forall|i: int| 0 <= i < at.len()
            implies #[trigger] accepted(scans)[i] == scans[at[i]].alias@ by {
            if i < before.len() {
                assert(accepted(rest)[i] == rest[before[i]].alias@);
            }
        }
        at
    }
}

/// A host whose keys were not taken is told as such, in order.
pub proof fn unscanned_hosts_are_told(
    failures: Seq<(Seq<char>, Seq<char>)>,
    taken: Seq<Seq<char>>,
) -> (at: Seq<int>)
    ensures
        forall|i: int, j: int|
            0 <= i < j < at.len() ==> #[trigger] at[i] < #[trigger] at[j],
        forall|k: int| #[trigger] at.contains(k) <==> 0 <= k < failures.len()
            && !taken.contains(failures[k].0),
        unscanned(failures, taken).len() == at.len(),
        forall|i: int|
            0 <= i < at.len() ==> #[trigger] unscanned(failures, taken)[i]
                == (failures[at[i]].0, "keyscan failed"@),
    decreases failures.len(),
{
    if failures.len() == 0 {
        Seq::empty()
    } else {
        let rest = failures.drop_last();
        let n = failures.len() - 1;
        let before = unscanned_hosts_are_told(rest, taken);
        assert forall|i: int| 0 <= i < before.len() implies 0 <= #[trigger] before[i] < n by {
            assert(before.contains(before[i]));
        }
        let keep = !taken.contains(failures[n].0);
        let at = if keep {
            before.push(n)
        } else {
            before
        };
        assert forall|k: int| #[trigger] at.contains(k) <==> 0 <= k < failures.len()
            && !taken.contains(failures[k].0) by {
            assert(before.contains(k) <==> 0 <= k < n && !taken.contains(rest[k].0));
            if keep {
                assert(at[before.len() as int] == n);
                if before.contains(k) {
                    assert(at[before.index_of(k)] == k);
                }
                if at.contains(k) && k != n {
                    assert(before[at.index_of(k)] == k);
                }
            }
        }
        assert forall|i: int| 0 <= i < at.len()
            implies #[trigger] unscanned(failures, taken)[i]
            == (failures[at[i]].0, "keyscan failed"@) by {
            if i < before.len() {
                assert(unscanned(rest, taken)[i] == (rest[before[i]].0, "keyscan failed"@));
            }
        }
        at
    }
}

/// What is written behind the known hosts begins on a line of its own and ends one.
pub proof fn known_hosts_stay_lines(existing: Seq<char>, keys: Seq<char>)
    ensures
        known_hosts_text(existing, keys).len() > 0,
        known_hosts_text(existing, keys).last() == '\n',
        existing.len() > 0 && existing.last() != '\n'
            ==> known_hosts_text(existing, keys)[0] == '\n',
        existing.len() == 0 || existing.last() == '\n' ==> known_hosts_text(existing, keys).take(
            keys.len() as int,
        ) == keys,
        existing.len() > 0 && existing.last() != '\n' ==> known_hosts_text(existing, keys).subrange(
            1,
            keys.len() as int + 1,
        ) == keys,
        known_hosts_text(existing, keys).len() <= keys.len() + 2,
{
    let t = known_hosts_text(existing, keys);
    if existing.len() > 0 && existing.last() != '\n' {
        assert(t.subrange(1, keys.len() as int + 1) =~= keys);
    } else {
        assert(t.take(keys.len() as int) =~= keys);
    }
}

/// A line holds a key where it is neither blank nor a comment.
pub proof fn comments_hold_no_key(line: Seq<char>)
    ensures
        holds_key(line) <==> trim(line).len() > 0 && line[0] != '#',
{
    crate::scan::trimming_cuts_white_space(line);
}

/// A host is asked for its shell where it is not left out, and is new or all are asked again.
pub proof fn new_hosts_are_asked(
    ssh: Seq<Seq<char>>,
    skips: Seq<Seq<char>>,
    known: Seq<Seq<char>>,
    update: bool,
    name: Seq<char>,
)
    ensures
        to_detect(ssh, skips, known, update).contains(name) <==> ssh.contains(name)
            && !skips.contains(name) && (update || !known.contains(name)),
        skipped(ssh, skips).contains(name) <==> ssh.contains(name) && skips.contains(name),
{
    crate::host::filter::filter_holds(
        ssh,
        |n: Seq<char>| !skips.contains(n) && (update || !known.contains(n)),
        name,
    );
    crate::host::filter::filter_holds(ssh, |n: Seq<char>| skips.contains(n), name);
}

/// Every failure counts as one, with its host and message, and nothing else changes.
pub proof fn every_failure_counts(t: Tally, failures: Seq<(Seq<char>, Seq<char>)>, i: int)
    requires
        0 <= i < failures.len(),
    ensures
        with_failures(t, failures).failed == t.failed + failures.len(),
        with_failures(t, failures).succeeded == t.succeeded,
        with_failures(t, failures).skipped == t.skipped,
        with_failures(t, failures).errors.len() == t.errors.len() + failures.len(),
        with_failures(t, failures).errors[t.errors.len() + i].host == failures[i].0,
        with_failures(t, failures).errors[t.errors.len() + i].message == failures[i].1,
    decreases failures.len(),
{
    let rest = failures.drop_last();
    if rest.len() > 0 {
        if i < rest.len() {
            assert(rest[i] == failures[i]);
            every_failure_counts(t, rest, i);
        } else {
            every_failure_counts(t, rest, 0);
        }
    } else {
        assert(with_failures(t, rest) == t);
    }
}

/// An answer means yes where it is a `y` in either case, with white space around it or none.
pub proof fn a_letter_means_yes(answer: Seq<char>)
    ensures
        means_yes(answer) <==> trim(answer) == seq!['y'] || trim(answer) == seq!['Y'],
{
    reveal_strlit("y");
    let t = trim(answer);
    if t.len() == 1 {
        assert(t =~= seq![t[0]]);
        assert("y"@[0] == 'y');
        assert(crate::order::ascii_lower('Y') == 'y');
        if t[0] != 'y' && 'A' <= t[0] && t[0] <= 'Z' && crate::order::ascii_lower(t[0]) == 'y' {
            assert(t[0] as u32 + 32 == 'y' as u32);
            assert(t[0] == 'Y');
        }
    }
    if t == seq!['y'] || t == seq!['Y'] {
        assert(t.len() == 1);
    }
}

/// The keys of every host whose scan succeeded are among those that are taken.
pub proof fn the_keys_of_every_scan_are_taken(scans: Seq<Keyscan>, i: int) -> (around: (
    Seq<char>,
    Seq<char>,
))
    requires
        0 <= i < scans.len(),
        scans[i].keys is Ok,
    ensures
        all_keys(scans) == around.0 + scans[i].keys->Ok_0@ + around.1,
    decreases scans.len(),
{
    let rest = scans.drop_last();
    let before = all_keys(rest);
    let none = Seq::<char>::empty();
    if i < rest.len() {
        assert(rest[i] == scans[i]);
        let (a, b) = the_keys_of_every_scan_are_taken(rest, i);
        let k = scans[i].keys->Ok_0@;
        let more = match scans.last().keys {
            Ok(last) => if before.len() == 0 {
                none
            } else {
                seq!['\n'] + last@
            },
            Err(_) => none,
        };
        match scans.last().keys {
            Ok(last) => {
                if before.len() == 0 {
                    assert(a.len() == 0 && b.len() == 0 && k.len() == 0);
                    assert(all_keys(scans) =~= none + k + last@);
                    (none, last@)
                } else {
                    assert(all_keys(scans) =~= a + k + (b + more));
                    (a, b + more)
                }
            },
            Err(_) => (a, b),
        }
    } else {
        let k = scans[i].keys->Ok_0@;
        if before.len() == 0 {
            assert(all_keys(scans) =~= none + k + none);
            (none, none)
        } else {
            let a = before.push('\n');
            assert(all_keys(scans) =~= a + k + none);
            (a, none)
        }
    }
}

} // verus!
