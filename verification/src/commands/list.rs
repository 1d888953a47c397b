//! Listing hosts and the entries that apply to them.

use vstd::prelude::*;

use crate::commands::checkout::{dashes, rule};
use crate::config::schema::{CheckEntry, CheckPath, HostEntry, SyncEntry};
use crate::host::filter::pointees;
use crate::output::printer::{pad, padded};
use crate::output::summary::push_lines;
use crate::scan::{join, join_all};
use crate::text::{concat2, concat3, copy, decimal, texts, texts_push, usize_text};

verus! {

broadcast use texts_push;

/// To which hosts an entry is scoped: to groups, else to hosts, else to none in
/// particular.
pub open spec fn scope(groups: Seq<Seq<char>>, hosts: Seq<Seq<char>>) -> Seq<char> {
    if groups.len() > 0 {
        "groups=["@ + join(groups, ", "@) + "]"@
    } else if hosts.len() > 0 {
        "hosts=["@ + join(hosts, ", "@) + "]"@
    } else {
        "global"@
    }
}

/// Says to which hosts an entry is scoped.
pub fn format_scope(groups: &[String], hosts: &[String]) -> (r: String)
    ensures
        r@ == scope(texts(groups@), texts(hosts@)),
{
    if groups.len() > 0 {
        concat3("groups=[", join_all(groups, ", ").as_str(), "]")
    } else if hosts.len() > 0 {
        concat3("hosts=[", join_all(hosts, ", ").as_str(), "]")
    } else {
        copy("global")
    }
}

/// A row of a list: three columns and the rest.
pub open spec fn row(a: Seq<char>, b: Seq<char>, c: Seq<char>, rest: Seq<char>) -> Seq<char> {
    "  "@ + padded(a, 16) + " "@ + padded(b, 20) + " "@ + padded(c, 12) + " "@ + rest
}

fn make_row(a: &str, b: &str, c: &str, rest: &str) -> (r: String)
    ensures
        r@ == row(a@, b@, c@, rest@),
{
    let mut out = concat3("  ", pad(a, 16).as_str(), " ");
    out.append(pad(b, 20).as_str());
    out.append(" ");
    out.append(pad(c, 12).as_str());
    out.append(" ");
    out.append(rest);
    out
}

/// The row of a host.
pub open spec fn host_row(h: HostEntry) -> Seq<char> {
    row(
        h.name@,
        h.ssh_host@,
        h.shell.spec_name(),
        if h.groups@.len() == 0 {
            "-"@
        } else {
            join(texts(h.groups@), ", "@)
        },
    )
}

/// The lines about the hosts.
pub open spec fn host_section(hosts: Seq<HostEntry>) -> Seq<Seq<char>> {
    seq![
        "── Hosts ("@ + decimal(hosts.len()) + ") ──"@,
        row("Name"@, "SSH Host"@, "Shell"@, "Groups"@),
        "  "@ + dashes(64),
    ] + Seq::new(hosts.len(), |i: int| host_row(hosts[i]))
}

/// Writes the lines about the hosts.
pub fn host_lines(hosts: &[&HostEntry]) -> (r: Vec<String>)
    ensures
        texts(r@) == host_section(pointees(hosts@)),
{
    let ghost all = pointees(hosts@);
    let ghost rows = Seq::new(all.len(), |i: int| host_row(all[i]));
    let mut out: Vec<String> = Vec::new();
    out.push(concat3("── Hosts (", usize_text(hosts.len()).as_str(), ") ──"));
    out.push(make_row("Name", "SSH Host", "Shell", "Groups"));
    out.push(concat2("  ", rule(64).as_str()));
    let ghost head = texts(out@);
    let mut i: usize = 0;
    assert(head + rows.take(0) =~= head);
    while i < hosts.len()
        invariant
            i <= hosts@.len(),
            all == pointees(hosts@),
            rows == Seq::new(all.len(), |i: int| host_row(all[i])),
            texts(out@) == head + rows.take(i as int),
        decreases hosts@.len() - i,
    {
        let h = hosts[i];
        let groups = if h.groups.len() == 0 {
            copy("-")
        } else {
            join_all(h.groups.as_slice(), ", ")
        };
        out.push(
            make_row(h.name.as_str(), h.ssh_host.as_str(), h.shell.name(), groups.as_str()),
        );
        assert(rows[i as int] == host_row(*h));
        i += 1;
        assert(texts(out@) =~= head + rows.take(i as int));
    }
    assert(rows.take(i as int) =~= rows);
    assert(texts(out@) =~= host_section(all));
    out
}

/// The lines about the paths of a check.
pub open spec fn path_lines(paths: Seq<CheckPath>) -> Seq<Seq<char>> {
    Seq::new(paths.len(), |i: int| "      path: "@ + paths[i].path@ + " ("@ + paths[i].label@ + ")"@)
}

/// The lines about a check.
pub open spec fn check_lines(number: nat, e: CheckEntry) -> Seq<Seq<char>> {
    seq!["  ["@ + decimal(number) + "] scope: "@ + scope(texts(e.groups@), Seq::empty())] + (
    if e.enabled@.len() > 0 {
        seq!["      enabled: "@ + join(texts(e.enabled@), ", "@)]
    } else {
        Seq::empty()
    }) + path_lines(e.path@)
}

/// The lines about a row of checks.
pub open spec fn all_check_lines(entries: Seq<CheckEntry>) -> Seq<Seq<char>>
    decreases entries.len(),
{
    if entries.len() == 0 {
        Seq::empty()
    } else {
        all_check_lines(entries.drop_last()) + check_lines(entries.len(), entries.last())
    }
}

/// The lines about the checks.
pub open spec fn check_section(entries: Seq<CheckEntry>) -> Seq<Seq<char>> {
    seq![""@, "── Applicable Checks ("@ + decimal(entries.len()) + ") ──"@] + (if entries.len()
        == 0 {
        seq!["  (none)"@]
    } else {
        all_check_lines(entries)
    })
}

fn one_check(number: usize, e: &CheckEntry) -> (r: Vec<String>)
    ensures
        texts(r@) == check_lines(number as nat, *e),
{
    let mut out: Vec<String> = Vec::new();
    let none: Vec<String> = Vec::new();
    assert(texts(none@) =~= Seq::empty());
    let mut first = concat3("  [", usize_text(number).as_str(), "] scope: ");
    first.append(format_scope(e.groups.as_slice(), none.as_slice()).as_str());
    out.push(first);
    if e.enabled.len() > 0 {
        out.push(concat2("      enabled: ", join_all(e.enabled.as_slice(), ", ").as_str()));
    }
    let ghost head = texts(out@);
    let ghost all = path_lines(e.path@);
    let mut i: usize = 0;
    assert(head + all.take(0) =~= head);
    while i < e.path.len()
        invariant
            i <= e.path@.len(),
            all == path_lines(e.path@),
            texts(out@) == head + all.take(i as int),
        decreases e.path@.len() - i,
    {
        let mut line = concat3("      path: ", e.path[i].path.as_str(), " (");
        line.append(e.path[i].label.as_str());
        line.append(")");
        out.push(line);
        i += 1;
        assert(texts(out@) =~= head + all.take(i as int));
    }
    assert(all.take(i as int) =~= all);
    assert(texts(out@) =~= check_lines(number as nat, *e));
    out
}

/// Writes the lines about the checks.
pub fn check_section_lines(entries: &[&CheckEntry]) -> (r: Vec<String>)
    ensures
        texts(r@) == check_section(pointees(entries@)),
{
    let ghost all = pointees(entries@);
    let mut out: Vec<String> = Vec::new();
    out.push(copy(""));
    out.push(
        concat3("── Applicable Checks (", usize_text(entries.len()).as_str(), ") ──"),
    );
    let ghost head = texts(out@);
    assert(head =~= seq![""@, "── Applicable Checks ("@ + decimal(all.len()) + ") ──"@]);
    if entries.len() == 0 {
        out.push(copy("  (none)"));
        assert(texts(out@) =~= check_section(all));
        return out;
    }
    let mut i: usize = 0;
    assert(head + all_check_lines(all.take(0)) =~= head);
    while i < entries.len()
        invariant
            i <= entries@.len(),
            all == pointees(entries@),
            texts(out@) == head + all_check_lines(all.take(i as int)),
        decreases entries@.len() - i,
    {
        assert(all.take(i + 1).drop_last() =~= all.take(i as int));
        assert(all.take(i + 1).last() == *entries@[i as int]);
        push_lines(&mut out, one_check(i + 1, entries[i]));
        i += 1;
        assert(texts(out@) =~= head + all_check_lines(all.take(i as int)));
    }
    assert(all.take(i as int) =~= all);
    out
}

/// The line about a sync entry.
pub open spec fn sync_line(number: nat, e: SyncEntry) -> Seq<char> {
    "  ["@ + decimal(number) + "] scope: "@ + scope(texts(e.groups@), Seq::empty()) + "  paths: "@
        + join(texts(e.paths@), ", "@)
}

/// The lines about the sync entries.
pub open spec fn sync_section(entries: Seq<SyncEntry>) -> Seq<Seq<char>> {
    seq![""@, "── Applicable Sync Entries ("@ + decimal(entries.len()) + ") ──"@] + (
    if entries.len() == 0 {
        seq!["  (none)"@]
    } else {
        Seq::new(entries.len(), |i: int| sync_line((i + 1) as nat, entries[i]))
    })
}

/// Writes the lines about the sync entries.
pub fn sync_section_lines(entries: &[&SyncEntry]) -> (r: Vec<String>)
    ensures
        texts(r@) == sync_section(pointees(entries@)),
{
    let ghost all = pointees(entries@);
    let ghost rows = Seq::new(all.len(), |i: int| sync_line((i + 1) as nat, all[i]));
    let mut out: Vec<String> = Vec::new();
    out.push(copy(""));
    out.push(
        concat3("── Applicable Sync Entries (", usize_text(entries.len()).as_str(), ") ──"),
    );
    let ghost head = texts(out@);
    assert(head =~= seq![""@, "── Applicable Sync Entries ("@ + decimal(all.len()) + ") ──"@]);
    if entries.len() == 0 {
        out.push(copy("  (none)"));
        assert(texts(out@) =~= sync_section(all));
        return out;
    }
    let none: Vec<String> = Vec::new();
    assert(texts(none@) =~= Seq::empty());
    let mut i: usize = 0;
    assert(head + rows.take(0) =~= head);
    while i < entries.len()
        invariant
            i <= entries@.len(),
            texts(none@) == Seq::<Seq<char>>::empty(),
            all == pointees(entries@),
            rows == Seq::new(all.len(), |i: int| sync_line((i + 1) as nat, all[i])),
            texts(out@) == head + rows.take(i as int),
        decreases entries@.len() - i,
    {
        let e = entries[i];
        let mut line = concat3("  [", usize_text(i + 1).as_str(), "] scope: ");
        line.append(format_scope(e.groups.as_slice(), none.as_slice()).as_str());
        line.append("  paths: ");
        line.append(join_all(e.paths.as_slice(), ", ").as_str());
        out.push(line);
        assert(rows[i as int] == sync_line((i + 1) as nat, *e));
        i += 1;
        assert(texts(out@) =~= head + rows.take(i as int));
    }
    assert(rows.take(i as int) =~= rows);
    out
}

// ---------------------------------------------------------------------------
// Laws
// ---------------------------------------------------------------------------

/// The scope of an entry is told by its groups, else by its hosts, and without either it is
/// global.
pub proof fn scopes_are_told(groups: Seq<Seq<char>>, hosts: Seq<Seq<char>>)
    ensures
        groups.len() > 0 ==> scope(groups, hosts) == "groups=["@ + join(groups, ", "@) + "]"@,
        groups.len() == 0 && hosts.len() > 0 ==> scope(groups, hosts) == "hosts=["@ + join(
            hosts,
            ", "@,
        ) + "]"@,
        groups.len() == 0 && hosts.len() == 0 ==> scope(groups, hosts) == "global"@,
{
}

/// Every host has its row, with its name, where it is reached, its shell and its groups.
pub proof fn every_host_is_listed(hosts: Seq<HostEntry>, i: int)
    requires
        0 <= i < hosts.len(),
    ensures
        host_section(hosts).len() == hosts.len() + 3,
        host_section(hosts)[i + 3] == row(
            hosts[i].name@,
            hosts[i].ssh_host@,
            hosts[i].shell.spec_name(),
            if hosts[i].groups@.len() == 0 {
                "-"@
            } else {
                join(texts(hosts[i].groups@), ", "@)
            },
        ),
{
}

/// Every sync entry that applies has its numbered line.
pub proof fn every_sync_entry_is_listed(entries: Seq<SyncEntry>, i: int)
    requires
        0 <= i < entries.len(),
    ensures
        sync_section(entries).len() == entries.len() + 2,
        sync_section(entries)[i + 2] == "  ["@ + decimal((i + 1) as nat) + "] scope: "@ + scope(
            texts(entries[i].groups@),
            Seq::empty(),
        ) + "  paths: "@ + join(texts(entries[i].paths@), ", "@),
{
}

/// Every check entry that applies has its numbered lines.
pub proof fn every_check_entry_is_listed(entries: Seq<CheckEntry>, i: int)
    requires
        0 <= i < entries.len(),
    ensures
        all_check_lines(entries).contains(
            "  ["@ + decimal((i + 1) as nat) + "] scope: "@ + scope(
                texts(entries[i].groups@),
                Seq::empty(),
            ),
        ),
    decreases entries.len(),
{
    let rest = entries.drop_last();
    let line = "  ["@ + decimal((i + 1) as nat) + "] scope: "@ + scope(
        texts(entries[i].groups@),
        Seq::empty(),
    );
    let before = all_check_lines(rest);
    let all = all_check_lines(entries);
    if i < rest.len() {
        assert(rest[i] == entries[i]);
        every_check_entry_is_listed(rest, i);
        assert(all[before.index_of(line)] == line);
    } else {
        let more = check_lines(entries.len(), entries.last());
        assert(more[0] == line);
        assert(all[before.len() as int] == line);
    }
}

} // verus!
