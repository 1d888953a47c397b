//! The pool of sessions that a command works with.

use vstd::prelude::*;

use crate::config::schema::HostEntry;
use crate::error::Error;
use crate::host::filter::{filter_next, filter_none, pointees};
use crate::order::listed;
use crate::text::texts;

verus! {

/// What an operation on one host came to, and how long it took.
pub struct PoolHostResult<T> {
    pub host_name: String,
    pub result: Result<T, Error>,
    pub elapsed: std::time::Duration,
}

/// The hosts whose name is listed, in their order.
pub open spec fn named(hosts: Seq<HostEntry>, names: Seq<Seq<char>>) -> Seq<HostEntry> {
    hosts.filter(|h: HostEntry| names.contains(h.name@))
}

/// Keeps the hosts that are reachable.
pub fn filter_reachable<'a>(hosts: &[&'a HostEntry], reachable: &[String]) -> (r: Vec<&'a HostEntry>)
    ensures
        pointees(r@) == named(pointees(hosts@), texts(reachable@)),
{
    let ghost all = pointees(hosts@);
    let ghost p = |h: HostEntry| texts(reachable@).contains(h.name@);
    let mut out: Vec<&'a HostEntry> = Vec::new();
    let mut i: usize = 0;
    proof {
        filter_none(all, p);
        assert(pointees(out@) =~= Seq::empty());
    }
    while i < hosts.len()
        invariant
            i <= hosts@.len(),
            all == pointees(hosts@),
            p == (|h: HostEntry| texts(reachable@).contains(h.name@)),
            pointees(out@) == all.take(i as int).filter(p),
        decreases hosts@.len() - i,
    {
        proof {
            filter_next(all, p, i as int);
        }
        let h = hosts[i];
        let ghost before = pointees(out@);
        if listed(reachable, h.name.as_str()) {
            out.push(h);
            assert(pointees(out@) =~= before.push(*h));
        }
        i += 1;
    }
    assert(all.take(i as int) =~= all);
    out
}

/// The hosts whose SSH name is listed, in their order.
pub open spec fn ssh_named(hosts: Seq<HostEntry>, names: Seq<Seq<char>>) -> Seq<HostEntry> {
    hosts.filter(|h: HostEntry| names.contains(h.ssh_host@))
}

/// Keeps the hosts that take files.
pub fn filter_sftp_capable<'a>(hosts: &[&'a HostEntry], capable: &[String]) -> (r: Vec<
    &'a HostEntry,
>)
    ensures
        pointees(r@) == ssh_named(pointees(hosts@), texts(capable@)),
{
    let ghost all = pointees(hosts@);
    let ghost p = |h: HostEntry| texts(capable@).contains(h.ssh_host@);
    let mut out: Vec<&'a HostEntry> = Vec::new();
    let mut i: usize = 0;
    proof {
        filter_none(all, p);
        assert(pointees(out@) =~= Seq::empty());
    }
    while i < hosts.len()
        invariant
            i <= hosts@.len(),
            all == pointees(hosts@),
            p == (|h: HostEntry| texts(capable@).contains(h.ssh_host@)),
            pointees(out@) == all.take(i as int).filter(p),
        decreases hosts@.len() - i,
    {
        proof {
            filter_next(all, p, i as int);
        }
        let h = hosts[i];
        let ghost before = pointees(out@);
        if listed(capable, h.ssh_host.as_str()) {
            out.push(h);
            assert(pointees(out@) =~= before.push(*h));
        }
        i += 1;
    }
    assert(all.take(i as int) =~= all);
    out
}

/// How many hosts are fit for work and how many are not, once `connected` of
/// them can be reached; those that take no files are not fit where files are to
/// be sent.
pub fn host_check_counts(
    total: usize,
    connected: usize,
    sftp_failed: Option<usize>,
) -> (r: (usize, usize))
    requires
        connected <= total,
    ensures
        r.0 == (match sftp_failed {
            Some(f) => if f <= connected {
                connected - f
            } else {
                0
            },
            None => connected as int,
        }),
        r.0 + r.1 == total,
{
    match sftp_failed {
        Some(f) => {
            let ok: usize = if f <= connected {
                connected - f
            } else {
                0
            };
            (ok, total - ok)
        },
        None => (connected, total - connected),
    }
}

// ---------------------------------------------------------------------------
// Laws
// ---------------------------------------------------------------------------

/// The hosts with the given names are taken, in the order of the configuration.
pub proof fn named_hosts_are_taken(hosts: Seq<HostEntry>, names: Seq<Seq<char>>, h: HostEntry)
    ensures
        named(hosts, names).contains(h) <==> hosts.contains(h) && exists|i: int|
            0 <= i < names.len() && #[trigger] names[i] == h.name@,
        ssh_named(hosts, names).contains(h) <==> hosts.contains(h) && exists|i: int|
            0 <= i < names.len() && #[trigger] names[i] == h.ssh_host@,
{
    crate::host::filter::filter_holds(hosts, |h: HostEntry| names.contains(h.name@), h);
    crate::host::filter::filter_holds(hosts, |h: HostEntry| names.contains(h.ssh_host@), h);
}

} // verus!
