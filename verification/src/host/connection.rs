//! The master connections that other calls share, and which hosts they reach.

use vstd::prelude::*;

use crate::error::Error;
use crate::host::filter::{filter_next, filter_none};
use crate::lookup::TextMap;
use crate::order::with_new;
use crate::scan::{trim, trimmed};
use crate::text::{
    chars_of, concat2, concat3, copy, decimal, decimal_text, pair_texts, text_of, text_opt, texts,
    texts_push,
};

verus! {

broadcast use texts_push;

/// The BLAKE3 hash of a text in hexadecimal, as the blake3 crate gives it.
pub uninterp spec fn blake3_hex(s: Seq<char>) -> Seq<char>;

/// `blake3::hash` and `Hash::to_hex`: the hash of the text's bytes, as 64
/// hexadecimal digits.
#[verifier::external_body]
fn hash_of(s: &str) -> (r: String)
    ensures
        r@ == blake3_hex(s@),
        r@.len() == 64,
{
    blake3::hash(s.as_bytes()).to_hex().to_string()
}

/// The state of the connection to a host.
#[derive(Debug)]
pub enum ConnectionState {
    Connected { socket_path: String },
    Failed { error: String },
}

/// The state of a connection, as a value of the specification language.
pub ghost enum StateView {
    Connected(Seq<char>),
    Failed(Seq<char>),
}

impl View for ConnectionState {
    type V = StateView;

    open spec fn view(&self) -> StateView {
        match self {
            ConnectionState::Connected { socket_path } => StateView::Connected(socket_path@),
            ConnectionState::Failed { error } => StateView::Failed(error@),
        }
    }
}

/// The connections to all hosts.
pub struct ConnectionManager {
    pub socket_dir: String,
    pub hosts: TextMap<ConnectionState>,
    /// The name under which `ssh` knows each host.
    pub host_map: TextMap<String>,
    /// Hosts that can be reached but take no files, and why.
    pub scp_failed: TextMap<String>,
}

/// The state of every host.
pub open spec fn states(m: TextMap<ConnectionState>) -> Map<Seq<char>, StateView> {
    m@.map_values(|s: ConnectionState| s@)
}

/// The text of every key.
pub open spec fn text_values(m: TextMap<String>) -> Map<Seq<char>, Seq<char>> {
    m@.map_values(|s: String| s@)
}

/// The name of a host's socket: the beginning of the hash of its name.
pub open spec fn socket_name(host: Seq<char>) -> Seq<char> {
    blake3_hex(host).take(12)
}

/// Where the socket of a host lies.
pub open spec fn socket_at(dir: Seq<char>, host: Seq<char>) -> Seq<char> {
    dir + "/"@ + socket_name(host)
}

fn put_text(m: &mut TextMap<String>, key: &str, value: &str)
    requires
        old(m).wf(),
    ensures
        final(m).wf(),
        text_values(*final(m)) == text_values(*old(m)).insert(key@, value@),
        final(m).keys() == with_new(old(m).keys(), key@),
{
    let ghost before = *m;
    m.insert(copy(key), copy(value));
    assert(text_values(*m) =~= text_values(before).insert(key@, value@));
}

/// The hosts among `keys` that are connected, in their order.
pub open spec fn connected(keys: Seq<Seq<char>>, m: Map<Seq<char>, StateView>) -> Seq<Seq<char>> {
    keys.filter(|k: Seq<char>| m[k] is Connected)
}

/// The hosts among `keys` that are not connected, each with its error.
pub open spec fn refused(keys: Seq<Seq<char>>, m: Map<Seq<char>, StateView>) -> Seq<
    (Seq<char>, Seq<char>),
>
    decreases keys.len(),
{
    if keys.len() == 0 {
        Seq::empty()
    } else {
        let before = refused(keys.drop_last(), m);
        match m[keys.last()] {
            StateView::Failed(e) => before.push((keys.last(), e)),
            StateView::Connected(p) => before,
        }
    }
}

impl ConnectionManager {
    /// Each host has one state, one name and at most one transfer error.
    pub open spec fn wf(&self) -> bool {
        self.hosts.wf() && self.host_map.wf() && self.scp_failed.wf()
    }

    /// No connection yet; the sockets will lie in the given directory.
    pub fn new(socket_dir: String) -> (r: ConnectionManager)
        ensures
            r.wf(),
            r.socket_dir == socket_dir,
            r.hosts.keys().len() == 0,
            r.host_map.keys().len() == 0,
            r.scp_failed.keys().len() == 0,
    {
        ConnectionManager {
            socket_dir,
            hosts: TextMap::new(),
            host_map: TextMap::new(),
            scp_failed: TextMap::new(),
        }
    }

    /// Where the socket of a host lies. The name is short because the length of
    /// a socket's path is limited.
    pub fn socket_path_for(&self, host_name: &str) -> (r: String)
        ensures
            r@ == socket_at(self.socket_dir@, host_name@),
            r@.len() == self.socket_dir@.len() + 13,
    {
        let hash = hash_of(host_name);
        let cs = chars_of(hash.as_str());
        let short = text_of(&cs, 0, 12);
        assert(short@ =~= blake3_hex(host_name@).take(12));
        let r = concat3(self.socket_dir.as_str(), "/", short.as_str());
        proof {
            reveal_strlit("/");
        }
        r
    }

    /// Takes down the outcome of connecting to a host.
    pub fn record(&mut self, name: &str, ssh_host: &str, result: &Result<(), Error>)
        requires
            old(self).wf(),
        ensures
            final(self).wf(),
            final(self).socket_dir == old(self).socket_dir,
            final(self).scp_failed == old(self).scp_failed,
            states(final(self).hosts) == states(old(self).hosts).insert(
                name@,
                match result {
                    Ok(_) => StateView::Connected(socket_at(old(self).socket_dir@, name@)),
                    Err(e) => StateView::Failed(e@),
                },
            ),
            final(self).hosts.keys() == with_new(old(self).hosts.keys(), name@),
            text_values(final(self).host_map) == text_values(old(self).host_map).insert(
                name@,
                ssh_host@,
            ),
    {
        let ghost before = self.hosts;
        let state = match result {
            Ok(_) => ConnectionState::Connected { socket_path: self.socket_path_for(name) },
            Err(e) => ConnectionState::Failed { error: copy(e.message.as_str()) },
        };
        let ghost s = state@;
        self.hosts.insert(copy(name), state);
        assert(states(self.hosts) =~= states(before).insert(name@, s));
        put_text(&mut self.host_map, name, ssh_host);
    }

    /// The socket of a host, where it is connected.
    pub fn socket_for(&self, host_name: &str) -> (r: Option<String>)
        requires
            self.wf(),
        ensures
            text_opt(r) == (if states(self.hosts).dom().contains(host_name@) {
                match states(self.hosts)[host_name@] {
                    StateView::Connected(p) => Some(p),
                    StateView::Failed(e) => None,
                }
            } else {
                None
            }),
    {
        match self.hosts.get(host_name) {
            Some(ConnectionState::Connected { socket_path }) => Some(copy(socket_path.as_str())),
            Some(ConnectionState::Failed { error }) => None,
            None => None,
        }
    }

    /// The state of a host.
    pub fn state(&self, host_name: &str) -> (r: Option<&ConnectionState>)
        requires
            self.wf(),
        ensures
            r is Some <==> self.hosts@.dom().contains(host_name@),
            r matches Some(s) ==> *s == self.hosts@[host_name@],
    {
        self.hosts.get(host_name)
    }

    /// The states of all hosts.
    pub fn all_states(&self) -> (r: &TextMap<ConnectionState>)
        ensures
            *r == self.hosts,
    {
        &self.hosts
    }

    /// The hosts that are connected.
    pub fn reachable_hosts(&self) -> (r: Vec<String>)
        requires
            self.wf(),
        ensures
            texts(r@) == connected(self.hosts.keys(), states(self.hosts)),
    {
        let ghost m = states(self.hosts);
        let ghost p = |k: Seq<char>| m[k] is Connected;
        let ghost all = self.hosts.keys();
        let mut out: Vec<String> = Vec::new();
        let mut i: usize = 0;
        proof {
            filter_none(all, p);
            assert(texts(out@) =~= Seq::empty());
        }
        while i < self.hosts.entries.len()
            invariant
                i <= self.hosts.entries@.len(),
                self.wf(),
                m == states(self.hosts),
                p == (|k: Seq<char>| m[k] is Connected),
                all == self.hosts.keys(),
                texts(out@) == all.take(i as int).filter(p),
            decreases self.hosts.entries@.len() - i,
        {
            proof {
                filter_next(all, p, i as int);
                self.hosts.value_at(i as int);
                assert(all[i as int] == self.hosts.entries@[i as int].0@);
            }
            match &self.hosts.entries[i].1 {
                ConnectionState::Connected { socket_path } => {
                    out.push(copy(self.hosts.entries[i].0.as_str()));
                },
                ConnectionState::Failed { error } => {},
            }
            i += 1;
        }
        assert(all.take(i as int) =~= all);
        out
    }

    /// The hosts that are not connected, each with its error.
    pub fn failed_hosts(&self) -> (r: Vec<(String, String)>)
        requires
            self.wf(),
        ensures
            pair_texts(r@) == refused(
                self.hosts.keys(),
                states(self.hosts),
            ),
    {
        let ghost m = states(self.hosts);
        let ghost all = self.hosts.keys();
        let mut out: Vec<(String, String)> = Vec::new();
        let mut i: usize = 0;
        assert(pair_texts(out@) =~= refused(all.take(0), m));
        while i < self.hosts.entries.len()
            invariant
                i <= self.hosts.entries@.len(),
                self.wf(),
                m == states(self.hosts),
                all == self.hosts.keys(),
                pair_texts(out@) == refused(all.take(i as int), m),
            decreases self.hosts.entries@.len() - i,
        {
            proof {
                assert(all.take(i + 1).drop_last() =~= all.take(i as int));
                self.hosts.value_at(i as int);
                assert(all[i as int] == self.hosts.entries@[i as int].0@);
            }
            let ghost before = pair_texts(out@);
            match &self.hosts.entries[i].1 {
                ConnectionState::Connected { socket_path } => {},
                ConnectionState::Failed { error } => {
                    let name = copy(self.hosts.entries[i].0.as_str());
                    let why = copy(error.as_str());
                    let ghost pair = (name@, why@);
                    out.push((name, why));
                    assert(pair_texts(out@) =~= before.push(pair));
                },
            }
            i += 1;
        }
        assert(all.take(i as int) =~= all);
        out
    }

    /// Takes down that a host takes no files.
    pub fn record_scp_failure(&mut self, name: &str, error: &str)
        requires
            old(self).wf(),
        ensures
            final(self).wf(),
            final(self).socket_dir == old(self).socket_dir,
            final(self).hosts == old(self).hosts,
            final(self).host_map == old(self).host_map,
            text_values(final(self).scp_failed) == text_values(old(self).scp_failed).insert(
                name@,
                error@,
            ),
            final(self).scp_failed.keys() == with_new(old(self).scp_failed.keys(), name@),
    {
        put_text(&mut self.scp_failed, name, error);
    }

    /// The hosts that take no files, each with its error.
    pub fn scp_failed_hosts(&self) -> (r: Vec<(String, String)>)
        requires
            self.wf(),
        ensures
            pair_texts(r@) == Seq::new(
                self.scp_failed.keys().len(),
                |i: int|
                    (
                        self.scp_failed.keys()[i],
                        text_values(self.scp_failed)[self.scp_failed.keys()[i]],
                    ),
            ),
    {
        let ghost keys = self.scp_failed.keys();
        let ghost want = Seq::new(
            keys.len(),
            |i: int| (keys[i], text_values(self.scp_failed)[keys[i]]),
        );
        let mut out: Vec<(String, String)> = Vec::new();
        let mut i: usize = 0;
        while i < self.scp_failed.entries.len()
            invariant
                i <= self.scp_failed.entries@.len(),
                self.wf(),
                keys == self.scp_failed.keys(),
                want == Seq::new(
                    keys.len(),
                    |i: int| (keys[i], text_values(self.scp_failed)[keys[i]]),
                ),
                pair_texts(out@) == want.take(i as int),
            decreases self.scp_failed.entries@.len() - i,
        {
            proof {
                self.scp_failed.value_at(i as int);
                assert(keys[i as int] == self.scp_failed.entries@[i as int].0@);
            }
            let ghost before = pair_texts(out@);
            let name = copy(self.scp_failed.entries[i].0.as_str());
            let why = copy(self.scp_failed.entries[i].1.as_str());
            let ghost pair = (name@, why@);
            out.push((name, why));
            assert(pair_texts(out@) =~= before.push(pair));
            assert(want[i as int] == pair);
            i += 1;
            assert(before.push(pair) =~= want.take(i as int));
        }
        assert(want.take(i as int) =~= want);
        out
    }

    /// The hosts that are connected and take files.
    pub fn scp_capable_hosts(&self) -> (r: Vec<String>)
        requires
            self.wf(),
        ensures
            texts(r@) == connected(self.hosts.keys(), states(self.hosts)).filter(
                |k: Seq<char>| !self.scp_failed.keys().contains(k),
            ),
    {
        let reachable = self.reachable_hosts();
        let ghost all = texts(reachable@);
        let ghost p = |k: Seq<char>| !self.scp_failed.keys().contains(k);
        let mut out: Vec<String> = Vec::new();
        let mut i: usize = 0;
        proof {
            filter_none(all, p);
            assert(texts(out@) =~= Seq::empty());
        }
        while i < reachable.len()
            invariant
                i <= reachable@.len(),
                all == texts(reachable@),
                p == (|k: Seq<char>| !self.scp_failed.keys().contains(k)),
                texts(out@) == all.take(i as int).filter(p),
            decreases reachable@.len() - i,
        {
            proof {
                filter_next(all, p, i as int);
                assert(all[i as int] == reachable@[i as int]@);
            }
            match self.scp_failed.position(reachable[i].as_str()) {
                Some(k) => {
                    assert(self.scp_failed.keys()[k as int] == all[i as int]);
                },
                None => out.push(copy(reachable[i].as_str())),
            }
            i += 1;
        }
        assert(all.take(i as int) =~= all);
        out
    }

    /// The arguments of `ssh` that close the connection to a host, where it is
    /// open. A host without a name of its own is addressed by its key.
    pub fn closing_args(&self, name: &str) -> (r: Option<Vec<String>>)
        requires
            self.wf(),
        ensures
            r is Some <==> states(self.hosts).dom().contains(name@) && states(
                self.hosts,
            )[name@] is Connected,
            r matches Some(args) ==> texts(args@) == seq![
                "-o"@,
                "ControlPath="@ + states(self.hosts)[name@]->Connected_0,
                "-O"@,
                "exit"@,
                if text_values(self.host_map).dom().contains(name@) {
                    text_values(self.host_map)[name@]
                } else {
                    name@
                },
            ],
    {
        match self.socket_for(name) {
            Some(socket) => {
                let ssh_host = match self.host_map.get(name) {
                    Some(h) => copy(h.as_str()),
                    None => copy(name),
                };
                let mut args: Vec<String> = Vec::new();
                args.push(copy("-o"));
                args.push(concat2("ControlPath=", socket.as_str()));
                args.push(copy("-O"));
                args.push(copy("exit"));
                args.push(ssh_host);
                assert(texts(args@) =~= seq![
                    "-o"@,
                    "ControlPath="@ + socket@,
                    "-O"@,
                    "exit"@,
                    ssh_host@,
                ]);
                Some(args)
            },
            None => None,
        }
    }

    /// Forgets all connections.
    pub fn clear(&mut self)
        requires
            old(self).wf(),
        ensures
            final(self).wf(),
            final(self).hosts.keys().len() == 0,
            final(self).socket_dir == old(self).socket_dir,
            final(self).host_map == old(self).host_map,
            final(self).scp_failed == old(self).scp_failed,
    {
        self.hosts = TextMap::new();
    }
}

/// The arguments of `ssh` that open a master connection in the background.
pub open spec fn master_args(ssh_host: Seq<char>, socket: Seq<char>, timeout_secs: nat) -> Seq<
    Seq<char>,
> {
    seq![
        "-o"@,
        "BatchMode=yes"@,
        "-o"@,
        "ConnectTimeout="@ + decimal(timeout_secs),
        "-o"@,
        "ControlMaster=yes"@,
        "-o"@,
        "ControlPath="@ + socket,
        "-o"@,
        "ControlPersist=300"@,
        "-N"@,
        "-f"@,
        ssh_host,
    ]
}

/// Builds the arguments of `ssh` that open a master connection.
pub fn establish_master(ssh_host: &str, socket_path: &str, timeout_secs: u64) -> (r: Vec<String>)
    ensures
        texts(r@) == master_args(ssh_host@, socket_path@, timeout_secs as nat),
{
    let mut args: Vec<String> = Vec::new();
    args.push(copy("-o"));
    args.push(copy("BatchMode=yes"));
    args.push(copy("-o"));
    args.push(concat2("ConnectTimeout=", decimal_text(timeout_secs).as_str()));
    args.push(copy("-o"));
    args.push(copy("ControlMaster=yes"));
    args.push(copy("-o"));
    args.push(concat2("ControlPath=", socket_path));
    args.push(copy("-o"));
    args.push(copy("ControlPersist=300"));
    args.push(copy("-N"));
    args.push(copy("-f"));
    args.push(copy(ssh_host));
    assert(texts(args@) =~= master_args(ssh_host@, socket_path@, timeout_secs as nat));
    args
}

/// What became of opening a master connection.
pub fn master_result(success: bool, stderr: &str) -> (r: Result<(), Error>)
    ensures
        r is Ok <==> success,
        r matches Err(e) ==> e@ == "ControlMaster failed: "@ + trim(stderr@),
{
    if success {
        Ok(())
    } else {
        Err(Error { message: concat2("ControlMaster failed: ", trimmed(stderr).as_str()) })
    }
}

// ---------------------------------------------------------------------------
// Laws
// ---------------------------------------------------------------------------

/// Every host that was tried is either connected or refused, never both: the two
/// lists together are as long as the list of hosts.
pub proof fn connected_or_refused(keys: Seq<Seq<char>>, m: Map<Seq<char>, StateView>)
    ensures
        connected(keys, m).len() + refused(keys, m).len() == keys.len(),
    decreases keys.len(),
{
    let p = |k: Seq<char>| m[k] is Connected;
    if keys.len() == 0 {
        filter_none(keys, p);
        assert(keys.take(0) =~= keys);
    } else {
        connected_or_refused(keys.drop_last(), m);
        filter_next(keys, p, keys.len() - 1);
        assert(keys.take(keys.len() as int) =~= keys);
        assert(keys.take(keys.len() - 1) =~= keys.drop_last());
    }
}

/// The hosts that refused are those whose connection failed, in order, each with its error.
pub proof fn refused_hosts_keep_their_error(
    keys: Seq<Seq<char>>,
    m: Map<Seq<char>, StateView>,
) -> (at: Seq<int>)
    ensures
        forall|i: int, j: int|
            0 <= i < j < at.len() ==> #[trigger] at[i] < #[trigger] at[j],
        forall|k: int| #[trigger] at.contains(k) <==> 0 <= k < keys.len() && m[keys[k]] is Failed,
        refused(keys, m).len() == at.len(),
        forall|i: int|
            0 <= i < at.len() ==> #[trigger] refused(keys, m)[i]
                == (keys[at[i]], m[keys[at[i]]]->Failed_0),
    decreases keys.len(),
{
    if keys.len() == 0 {
        Seq::empty()
    } else {
        let rest = keys.drop_last();
        let n = keys.len() - 1;
        let before = refused_hosts_keep_their_error(rest, m);
        assert forall|i: int| 0 <= i < before.len() implies 0 <= #[trigger] before[i] < n by {
            assert(before.contains(before[i]));
        }
        let keep = m[keys[n]] is Failed;
        let at = if keep {
            before.push(n)
        } else {
            before
        };
        assert forall|k: int| #[trigger] at.contains(k) <==> 0 <= k < keys.len()
            && m[keys[k]] is Failed by {
            assert(before.contains(k) <==> 0 <= k < n && m[rest[k]] is Failed);
            if keep {
                assert(at[before.len() as int] == n);
                if before.contains(k) {
                    assert(at[before.index_of(k)] == k);
                }
                if at.contains(k) && k != n {
                    assert(before[at.index_of(k)] == k);
                }
            }
        }
        assert forall|i: int| 0 <= i < at.len()
            implies #[trigger] refused(keys, m)[i] == (keys[at[i]], m[keys[at[i]]]->Failed_0) by {
            if i < before.len() {
                assert(refused(rest, m)[i] == (rest[before[i]], m[rest[before[i]]]->Failed_0));
            }
        }
        at
    }
}

/// A host is connected where its connection stands.
pub proof fn connected_hosts_have_a_socket(
    keys: Seq<Seq<char>>,
    m: Map<Seq<char>, StateView>,
    h: Seq<char>,
)
    ensures
        connected(keys, m).contains(h) <==> keys.contains(h) && m[h] is Connected,
{
    crate::host::filter::filter_holds(keys, |k: Seq<char>| m[k] is Connected, h);
}

/// The connection that later commands share is opened to the host itself, over the socket
/// and within the time limit that were given.
pub proof fn masters_open_their_socket(ssh_host: Seq<char>, socket: Seq<char>, timeout_secs: nat)
    ensures
        ({
            let args = master_args(ssh_host, socket, timeout_secs);
            let n = args.len() as int;
            &&& args[n - 1] == ssh_host
            &&& exists|i: int|
                0 < i < n && #[trigger] args[i] == "ControlPath="@ + socket && args[i - 1] == "-o"@
            &&& exists|i: int|
                0 < i < n && #[trigger] args[i] == "ConnectTimeout="@ + decimal(timeout_secs)
                    && args[i - 1] == "-o"@
            &&& exists|i: int| 0 < i < n && #[trigger] args[i] == "ControlMaster=yes"@
        }),
{
    let args = master_args(ssh_host, socket, timeout_secs);
    assert(args[7] == "ControlPath="@ + socket && args[6] == "-o"@);
    assert(args[3] == "ConnectTimeout="@ + decimal(timeout_secs) && args[2] == "-o"@);
    assert(args[5] == "ControlMaster=yes"@);
}

/// The socket of a host stands in the directory of the manager, under the start of the hash
/// of its name.
pub proof fn sockets_are_named_by_their_host(dir: Seq<char>, host: Seq<char>)
    ensures
        blake3_hex(host).len() >= 12 ==> {
            &&& socket_at(dir, host).len() == dir.len() + 13
            &&& socket_at(dir, host).take(dir.len() as int) == dir
            &&& socket_at(dir, host)[dir.len() as int] == '/'
            &&& forall|i: int|
                0 <= i < 12 ==> #[trigger] blake3_hex(host)[i] == socket_at(dir, host)[dir.len() + 1
                    + i]
        },
{
    reveal_strlit("/");
    let s = socket_at(dir, host);
    if blake3_hex(host).len() >= 12 {
        assert(s.take(dir.len() as int) =~= dir);
        assert forall|i: int| 0 <= i < 12 implies #[trigger] blake3_hex(host)[i] == s[dir.len() + 1
            + i] by {
            assert(socket_name(host)[i] == blake3_hex(host)[i]);
        }
    }
}

} // verus!
