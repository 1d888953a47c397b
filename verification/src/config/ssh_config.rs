//! The user's SSH configuration: its blocks, and what they say of a host.

use vstd::prelude::*;

use crate::config::paths::{expand_tilde, tilde, PathText, PathView};
use crate::error::Error;
use crate::order::{lowercase, to_lowercase};
use crate::scan::{
    contains_char, find_char, find_white, lines, search_char, search_white, split_lines,
    split_words, trim, trimmed, words,
};
use crate::text::{
    chars_of, copy, copy_opt, parse_unsigned, same, text_of, text_opt, texts, texts_push,
    unsigned_value,
};

verus! {

broadcast use texts_push;

/// What the configuration says of one host.
#[derive(Debug)]
pub struct SshHostEntry {
    pub name: String,
    pub hostname: Option<String>,
    pub user: Option<String>,
    pub port: Option<u16>,
    pub identity_file: Option<String>,
    pub proxy_jump: Option<String>,
    /// Whether only the identity files are to be tried, and no password.
    pub identities_only: Option<bool>,
}

/// The settings of a block, as values of the specification language.
pub ghost struct Settings {
    pub hostname: Option<Seq<char>>,
    pub user: Option<Seq<char>>,
    pub port: Option<u16>,
    pub identity_file: Option<Seq<char>>,
    pub proxy_jump: Option<Seq<char>>,
    pub identities_only: Option<bool>,
}

/// No setting at all.
pub open spec fn unset() -> Settings {
    Settings {
        hostname: None,
        user: None,
        port: None,
        identity_file: None,
        proxy_jump: None,
        identities_only: None,
    }
}

impl SshHostEntry {
    /// The settings of the host.
    pub open spec fn settings(&self) -> Settings {
        Settings {
            hostname: text_opt(self.hostname),
            user: text_opt(self.user),
            port: self.port,
            identity_file: text_opt(self.identity_file),
            proxy_jump: text_opt(self.proxy_jump),
            identities_only: self.identities_only,
        }
    }

    fn unset(name: String) -> (r: SshHostEntry)
        ensures
            r.name == name,
            r.settings() == unset(),
    {
        SshHostEntry {
            name,
            hostname: None,
            user: None,
            port: None,
            identity_file: None,
            proxy_jump: None,
            identities_only: None,
        }
    }

    fn with_name(&self, name: &str) -> (r: SshHostEntry)
        ensures
            r.name@ == name@,
            r.settings() == self.settings(),
    {
        SshHostEntry {
            name: copy(name),
            hostname: copy_opt(&self.hostname),
            user: copy_opt(&self.user),
            port: self.port,
            identity_file: copy_opt(&self.identity_file),
            proxy_jump: copy_opt(&self.proxy_jump),
            identities_only: self.identities_only,
        }
    }
}

// ---------------------------------------------------------------------------
// Lines
// ---------------------------------------------------------------------------

/// The key and the value of a line: parted by the first equals sign, or else by
/// the first white space. Empty lines, comments and single words have none.
pub open spec fn key_value(line: Seq<char>) -> Option<(Seq<char>, Seq<char>)> {
    let t = trim(line);
    let e = find_char(t, '=', 0);
    let w = find_white(t, 0);
    if t.len() == 0 || t[0] == '#' {
        None
    } else if e < t.len() {
        Some((trim(t.take(e)), trim(t.skip(e + 1))))
    } else if w < t.len() {
        Some((trim(t.take(w)), trim(t.skip(w))))
    } else {
        None
    }
}

fn split_key_value(line: &str) -> (r: Option<(String, String)>)
    ensures
        r is Some <==> key_value(line@) is Some,
        r matches Some(p) ==> key_value(line@) == Some((p.0@, p.1@)),
{
    let t = trimmed(line);
    let cs = chars_of(t.as_str());
    if cs.len() == 0 || cs[0] == '#' {
        return None;
    }
    let e: usize = search_char(&cs, '=', 0);
    if e < cs.len() {
        let key = text_of(&cs, 0, e);
        let value = text_of(&cs, e + 1, cs.len());
        assert(key@ =~= t@.take(e as int));
        assert(value@ =~= t@.skip(e + 1));
        return Some((trimmed(key.as_str()), trimmed(value.as_str())));
    }
    let w: usize = search_white(&cs, 0);
    if w < cs.len() {
        let key = text_of(&cs, 0, w);
        let value = text_of(&cs, w, cs.len());
        assert(key@ =~= t@.take(w as int));
        assert(value@ =~= t@.skip(w as int));
        return Some((trimmed(key.as_str()), trimmed(value.as_str())));
    }
    None
}

// ---------------------------------------------------------------------------
// Blocks
// ---------------------------------------------------------------------------

/// One `Host` block: its patterns and its settings.
pub ghost struct BlockView {
    pub names: Seq<Seq<char>>,
    pub settings: Settings,
}

/// A port number, where the text is one.
pub open spec fn port_of(value: Seq<char>) -> Option<u16> {
    match unsigned_value(value, u16::MAX as nat) {
        Some(n) => Some(n as u16),
        None => None,
    }
}

/// Whether the value of a switch turns it on.
pub open spec fn switched_on(value: Seq<char>) -> bool {
    lowercase(value) == "yes"@ || lowercase(value) == "true"@
}

fn is_switched_on(value: &str) -> (r: bool)
    ensures
        r == switched_on(value@),
{
    let v = to_lowercase(value);
    same(v.as_str(), "yes") || same(v.as_str(), "true")
}

/// The settings with one key set. A key that means nothing here changes nothing,
/// and of several proxy hops the first counts.
pub open spec fn with_setting(s: Settings, key: Seq<char>, value: Seq<char>) -> Settings {
    if key == "hostname"@ {
        Settings { hostname: Some(value), ..s }
    } else if key == "user"@ {
        Settings { user: Some(value), ..s }
    } else if key == "port"@ {
        Settings { port: port_of(value), ..s }
    } else if key == "identityfile"@ {
        Settings { identity_file: Some(value), ..s }
    } else if key == "proxyjump"@ {
        Settings { proxy_jump: Some(trim(value.take(find_char(value, ',', 0)))), ..s }
    } else if key == "identitiesonly"@ {
        Settings { identities_only: Some(switched_on(value)), ..s }
    } else {
        s
    }
}

/// The blocks of a configuration. A `Host` line opens one; other settings belong
/// to the block that was opened last, and to none before the first.
pub open spec fn blocks(ls: Seq<Seq<char>>) -> Seq<BlockView>
    decreases ls.len(),
{
    if ls.len() == 0 {
        Seq::empty()
    } else {
        let before = blocks(ls.drop_last());
        match key_value(ls.last()) {
            None => before,
            Some((k, value)) => {
                let key = lowercase(k);
                if key == "host"@ {
                    before.push(BlockView { names: words(value), settings: unset() })
                } else if before.len() == 0 {
                    before
                } else {
                    before.drop_last().push(
                        BlockView {
                            names: before.last().names,
                            settings: with_setting(before.last().settings, key, value),
                        },
                    )
                }
            },
        }
    }
}

struct Block {
    names: Vec<String>,
    entry: SshHostEntry,
}

impl Block {
    spec fn view_of(&self) -> BlockView {
        BlockView { names: texts(self.names@), settings: self.entry.settings() }
    }

    fn set(&mut self, key: &str, value: &str)
        ensures
            final(self).view_of() == (BlockView {
                names: texts(old(self).names@),
                settings: with_setting(old(self).entry.settings(), key@, value@),
            }),
    {
        if same(key, "hostname") {
            self.entry.hostname = Some(copy(value));
        } else if same(key, "user") {
            self.entry.user = Some(copy(value));
        } else if same(key, "port") {
            self.entry.port = match parse_unsigned(value, 65535) {
                Some(n) => Some(n as u16),
                None => None,
            };
        } else if same(key, "identityfile") {
            self.entry.identity_file = Some(copy(value));
        } else if same(key, "proxyjump") {
            let cs = chars_of(value);
            let end: usize = search_char(&cs, ',', 0);
            let hop = text_of(&cs, 0, end);
            assert(hop@ =~= value@.take(end as int));
            self.entry.proxy_jump = Some(trimmed(hop.as_str()));
        } else if same(key, "identitiesonly") {
            self.entry.identities_only = Some(is_switched_on(value));
        }
    }
}

spec fn block_views(list: Seq<Block>) -> Seq<BlockView> {
    Seq::new(list.len(), |i: int| list[i].view_of())
}

fn read_blocks(content: &str) -> (r: Vec<Block>)
    ensures
        block_views(r@) == blocks(lines(content@)),
{
    let ls = split_lines(content);
    let ghost all = texts(ls@);
    let mut out: Vec<Block> = Vec::new();
    let mut i: usize = 0;
    assert(block_views(out@) =~= blocks(all.take(0)));
    while i < ls.len()
        invariant
            i <= ls.len(),
            all == texts(ls@),
            block_views(out@) == blocks(all.take(i as int)),
        decreases ls.len() - i,
    {
        let ghost before = block_views(out@);
        assert(all.take(i + 1).drop_last() =~= all.take(i as int));
        assert(all.take(i + 1).last() == ls@[i as int]@);
        match split_key_value(ls[i].as_str()) {
            Some((k, value)) => {
                let key = to_lowercase(k.as_str());
                if same(key.as_str(), "host") {
                    let b = Block {
                        names: split_words(value.as_str()),
                        entry: SshHostEntry::unset(String::new()),
                    };
                    let ghost v = b.view_of();
                    out.push(b);
                    assert(block_views(out@) =~= before.push(v));
                } else {
                    match out.pop() {
                        Some(last) => {
                            let mut last = last;
                            assert(before.last() == last.view_of());
                            assert(block_views(out@) =~= before.drop_last());
                            last.set(key.as_str(), value.as_str());
                            let ghost v = last.view_of();
                            out.push(last);
                            assert(block_views(out@) =~= before.drop_last().push(v));
                        },
                        None => {},
                    }
                }
            },
            None => {},
        }
        i += 1;
    }
    assert(all.take(i as int) =~= all);
    out
}

// ---------------------------------------------------------------------------
// The configuration
// ---------------------------------------------------------------------------

/// Whether a pattern stands for more than one host.
pub open spec fn wild(name: Seq<char>) -> bool {
    name.contains('*') || name.contains('?')
}

/// Whether a pattern stands for more than one host.
pub fn is_wildcard(name: &str) -> (r: bool)
    ensures
        r == wild(name@),
{
    contains_char(name, '*') || contains_char(name, '?')
}

/// The patterns that stand for one host, in their order.
pub open spec fn plain_names(names: Seq<Seq<char>>) -> Seq<Seq<char>>
    decreases names.len(),
{
    if names.len() == 0 {
        Seq::empty()
    } else {
        let before = plain_names(names.drop_last());
        if wild(names.last()) {
            before
        } else {
            before.push(names.last())
        }
    }
}

/// A parsed SSH configuration.
#[derive(Debug)]
pub struct ParsedSshConfig {
    pub hosts: Vec<SshHostEntry>,
    pub wildcard_defaults: SshHostEntry,
}

/// A parsed SSH configuration as a value of the specification language.
pub ghost struct ConfigView {
    pub hosts: Seq<(Seq<char>, Settings)>,
    pub defaults: Settings,
}

/// The name and the settings of every host of a list.
pub open spec fn host_settings(list: Seq<SshHostEntry>) -> Seq<(Seq<char>, Settings)> {
    Seq::new(list.len(), |i: int| (list[i].name@, list[i].settings()))
}

impl View for ParsedSshConfig {
    type V = ConfigView;

    open spec fn view(&self) -> ConfigView {
        ConfigView {
            hosts: host_settings(self.hosts@),
            defaults: self.wildcard_defaults.settings(),
        }
    }
}

/// The first of two optional values that is there.
pub open spec fn first_of<T>(a: Option<T>, b: Option<T>) -> Option<T> {
    if a is Some {
        a
    } else {
        b
    }
}

/// For every setting the first of two values that is there.
pub open spec fn merged(a: Settings, b: Settings) -> Settings {
    Settings {
        hostname: first_of(a.hostname, b.hostname),
        user: first_of(a.user, b.user),
        port: first_of(a.port, b.port),
        identity_file: first_of(a.identity_file, b.identity_file),
        proxy_jump: first_of(a.proxy_jump, b.proxy_jump),
        identities_only: first_of(a.identities_only, b.identities_only),
    }
}

/// What a row of blocks amounts to: a block of wildcards only adds to the
/// defaults what they lack; any other block gives each of its plain names the
/// settings of the block.
pub open spec fn configured(bs: Seq<BlockView>) -> ConfigView
    decreases bs.len(),
{
    if bs.len() == 0 {
        ConfigView { hosts: Seq::empty(), defaults: unset() }
    } else {
        let before = configured(bs.drop_last());
        let b = bs.last();
        let names = plain_names(b.names);
        if names.len() == 0 {
            ConfigView { defaults: merged(before.defaults, b.settings), ..before }
        } else {
            ConfigView {
                hosts: before.hosts + Seq::new(names.len(), |i: int| (names[i], b.settings)),
                ..before
            }
        }
    }
}

/// What a configuration file says.
pub open spec fn parsed(content: Seq<char>) -> ConfigView {
    configured(blocks(lines(content)))
}

fn list_plain_names(names: &Vec<String>) -> (r: Vec<String>)
    ensures
        texts(r@) == plain_names(texts(names@)),
{
    let ghost all = texts(names@);
    let mut out: Vec<String> = Vec::new();
    let mut i: usize = 0;
    assert(texts(out@) =~= plain_names(all.take(0)));
    while i < names.len()
        invariant
            i <= names.len(),
            all == texts(names@),
            texts(out@) == plain_names(all.take(i as int)),
        decreases names.len() - i,
    {
        assert(all.take(i + 1).drop_last() =~= all.take(i as int));
        assert(all.take(i + 1).last() == names@[i as int]@);
        if !is_wildcard(names[i].as_str()) {
            out.push(copy(names[i].as_str()));
        }
        i += 1;
    }
    assert(all.take(i as int) =~= all);
    out
}

fn first_text(a: &mut Option<String>, b: Option<String>)
    ensures
        text_opt(*final(a)) == first_of(text_opt(*old(a)), text_opt(b)),
{
    if a.is_none() {
        *a = b;
    }
}

fn merge(d: &mut SshHostEntry, b: SshHostEntry)
    ensures
        final(d).settings() == merged(old(d).settings(), b.settings()),
{
    first_text(&mut d.hostname, b.hostname);
    first_text(&mut d.user, b.user);
    if d.port.is_none() {
        d.port = b.port;
    }
    first_text(&mut d.identity_file, b.identity_file);
    first_text(&mut d.proxy_jump, b.proxy_jump);
    if d.identities_only.is_none() {
        d.identities_only = b.identities_only;
    }
}

fn add_hosts(hosts: &mut Vec<SshHostEntry>, names: &Vec<String>, entry: &SshHostEntry)
    ensures
        host_settings(final(hosts)@) == host_settings(old(hosts)@) + Seq::new(
            names@.len(),
            |i: int| (names@[i]@, entry.settings()),
        ),
{
    let ghost start = host_settings(hosts@);
    let ghost more = Seq::new(names@.len(), |i: int| (names@[i]@, entry.settings()));
    let mut i: usize = 0;
    assert(start + more.take(0) =~= start);
    while i < names.len()
        invariant
            i <= names.len(),
            more == Seq::new(names@.len(), |i: int| (names@[i]@, entry.settings())),
            host_settings(hosts@) == start + more.take(i as int),
        decreases names.len() - i,
    {
        let ghost before = host_settings(hosts@);
        let e = entry.with_name(names[i].as_str());
        let ghost v = (e.name@, e.settings());
        hosts.push(e);
        assert(host_settings(hosts@) =~= before.push(v));
        assert(more[i as int] == v);
        i += 1;
        assert(before.push(v) =~= start + more.take(i as int));
    }
    assert(more.take(i as int) =~= more);
}

/// Parses a configuration file.
pub fn parse_ssh_config_content(content: &str) -> (r: Result<ParsedSshConfig, Error>)
    ensures
        r matches Ok(c) && c@ == parsed(content@),
{
    let found = read_blocks(content);
    let ghost all = block_views(found@);
    let mut hosts: Vec<SshHostEntry> = Vec::new();
    let mut defaults = SshHostEntry::unset(String::new());
    let mut i: usize = 0;
    assert(host_settings(hosts@) =~= configured(all.take(0)).hosts);
    while i < found.len()
        invariant
            i <= found.len(),
            all == block_views(found@),
            host_settings(hosts@) == configured(all.take(i as int)).hosts,
            defaults.settings() == configured(all.take(i as int)).defaults,
        decreases found.len() - i,
    {
        assert(all.take(i + 1).drop_last() =~= all.take(i as int));
        assert(all.take(i + 1).last() == found@[i as int].view_of());
        let names = list_plain_names(&found[i].names);
        assert(texts(names@).len() == names@.len());
        if names.len() == 0 {
            merge(&mut defaults, found[i].entry.with_name(""));
        } else {
            add_hosts(&mut hosts, &names, &found[i].entry);
            let ghost b = found@[i as int].view_of();
            let ghost plain = plain_names(b.names);
            assert(Seq::new(names@.len(), |j: int| (names@[j]@, b.settings)) =~= Seq::new(
                plain.len(),
                |j: int| (plain[j], b.settings),
            ));
        }
        i += 1;
    }
    assert(all.take(i as int) =~= all);
    Ok(ParsedSshConfig { hosts, wildcard_defaults: defaults })
}

// ---------------------------------------------------------------------------
// Asking for a host
// ---------------------------------------------------------------------------

/// How to reach a host.
#[derive(Debug)]
pub struct ResolvedHostConfig {
    pub alias: String,
    pub hostname: String,
    pub port: u16,
    pub user: String,
    /// The identity files to try, in this order.
    pub identity_files: Vec<PathText>,
    /// The first hop on the way; none for a direct connection.
    pub proxy_jump: Option<String>,
    /// Whether `IdentitiesOnly` is set: no password is asked for.
    pub identities_only: bool,
}

/// Where a host first stands in the list; the length where it does not.
pub open spec fn find_host(hosts: Seq<(Seq<char>, Settings)>, alias: Seq<char>, from: int) -> int
    decreases hosts.len() - from,
{
    if from < 0 || from >= hosts.len() {
        hosts.len() as int
    } else if hosts[from].0 == alias {
        from
    } else {
        find_host(hosts, alias, from + 1)
    }
}

/// What holds for a host: its own settings, and the defaults for the rest.
pub open spec fn effective(c: ConfigView, alias: Seq<char>) -> Settings {
    let i = find_host(c.hosts, alias, 0);
    if i < c.hosts.len() {
        merged(c.hosts[i].1, c.defaults)
    } else {
        c.defaults
    }
}

/// The paths of a list, as values of the specification language.
pub open spec fn path_views(list: Seq<PathText>) -> Seq<PathView> {
    Seq::new(list.len(), |i: int| list[i]@)
}

/// Whether a resolved host says what its settings say: the alias stands in for a
/// missing host name, the login name for a missing user and 22 for a missing
/// port.
pub open spec fn resolves(
    r: ResolvedHostConfig,
    alias: Seq<char>,
    s: Settings,
    login: Seq<char>,
) -> bool {
    &&& r.alias@ == alias
    &&& r.hostname@ == (match s.hostname {
        Some(h) => h,
        None => alias,
    })
    &&& r.user@ == (match s.user {
        Some(u) => u,
        None => login,
    })
    &&& r.port == (match s.port {
        Some(p) => p,
        None => 22u16,
    })
    &&& path_views(r.identity_files@) == (match s.identity_file {
        Some(f) => seq![tilde(f)],
        None => Seq::empty(),
    })
    &&& text_opt(r.proxy_jump) == s.proxy_jump
    &&& r.identities_only == (s.identities_only == Some(true))
}

fn text_or(a: &Option<String>, b: &Option<String>) -> (r: Option<String>)
    ensures
        text_opt(r) == first_of(text_opt(*a), text_opt(*b)),
{
    match a {
        Some(t) => Some(copy(t.as_str())),
        None => copy_opt(b),
    }
}

/// `whoami::username`: the login name of the current user. The name comes from
/// the system, so nothing is said of it.
#[verifier::external_body]
fn login_name() -> (r: String) {
    whoami::username()
}

impl ParsedSshConfig {
    fn settings_for(&self, alias: &str) -> (r: SshHostEntry)
        ensures
            r.name@ == alias@,
            r.settings() == effective(self@, alias@),
    {
        let ghost all = self@.hosts;
        let d = &self.wildcard_defaults;
        let mut i: usize = 0;
        while i < self.hosts.len()
            invariant
                i <= self.hosts.len(),
                all == self@.hosts,
                *d == self.wildcard_defaults,
                find_host(all, alias@, 0) == find_host(all, alias@, i as int),
            decreases self.hosts.len() - i,
        {
            let h = &self.hosts[i];
            assert(all[i as int] == (h.name@, h.settings()));
            if same(h.name.as_str(), alias) {
                return SshHostEntry {
                    name: copy(alias),
                    hostname: text_or(&h.hostname, &d.hostname),
                    user: text_or(&h.user, &d.user),
                    port: if h.port.is_some() {
                        h.port
                    } else {
                        d.port
                    },
                    identity_file: text_or(&h.identity_file, &d.identity_file),
                    proxy_jump: text_or(&h.proxy_jump, &d.proxy_jump),
                    identities_only: if h.identities_only.is_some() {
                        h.identities_only
                    } else {
                        d.identities_only
                    },
                };
            }
            i += 1;
        }
        d.with_name(alias)
    }

    /// How to reach a host, for a user with a given login name.
    pub fn query_as(&self, alias: &str, login: &str) -> (r: ResolvedHostConfig)
        ensures
            resolves(r, alias@, effective(self@, alias@), login@),
    {
        let s = self.settings_for(alias);
        let mut identity_files: Vec<PathText> = Vec::new();
        assert(path_views(identity_files@) =~= Seq::empty());
        match &s.identity_file {
            Some(f) => {
                identity_files.push(expand_tilde(f.as_str()));
                assert(path_views(identity_files@) =~= seq![tilde(f@)]);
            },
            None => {},
        }
        ResolvedHostConfig {
            alias: copy(alias),
            hostname: match s.hostname {
                Some(h) => h,
                None => copy(alias),
            },
            port: match s.port {
                Some(p) => p,
                None => 22,
            },
            user: match s.user {
                Some(u) => u,
                None => copy(login),
            },
            identity_files,
            proxy_jump: s.proxy_jump,
            identities_only: match s.identities_only {
                Some(only) => only,
                None => false,
            },
        }
    }

    /// How to reach a host. Where the configuration names no user it is the
    /// current one.
    pub fn query(&self, alias: &str) -> (r: ResolvedHostConfig)
        ensures
            exists|login: Seq<char>| #[trigger] resolves(
                r,
                alias@,
                effective(self@, alias@),
                login,
            ),
    {
        let login = login_name();
        self.query_as(alias, login.as_str())
    }
}

impl Default for ParsedSshConfig {
    /// The configuration of a user who has no configuration file.
    fn default() -> (r: ParsedSshConfig)
        ensures
            r@ == (ConfigView { hosts: Seq::empty(), defaults: unset() }),
    {
        let r = ParsedSshConfig {
            hosts: Vec::new(),
            wildcard_defaults: SshHostEntry::unset(String::new()),
        };
        assert(host_settings(r.hosts@) =~= Seq::empty());
        r
    }
}

/// How to reach a host, by a configuration that was read before.
pub fn resolve_host_with_config(alias: &str, config: &ParsedSshConfig) -> (r: Result<
    ResolvedHostConfig,
    Error,
>)
    ensures
        r matches Ok(c) && exists|login: Seq<char>| #[trigger] resolves(
            c,
            alias@,
            effective(config@, alias@),
            login,
        ),
{
    Ok(config.query(alias))
}

// ---------------------------------------------------------------------------
// Laws
// ---------------------------------------------------------------------------

/// A setting that a host has itself is never replaced by a default, and one that
/// it lacks is taken from the defaults.
pub proof fn own_settings_win(c: ConfigView, alias: Seq<char>)
    ensures
        ({
            let i = find_host(c.hosts, alias, 0);
            let e = effective(c, alias);
            i < c.hosts.len() ==> {
                let own = c.hosts[i].1;
                &&& own.hostname is Some ==> e.hostname == own.hostname
                &&& own.hostname is None ==> e.hostname == c.defaults.hostname
                &&& own.user is Some ==> e.user == own.user
                &&& own.user is None ==> e.user == c.defaults.user
                &&& own.port is Some ==> e.port == own.port
                &&& own.port is None ==> e.port == c.defaults.port
                &&& own.identity_file is Some ==> e.identity_file == own.identity_file
                &&& own.identity_file is None ==> e.identity_file == c.defaults.identity_file
                &&& own.proxy_jump is Some ==> e.proxy_jump == own.proxy_jump
                &&& own.proxy_jump is None ==> e.proxy_jump == c.defaults.proxy_jump
            }
        }),
{
}

proof fn plain_names_are_plain(names: Seq<Seq<char>>)
    ensures
        forall|i: int| 0 <= i < plain_names(names).len() ==> !wild(#[trigger] plain_names(names)[i]),
    decreases names.len(),
{
    if names.len() > 0 {
        let before = plain_names(names.drop_last());
        plain_names_are_plain(names.drop_last());
        assert forall|i: int| 0 <= i < plain_names(names).len() implies !wild(
            #[trigger] plain_names(names)[i],
        ) by {
            if i < before.len() {
                assert(plain_names(names)[i] == before[i]);
            }
        }
    }
}

/// No wildcard pattern ends up in the list of hosts.
pub proof fn hosts_are_no_wildcards(bs: Seq<BlockView>)
    ensures
        forall|i: int|
            0 <= i < configured(bs).hosts.len() ==> !wild((#[trigger] configured(bs).hosts[i]).0),
    decreases bs.len(),
{
    if bs.len() > 0 {
        hosts_are_no_wildcards(bs.drop_last());
        plain_names_are_plain(bs.last().names);
        let before = configured(bs.drop_last());
        let names = plain_names(bs.last().names);
        let all = configured(bs).hosts;
        assert forall|i: int| 0 <= i < all.len() implies !wild((#[trigger] all[i]).0) by {
            if i < before.hosts.len() {
                assert(all[i] == before.hosts[i]);
            } else {
                assert(all[i].0 == names[i - before.hosts.len()]);
            }
        }
    }
}

/// A host that the configuration does not mention, where it has no defaults, is
/// reached under its alias at the standard port and without a proxy.
pub proof fn unknown_hosts_are_reached_by_alias(
    r: ResolvedHostConfig,
    c: ConfigView,
    alias: Seq<char>,
    login: Seq<char>,
)
    requires
        resolves(r, alias, effective(c, alias), login),
        find_host(c.hosts, alias, 0) == c.hosts.len(),
        c.defaults == unset(),
    ensures
        r.hostname@ == alias,
        r.port == 22,
        r.user@ == login,
        r.identity_files@.len() == 0,
        r.proxy_jump is None,
{
    assert(path_views(r.identity_files@).len() == 0);
}

proof fn keys_differ()
    ensures
        "hostname"@ != "host"@ && "user"@ != "host"@ && "port"@ != "host"@
            && "identityfile"@ != "host"@
            && "proxyjump"@ != "host"@ && "identitiesonly"@ != "host"@,
        "hostname"@ != "user"@ && "hostname"@ != "port"@ && "hostname"@ != "identityfile"@
            && "hostname"@
            != "proxyjump"@ && "hostname"@ != "identitiesonly"@,
        "user"@ != "port"@ && "user"@ != "identityfile"@ && "user"@ != "proxyjump"@ && "user"@
            != "identitiesonly"@,
        "port"@ != "identityfile"@ && "port"@ != "proxyjump"@ && "port"@ != "identitiesonly"@,
        "identityfile"@ != "proxyjump"@ && "identityfile"@ != "identitiesonly"@,
        "proxyjump"@ != "identitiesonly"@,
{
    reveal_strlit("host");
    reveal_strlit("hostname");
    reveal_strlit("user");
    reveal_strlit("port");
    reveal_strlit("identityfile");
    reveal_strlit("proxyjump");
    reveal_strlit("identitiesonly");
    assert("host"@.len() == 4 && "hostname"@.len() == 8 && "user"@.len() == 4
        && "port"@.len() == 4);
    assert("identityfile"@.len() == 12 && "proxyjump"@.len() == 9 && "identitiesonly"@.len() == 14);
    assert("host"@[0] == 'h' && "user"@[0] == 'u' && "port"@[0] == 'p');
}

/// Whether a line sets a key.
pub open spec fn sets(line: Seq<char>, key: Seq<char>) -> bool {
    key_value(line) matches Some((k, _)) && lowercase(k) == key
}

/// What a line sets its key to.
pub open spec fn value_of(line: Seq<char>) -> Seq<char> {
    match key_value(line) {
        Some((_, value)) => value,
        None => Seq::empty(),
    }
}

/// A `Host` line begins a block, and the lines after it belong to that block.
pub proof fn host_lines_begin_blocks(ls: Seq<Seq<char>>, k: int)
    requires
        0 <= k < ls.len(),
        sets(ls[k], "host"@),
        forall|i: int| k < i < ls.len() ==> !sets(#[trigger] ls[i], "host"@),
    ensures
        blocks(ls).len() == blocks(ls.take(k)).len() + 1,
        blocks(ls).drop_last() == blocks(ls.take(k)),
        blocks(ls).last().names == words(value_of(ls[k])),
    decreases ls.len(),
{
    let rest = ls.drop_last();
    if k < ls.len() - 1 {
        assert(rest[k] == ls[k]);
        assert(!sets(ls[ls.len() - 1], "host"@));
        assert forall|i: int| k < i < rest.len() implies !sets(#[trigger] rest[i], "host"@) by {
            assert(rest[i] == ls[i]);
        }
        host_lines_begin_blocks(rest, k);
        assert(rest.take(k) =~= ls.take(k));
        assert(blocks(ls).drop_last() =~= blocks(rest).drop_last());
    } else {
        assert(ls.take(k) =~= rest);
        assert(blocks(ls).drop_last() =~= blocks(rest));
    }
}

/// A line in front of every `Host` line belongs to no block.
pub proof fn lines_before_hosts_are_left_out(ls: Seq<Seq<char>>)
    requires
        forall|i: int| 0 <= i < ls.len() ==> !sets(#[trigger] ls[i], "host"@),
    ensures
        blocks(ls).len() == 0,
    decreases ls.len(),
{
    if ls.len() > 0 {
        let rest = ls.drop_last();
        assert forall|i: int| 0 <= i < rest.len() implies !sets(#[trigger] rest[i], "host"@) by {
            assert(rest[i] == ls[i]);
        }
        lines_before_hosts_are_left_out(rest);
        assert(!sets(ls[ls.len() - 1], "host"@));
    }
}

/// The last line of a block that sets a key decides on it.
pub proof fn the_last_line_of_a_key_counts(ls: Seq<Seq<char>>, k: int, j: int, key: Seq<char>)
    requires
        0 <= k < j < ls.len(),
        sets(ls[k], "host"@),
        forall|i: int| k < i < ls.len() ==> !sets(#[trigger] ls[i], "host"@),
        sets(ls[j], key),
        forall|i: int| j < i < ls.len() ==> !sets(#[trigger] ls[i], key),
    ensures
        ({
            let s = blocks(ls).last().settings;
            let value = value_of(ls[j]);
            &&& blocks(ls).len() > 0
            &&& key == "hostname"@ ==> s.hostname == Some(value)
            &&& key == "user"@ ==> s.user == Some(value)
            &&& key == "port"@ ==> s.port == port_of(value)
            &&& key == "identityfile"@ ==> s.identity_file == Some(value)
            &&& key == "proxyjump"@ && !value.contains(',') ==> s.proxy_jump == Some(trim(value))
            &&& key == "proxyjump"@ ==> forall|hop: Seq<char>, more: Seq<char>|
                !hop.contains(',') && value == #[trigger] (hop + seq![','] + more) ==> s.proxy_jump
                    == Some(trim(hop))
            &&& key == "identitiesonly"@ ==> s.identities_only == Some(
                lowercase(value) == "yes"@ || lowercase(value) == "true"@,
            )
        }),
    decreases ls.len(),
{
    keys_differ();
    let rest = ls.drop_last();
    let n = ls.len() - 1;
    assert(!sets(ls[n], "host"@));
    host_lines_begin_blocks(ls, k);
    if k < n {
        assert(rest[k] == ls[k]);
        assert forall|i: int| k < i < rest.len() implies !sets(#[trigger] rest[i], "host"@) by {
            assert(rest[i] == ls[i]);
        }
        host_lines_begin_blocks(rest, k);
    }
    if j < n {
        assert(rest[j] == ls[j]);
        assert forall|i: int| j < i < rest.len() implies !sets(#[trigger] rest[i], key) by {
            assert(rest[i] == ls[i]);
        }
        assert(!sets(ls[n], key));
        the_last_line_of_a_key_counts(rest, k, j, key);
    } else {
        let value = value_of(ls[j]);
        crate::scan::find_char_facts(value, ',', 0);
        let c = find_char(value, ',', 0);
        if !value.contains(',') {
            if c < value.len() {
                assert(value.contains(value[c]));
            }
            assert(value.take(c) =~= value);
        }
        assert forall|hop: Seq<char>, more: Seq<char>|
            !hop.contains(',') && value == #[trigger] (hop + seq![','] + more) implies value.take(c)
            == hop by {
            assert(value[hop.len() as int] == ',');
            if c < hop.len() {
                assert(hop.contains(value[c]));
            }
            assert(value.take(c) =~= hop);
        }
    }
}

/// A key that no line of a block sets is not set there.
pub proof fn keys_without_a_line_are_unset(ls: Seq<Seq<char>>, k: int, key: Seq<char>)
    requires
        0 <= k < ls.len(),
        sets(ls[k], "host"@),
        forall|i: int| k < i < ls.len() ==> !sets(#[trigger] ls[i], "host"@) && !sets(ls[i], key),
    ensures
        ({
            let s = blocks(ls).last().settings;
            &&& key == "hostname"@ ==> s.hostname is None
            &&& key == "user"@ ==> s.user is None
            &&& key == "port"@ ==> s.port is None
            &&& key == "identityfile"@ ==> s.identity_file is None
            &&& key == "proxyjump"@ ==> s.proxy_jump is None
            &&& key == "identitiesonly"@ ==> s.identities_only is None
        }),
    decreases ls.len(),
{
    keys_differ();
    let rest = ls.drop_last();
    let n = ls.len() - 1;
    if k < n {
        assert(!sets(ls[n], "host"@) && !sets(ls[n], key));
        assert(rest[k] == ls[k]);
        assert forall|i: int| k < i < rest.len() implies !sets(#[trigger] rest[i], "host"@)
            && !sets(
            rest[i],
            key,
        ) by {
            assert(rest[i] == ls[i]);
        }
        host_lines_begin_blocks(rest, k);
        keys_without_a_line_are_unset(rest, k, key);
    }
}

/// The hosts of a block are its names without wildcards, in order.
pub proof fn names_without_wildcards_are_hosts(names: Seq<Seq<char>>) -> (at: Seq<int>)
    ensures
        forall|i: int, j: int|
            0 <= i < j < at.len() ==> #[trigger] at[i] < #[trigger] at[j],
        forall|k: int| #[trigger] at.contains(k) <==> 0 <= k < names.len()
            && !(names[k].contains('*') || names[k].contains('?')),
        plain_names(names).len() == at.len(),
        forall|i: int|
            0 <= i < at.len() ==> #[trigger] plain_names(names)[i] == names[at[i]],
    decreases names.len(),
{
    if names.len() == 0 {
        Seq::empty()
    } else {
        let rest = names.drop_last();
        let n = names.len() - 1;
        let before = names_without_wildcards_are_hosts(rest);
        assert forall|i: int| 0 <= i < before.len() implies 0 <= #[trigger] before[i] < n by {
            assert(before.contains(before[i]));
        }
        let keep = !(names[n].contains('*') || names[n].contains('?'));
        let at = if keep {
            before.push(n)
        } else {
            before
        };
        assert forall|k: int| #[trigger] at.contains(k) <==> 0 <= k < names.len()
            && !(names[k].contains('*') || names[k].contains('?')) by {
            assert(before.contains(k) <==> 0 <= k < n
                && !(rest[k].contains('*') || rest[k].contains('?')));
            if keep {
                assert(at[before.len() as int] == n);
                if before.contains(k) {
                    assert(at[before.index_of(k)] == k);
                }
                if at.contains(k) && k != n {
                    assert(before[at.index_of(k)] == k);
                }
            }
        }
        assert forall|i: int| 0 <= i < at.len()
            implies #[trigger] plain_names(names)[i] == names[at[i]] by {
            if i < before.len() {
                assert(plain_names(rest)[i] == rest[before[i]]);
            }
        }
        at
    }
}

/// Every name without a wildcard has the settings of its block, and there are no other
/// hosts.
pub proof fn hosts_have_the_settings_of_their_block(
    bs: Seq<BlockView>,
    name: Seq<char>,
    s: Settings,
)
    ensures
        configured(bs).hosts.contains((name, s)) <==> exists|k: int|
            0 <= k < bs.len() && (#[trigger] bs[k]).names.contains(name) && !wild(name)
                && bs[k].settings == s,
    decreases bs.len(),
{
    if bs.len() > 0 {
        let rest = bs.drop_last();
        let n = bs.len() - 1;
        let b = bs.last();
        let names = plain_names(b.names);
        hosts_have_the_settings_of_their_block(rest, name, s);
        let at = names_without_wildcards_are_hosts(b.names);
        let before = configured(rest).hosts;
        let more = Seq::new(names.len(), |i: int| (names[i], b.settings));
        let all = configured(bs).hosts;
        let x = (name, s);
        assert(all =~= before + more);
        assert(bs[n] == b);
        if before.contains(x) {
            assert(all[before.index_of(x)] == x);
            let k = choose|k: int|
                0 <= k < rest.len() && (#[trigger] rest[k]).names.contains(name) && !wild(name)
                    && rest[k].settings == s;
            assert(bs[k] == rest[k]);
        }
        if b.names.contains(name) && !wild(name) && b.settings == s {
            let i = b.names.index_of(name);
            assert(at.contains(i));
            let j = at.index_of(i);
            assert(names[j] == name);
            assert(more[j] == x);
            assert(all[before.len() + j] == x);
        }
        if all.contains(x) {
            let i = all.index_of(x);
            if i < before.len() {
                assert(before[i] == x);
            } else {
                let j = i - before.len();
                assert(more[j] == x);
                assert(names[j] == name);
                assert(at.contains(at[j]));
                assert(names[j] == b.names[at[j]]);
            }
        }
        if exists|k: int|
            0 <= k < bs.len() && (#[trigger] bs[k]).names.contains(name) && !wild(name)
                && bs[k].settings == s {
            let k = choose|k: int|
                0 <= k < bs.len() && (#[trigger] bs[k]).names.contains(name) && !wild(name)
                    && bs[k].settings == s;
            if k < n {
                assert(rest[k] == bs[k]);
            }
        }
    }
}

/// Whether a block has wildcard names alone.
pub open spec fn all_wild(b: BlockView) -> bool {
    forall|i: int| 0 <= i < b.names.len() ==> wild(#[trigger] b.names[i])
}

proof fn wild_blocks_have_no_hosts(b: BlockView)
    ensures
        all_wild(b) <==> plain_names(b.names).len() == 0,
{
    let at = names_without_wildcards_are_hosts(b.names);
    if all_wild(b) {
        if at.len() > 0 {
            assert(at.contains(at[0]));
            assert(wild(b.names[at[0]]));
        }
    } else {
        let i = choose|i: int| 0 <= i < b.names.len() && !wild(#[trigger] b.names[i]);
        assert(at.contains(i));
    }
}

/// A setting for all hosts is that of the first block with wildcards alone that has it.
pub proof fn defaults_come_from_the_first_wildcard_block(bs: Seq<BlockView>, k: int)
    requires
        0 <= k < bs.len(),
        all_wild(bs[k]),
    ensures
        bs[k].settings.hostname is Some && (forall|i: int|
            0 <= i < k && all_wild(#[trigger] bs[i]) ==> bs[i].settings.hostname is None)
            ==> configured(bs).defaults.hostname == bs[k].settings.hostname,
        bs[k].settings.user is Some && (forall|i: int|
            0 <= i < k && all_wild(#[trigger] bs[i]) ==> bs[i].settings.user is None)
            ==> configured(bs).defaults.user == bs[k].settings.user,
        bs[k].settings.port is Some && (forall|i: int|
            0 <= i < k && all_wild(#[trigger] bs[i]) ==> bs[i].settings.port is None)
            ==> configured(bs).defaults.port == bs[k].settings.port,
        bs[k].settings.identity_file is Some && (forall|i: int|
            0 <= i < k && all_wild(#[trigger] bs[i]) ==> bs[i].settings.identity_file is None)
            ==> configured(bs).defaults.identity_file == bs[k].settings.identity_file,
        bs[k].settings.proxy_jump is Some && (forall|i: int|
            0 <= i < k && all_wild(#[trigger] bs[i]) ==> bs[i].settings.proxy_jump is None)
            ==> configured(bs).defaults.proxy_jump == bs[k].settings.proxy_jump,
        bs[k].settings.identities_only is Some && (forall|i: int|
            0 <= i < k && all_wild(#[trigger] bs[i]) ==> bs[i].settings.identities_only is None)
            ==> configured(bs).defaults.identities_only == bs[k].settings.identities_only,
    decreases bs.len(),
{
    let rest = bs.drop_last();
    let n = bs.len() - 1;
    wild_blocks_have_no_hosts(bs[n]);
    if k < n {
        assert(rest[k] == bs[k]);
        if forall|i: int| 0 <= i < k && all_wild(#[trigger] bs[i])
            ==> bs[i].settings.hostname is None {
            assert forall|i: int| 0 <= i < k && all_wild(#[trigger] rest[i])
                implies rest[i].settings.hostname is None by {
                assert(rest[i] == bs[i]);
            }
        }
        if forall|i: int| 0 <= i < k && all_wild(#[trigger] bs[i]) ==> bs[i].settings.user is None {
            assert forall|i: int| 0 <= i < k && all_wild(#[trigger] rest[i])
                implies rest[i].settings.user is None by {
                assert(rest[i] == bs[i]);
            }
        }
        if forall|i: int| 0 <= i < k && all_wild(#[trigger] bs[i]) ==> bs[i].settings.port is None {
            assert forall|i: int| 0 <= i < k && all_wild(#[trigger] rest[i])
                implies rest[i].settings.port is None by {
                assert(rest[i] == bs[i]);
            }
        }
        if forall|i: int| 0 <= i < k && all_wild(#[trigger] bs[i])
            ==> bs[i].settings.identity_file is None {
            assert forall|i: int| 0 <= i < k && all_wild(#[trigger] rest[i])
                implies rest[i].settings.identity_file is None by {
                assert(rest[i] == bs[i]);
            }
        }
        if forall|i: int| 0 <= i < k && all_wild(#[trigger] bs[i])
            ==> bs[i].settings.proxy_jump is None {
            assert forall|i: int| 0 <= i < k && all_wild(#[trigger] rest[i])
                implies rest[i].settings.proxy_jump is None by {
                assert(rest[i] == bs[i]);
            }
        }
        if forall|i: int| 0 <= i < k && all_wild(#[trigger] bs[i])
            ==> bs[i].settings.identities_only is None {
            assert forall|i: int| 0 <= i < k && all_wild(#[trigger] rest[i])
                implies rest[i].settings.identities_only is None by {
                assert(rest[i] == bs[i]);
            }
        }
        defaults_come_from_the_first_wildcard_block(rest, k);
    } else {
        if forall|i: int| 0 <= i < k && all_wild(#[trigger] bs[i])
            ==> bs[i].settings.hostname is None {
            assert forall|i: int| 0 <= i < rest.len() && all_wild(#[trigger] rest[i])
                implies rest[i].settings.hostname is None by {
                assert(rest[i] == bs[i]);
            }
        }
        if forall|i: int| 0 <= i < k && all_wild(#[trigger] bs[i]) ==> bs[i].settings.user is None {
            assert forall|i: int| 0 <= i < rest.len() && all_wild(#[trigger] rest[i])
                implies rest[i].settings.user is None by {
                assert(rest[i] == bs[i]);
            }
        }
        if forall|i: int| 0 <= i < k && all_wild(#[trigger] bs[i]) ==> bs[i].settings.port is None {
            assert forall|i: int| 0 <= i < rest.len() && all_wild(#[trigger] rest[i])
                implies rest[i].settings.port is None by {
                assert(rest[i] == bs[i]);
            }
        }
        if forall|i: int| 0 <= i < k && all_wild(#[trigger] bs[i])
            ==> bs[i].settings.identity_file is None {
            assert forall|i: int| 0 <= i < rest.len() && all_wild(#[trigger] rest[i])
                implies rest[i].settings.identity_file is None by {
                assert(rest[i] == bs[i]);
            }
        }
        if forall|i: int| 0 <= i < k && all_wild(#[trigger] bs[i])
            ==> bs[i].settings.proxy_jump is None {
            assert forall|i: int| 0 <= i < rest.len() && all_wild(#[trigger] rest[i])
                implies rest[i].settings.proxy_jump is None by {
                assert(rest[i] == bs[i]);
            }
        }
        if forall|i: int| 0 <= i < k && all_wild(#[trigger] bs[i])
            ==> bs[i].settings.identities_only is None {
            assert forall|i: int| 0 <= i < rest.len() && all_wild(#[trigger] rest[i])
                implies rest[i].settings.identities_only is None by {
                assert(rest[i] == bs[i]);
            }
        }
        unset_in_every_wildcard_block(rest);
    }
}

proof fn unset_in_every_wildcard_block(bs: Seq<BlockView>)
    ensures
        (forall|i: int|
            0 <= i < bs.len() && all_wild(#[trigger] bs[i]) ==> bs[i].settings.hostname is None)
            ==> configured(bs).defaults.hostname is None,
        (forall|i: int|
            0 <= i < bs.len() && all_wild(#[trigger] bs[i]) ==> bs[i].settings.user is None)
            ==> configured(bs).defaults.user is None,
        (forall|i: int|
            0 <= i < bs.len() && all_wild(#[trigger] bs[i]) ==> bs[i].settings.port is None)
            ==> configured(bs).defaults.port is None,
        (forall|i: int|
            0 <= i < bs.len() && all_wild(#[trigger] bs[i])
                ==> bs[i].settings.identity_file is None)
            ==> configured(bs).defaults.identity_file is None,
        (forall|i: int|
            0 <= i < bs.len() && all_wild(#[trigger] bs[i]) ==> bs[i].settings.proxy_jump is None)
            ==> configured(bs).defaults.proxy_jump is None,
        (forall|i: int|
            0 <= i < bs.len() && all_wild(#[trigger] bs[i])
                ==> bs[i].settings.identities_only is None)
            ==> configured(bs).defaults.identities_only is None,
    decreases bs.len(),
{
    if bs.len() > 0 {
        let rest = bs.drop_last();
        let n = bs.len() - 1;
        wild_blocks_have_no_hosts(bs[n]);
        if forall|i: int| 0 <= i < bs.len() && all_wild(#[trigger] bs[i])
            ==> bs[i].settings.hostname is None {
            assert forall|i: int| 0 <= i < rest.len() && all_wild(#[trigger] rest[i])
                implies rest[i].settings.hostname is None by {
                assert(rest[i] == bs[i]);
            }
            assert(all_wild(bs[n]) ==> bs[n].settings.hostname is None);
        }
        if forall|i: int| 0 <= i < bs.len() && all_wild(#[trigger] bs[i])
            ==> bs[i].settings.user is None {
            assert forall|i: int| 0 <= i < rest.len() && all_wild(#[trigger] rest[i])
                implies rest[i].settings.user is None by {
                assert(rest[i] == bs[i]);
            }
            assert(all_wild(bs[n]) ==> bs[n].settings.user is None);
        }
        if forall|i: int| 0 <= i < bs.len() && all_wild(#[trigger] bs[i])
            ==> bs[i].settings.port is None {
            assert forall|i: int| 0 <= i < rest.len() && all_wild(#[trigger] rest[i])
                implies rest[i].settings.port is None by {
                assert(rest[i] == bs[i]);
            }
            assert(all_wild(bs[n]) ==> bs[n].settings.port is None);
        }
        if forall|i: int| 0 <= i < bs.len() && all_wild(#[trigger] bs[i])
            ==> bs[i].settings.identity_file is None {
            assert forall|i: int| 0 <= i < rest.len() && all_wild(#[trigger] rest[i])
                implies rest[i].settings.identity_file is None by {
                assert(rest[i] == bs[i]);
            }
            assert(all_wild(bs[n]) ==> bs[n].settings.identity_file is None);
        }
        if forall|i: int| 0 <= i < bs.len() && all_wild(#[trigger] bs[i])
            ==> bs[i].settings.proxy_jump is None {
            assert forall|i: int| 0 <= i < rest.len() && all_wild(#[trigger] rest[i])
                implies rest[i].settings.proxy_jump is None by {
                assert(rest[i] == bs[i]);
            }
            assert(all_wild(bs[n]) ==> bs[n].settings.proxy_jump is None);
        }
        if forall|i: int| 0 <= i < bs.len() && all_wild(#[trigger] bs[i])
            ==> bs[i].settings.identities_only is None {
            assert forall|i: int| 0 <= i < rest.len() && all_wild(#[trigger] rest[i])
                implies rest[i].settings.identities_only is None by {
                assert(rest[i] == bs[i]);
            }
            assert(all_wild(bs[n]) ==> bs[n].settings.identities_only is None);
        }
        unset_in_every_wildcard_block(rest);
    }
}

proof fn find_host_is_first(hosts: Seq<(Seq<char>, Settings)>, alias: Seq<char>, from: int, k: int)
    requires
        0 <= from <= k < hosts.len(),
        hosts[k].0 == alias,
        forall|i: int| from <= i < k ==> (#[trigger] hosts[i]).0 != alias,
    ensures
        find_host(hosts, alias, from) == k,
    decreases k - from,
{
    if from < k {
        assert(hosts[from].0 != alias);
        find_host_is_first(hosts, alias, from + 1, k);
    }
}

/// A host has the settings of its first entry, and those for all hosts where that has none.
pub proof fn the_first_entry_of_a_host_counts(c: ConfigView, alias: Seq<char>, k: int)
    requires
        0 <= k < c.hosts.len(),
        c.hosts[k].0 == alias,
        forall|i: int| 0 <= i < k ==> (#[trigger] c.hosts[i]).0 != alias,
    ensures
        effective(c, alias).hostname == (if c.hosts[k].1.hostname is Some {
            c.hosts[k].1.hostname
        } else {
            c.defaults.hostname
        }),
        effective(c, alias).user == (if c.hosts[k].1.user is Some {
            c.hosts[k].1.user
        } else {
            c.defaults.user
        }),
        effective(c, alias).port == (if c.hosts[k].1.port is Some {
            c.hosts[k].1.port
        } else {
            c.defaults.port
        }),
        effective(c, alias).identity_file == (if c.hosts[k].1.identity_file is Some {
            c.hosts[k].1.identity_file
        } else {
            c.defaults.identity_file
        }),
        effective(c, alias).proxy_jump == (if c.hosts[k].1.proxy_jump is Some {
            c.hosts[k].1.proxy_jump
        } else {
            c.defaults.proxy_jump
        }),
        effective(c, alias).identities_only == (if c.hosts[k].1.identities_only is Some {
            c.hosts[k].1.identities_only
        } else {
            c.defaults.identities_only
        }),
{
    find_host_is_first(c.hosts, alias, 0, k);
}

/// A key and its value are parted by an equals sign or by white space; a blank line and a
/// comment hold none.
pub proof fn lines_part_into_key_and_value(key: Seq<char>, value: Seq<char>, c: char)
    requires
        key.len() > 0 && !crate::scan::is_white(key[0]) && !crate::scan::is_white(key.last()),
        key[0] != '#',
        value.len() > 0 && !crate::scan::is_white(value[0]) && !crate::scan::is_white(value.last()),
        crate::scan::is_white(c),
    ensures
        !key.contains('=') ==> key_value(key + seq!['='] + value) == Some((key, value)),
        !key.contains('=') && !value.contains('=') && (forall|i: int|
            0 <= i < key.len() ==> !crate::scan::is_white(#[trigger] key[i])) ==> key_value(
            key + seq![c] + value,
        ) == Some((key, value)),
        key_value(Seq::empty()) is None,
        key_value(seq!['#'] + value) is None,
{
    let s = key + seq!['='] + value;
    let n = key.len() as int;
    crate::scan::trimmed_texts_stay(s);
    crate::scan::trimmed_texts_stay(key);
    crate::scan::trimmed_texts_stay(value);
    crate::scan::trimmed_texts_stay(seq!['#'] + value);
    assert(s[0] == key[0] && s.last() == value.last());
    crate::scan::find_char_facts(s, '=', 0);
    assert(s[n] == '=');
    let e = find_char(s, '=', 0);
    if e < n {
        assert(key.contains(s[e]));
    }
    if !key.contains('=') {
        assert(e == n);
        assert(s.take(e) =~= key);
        assert(s.skip(e + 1) =~= value);
    }
    let t = key + seq![c] + value;
    crate::scan::trimmed_texts_stay(t);
    assert(t[0] == key[0] && t.last() == value.last());
    if !key.contains('=') && !value.contains('=') && (forall|i: int|
        0 <= i < key.len() ==> !crate::scan::is_white(#[trigger] key[i])) {
        crate::scan::find_char_facts(t, '=', 0);
        let f = find_char(t, '=', 0);
        if f < t.len() {
            if f < n {
                assert(key.contains(t[f]));
            } else if f > n {
                assert(value[f - n - 1] == t[f]);
                assert(value.contains(t[f]));
            }
        }
        crate::scan::a_word_ends_at_white_space(key, seq![c] + value);
        assert(key + (seq![c] + value) =~= t);
        assert(t.take(n) =~= key);
        assert(t.skip(n) =~= seq![c] + value);
        crate::scan::leading_white_space_is_cut(c, value);
    }
    assert(crate::scan::trim(Seq::empty()) =~= Seq::<char>::empty());
}

} // verus!
