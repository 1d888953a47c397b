//! What the configuration file holds.

use vstd::prelude::*;

use crate::text::{copy, copy_all, copy_opt, text_opt, texts};

verus! {

/// The whole configuration.
#[derive(Debug)]
pub struct AppConfig {
    pub settings: Settings,
    pub host: Vec<HostEntry>,
    pub check: Vec<CheckEntry>,
    pub sync: Vec<SyncEntry>,
}

impl Default for AppConfig {
    fn default() -> (r: Self)
        ensures
            r.settings.is_default(),
            r.host@.len() == 0,
            r.check@.len() == 0,
            r.sync@.len() == 0,
    {
        AppConfig {
            settings: Settings::default(),
            host: Vec::new(),
            check: Vec::new(),
            sync: Vec::new(),
        }
    }
}

/// The `[settings]` table.
#[derive(Debug)]
pub struct Settings {
    pub default_timeout: u64,
    pub data_retention_days: u64,
    pub conflict_strategy: ConflictStrategy,
    pub propagate_deletes: bool,
    pub max_concurrency: usize,
    pub max_per_host_concurrency: usize,
    /// Hosts to skip during init (kept across re-init).
    pub skipped_hosts: Vec<String>,
    /// Where the database is stored, if not in the default place.
    pub state_dir: Option<String>,
    /// Report format for an output path without an extension.
    pub default_output_format: Option<String>,
}

impl Settings {
    /// Whether every setting has its default value.
    pub open spec fn is_default(&self) -> bool {
        &&& self.default_timeout == 30
        &&& self.data_retention_days == 90
        &&& self.conflict_strategy == ConflictStrategy::Newest
        &&& !self.propagate_deletes
        &&& self.max_concurrency == 10
        &&& self.max_per_host_concurrency == 4
        &&& self.skipped_hosts@.len() == 0
        &&& self.state_dir is None
        &&& self.default_output_format is None
    }
}

impl Default for Settings {
    fn default() -> (r: Self)
        ensures
            r.is_default(),
    {
        Settings {
            default_timeout: default_timeout(),
            data_retention_days: default_retention(),
            conflict_strategy: default_conflict_strategy(),
            propagate_deletes: false,
            max_concurrency: default_concurrency(),
            max_per_host_concurrency: default_per_host_concurrency(),
            skipped_hosts: Vec::new(),
            state_dir: None,
            default_output_format: None,
        }
    }
}

/// Seconds to wait for a host.
pub fn default_timeout() -> (r: u64)
    ensures
        r == 30,
{
    30
}

/// Days that snapshots and log entries are kept.
pub fn default_retention() -> (r: u64)
    ensures
        r == 90,
{
    90
}

/// How differing copies of a file are reconciled.
pub fn default_conflict_strategy() -> (r: ConflictStrategy)
    ensures
        r == ConflictStrategy::Newest,
{
    ConflictStrategy::Newest
}

/// Hosts worked on at the same time.
pub fn default_concurrency() -> (r: usize)
    ensures
        r == 10,
{
    10
}

/// Channels open to one host at the same time.
pub fn default_per_host_concurrency() -> (r: usize)
    ensures
        r == 4,
{
    4
}

/// The default of the switches that are on unless turned off.
pub fn default_true() -> (r: bool)
    ensures
        r,
{
    true
}

/// How differing copies of a file are reconciled.
#[derive(Debug, Clone, Copy, PartialEq, Eq, Structural)]
pub enum ConflictStrategy {
    Newest,
    Skip,
}

impl ConflictStrategy {
    /// The name used in the configuration file.
    pub open spec fn spec_name(self) -> Seq<char> {
        match self {
            ConflictStrategy::Newest => "newest"@,
            ConflictStrategy::Skip => "skip"@,
        }
    }

    /// The name used in the configuration file.
    pub fn name(self) -> (r: &'static str)
        ensures
            r@ == self.spec_name(),
    {
        match self {
            ConflictStrategy::Newest => "newest",
            ConflictStrategy::Skip => "skip",
        }
    }
}

/// One `[[host]]` entry.
#[derive(Debug, Clone)]
pub struct HostEntry {
    pub name: String,
    pub ssh_host: String,
    pub shell: ShellType,
    pub groups: Vec<String>,
    /// First hop to jump through; `None` for a direct connection.
    pub proxy_jump: Option<String>,
}

/// The contents of a host entry.
pub ghost struct HostView {
    pub name: Seq<char>,
    pub ssh_host: Seq<char>,
    pub shell: ShellType,
    pub groups: Seq<Seq<char>>,
    pub proxy_jump: Option<Seq<char>>,
}

impl View for HostEntry {
    type V = HostView;

    open spec fn view(&self) -> HostView {
        HostView {
            name: self.name@,
            ssh_host: self.ssh_host@,
            shell: self.shell,
            groups: texts(self.groups@),
            proxy_jump: text_opt(self.proxy_jump),
        }
    }
}

impl HostEntry {
    /// A copy of the entry.
    pub fn copy(&self) -> (r: HostEntry)
        ensures
            r@ == self@,
    {
        HostEntry {
            name: copy(self.name.as_str()),
            ssh_host: copy(self.ssh_host.as_str()),
            shell: self.shell,
            groups: copy_all(&self.groups),
            proxy_jump: copy_opt(&self.proxy_jump),
        }
    }
}

/// The contents of each entry of a list.
pub open spec fn host_views(hosts: Seq<HostEntry>) -> Seq<HostView> {
    Seq::new(hosts.len(), |i: int| hosts[i]@)
}

/// The kind of shell that a host runs.
#[derive(Debug, Clone, Copy, PartialEq, Eq, Structural)]
pub enum ShellType {
    Sh,
    PowerShell,
    Cmd,
}

impl ShellType {
    /// The name used in the configuration file and in messages.
    pub open spec fn spec_name(self) -> Seq<char> {
        match self {
            ShellType::Sh => "sh"@,
            ShellType::PowerShell => "powershell"@,
            ShellType::Cmd => "cmd"@,
        }
    }

    /// The name used in the configuration file and in messages.
    pub fn name(self) -> (r: &'static str)
        ensures
            r@ == self.spec_name(),
    {
        match self {
            ShellType::Sh => "sh",
            ShellType::PowerShell => "powershell",
            ShellType::Cmd => "cmd",
        }
    }
}

/// One `[[check]]` entry: what to measure, and where.
#[derive(Debug, Clone)]
pub struct CheckEntry {
    /// A label to show in place of the entry's number.
    pub name: Option<String>,
    pub enabled: Vec<String>,
    pub path: Vec<CheckPath>,
    /// Groups this check applies to; empty for an unscoped one.
    pub groups: Vec<String>,
    /// Whether the entry applies when hosts are named.
    pub enable_hosts: bool,
    /// Whether the entry applies when all hosts are addressed.
    pub enable_all: bool,
}

/// A path whose size is watched.
#[derive(Debug, Clone)]
pub struct CheckPath {
    pub path: String,
    pub label: String,
}

impl CheckPath {
    /// A copy of the entry.
    pub fn copy(&self) -> (r: CheckPath)
        ensures
            r.path@ == self.path@,
            r.label@ == self.label@,
    {
        CheckPath { path: copy(self.path.as_str()), label: copy(self.label.as_str()) }
    }
}

/// One `[[sync]]` entry: the paths to keep equal, and where.
#[derive(Debug, Clone)]
pub struct SyncEntry {
    pub paths: Vec<String>,
    /// Groups this sync applies to; empty for an unscoped one.
    pub groups: Vec<String>,
    /// Whether the entry applies when hosts are named.
    pub enable_hosts: bool,
    /// Whether the entry applies when all hosts are addressed.
    pub enable_all: bool,
    pub recursive: bool,
    pub mode: Option<String>,
    pub propagate_deletes: Option<bool>,
    /// A fixed source host, in place of the automatic choice.
    pub source: Option<String>,
}

// ---------------------------------------------------------------------------
// Laws
// ---------------------------------------------------------------------------

/// Different shells and different strategies have different names.
pub proof fn names_tell_apart(a: ShellType, b: ShellType, c: ConflictStrategy, d: ConflictStrategy)
    ensures
        a.spec_name() == b.spec_name() ==> a == b,
        c.spec_name() == d.spec_name() ==> c == d,
{
    reveal_strlit("sh");
    reveal_strlit("powershell");
    reveal_strlit("cmd");
    reveal_strlit("newest");
    reveal_strlit("skip");
    assert("sh"@.len() == 2 && "powershell"@.len() == 10 && "cmd"@.len() == 3);
    assert("newest"@.len() == 6 && "skip"@.len() == 4);
}

} // verus!
