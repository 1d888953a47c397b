//! The commands of the tool, and what they share: the configuration, the hosts
//! they are aimed at and the entries that apply to those.

pub mod check;
pub mod checkout;
pub mod config;
pub mod exec;
pub mod init;
pub mod list;
pub mod log;
pub mod report;
pub mod run;
pub mod sync;

use vstd::prelude::*;

use crate::cli::TargetArgs;
use crate::config::schema::{AppConfig, CheckEntry, HostEntry, ShellType, SyncEntry};
use crate::error::Error;
use crate::host::filter::{
    any_shared, filter_holds, filter_next, filter_none, filter_picks, picked, pointees, shares,
};
use crate::order::{
    ascending, by_text, by_text_is_strict, insert_sorted, listed, sorted_set, sorted_set_facts,
};
use crate::output::summary::part;
use crate::scan::{join, join_all};
use crate::text::{copy, copy_all, texts, texts_push};

verus! {

broadcast use texts_push;

// ---------------------------------------------------------------------------
// Targets
// ---------------------------------------------------------------------------

/// Which hosts a command is aimed at.
#[derive(Debug)]
pub enum TargetMode {
    /// All configured hosts.
    All,
    /// Hosts by name.
    Hosts(Vec<String>),
    /// Hosts of the named groups.
    Groups(Vec<String>),
    /// Hosts with one of the named shells.
    Shell(Vec<ShellType>),
}

/// Which hosts a command is aimed at, with names as texts.
pub ghost enum TargetView {
    All,
    Hosts(Seq<Seq<char>>),
    Groups(Seq<Seq<char>>),
    Shell(Seq<ShellType>),
}

impl View for TargetMode {
    type V = TargetView;

    open spec fn view(&self) -> TargetView {
        match *self {
            TargetMode::All => TargetView::All,
            TargetMode::Hosts(names) => TargetView::Hosts(texts(names@)),
            TargetMode::Groups(groups) => TargetView::Groups(texts(groups@)),
            TargetMode::Shell(shells) => TargetView::Shell(shells@),
        }
    }
}

/// Whether a host is one of the targets.
pub open spec fn is_target(h: HostEntry, mode: TargetView) -> bool {
    match mode {
        TargetView::All => true,
        TargetView::Hosts(names) => names.contains(h.name@),
        TargetView::Groups(groups) => shares(texts(h.groups@), groups),
        TargetView::Shell(shells) => shells.contains(h.shell),
    }
}

/// The targeted hosts, in the order of the configuration.
pub open spec fn target_hosts(hosts: Seq<HostEntry>, mode: TargetView) -> Seq<HostEntry> {
    hosts.filter(|h: HostEntry| is_target(h, mode))
}

fn has_shell(shells: &[ShellType], shell: ShellType) -> (r: bool)
    ensures
        r == shells@.contains(shell),
{
    let mut i: usize = 0;
    while i < shells.len()
        invariant
            i <= shells@.len(),
            forall|j: int| 0 <= j < i ==> #[trigger] shells@[j] != shell,
        decreases shells@.len() - i,
    {
        if shells[i] == shell {
            return true;
        }
        i += 1;
    }
    false
}

/// Whether a host is one of the targets.
pub fn targeted(h: &HostEntry, mode: &TargetMode) -> (r: bool)
    ensures
        r == is_target(*h, mode@),
{
    match mode {
        TargetMode::All => true,
        TargetMode::Hosts(names) => listed(names.as_slice(), h.name.as_str()),
        TargetMode::Groups(groups) => any_shared(h.groups.as_slice(), groups.as_slice()),
        TargetMode::Shell(shells) => has_shell(shells.as_slice(), h.shell),
    }
}

// ---------------------------------------------------------------------------
// Hints
// ---------------------------------------------------------------------------

/// The texts of a list that are not empty.
pub open spec fn nonempty(list: Seq<Seq<char>>) -> Seq<Seq<char>>
    decreases list.len(),
{
    if list.len() == 0 {
        Seq::empty()
    } else if list.last().len() > 0 {
        nonempty(list.drop_last()).push(list.last())
    } else {
        nonempty(list.drop_last())
    }
}

/// All groups that hosts name, host by host; empty names are left out.
pub open spec fn named_groups(hosts: Seq<HostEntry>) -> Seq<Seq<char>>
    decreases hosts.len(),
{
    if hosts.len() == 0 {
        Seq::empty()
    } else {
        named_groups(hosts.drop_last()) + nonempty(texts(hosts.last().groups@))
    }
}

/// The groups that hosts name, sorted, each once.
pub open spec fn available_groups(hosts: Seq<HostEntry>) -> Seq<Seq<char>> {
    sorted_set(named_groups(hosts), by_text())
}

/// The names of hosts.
pub open spec fn host_names(hosts: Seq<HostEntry>) -> Seq<Seq<char>> {
    Seq::new(hosts.len(), |i: int| hosts[i].name@)
}

/// What there is to choose from: groups and hosts, each if there are any.
pub open spec fn available_hints(hosts: Seq<HostEntry>) -> Seq<char> {
    (if available_groups(hosts).len() > 0 {
        "\n\nAvailable groups: "@ + join(available_groups(hosts), ", "@)
    } else {
        Seq::empty()
    }) + (if hosts.len() > 0 {
        "\nAvailable hosts: "@ + join(host_names(hosts), ", "@)
    } else {
        Seq::empty()
    })
}

/// The groups that hosts name, sorted, each once.
pub fn collect_available_groups(config: &AppConfig) -> (r: Vec<String>)
    ensures
        texts(r@) == available_groups(config.host@),
{
    let mut out: Vec<String> = Vec::new();
    let mut i: usize = 0;
    assert(texts(out@) =~= available_groups(config.host@.take(0)));
    while i < config.host.len()
        invariant
            i <= config.host@.len(),
            texts(out@) == available_groups(config.host@.take(i as int)),
        decreases config.host@.len() - i,
    {
        let groups = &config.host[i].groups;
        let ghost gs = texts(groups@);
        let ghost before = named_groups(config.host@.take(i as int));
        let mut j: usize = 0;
        assert(before + nonempty(gs.take(0)) =~= before);
        while j < groups.len()
            invariant
                j <= groups@.len(),
                gs == texts(groups@),
                texts(out@) == sorted_set(before + nonempty(gs.take(j as int)), by_text()),
            decreases groups@.len() - j,
        {
            let ghost n0 = before + nonempty(gs.take(j as int));
            assert(gs.take(j + 1).drop_last() =~= gs.take(j as int));
            if !groups[j].as_str().is_empty() {
                insert_sorted(&mut out, groups[j].as_str());
                let ghost n1 = before + nonempty(gs.take(j + 1));
                assert(n1 =~= n0.push(gs[j as int]));
                assert(n1.drop_last() =~= n0);
            }
            j += 1;
        }
        assert(gs.take(j as int) =~= gs);
        assert(config.host@.take(i + 1).drop_last() =~= config.host@.take(i as int));
        i += 1;
    }
    assert(config.host@.take(i as int) =~= config.host@);
    out
}

/// The names of hosts.
pub fn names_of(hosts: &[HostEntry]) -> (r: Vec<String>)
    ensures
        texts(r@) == host_names(hosts@),
{
    let mut out: Vec<String> = Vec::new();
    let mut i: usize = 0;
    while i < hosts.len()
        invariant
            i <= hosts@.len(),
            texts(out@) == host_names(hosts@).take(i as int),
        decreases hosts@.len() - i,
    {
        out.push(copy(hosts[i].name.as_str()));
        i += 1;
        assert(texts(out@) =~= host_names(hosts@).take(i as int));
    }
    assert(host_names(hosts@).take(i as int) =~= host_names(hosts@));
    out
}

/// Appends to a message what there is to choose from.
pub fn append_available_hints(config: &AppConfig, hint: &mut String)
    ensures
        final(hint)@ == old(hint)@ + available_hints(config.host@),
{
    let groups = collect_available_groups(config);
    assert(texts(groups@).len() == groups@.len());
    if groups.len() > 0 {
        hint.append("\n\nAvailable groups: ");
        hint.append(join_all(groups.as_slice(), ", ").as_str());
    }
    if config.host.len() > 0 {
        hint.append("\nAvailable hosts: ");
        hint.append(join_all(names_of(config.host.as_slice()).as_slice(), ", ").as_str());
    }
    assert(hint@ =~= old(hint)@ + available_hints(config.host@));
}

/// The hosts with a shell.
pub open spec fn hosts_with_shell(hosts: Seq<HostEntry>, shell: ShellType) -> Seq<HostEntry> {
    hosts.filter(|h: HostEntry| h.shell == shell)
}

/// A shell and the hosts that have it, if any.
pub open spec fn shell_part(hosts: Seq<HostEntry>, shell: ShellType) -> Seq<Seq<char>> {
    let with = hosts_with_shell(hosts, shell);
    part(
        with.len(),
        shell.spec_name() + " ("@ + join(host_names(with), ", "@) + ")"@,
    )
}

/// The shells that hosts have, in alphabetical order, with the hosts of each.
pub open spec fn shell_parts(hosts: Seq<HostEntry>) -> Seq<Seq<char>> {
    shell_part(hosts, ShellType::Cmd) + shell_part(hosts, ShellType::PowerShell) + shell_part(
        hosts,
        ShellType::Sh,
    )
}

/// The names of shells.
pub open spec fn shell_names(shells: Seq<ShellType>) -> Seq<Seq<char>> {
    Seq::new(shells.len(), |i: int| shells[i].spec_name())
}

/// The message where no host is targeted.
pub open spec fn no_match_message(hosts: Seq<HostEntry>, mode: TargetView) -> Seq<char> {
    match mode {
        TargetView::Shell(shells) => "No hosts matched shell type: "@ + join(
            shell_names(shells),
            ", "@,
        ) + (if hosts.len() > 0 {
            "\nAvailable shells: "@ + join(shell_parts(hosts), ", "@)
        } else {
            Seq::empty()
        }),
        _ => "No hosts matched the specified filter."@ + available_hints(hosts),
    }
}

fn push_shell_part(out: &mut Vec<String>, hosts: &[HostEntry], shell: ShellType)
    ensures
        texts(final(out)@) == texts(old(out)@) + shell_part(hosts@, shell),
{
    let ghost p = |h: HostEntry| h.shell == shell;
    let mut names: Vec<String> = Vec::new();
    let mut i: usize = 0;
    proof {
        filter_none(hosts@, p);
        assert(texts(names@) =~= host_names(hosts@.take(0).filter(p)));
    }
    while i < hosts.len()
        invariant
            i <= hosts@.len(),
            p == (|h: HostEntry| h.shell == shell),
            texts(names@) == host_names(hosts@.take(i as int).filter(p)),
        decreases hosts@.len() - i,
    {
        proof {
            filter_next(hosts@, p, i as int);
        }
        let ghost before = texts(names@);
        if hosts[i].shell == shell {
            names.push(copy(hosts[i].name.as_str()));
            assert(before.push(hosts@[i as int].name@) =~= host_names(
                hosts@.take(i + 1).filter(p),
            ));
        }
        i += 1;
    }
    assert(hosts@.take(i as int) =~= hosts@);
    assert(texts(names@).len() == names@.len());
    if names.len() > 0 {
        let mut line = copy(shell.name());
        line.append(" (");
        line.append(join_all(names.as_slice(), ", ").as_str());
        line.append(")");
        out.push(line);
    }
    assert(texts(out@) =~= texts(old(out)@) + shell_part(hosts@, shell));
}

fn no_match(config: &AppConfig, mode: &TargetMode) -> (r: String)
    ensures
        r@ == no_match_message(config.host@, mode@),
{
    match mode {
        TargetMode::Shell(shells) => {
            let mut hint = copy("No hosts matched shell type: ");
            let mut names: Vec<String> = Vec::new();
            let mut i: usize = 0;
            while i < shells.len()
                invariant
                    i <= shells@.len(),
                    texts(names@) == shell_names(shells@).take(i as int),
                decreases shells@.len() - i,
            {
                names.push(copy(shells[i].name()));
                i += 1;
                assert(texts(names@) =~= shell_names(shells@).take(i as int));
            }
            assert(shell_names(shells@).take(i as int) =~= shell_names(shells@));
            hint.append(join_all(names.as_slice(), ", ").as_str());
            if config.host.len() > 0 {
                let mut parts: Vec<String> = Vec::new();
                push_shell_part(&mut parts, config.host.as_slice(), ShellType::Cmd);
                push_shell_part(&mut parts, config.host.as_slice(), ShellType::PowerShell);
                push_shell_part(&mut parts, config.host.as_slice(), ShellType::Sh);
                assert(texts(parts@) =~= shell_parts(config.host@));
                hint.append("\nAvailable shells: ");
                hint.append(join_all(parts.as_slice(), ", ").as_str());
            }
            assert(hint@ =~= no_match_message(config.host@, mode@));
            hint
        },
        _ => {
            let mut hint = copy("No hosts matched the specified filter.");
            append_available_hints(config, &mut hint);
            hint
        },
    }
}

// ---------------------------------------------------------------------------
// Target flags
// ---------------------------------------------------------------------------

/// How many of the four target flags are given.
pub open spec fn flag_count(target: TargetArgs) -> int {
    (if target.all {
        1int
    } else {
        0
    }) + (if target.host@.len() > 0 {
        1int
    } else {
        0
    }) + (if target.group@.len() > 0 {
        1int
    } else {
        0
    }) + (if target.shell@.len() > 0 {
        1int
    } else {
        0
    })
}

/// The targets that a single flag selects.
pub open spec fn flag_target(target: TargetArgs) -> TargetView {
    if target.all {
        TargetView::All
    } else if target.host@.len() > 0 {
        TargetView::Hosts(texts(target.host@))
    } else if target.group@.len() > 0 {
        TargetView::Groups(texts(target.group@))
    } else {
        TargetView::Shell(target.shell@)
    }
}

/// The message where no target flag is given.
pub open spec fn target_required(hosts: Seq<HostEntry>) -> Seq<char> {
    "Target required. Use --group/-g, --host/-h, --shell/-S, or --all/-a to specify targets."@ + (
    if hosts.len() == 0 {
        "\nHint: Run 'ssync init' first to import hosts from ~/.ssh/config."@
    } else {
        available_hints(hosts)
    })
}

fn copy_shells(shells: &[ShellType]) -> (r: Vec<ShellType>)
    ensures
        r@ == shells@,
{
    let mut out: Vec<ShellType> = Vec::new();
    let mut i: usize = 0;
    while i < shells.len()
        invariant
            i <= shells@.len(),
            out@ == shells@.take(i as int),
        decreases shells@.len() - i,
    {
        out.push(shells[i]);
        i += 1;
        assert(out@ =~= shells@.take(i as int));
    }
    assert(shells@.take(i as int) =~= shells@);
    out
}

/// The targets that the flags select: exactly one flag must be given.
pub fn resolve_target_mode(target: &TargetArgs, config: &AppConfig) -> (r: Result<
    TargetMode,
    Error,
>)
    ensures
        r is Ok <==> flag_count(*target) == 1,
        r matches Ok(mode) ==> mode@ == flag_target(*target),
        r matches Err(e) ==> e@ == (if flag_count(*target) == 0 {
            target_required(config.host@)
        } else {
            "Only one of --all/-a, --host/-h, --group/-g, or --shell/-S can be used at a time."@
        }),
{
    let mut count: u8 = 0;
    if target.all {
        count += 1;
    }
    if target.host.len() > 0 {
        count += 1;
    }
    if target.group.len() > 0 {
        count += 1;
    }
    if target.shell.len() > 0 {
        count += 1;
    }
    if count == 0 {
        let mut hint = copy(
            "Target required. Use --group/-g, --host/-h, --shell/-S, or --all/-a to specify targets.",
        );
        if config.host.len() == 0 {
            hint.append("\nHint: Run 'ssync init' first to import hosts from ~/.ssh/config.");
        } else {
            append_available_hints(config, &mut hint);
        }
        return Err(Error { message: hint });
    }
    if count > 1 {
        return Err(
            Error::new(
                "Only one of --all/-a, --host/-h, --group/-g, or --shell/-S can be used at a time.",
            ),
        );
    }
    if target.all {
        Ok(TargetMode::All)
    } else if target.host.len() > 0 {
        Ok(TargetMode::Hosts(copy_all(target.host.as_slice())))
    } else if target.group.len() > 0 {
        Ok(TargetMode::Groups(copy_all(target.group.as_slice())))
    } else {
        Ok(TargetMode::Shell(copy_shells(target.shell.as_slice())))
    }
}

// ---------------------------------------------------------------------------
// Entries that apply
// ---------------------------------------------------------------------------

/// An entry of the configuration that applies to some targets only.
pub trait Scoped: Sized {
    /// The groups the entry is scoped to.
    spec fn spec_groups(&self) -> Seq<Seq<char>>;

    /// Whether the entry applies to hosts chosen by name or shell.
    spec fn spec_enable_hosts(&self) -> bool;

    /// Whether the entry applies to all hosts.
    spec fn spec_enable_all(&self) -> bool;

    fn scope(&self) -> (r: &[String])
        ensures
            texts(r@) == self.spec_groups(),
    ;

    fn for_hosts(&self) -> (r: bool)
        ensures
            r == self.spec_enable_hosts(),
    ;

    fn for_all(&self) -> (r: bool)
        ensures
            r == self.spec_enable_all(),
    ;
}

impl Scoped for CheckEntry {
    open spec fn spec_groups(&self) -> Seq<Seq<char>> {
        texts(self.groups@)
    }

    open spec fn spec_enable_hosts(&self) -> bool {
        self.enable_hosts
    }

    open spec fn spec_enable_all(&self) -> bool {
        self.enable_all
    }

    fn scope(&self) -> (r: &[String]) {
        self.groups.as_slice()
    }

    fn for_hosts(&self) -> (r: bool) {
        self.enable_hosts
    }

    fn for_all(&self) -> (r: bool) {
        self.enable_all
    }
}

impl Scoped for SyncEntry {
    open spec fn spec_groups(&self) -> Seq<Seq<char>> {
        texts(self.groups@)
    }

    open spec fn spec_enable_hosts(&self) -> bool {
        self.enable_hosts
    }

    open spec fn spec_enable_all(&self) -> bool {
        self.enable_all
    }

    fn scope(&self) -> (r: &[String]) {
        self.groups.as_slice()
    }

    fn for_hosts(&self) -> (r: bool) {
        self.enable_hosts
    }

    fn for_all(&self) -> (r: bool) {
        self.enable_all
    }
}

/// Whether an entry applies to the targets.
pub open spec fn applies<T: Scoped>(e: T, mode: TargetView) -> bool {
    match mode {
        TargetView::All => e.spec_enable_all(),
        TargetView::Groups(groups) => shares(e.spec_groups(), groups),
        TargetView::Hosts(_) => e.spec_enable_hosts(),
        TargetView::Shell(_) => e.spec_enable_hosts(),
    }
}

/// The entries that apply to the targets, in their order.
pub fn filter_entries_by_mode<'a, T: Scoped>(entries: &'a [T], mode: &TargetMode) -> (r: Vec<
    &'a T,
>)
    ensures
        pointees(r@) == entries@.filter(|e: T| applies(e, mode@)),
{
    let ghost p = |e: T| applies(e, mode@);
    let mut out: Vec<&'a T> = Vec::new();
    let mut i: usize = 0;
    proof {
        filter_none(entries@, p);
        assert(pointees(out@) =~= Seq::empty());
    }
    while i < entries.len()
        invariant
            i <= entries@.len(),
            p == (|e: T| applies(e, mode@)),
            pointees(out@) == entries@.take(i as int).filter(p),
        decreases entries@.len() - i,
    {
        let e = &entries[i];
        proof {
            filter_next(entries@, p, i as int);
        }
        let ghost before = pointees(out@);
        let wanted = match mode {
            TargetMode::All => e.for_all(),
            TargetMode::Groups(g) => any_shared(e.scope(), g.as_slice()),
            TargetMode::Hosts(_) => e.for_hosts(),
            TargetMode::Shell(_) => e.for_hosts(),
        };
        if wanted {
            out.push(e);
            assert(pointees(out@) =~= before.push(*e));
        }
        i += 1;
    }
    assert(entries@.take(i as int) =~= entries@);
    out
}

/// The entries that are scoped to a group, in their order.
pub fn filter_entries_by_group<'a, T: Scoped>(entries: &'a [T], group: &str) -> (r: Vec<&'a T>)
    ensures
        pointees(r@) == entries@.filter(|e: T| e.spec_groups().contains(group@)),
{
    let ghost p = |e: T| e.spec_groups().contains(group@);
    let mut out: Vec<&'a T> = Vec::new();
    let mut i: usize = 0;
    proof {
        filter_none(entries@, p);
        assert(pointees(out@) =~= Seq::empty());
    }
    while i < entries.len()
        invariant
            i <= entries@.len(),
            p == (|e: T| e.spec_groups().contains(group@)),
            pointees(out@) == entries@.take(i as int).filter(p),
        decreases entries@.len() - i,
    {
        let e = &entries[i];
        proof {
            filter_next(entries@, p, i as int);
        }
        let ghost before = pointees(out@);
        if listed(e.scope(), group) {
            out.push(e);
            assert(pointees(out@) =~= before.push(*e));
        }
        i += 1;
    }
    assert(entries@.take(i as int) =~= entries@);
    out
}

// ---------------------------------------------------------------------------
// Context
// ---------------------------------------------------------------------------

/// What all commands work from.
#[derive(Debug)]
pub struct Context {
    pub config: AppConfig,
    pub config_path: Option<String>,
    pub timeout: u64,
    pub mode: TargetMode,
    pub serial: bool,
    pub verbose: bool,
}

impl Context {
    /// The context of a command that is aimed at hosts.
    pub fn new(
        config: AppConfig,
        config_path: Option<String>,
        verbose: bool,
        target: &TargetArgs,
    ) -> (r: Result<Context, Error>)
        ensures
            r is Ok <==> flag_count(*target) == 1,
            r matches Ok(c) ==> {
                &&& c.config == config
                &&& c.config_path == config_path
                &&& c.verbose == verbose
                &&& c.serial == target.serial
                &&& c.mode@ == flag_target(*target)
                &&& c.timeout == (match target.timeout {
                    Some(t) => t,
                    None => config.settings.default_timeout,
                })
            },
            r matches Err(e) ==> e@ == (if flag_count(*target) == 0 {
                target_required(config.host@)
            } else {
                "Only one of --all/-a, --host/-h, --group/-g, or --shell/-S can be used at a time."@
            }),
    {
        let timeout: u64 = match target.timeout {
            Some(t) => t,
            None => config.settings.default_timeout,
        };
        match resolve_target_mode(target, &config) {
            Ok(mode) => Ok(
                Context { config, config_path, timeout, mode, serial: target.serial, verbose },
            ),
            Err(e) => Err(e),
        }
    }

    /// The context of a command that is aimed at no hosts in particular.
    pub fn new_without_targets(
        config: AppConfig,
        config_path: Option<String>,
        verbose: bool,
        timeout_override: Option<u64>,
    ) -> (r: Context)
        ensures
            r.config == config,
            r.config_path == config_path,
            r.verbose == verbose,
            !r.serial,
            r.mode == TargetMode::All,
            r.timeout == (match timeout_override {
                Some(t) => t,
                None => config.settings.default_timeout,
            }),
    {
        let timeout: u64 = match timeout_override {
            Some(t) => t,
            None => config.settings.default_timeout,
        };
        Context { config, config_path, timeout, mode: TargetMode::All, serial: false, verbose }
    }

    proof fn targets_in_full(&self)
        ensures
            forall|k: int|
                0 <= k < self.config.host@.len() ==> {
                    let h = #[trigger] self.config.host@[k];
                    target_hosts(self.config.host@, self.mode@).contains(h) <==> (match self.mode {
                        TargetMode::All => true,
                        TargetMode::Hosts(names) => exists|i: int|
                            0 <= i < names@.len() && (#[trigger] names@[i])@ == h.name@,
                        TargetMode::Groups(groups) => exists|i: int, j: int|
                            0 <= i < h.groups@.len() && 0 <= j < groups@.len() && (
                            #[trigger] h.groups@[i])@ == (#[trigger] groups@[j])@,
                        TargetMode::Shell(shells) => exists|i: int|
                            0 <= i < shells@.len() && #[trigger] shells@[i] == h.shell,
                    })
                },
    {
        let all = self.config.host@;
        assert forall|k: int| 0 <= k < all.len() implies ({
            let h = #[trigger] all[k];
            target_hosts(all, self.mode@).contains(h) <==> (match self.mode {
                TargetMode::All => true,
                TargetMode::Hosts(names) => exists|i: int|
                    0 <= i < names@.len() && (#[trigger] names@[i])@ == h.name@,
                TargetMode::Groups(groups) => exists|i: int, j: int|
                    0 <= i < h.groups@.len() && 0 <= j < groups@.len() && (
                    #[trigger] h.groups@[i])@ == (#[trigger] groups@[j])@,
                TargetMode::Shell(shells) => exists|i: int|
                    0 <= i < shells@.len() && #[trigger] shells@[i] == h.shell,
            })
        }) by {
            let h = all[k];
            filter_holds(all, |x: HostEntry| is_target(x, self.mode@), h);
            assert(all.contains(h));
            match self.mode {
                TargetMode::All => {},
                TargetMode::Hosts(names) => {
                    let list = texts(names@);
                    if list.contains(h.name@) {
                        let i = list.index_of(h.name@);
                        assert(names@[i]@ == h.name@);
                    }
                    if exists|i: int| 0 <= i < names@.len() && (#[trigger] names@[i])@ == h.name@ {
                        let i = choose|i: int|
                            0 <= i < names@.len() && (#[trigger] names@[i])@ == h.name@;
                        assert(list[i] == h.name@);
                        assert(list.contains(h.name@));
                    }
                },
                TargetMode::Groups(groups) => {
                    let list = texts(groups@);
                    shared_texts(h.groups@, list);
                    if shares(texts(h.groups@), list) {
                        let (i, j) = choose|i: int, j: int|
                            0 <= i < h.groups@.len() && 0 <= j < list.len()
                                && #[trigger] h.groups@[i]@ == #[trigger] list[j];
                        assert(h.groups@[i]@ == groups@[j]@);
                    }
                    if exists|i: int, j: int|
                        0 <= i < h.groups@.len() && 0 <= j < groups@.len() && (
                        #[trigger] h.groups@[i])@ == (#[trigger] groups@[j])@ {
                        let (i, j) = choose|i: int, j: int|
                            0 <= i < h.groups@.len() && 0 <= j < groups@.len() && (
                            #[trigger] h.groups@[i])@ == (#[trigger] groups@[j])@;
                        assert(h.groups@[i]@ == list[j]);
                    }
                },
                TargetMode::Shell(shells) => {
                    if shells@.contains(h.shell) {
                        assert(shells@[shells@.index_of(h.shell)] == h.shell);
                    }
                },
            }
        }
    }

    /// The targeted hosts; an error with hints where there is none.
    pub fn resolve_hosts(&self) -> (r: Result<Vec<&HostEntry>, Error>)
        ensures
            r is Ok <==> target_hosts(self.config.host@, self.mode@).len() > 0,
            r matches Ok(hosts) ==> pointees(hosts@) == target_hosts(
                self.config.host@,
                self.mode@,
            ),
            r matches Err(e) ==> e@ == no_match_message(self.config.host@, self.mode@),
            forall|k: int|
                0 <= k < self.config.host@.len() ==> {
                    let h = #[trigger] self.config.host@[k];
                    (r is Ok && pointees(r->Ok_0@).contains(h)) <==> (match self.mode {
                        TargetMode::All => true,
                        TargetMode::Hosts(names) => exists|i: int|
                            0 <= i < names@.len() && (#[trigger] names@[i])@ == h.name@,
                        TargetMode::Groups(groups) => exists|i: int, j: int|
                            0 <= i < h.groups@.len() && 0 <= j < groups@.len() && (
                            #[trigger] h.groups@[i])@ == (#[trigger] groups@[j])@,
                        TargetMode::Shell(shells) => exists|i: int|
                            0 <= i < shells@.len() && #[trigger] shells@[i] == h.shell,
                    })
                },
    {
        let ghost p = |h: HostEntry| is_target(h, self.mode@);
        let ghost all = self.config.host@;
        let mut out: Vec<&HostEntry> = Vec::new();
        let mut i: usize = 0;
        proof {
            filter_none(all, p);
            assert(pointees(out@) =~= Seq::empty());
        }
        while i < self.config.host.len()
            invariant
                i <= all.len(),
                all == self.config.host@,
                p == (|h: HostEntry| is_target(h, self.mode@)),
                pointees(out@) == all.take(i as int).filter(p),
            decreases all.len() - i,
        {
            let h = &self.config.host[i];
            proof {
                filter_next(all, p, i as int);
            }
            let ghost before = pointees(out@);
            if targeted(h, &self.mode) {
                out.push(h);
                assert(pointees(out@) =~= before.push(*h));
            }
            i += 1;
        }
        assert(all.take(i as int) =~= all);
        assert(pointees(out@).len() == out@.len());
        proof {
            self.targets_in_full();
        }
        if out.len() == 0 {
            return Err(Error { message: no_match(&self.config, &self.mode) });
        }
        Ok(out)
    }

    /// How many hosts are worked on at the same time.
    pub fn concurrency(&self) -> (r: usize)
        ensures
            r == (if self.serial {
                1
            } else {
                self.config.settings.max_concurrency
            }),
    {
        if self.serial {
            1
        } else {
            self.config.settings.max_concurrency
        }
    }

    /// How many channels are open to one host at the same time.
    pub fn per_host_concurrency(&self) -> (r: usize)
        ensures
            r == (if self.serial {
                1
            } else {
                self.config.settings.max_per_host_concurrency
            }),
    {
        if self.serial {
            1
        } else {
            self.config.settings.max_per_host_concurrency
        }
    }

    /// The check entries that apply to the targets.
    pub fn resolve_checks(&self) -> (r: Vec<&CheckEntry>)
        ensures
            pointees(r@) == self.config.check@.filter(|e: CheckEntry| applies(e, self.mode@)),
    {
        filter_entries_by_mode(self.config.check.as_slice(), &self.mode)
    }

    /// The sync entries that apply to the targets.
    pub fn resolve_syncs(&self) -> (r: Vec<&SyncEntry>)
        ensures
            pointees(r@) == self.config.sync@.filter(|e: SyncEntry| applies(e, self.mode@)),
    {
        filter_entries_by_mode(self.config.sync.as_slice(), &self.mode)
    }

    /// The check entries that are scoped to a group.
    pub fn resolve_checks_for_group(&self, group: &str) -> (r: Vec<&CheckEntry>)
        ensures
            pointees(r@) == self.config.check@.filter(
                |e: CheckEntry| texts(e.groups@).contains(group@),
            ),
    {
        let r = filter_entries_by_group(self.config.check.as_slice(), group);
        assert((|e: CheckEntry| e.spec_groups().contains(group@)) =~= (|e: CheckEntry|
            texts(e.groups@).contains(group@)));
        r
    }

    /// The sync entries that are scoped to a group.
    pub fn resolve_syncs_for_group(&self, group: &str) -> (r: Vec<&SyncEntry>)
        ensures
            pointees(r@) == self.config.sync@.filter(
                |e: SyncEntry| texts(e.groups@).contains(group@),
            ),
    {
        let r = filter_entries_by_group(self.config.sync.as_slice(), group);
        assert((|e: SyncEntry| e.spec_groups().contains(group@)) =~= (|e: SyncEntry|
            texts(e.groups@).contains(group@)));
        r
    }
}

// ---------------------------------------------------------------------------
// Laws
// ---------------------------------------------------------------------------

/// Aimed at hosts by name, a command reaches exactly the configured hosts that have one
/// of the names, whichever name of the list it is, in the order of the configuration.
pub proof fn every_name_selects_its_host(hosts: Seq<HostEntry>, names: Seq<Seq<char>>) -> (at: Seq<
    int,
>)
    ensures
        picked(hosts, at, target_hosts(hosts, TargetView::Hosts(names))),
        forall|k: int|
            0 <= k < hosts.len() ==> (at.contains(k) <==> exists|i: int|
                0 <= i < names.len() && #[trigger] names[i] == (#[trigger] hosts[k]).name@),
{
    let mode = TargetView::Hosts(names);
    let at = filter_picks(hosts, |h: HostEntry| is_target(h, mode));
    assert forall|k: int| 0 <= k < hosts.len() implies (at.contains(k) <==> exists|i: int|
        0 <= i < names.len() && #[trigger] names[i] == (#[trigger] hosts[k]).name@) by {
        if names.contains(hosts[k].name@) {
            assert(names[names.index_of(hosts[k].name@)] == hosts[k].name@);
        }
    }
    at
}

/// Aimed at groups, a command reaches exactly the hosts that name one of the groups as
/// their own.
pub proof fn every_group_selects_its_hosts(
    hosts: Seq<HostEntry>,
    groups: Seq<Seq<char>>,
) -> (at: Seq<int>)
    ensures
        picked(hosts, at, target_hosts(hosts, TargetView::Groups(groups))),
        forall|k: int|
            0 <= k < hosts.len() ==> (at.contains(k) <==> exists|i: int, j: int|
                0 <= i < hosts[k].groups@.len() && 0 <= j < groups.len() && #[trigger] (
                #[trigger] hosts[k]).groups@[i]@ == #[trigger] groups[j]),
{
    let mode = TargetView::Groups(groups);
    let at = filter_picks(hosts, |h: HostEntry| is_target(h, mode));
    assert forall|k: int| 0 <= k < hosts.len() implies (at.contains(k) <==> exists|i: int, j: int|
        0 <= i < hosts[k].groups@.len() && 0 <= j < groups.len() && #[trigger] (
        #[trigger] hosts[k]).groups@[i]@ == #[trigger] groups[j]) by {
        let own = texts(hosts[k].groups@);
        if shares(own, groups) {
            let i = choose|i: int| 0 <= i < own.len() && groups.contains(#[trigger] own[i]);
            let j = groups.index_of(own[i]);
            assert(hosts[k].groups@[i]@ == groups[j]);
        }
        if exists|i: int, j: int|
            0 <= i < hosts[k].groups@.len() && 0 <= j < groups.len()
                && #[trigger] hosts[k].groups@[i]@ == #[trigger] groups[j] {
            let (i, j) = choose|i: int, j: int|
                0 <= i < hosts[k].groups@.len() && 0 <= j < groups.len()
                    && #[trigger] hosts[k].groups@[i]@ == #[trigger] groups[j];
            assert(own[i] == groups[j]);
            assert(groups.contains(own[i]));
        }
    }
    at
}

/// Aimed at shells, a command reaches exactly the hosts with one of them.
pub proof fn every_shell_selects_its_hosts(
    hosts: Seq<HostEntry>,
    shells: Seq<ShellType>,
) -> (at: Seq<int>)
    ensures
        picked(hosts, at, target_hosts(hosts, TargetView::Shell(shells))),
        forall|k: int|
            0 <= k < hosts.len() ==> (at.contains(k) <==> exists|i: int|
                0 <= i < shells.len() && #[trigger] shells[i] == (#[trigger] hosts[k]).shell),
{
    let mode = TargetView::Shell(shells);
    let at = filter_picks(hosts, |h: HostEntry| is_target(h, mode));
    assert forall|k: int| 0 <= k < hosts.len() implies (at.contains(k) <==> exists|i: int|
        0 <= i < shells.len() && #[trigger] shells[i] == (#[trigger] hosts[k]).shell) by {
        if shells.contains(hosts[k].shell) {
            assert(shells[shells.index_of(hosts[k].shell)] == hosts[k].shell);
        }
    }
    at
}

/// Aimed at all hosts, a command reaches every configured host, as they stand.
pub proof fn all_selects_every_host(hosts: Seq<HostEntry>)
    ensures
        target_hosts(hosts, TargetView::All) == hosts,
    decreases hosts.len(),
{
    reveal(Seq::filter);
    if hosts.len() > 0 {
        all_selects_every_host(hosts.drop_last());
        assert(hosts.drop_last().push(hosts.last()) =~= hosts);
    } else {
        assert(target_hosts(hosts, TargetView::All) =~= hosts);
    }
}

/// The flag that is given, alone, decides the targets, with all that is listed behind it.
pub proof fn a_single_flag_decides(target: TargetArgs)
    requires
        flag_count(target) == 1,
    ensures
        target.all ==> flag_target(target) == TargetView::All,
        target.host@.len() > 0 ==> flag_target(target) == TargetView::Hosts(texts(target.host@)),
        target.group@.len() > 0 ==> flag_target(target) == TargetView::Groups(
            texts(target.group@),
        ),
        target.shell@.len() > 0 ==> flag_target(target) == TargetView::Shell(target.shell@),
        target.all || target.host@.len() > 0 || target.group@.len() > 0 || target.shell@.len() > 0,
        !(target.all && target.host@.len() > 0),
        !(target.host@.len() > 0 && target.group@.len() > 0),
        !(target.group@.len() > 0 && target.shell@.len() > 0),
        !(target.all && target.shell@.len() > 0),
{
}

/// The groups there are to choose from are those that some host names, but for empty
/// names.
pub proof fn available_groups_are_named(hosts: Seq<HostEntry>, g: Seq<char>)
    ensures
        available_groups(hosts).contains(g) <==> g.len() > 0 && exists|k: int, i: int|
            0 <= k < hosts.len() && 0 <= i < hosts[k].groups@.len() && #[trigger] hosts[k].groups@[
                i
            ]@ == g,
        ascending(available_groups(hosts), by_text()),
{
    by_text_is_strict();
    sorted_set_facts(named_groups(hosts), by_text());
    named_groups_are_named(hosts, g);
}

proof fn nonempty_holds(list: Seq<Seq<char>>, g: Seq<char>)
    ensures
        nonempty(list).contains(g) <==> g.len() > 0 && list.contains(g),
    decreases list.len(),
{
    if list.len() > 0 {
        let rest = list.drop_last();
        nonempty_holds(rest, g);
        let before = nonempty(rest);
        if rest.contains(g) {
            assert(list[rest.index_of(g)] == g);
        }
        if list.contains(g) && list.last() != g {
            assert(rest[list.index_of(g)] == g);
        }
        if list.last().len() > 0 {
            let after = before.push(list.last());
            if before.contains(g) {
                assert(after[before.index_of(g)] == g);
            }
            assert(after[before.len() as int] == list.last());
            if after.contains(g) && list.last() != g {
                assert(before[after.index_of(g)] == g);
            }
        }
        assert(list[list.len() - 1] == list.last());
    }
}

proof fn named_groups_are_named(hosts: Seq<HostEntry>, g: Seq<char>)
    ensures
        named_groups(hosts).contains(g) <==> g.len() > 0 && exists|k: int, i: int|
            0 <= k < hosts.len() && 0 <= i < hosts[k].groups@.len() && #[trigger] hosts[k].groups@[
                i
            ]@ == g,
    decreases hosts.len(),
{
    if hosts.len() > 0 {
        let rest = hosts.drop_last();
        let n = hosts.len() - 1;
        named_groups_are_named(rest, g);
        let before = named_groups(rest);
        let own = texts(hosts.last().groups@);
        let more = nonempty(own);
        nonempty_holds(own, g);
        let all = before + more;
        if before.contains(g) {
            assert(all[before.index_of(g)] == g);
            let (k, i) = choose|k: int, i: int|
                0 <= k < rest.len() && 0 <= i < rest[k].groups@.len()
                    && #[trigger] rest[k].groups@[i]@ == g;
            assert(hosts[k].groups@[i]@ == g);
        }
        if more.contains(g) {
            assert(all[before.len() + more.index_of(g)] == g);
            let i = own.index_of(g);
            assert(hosts[n].groups@[i]@ == g);
        }
        if all.contains(g) {
            let m = all.index_of(g);
            if m < before.len() {
                assert(before[m] == g);
            } else {
                assert(more[m - before.len()] == g);
            }
        }
        if g.len() > 0 && exists|k: int, i: int|
            0 <= k < hosts.len() && 0 <= i < hosts[k].groups@.len() && #[trigger] hosts[k].groups@[
                i
            ]@ == g {
            let (k, i) = choose|k: int, i: int|
                0 <= k < hosts.len() && 0 <= i < hosts[k].groups@.len()
                    && #[trigger] hosts[k].groups@[i]@ == g;
            if k < n {
                assert(rest[k].groups@[i]@ == g);
            } else {
                assert(own[i] == g);
                assert(own.contains(g));
            }
        }
    }
}

/// An entry applies to all hosts where it is enabled for all, to hosts by name or shell
/// where it is enabled for those, and to groups where it is scoped to one of them.
pub proof fn scopes_decide_what_applies(
    c: CheckEntry,
    s: SyncEntry,
    names: Seq<Seq<char>>,
    shells: Seq<ShellType>,
    groups: Seq<Seq<char>>,
)
    ensures
        applies(c, TargetView::All) == c.enable_all,
        applies(s, TargetView::All) == s.enable_all,
        applies(c, TargetView::Hosts(names)) == c.enable_hosts,
        applies(s, TargetView::Hosts(names)) == s.enable_hosts,
        applies(c, TargetView::Shell(shells)) == c.enable_hosts,
        applies(s, TargetView::Shell(shells)) == s.enable_hosts,
        applies(c, TargetView::Groups(groups)) <==> exists|i: int, j: int|
            0 <= i < c.groups@.len() && 0 <= j < groups.len() && #[trigger] c.groups@[i]@
                == #[trigger] groups[j],
        applies(s, TargetView::Groups(groups)) <==> exists|i: int, j: int|
            0 <= i < s.groups@.len() && 0 <= j < groups.len() && #[trigger] s.groups@[i]@
                == #[trigger] groups[j],
{
    shared_texts(c.groups@, groups);
    shared_texts(s.groups@, groups);
}

proof fn shared_texts(own: Seq<String>, groups: Seq<Seq<char>>)
    ensures
        shares(texts(own), groups) <==> exists|i: int, j: int|
            0 <= i < own.len() && 0 <= j < groups.len() && #[trigger] own[i]@
                == #[trigger] groups[j],
{
    let names = texts(own);
    if shares(names, groups) {
        let i = choose|i: int| 0 <= i < names.len() && groups.contains(#[trigger] names[i]);
        let j = groups.index_of(names[i]);
        assert(own[i]@ == groups[j]);
    }
    if exists|i: int, j: int|
        0 <= i < own.len() && 0 <= j < groups.len() && #[trigger] own[i]@ == #[trigger] groups[j] {
        let (i, j) = choose|i: int, j: int|
            0 <= i < own.len() && 0 <= j < groups.len() && #[trigger] own[i]@
                == #[trigger] groups[j];
        assert(names[i] == groups[j]);
        assert(groups.contains(names[i]));
    }
}

/// A shell is offered with exactly the hosts that have it.
pub proof fn shells_are_offered_with_their_hosts(
    hosts: Seq<HostEntry>,
    shell: ShellType,
    h: HostEntry,
)
    ensures
        hosts_with_shell(hosts, shell).contains(h) <==> hosts.contains(h) && h.shell == shell,
        shell_part(hosts, shell).len() > 0 <==> exists|k: int|
            0 <= k < hosts.len() && (#[trigger] hosts[k]).shell == shell,
{
    let with = hosts_with_shell(hosts, shell);
    filter_holds(hosts, |h: HostEntry| h.shell == shell, h);
    if with.len() > 0 {
        filter_holds(hosts, |h: HostEntry| h.shell == shell, with[0]);
        assert(with.contains(with[0]));
        let k = hosts.index_of(with[0]);
        assert(hosts[k].shell == shell);
    }
    if exists|k: int| 0 <= k < hosts.len() && (#[trigger] hosts[k]).shell == shell {
        let k = choose|k: int| 0 <= k < hosts.len() && (#[trigger] hosts[k]).shell == shell;
        filter_holds(hosts, |h: HostEntry| h.shell == shell, hosts[k]);
        assert(hosts.contains(hosts[k]));
        assert(with.len() > 0) by {
            assert(with[with.index_of(hosts[k])] == hosts[k]);
        }
    }
}

/// Where no host matched, every group and every host is offered.
pub proof fn every_host_is_offered(
    hosts: Seq<HostEntry>,
    i: int,
) -> (around: (Seq<char>, Seq<char>))
    requires
        0 <= i < hosts.len(),
    ensures
        available_hints(hosts) == around.0 + hosts[i].name@ + around.1,
{
    let names = host_names(hosts);
    let (a, b) = crate::scan::joined_texts_hold_their_parts(names, ", "@, i);
    assert(names[i] == hosts[i].name@);
    let front = if available_groups(hosts).len() > 0 {
        "\n\nAvailable groups: "@ + join(available_groups(hosts), ", "@)
    } else {
        Seq::empty()
    };
    let pre = front + "\nAvailable hosts: "@ + a;
    assert(available_hints(hosts) =~= pre + hosts[i].name@ + b);
    (pre, b)
}

} // verus!
