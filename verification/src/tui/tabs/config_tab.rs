//! The Config tab: a list of sections and entries beside a table of fields.

use vstd::prelude::*;

use crate::config::schema::{AppConfig, CheckEntry, CheckPath, HostEntry, Settings, SyncEntry};
use crate::host::session_pool::push_pair_text;
use crate::scan::{join, join_all};
use crate::text::{
    bool_text, chars_of, concat2, concat3, copy, decimal, decimal_text, pair_texts, show_bool,
    texts, texts_push, usize_text,
};
use crate::tui::components::viewport::{min, Viewport};
use crate::tui::key::{KeyCode, KeyEvent};
use crate::tui::width::{cut, measure, text_width, truncate};

verus! {

broadcast use texts_push;

/// The part of the tab that has the focus.
#[derive(Debug, Clone, Copy, PartialEq, Eq, Structural)]
pub enum ConfigZone {
    Sidebar,
    FieldTable,
}

/// One row of the sidebar; entries are known by their place in the configuration.
#[derive(Debug, Clone, Copy, PartialEq, Eq, Structural)]
pub enum SidebarItem {
    SectionSettings,
    SectionHosts,
    Host(usize),
    SectionChecks,
    Check(usize),
    SectionSyncs,
    Sync(usize),
}

// ---------------------------------------------------------------------------
// The sidebar
// ---------------------------------------------------------------------------

/// The rows of the sidebar: each section, followed by its entries.
pub open spec fn sidebar(hosts: nat, checks: nat, syncs: nat) -> Seq<SidebarItem> {
    seq![SidebarItem::SectionSettings, SidebarItem::SectionHosts] + Seq::new(
        hosts,
        |i: int| SidebarItem::Host(i as usize),
    ) + seq![SidebarItem::SectionChecks] + Seq::new(checks, |i: int| SidebarItem::Check(i as usize))
        + seq![SidebarItem::SectionSyncs] + Seq::new(syncs, |i: int| SidebarItem::Sync(i as usize))
}

/// The rows of the sidebar for a configuration.
pub open spec fn sidebar_of(config: AppConfig) -> Seq<SidebarItem> {
    sidebar(config.host@.len(), config.check@.len(), config.sync@.len())
}

/// Lists the rows of the sidebar.
pub fn build_sidebar_items(config: &AppConfig) -> (r: Vec<SidebarItem>)
    ensures
        r@ == sidebar_of(*config),
{
    let mut items: Vec<SidebarItem> = Vec::new();
    items.push(SidebarItem::SectionSettings);
    items.push(SidebarItem::SectionHosts);
    let ghost head = items@;
    let mut i: usize = 0;
    assert(items@ =~= head + Seq::new(0, |j: int| SidebarItem::Host(j as usize)));
    while i < config.host.len()
        invariant
            i <= config.host@.len(),
            items@ == head + Seq::new(i as nat, |j: int| SidebarItem::Host(j as usize)),
        decreases config.host@.len() - i,
    {
        items.push(SidebarItem::Host(i));
        i += 1;
        assert(items@ =~= head + Seq::new(i as nat, |j: int| SidebarItem::Host(j as usize)));
    }
    items.push(SidebarItem::SectionChecks);
    let ghost hosts = items@;
    let mut i: usize = 0;
    assert(items@ =~= hosts + Seq::new(0, |j: int| SidebarItem::Check(j as usize)));
    while i < config.check.len()
        invariant
            i <= config.check@.len(),
            items@ == hosts + Seq::new(i as nat, |j: int| SidebarItem::Check(j as usize)),
        decreases config.check@.len() - i,
    {
        items.push(SidebarItem::Check(i));
        i += 1;
        assert(items@ =~= hosts + Seq::new(i as nat, |j: int| SidebarItem::Check(j as usize)));
    }
    items.push(SidebarItem::SectionSyncs);
    let ghost checks = items@;
    let mut i: usize = 0;
    assert(items@ =~= checks + Seq::new(0, |j: int| SidebarItem::Sync(j as usize)));
    while i < config.sync.len()
        invariant
            i <= config.sync@.len(),
            items@ == checks + Seq::new(i as nat, |j: int| SidebarItem::Sync(j as usize)),
        decreases config.sync@.len() - i,
    {
        items.push(SidebarItem::Sync(i));
        i += 1;
        assert(items@ =~= checks + Seq::new(i as nat, |j: int| SidebarItem::Sync(j as usize)));
    }
    assert(items@ =~= sidebar_of(*config));
    items
}

/// The label of a check: its number and its groups.
pub open spec fn check_label(config: AppConfig, i: int) -> Seq<char> {
    let number = "Check #"@ + decimal((i + 1) as nat);
    if 0 <= i < config.check@.len() && config.check@[i].groups@.len() > 0 {
        number + " ["@ + join(texts(config.check@[i].groups@), ","@) + "]"@
    } else {
        number
    }
}

/// Writes the label of a check.
pub fn entry_label_check(config: &AppConfig, i: usize) -> (r: String)
    requires
        i < usize::MAX,
    ensures
        r@ == check_label(*config, i as int),
{
    let number = concat2("Check #", usize_text(i + 1).as_str());
    if i < config.check.len() && config.check[i].groups.len() > 0 {
        let mut out = concat2(number.as_str(), " [");
        out.append(join_all(config.check[i].groups.as_slice(), ",").as_str());
        out.append("]");
        out
    } else {
        number
    }
}

/// The label of a sync entry: its number and the beginning of its first path.
pub open spec fn sync_label(config: AppConfig, i: int) -> Seq<char> {
    let number = "Sync #"@ + decimal((i + 1) as nat);
    if 0 <= i < config.sync@.len() && config.sync@[i].paths@.len() > 0 && cut(
        config.sync@[i].paths@[0]@,
        10,
    ).len() > 0 {
        number + ": "@ + cut(config.sync@[i].paths@[0]@, 10)
    } else {
        number
    }
}

/// Writes the label of a sync entry.
pub fn entry_label_sync(config: &AppConfig, i: usize) -> (r: String)
    requires
        i < usize::MAX,
    ensures
        r@ == sync_label(*config, i as int),
{
    let number = concat2("Sync #", usize_text(i + 1).as_str());
    if i < config.sync.len() && config.sync[i].paths.len() > 0 {
        let hint = truncate(config.sync[i].paths[0].as_str(), 10);
        if chars_of(hint.as_str()).len() > 0 {
            return concat3(number.as_str(), ": ", hint.as_str());
        }
    }
    number
}

/// The name of a host; a question mark where there is none.
pub open spec fn host_label(config: AppConfig, i: int) -> Seq<char> {
    if 0 <= i < config.host@.len() {
        config.host@[i].name@
    } else {
        "?"@
    }
}

fn label_of_host(config: &AppConfig, i: usize) -> (r: String)
    ensures
        r@ == host_label(*config, i as int),
{
    if i < config.host.len() {
        copy(config.host[i].name.as_str())
    } else {
        copy("?")
    }
}

/// A row of the sidebar: its indent, its text and whether it is a heading.
pub open spec fn item_display(item: SidebarItem, config: AppConfig) -> (Seq<char>, Seq<char>, bool) {
    match item {
        SidebarItem::SectionSettings => (""@, "Settings"@, true),
        SidebarItem::SectionHosts => (
            ""@,
            "Hosts ("@ + decimal(config.host@.len()) + ")"@,
            true,
        ),
        SidebarItem::Host(i) => ("  "@, host_label(config, i as int), false),
        SidebarItem::SectionChecks => (
            ""@,
            "Checks ("@ + decimal(config.check@.len()) + ")"@,
            true,
        ),
        SidebarItem::Check(i) => ("  "@, check_label(config, i as int), false),
        SidebarItem::SectionSyncs => (
            ""@,
            "Syncs ("@ + decimal(config.sync@.len()) + ")"@,
            true,
        ),
        SidebarItem::Sync(i) => ("  "@, sync_label(config, i as int), false),
    }
}

/// Whether the entry of a row can be numbered.
pub open spec fn numbered(item: SidebarItem) -> bool {
    match item {
        SidebarItem::Check(i) => i < usize::MAX,
        SidebarItem::Sync(i) => i < usize::MAX,
        _ => true,
    }
}

/// Describes a row of the sidebar.
pub fn sidebar_item_display(item: SidebarItem, config: &AppConfig) -> (r: (
    &'static str,
    String,
    bool,
))
    requires
        numbered(item),
    ensures
        (r.0@, r.1@, r.2) == item_display(item, *config),
{
    match item {
        SidebarItem::SectionSettings => ("", copy("Settings"), true),
        SidebarItem::SectionHosts => (
            "",
            concat3("Hosts (", usize_text(config.host.len()).as_str(), ")"),
            true,
        ),
        SidebarItem::Host(i) => ("  ", label_of_host(config, i), false),
        SidebarItem::SectionChecks => (
            "",
            concat3("Checks (", usize_text(config.check.len()).as_str(), ")"),
            true,
        ),
        SidebarItem::Check(i) => ("  ", entry_label_check(config, i), false),
        SidebarItem::SectionSyncs => (
            "",
            concat3("Syncs (", usize_text(config.sync.len()).as_str(), ")"),
            true,
        ),
        SidebarItem::Sync(i) => ("  ", entry_label_sync(config, i), false),
    }
}

// ---------------------------------------------------------------------------
// Fields
// ---------------------------------------------------------------------------

/// A field: its name and its value.
pub type FieldView = (Seq<char>, Seq<char>);

/// A field that is there or not.
pub open spec fn optional(name: Seq<char>, value: Option<Seq<char>>) -> Seq<FieldView> {
    match value {
        Some(v) => seq![(name, v)],
        None => Seq::empty(),
    }
}

/// A list in brackets, or a word where it is empty.
pub open spec fn bracketed(list: Seq<Seq<char>>, none: Seq<char>) -> Seq<char> {
    if list.len() == 0 {
        none
    } else {
        "["@ + join(list, ", "@) + "]"@
    }
}

fn brackets(list: &Vec<String>, none: &str) -> (r: String)
    ensures
        r@ == bracketed(texts(list@), none@),
{
    if list.len() == 0 {
        copy(none)
    } else {
        concat3("[", join_all(list.as_slice(), ", ").as_str(), "]")
    }
}

/// The fields of the settings.
pub open spec fn settings_rows(s: Settings) -> Seq<FieldView> {
    seq![
        ("default_timeout"@, decimal(s.default_timeout as nat) + "s"@),
        ("data_retention_days"@, decimal(s.data_retention_days as nat) + "d"@),
        ("conflict_strategy"@, s.conflict_strategy.spec_name()),
        ("propagate_deletes"@, bool_text(s.propagate_deletes)),
        ("max_concurrency"@, decimal(s.max_concurrency as nat)),
        ("max_per_host_concurrency"@, decimal(s.max_per_host_concurrency as nat)),
    ] + optional("state_dir"@, crate::text::text_opt(s.state_dir)) + optional(
        "default_output_format"@,
        crate::text::text_opt(s.default_output_format),
    ) + (if s.skipped_hosts@.len() > 0 {
        seq![("skipped_hosts"@, "["@ + join(texts(s.skipped_hosts@), ", "@) + "]"@)]
    } else {
        Seq::empty()
    })
}

fn push_optional(f: &mut Vec<(String, String)>, name: &str, value: &Option<String>)
    ensures
        pair_texts(final(f)@) == pair_texts(old(f)@) + optional(
            name@,
            crate::text::text_opt(*value),
        ),
{
    let ghost before = pair_texts(f@);
    match value {
        Some(v) => push_pair_text(f, name, v.as_str()),
        None => {},
    }
    assert(pair_texts(f@) =~= before + optional(name@, crate::text::text_opt(*value)));
}

/// Lists the fields of the settings.
pub fn settings_fields(s: &Settings) -> (r: Vec<(String, String)>)
    ensures
        pair_texts(r@) == settings_rows(*s),
{
    let mut f: Vec<(String, String)> = Vec::new();
    push_pair_text(
        &mut f,
        "default_timeout",
        concat2(decimal_text(s.default_timeout).as_str(), "s").as_str(),
    );
    push_pair_text(
        &mut f,
        "data_retention_days",
        concat2(decimal_text(s.data_retention_days).as_str(), "d").as_str(),
    );
    push_pair_text(&mut f, "conflict_strategy", s.conflict_strategy.name());
    push_pair_text(&mut f, "propagate_deletes", show_bool(s.propagate_deletes).as_str());
    push_pair_text(&mut f, "max_concurrency", usize_text(s.max_concurrency).as_str());
    push_pair_text(
        &mut f,
        "max_per_host_concurrency",
        usize_text(s.max_per_host_concurrency).as_str(),
    );
    push_optional(&mut f, "state_dir", &s.state_dir);
    push_optional(&mut f, "default_output_format", &s.default_output_format);
    if s.skipped_hosts.len() > 0 {
        push_pair_text(
            &mut f,
            "skipped_hosts",
            concat3("[", join_all(s.skipped_hosts.as_slice(), ", ").as_str(), "]").as_str(),
        );
    }
    assert(pair_texts(f@) =~= settings_rows(*s));
    f
}

/// The fields of a host.
pub open spec fn host_rows(h: HostEntry) -> Seq<FieldView> {
    seq![
        ("name"@, h.name@),
        ("ssh_host"@, h.ssh_host@),
        ("shell"@, h.shell.spec_name()),
        ("groups"@, bracketed(texts(h.groups@), "(none)"@)),
    ] + optional("proxy_jump"@, crate::text::text_opt(h.proxy_jump))
}

/// Lists the fields of a host.
pub fn host_fields(h: &HostEntry) -> (r: Vec<(String, String)>)
    ensures
        pair_texts(r@) == host_rows(*h),
{
    let mut f: Vec<(String, String)> = Vec::new();
    push_pair_text(&mut f, "name", h.name.as_str());
    push_pair_text(&mut f, "ssh_host", h.ssh_host.as_str());
    push_pair_text(&mut f, "shell", h.shell.name());
    push_pair_text(&mut f, "groups", brackets(&h.groups, "(none)").as_str());
    push_optional(&mut f, "proxy_jump", &h.proxy_jump);
    assert(pair_texts(f@) =~= host_rows(*h));
    f
}

/// The fields of the watched paths.
pub open spec fn path_rows(paths: Seq<CheckPath>) -> Seq<FieldView> {
    Seq::new(
        paths.len(),
        |i: int|
            ("path["@ + decimal(i as nat) + "]"@, paths[i].label@ + " → "@ + paths[i].path@),
    )
}

/// The fields of a check.
pub open spec fn check_rows(c: CheckEntry) -> Seq<FieldView> {
    seq![
        ("enabled"@, bracketed(texts(c.enabled@), "(none)"@)),
        ("groups"@, bracketed(texts(c.groups@), "(unscoped)"@)),
        ("enable_hosts"@, bool_text(c.enable_hosts)),
        ("enable_all"@, bool_text(c.enable_all)),
    ] + path_rows(c.path@)
}

/// Lists the fields of a check.
pub fn check_fields(c: &CheckEntry) -> (r: Vec<(String, String)>)
    ensures
        pair_texts(r@) == check_rows(*c),
{
    let mut f: Vec<(String, String)> = Vec::new();
    push_pair_text(&mut f, "enabled", brackets(&c.enabled, "(none)").as_str());
    push_pair_text(&mut f, "groups", brackets(&c.groups, "(unscoped)").as_str());
    push_pair_text(&mut f, "enable_hosts", show_bool(c.enable_hosts).as_str());
    push_pair_text(&mut f, "enable_all", show_bool(c.enable_all).as_str());
    let ghost head = pair_texts(f@);
    let ghost all = path_rows(c.path@);
    let mut i: usize = 0;
    assert(head + all.take(0) =~= head);
    while i < c.path.len()
        invariant
            i <= c.path@.len(),
            all == path_rows(c.path@),
            pair_texts(f@) == head + all.take(i as int),
        decreases c.path@.len() - i,
    {
        let ghost before = pair_texts(f@);
        let name = concat3("path[", usize_text(i).as_str(), "]");
        let value = concat3(c.path[i].label.as_str(), " → ", c.path[i].path.as_str());
        push_pair_text(&mut f, name.as_str(), value.as_str());
        assert(all[i as int] == (name@, value@));
        i += 1;
        assert(before.push((name@, value@)) =~= head + all.take(i as int));
    }
    assert(all.take(i as int) =~= all);
    assert(pair_texts(f@) =~= check_rows(*c));
    f
}

/// The fields of a sync entry.
pub open spec fn sync_rows(s: SyncEntry) -> Seq<FieldView> {
    seq![
        ("paths"@, bracketed(texts(s.paths@), "(none)"@)),
        ("groups"@, bracketed(texts(s.groups@), "(unscoped)"@)),
        ("enable_hosts"@, bool_text(s.enable_hosts)),
        ("enable_all"@, bool_text(s.enable_all)),
        ("recursive"@, bool_text(s.recursive)),
    ] + optional("mode"@, crate::text::text_opt(s.mode)) + optional(
        "propagate_deletes"@,
        match s.propagate_deletes {
            Some(b) => Some(bool_text(b)),
            None => None,
        },
    ) + optional("source"@, crate::text::text_opt(s.source))
}

/// Lists the fields of a sync entry.
pub fn sync_fields(s: &SyncEntry) -> (r: Vec<(String, String)>)
    ensures
        pair_texts(r@) == sync_rows(*s),
{
    let mut f: Vec<(String, String)> = Vec::new();
    push_pair_text(&mut f, "paths", brackets(&s.paths, "(none)").as_str());
    push_pair_text(&mut f, "groups", brackets(&s.groups, "(unscoped)").as_str());
    push_pair_text(&mut f, "enable_hosts", show_bool(s.enable_hosts).as_str());
    push_pair_text(&mut f, "enable_all", show_bool(s.enable_all).as_str());
    push_pair_text(&mut f, "recursive", show_bool(s.recursive).as_str());
    push_optional(&mut f, "mode", &s.mode);
    let deletes = match s.propagate_deletes {
        Some(b) => Some(show_bool(b)),
        None => None,
    };
    push_optional(&mut f, "propagate_deletes", &deletes);
    push_optional(&mut f, "source", &s.source);
    assert(pair_texts(f@) =~= sync_rows(*s));
    f
}

/// How many entries of a kind there are, as a field.
pub open spec fn count_row(name: Seq<char>, n: nat) -> Seq<FieldView> {
    if n == 0 {
        Seq::empty()
    } else {
        seq![(name, decimal(n) + " configured"@)]
    }
}

fn count_field(name: &str, n: usize) -> (r: Vec<(String, String)>)
    ensures
        pair_texts(r@) == count_row(name@, n as nat),
{
    let mut f: Vec<(String, String)> = Vec::new();
    if n > 0 {
        push_pair_text(&mut f, name, concat2(usize_text(n).as_str(), " configured").as_str());
    }
    assert(pair_texts(f@) =~= count_row(name@, n as nat));
    f
}

/// The fields that are shown for a row of the sidebar.
pub open spec fn item_rows(item: SidebarItem, config: AppConfig) -> Seq<FieldView> {
    match item {
        SidebarItem::SectionSettings => settings_rows(config.settings),
        SidebarItem::SectionHosts => count_row("hosts"@, config.host@.len()),
        SidebarItem::Host(i) => if i < config.host@.len() {
            host_rows(config.host@[i as int])
        } else {
            Seq::empty()
        },
        SidebarItem::SectionChecks => count_row("checks"@, config.check@.len()),
        SidebarItem::Check(i) => if i < config.check@.len() {
            check_rows(config.check@[i as int])
        } else {
            Seq::empty()
        },
        SidebarItem::SectionSyncs => count_row("syncs"@, config.sync@.len()),
        SidebarItem::Sync(i) => if i < config.sync@.len() {
            sync_rows(config.sync@[i as int])
        } else {
            Seq::empty()
        },
    }
}

fn no_fields() -> (r: Vec<(String, String)>)
    ensures
        pair_texts(r@) == Seq::<FieldView>::empty(),
{
    let f: Vec<(String, String)> = Vec::new();
    assert(pair_texts(f@) =~= Seq::<FieldView>::empty());
    f
}

fn fields_of(item: SidebarItem, config: &AppConfig) -> (r: Vec<(String, String)>)
    ensures
        pair_texts(r@) == item_rows(item, *config),
{
    match item {
        SidebarItem::SectionSettings => settings_fields(&config.settings),
        SidebarItem::SectionHosts => count_field("hosts", config.host.len()),
        SidebarItem::Host(i) => if i < config.host.len() {
            host_fields(&config.host[i])
        } else {
            no_fields()
        },
        SidebarItem::SectionChecks => count_field("checks", config.check.len()),
        SidebarItem::Check(i) => if i < config.check.len() {
            check_fields(&config.check[i])
        } else {
            no_fields()
        },
        SidebarItem::SectionSyncs => count_field("syncs", config.sync.len()),
        SidebarItem::Sync(i) => if i < config.sync.len() {
            sync_fields(&config.sync[i])
        } else {
            no_fields()
        },
    }
}

// ---------------------------------------------------------------------------
// The tab
// ---------------------------------------------------------------------------

/// The state of the tab.
pub struct ConfigTabState {
    pub zone: ConfigZone,
    pub items: Vec<SidebarItem>,
    pub sidebar_vp: Viewport,
    pub field_vp: Viewport,
}

/// The state of the tab, as a value of the specification language.
pub ghost struct ConfigTabView {
    pub zone: ConfigZone,
    pub items: Seq<SidebarItem>,
    pub sidebar: Viewport,
    pub fields: Viewport,
}

impl View for ConfigTabState {
    type V = ConfigTabView;

    open spec fn view(&self) -> ConfigTabView {
        ConfigTabView {
            zone: self.zone,
            items: self.items@,
            sidebar: self.sidebar_vp,
            fields: self.field_vp,
        }
    }
}

/// A window at the top of a list of so many rows, of no height yet.
pub open spec fn top(n: nat) -> Viewport {
    Viewport { selected: 0, scroll_y: 0, visible_height: 0, item_count: n as usize }
}

/// A window that shows one row of a list, of no height yet.
pub open spec fn window_at(row: nat, n: nat) -> Viewport {
    Viewport {
        selected: row as usize,
        scroll_y: row as usize,
        visible_height: 0,
        item_count: n as usize,
    }
}

impl ConfigTabView {
    /// The fields that are shown.
    pub open spec fn rows(self, config: AppConfig) -> Seq<FieldView> {
        if self.sidebar.selected < self.items.len() {
            item_rows(self.items[self.sidebar.selected as int], config)
        } else {
            Seq::empty()
        }
    }

    /// With another row of the sidebar selected.
    pub open spec fn at(self, sidebar: Viewport, config: AppConfig) -> ConfigTabView {
        let moved = ConfigTabView { sidebar, ..self };
        ConfigTabView { fields: top(moved.rows(config).len()), ..moved }
    }
}

/// How a window moves by a key; `None` for a key that does not move it.
pub open spec fn scrolled(v: Viewport, code: KeyCode) -> Option<Viewport> {
    match code {
        KeyCode::Up => Some(v.moved_up()),
        KeyCode::Char(c) => if c == 'k' {
            Some(v.moved_up())
        } else if c == 'j' {
            Some(v.moved_down())
        } else {
            None
        },
        KeyCode::Down => Some(v.moved_down()),
        KeyCode::PageUp => Some(v.paged_up()),
        KeyCode::PageDown => Some(v.paged_down()),
        KeyCode::Home => Some(Viewport { selected: 0, scroll_y: 0, ..v }),
        KeyCode::End => Some(v.at_end()),
        _ => None,
    }
}

/// Moves a window by a key; the result is whether the key moves it.
pub fn scroll(v: &mut Viewport, code: KeyCode) -> (r: bool)
    requires
        old(v).wf(),
    ensures
        final(v).wf(),
        r == (scrolled(*old(v), code) is Some),
        *final(v) == (match scrolled(*old(v), code) {
            Some(w) => w,
            None => *old(v),
        }),
{
    match code {
        KeyCode::Up => v.move_up(),
        KeyCode::Char(c) => {
            if c == 'k' {
                v.move_up();
            } else if c == 'j' {
                v.move_down();
            } else {
                return false;
            }
        },
        KeyCode::Down => v.move_down(),
        KeyCode::PageUp => v.page_up(),
        KeyCode::PageDown => v.page_down(),
        KeyCode::Home => v.home(),
        KeyCode::End => v.end(),
        _ => {
            return false;
        },
    }
    true
}

/// What a key does on the tab; `None` for a key that does nothing here.
pub open spec fn tab_keyed(v: ConfigTabView, code: KeyCode, config: AppConfig) -> Option<
    ConfigTabView,
> {
    match v.zone {
        ConfigZone::Sidebar => match scrolled(v.sidebar, code) {
            Some(w) => Some(v.at(w, config)),
            None => if code == KeyCode::Right || code == KeyCode::Tab {
                Some(ConfigTabView { zone: ConfigZone::FieldTable, ..v })
            } else {
                None
            },
        },
        ConfigZone::FieldTable => match scrolled(v.fields, code) {
            Some(w) => Some(ConfigTabView { fields: w, ..v }),
            None => if code == KeyCode::Left || code == KeyCode::BackTab {
                Some(ConfigTabView { zone: ConfigZone::Sidebar, ..v })
            } else {
                None
            },
        },
    }
}

/// The tab with a changed configuration: the selection stays where it was as far as
/// there still is such a row.
pub open spec fn reloaded(v: ConfigTabView, config: AppConfig) -> ConfigTabView {
    ConfigTabView {
        zone: v.zone,
        items: sidebar_of(config),
        sidebar: if v.sidebar.selected < sidebar_of(config).len() {
            window_at(v.sidebar.selected as nat, sidebar_of(config).len())
        } else {
            top(sidebar_of(config).len())
        },
        fields: top(0),
    }
}

/// Where one stands in the configuration.
pub open spec fn trail(v: ConfigTabView, config: AppConfig) -> Seq<char> {
    if v.sidebar.selected >= v.items.len() {
        "Config"@
    } else {
        let item = v.items[v.sidebar.selected as int];
        let rows = item_rows(item, config);
        let base = match item {
            SidebarItem::SectionSettings => "Config > Settings"@,
            SidebarItem::SectionHosts => "Config > Hosts"@,
            SidebarItem::Host(i) => "Config > Hosts > "@ + host_label(config, i as int),
            SidebarItem::SectionChecks => "Config > Checks"@,
            SidebarItem::Check(i) => "Config > Checks > "@ + check_label(config, i as int),
            SidebarItem::SectionSyncs => "Config > Syncs"@,
            SidebarItem::Sync(i) => "Config > Syncs > "@ + sync_label(config, i as int),
        };
        if v.zone == ConfigZone::FieldTable && !is_counted_section(item) {
            base + " > "@ + (if v.fields.selected < rows.len() {
                rows[v.fields.selected as int].0
            } else {
                "?"@
            })
        } else {
            base
        }
    }
}

/// Whether a row is a heading over entries.
pub open spec fn is_counted_section(item: SidebarItem) -> bool {
    item == SidebarItem::SectionHosts || item == SidebarItem::SectionChecks || item
        == SidebarItem::SectionSyncs
}

/// Whether the rows of the sidebar belong to a configuration.
pub open spec fn belongs(items: Seq<SidebarItem>, config: AppConfig) -> bool {
    items == sidebar_of(config)
}

proof fn rows_are_numbered(config: AppConfig, i: int)
    requires
        0 <= i < sidebar_of(config).len(),
        config.host@.len() <= usize::MAX,
        config.check@.len() <= usize::MAX,
        config.sync@.len() <= usize::MAX,
    ensures
        numbered(sidebar_of(config)[i]),
{
}

impl ConfigTabState {
    /// Both windows are round their selections, and the sidebar has as many rows
    /// as its window counts.
    pub open spec fn wf(&self) -> bool {
        &&& self.sidebar_vp.wf()
        &&& self.field_vp.wf()
        &&& self.sidebar_vp.item_count == self.items@.len()
    }

    /// The tab when it is first shown.
    pub fn new(config: &AppConfig) -> (r: ConfigTabState)
        ensures
            r.wf(),
            r@ == (ConfigTabView {
                zone: ConfigZone::Sidebar,
                items: sidebar_of(*config),
                sidebar: top(sidebar_of(*config).len()),
                fields: top(0),
            }),
    {
        let items = build_sidebar_items(config);
        let mut sidebar_vp = Viewport::new();
        sidebar_vp.set_dims(items.len(), 0);
        ConfigTabState {
            zone: ConfigZone::Sidebar,
            items,
            sidebar_vp,
            field_vp: Viewport::new(),
        }
    }

    /// Takes over a changed configuration: the selection stays where it was as
    /// far as there still is such a row.
    pub fn reload(&mut self, config: &AppConfig)
        requires
            old(self).wf(),
        ensures
            final(self).wf(),
            final(self)@ == reloaded(old(self)@, *config),
    {
        self.items = build_sidebar_items(config);
        let n: usize = self.items.len();
        let chosen: usize = self.sidebar_vp.selected;
        let mut vp = Viewport::new();
        vp.set_dims(n, 0);
        if chosen < n {
            let mut i: usize = 0;
            while i < chosen
                invariant
                    i <= chosen < n,
                    vp.wf(),
                    vp == window_at(i as nat, n as nat),
                decreases chosen - i,
            {
                vp.move_down();
                i += 1;
            }
        }
        self.sidebar_vp = vp;
        self.field_vp = Viewport::new();
    }

    /// The fields that are shown.
    pub fn current_fields(&self, config: &AppConfig) -> (r: Vec<(String, String)>)
        ensures
            pair_texts(r@) == self@.rows(*config),
    {
        if self.sidebar_vp.selected < self.items.len() {
            fields_of(self.items[self.sidebar_vp.selected], config)
        } else {
            no_fields()
        }
    }

    fn reset_field_vp(&mut self, config: &AppConfig)
        requires
            old(self).sidebar_vp.wf(),
            old(self).sidebar_vp.item_count == old(self).items@.len(),
        ensures
            final(self).wf(),
            final(self)@ == (ConfigTabView {
                fields: top(old(self)@.rows(*config).len()),
                ..old(self)@
            }),
    {
        let fields = self.current_fields(config);
        assert(pair_texts(fields@).len() == fields@.len());
        self.field_vp = Viewport::new();
        self.field_vp.set_dims(fields.len(), 0);
    }

    /// Takes a key; the result is whether it does something here.
    pub fn handle_key(&mut self, key: KeyEvent, config: &AppConfig) -> (r: bool)
        requires
            old(self).wf(),
        ensures
            final(self).wf(),
            r == (tab_keyed(old(self)@, key.code, *config) is Some),
            final(self)@ == (match tab_keyed(old(self)@, key.code, *config) {
                Some(v) => v,
                None => old(self)@,
            }),
    {
        match self.zone {
            ConfigZone::Sidebar => {
                if scroll(&mut self.sidebar_vp, key.code) {
                    self.reset_field_vp(config);
                    true
                } else if key.code == KeyCode::Right || key.code == KeyCode::Tab {
                    self.zone = ConfigZone::FieldTable;
                    true
                } else {
                    false
                }
            },
            ConfigZone::FieldTable => {
                if scroll(&mut self.field_vp, key.code) {
                    true
                } else if key.code == KeyCode::Left || key.code == KeyCode::BackTab {
                    self.zone = ConfigZone::Sidebar;
                    true
                } else {
                    false
                }
            },
        }
    }

    /// Says where one stands in the configuration.
    pub fn breadcrumb(&self, config: &AppConfig) -> (r: String)
        requires
            belongs(self.items@, *config),
        ensures
            r@ == trail(self@, *config),
    {
        if self.sidebar_vp.selected >= self.items.len() {
            return copy("Config");
        }
        let item = self.items[self.sidebar_vp.selected];
        let n_host: usize = config.host.len();
        let n_check: usize = config.check.len();
        let n_sync: usize = config.sync.len();
        proof {
            rows_are_numbered(*config, self.sidebar_vp.selected as int);
        }
        let base = match item {
            SidebarItem::SectionSettings => copy("Config > Settings"),
            SidebarItem::SectionHosts => copy("Config > Hosts"),
            SidebarItem::Host(i) => concat2("Config > Hosts > ", label_of_host(config, i).as_str()),
            SidebarItem::SectionChecks => copy("Config > Checks"),
            SidebarItem::Check(i) => concat2(
                "Config > Checks > ",
                entry_label_check(config, i).as_str(),
            ),
            SidebarItem::SectionSyncs => copy("Config > Syncs"),
            SidebarItem::Sync(i) => concat2(
                "Config > Syncs > ",
                entry_label_sync(config, i).as_str(),
            ),
        };
        let section = item == SidebarItem::SectionHosts || item == SidebarItem::SectionChecks
            || item == SidebarItem::SectionSyncs;
        if self.zone == ConfigZone::FieldTable && !section {
            let fields = fields_of(item, config);
            assert(pair_texts(fields@).len() == fields@.len());
            let name = if self.field_vp.selected < fields.len() {
                assert(pair_texts(fields@)[self.field_vp.selected as int].0
                    == fields@[self.field_vp.selected as int].0@);
                copy(fields[self.field_vp.selected].0.as_str())
            } else {
                copy("?")
            };
            concat3(base.as_str(), " > ", name.as_str())
        } else {
            base
        }
    }
}

// ---------------------------------------------------------------------------
// What is drawn
// ---------------------------------------------------------------------------

/// How a row of the sidebar is drawn.
#[derive(Debug, Clone, Copy, PartialEq, Eq, Structural)]
pub enum SidebarStyle {
    SelectedAndFocused,
    Selected,
    Header,
    Plain,
}

/// A row of the sidebar that is ready to be drawn.
pub struct SidebarLine {
    pub text: String,
    pub style: SidebarStyle,
}

/// How a row of the sidebar is drawn.
pub open spec fn sidebar_style(v: ConfigTabView, config: AppConfig, row: int) -> SidebarStyle {
    let selected = row == v.sidebar.selected;
    if selected && v.zone == ConfigZone::Sidebar {
        SidebarStyle::SelectedAndFocused
    } else if selected {
        SidebarStyle::Selected
    } else if item_display(v.items[row], config).2 {
        SidebarStyle::Header
    } else {
        SidebarStyle::Plain
    }
}

/// The text of a row of the sidebar: a mark for the selected row, then the row, cut
/// to the width.
pub open spec fn sidebar_text(v: ConfigTabView, config: AppConfig, row: int, width: nat) -> Seq<
    char,
> {
    let selected = row == v.sidebar.selected;
    let mark = if selected && v.zone == ConfigZone::Sidebar {
        "▶"@
    } else if selected {
        ">"@
    } else {
        " "@
    };
    let d = item_display(v.items[row], config);
    cut(mark + d.0 + d.1, width)
}

impl ConfigTabState {
    /// Fits the sidebar to a height and lists its visible rows, cut to a width.
    pub fn render_sidebar(&mut self, config: &AppConfig, height: usize, width: usize) -> (r: Vec<
        SidebarLine,
    >)
        requires
            old(self).wf(),
            belongs(old(self).items@, *config),
        ensures
            final(self).wf(),
            final(self)@ == (ConfigTabView {
                sidebar: (Viewport { visible_height: height, ..old(self).sidebar_vp }).clamped(),
                ..old(self)@
            }),
            ({
                let v = final(self)@;
                let first = v.sidebar.scroll_y as int;
                let last = min(first + height, v.items.len() as int);
                &&& r@.len() == last - first
                &&& forall|i: int|
                    0 <= i < r@.len() ==> (#[trigger] r@[i]).text@ == sidebar_text(
                        v,
                        *config,
                        first + i,
                        width as nat,
                    ) && r@[i].style == sidebar_style(v, *config, first + i)
            }),
    {
        self.sidebar_vp.set_dims(self.items.len(), height);
        let (start, end) = self.sidebar_vp.visible_range();
        let focused = self.zone == ConfigZone::Sidebar;
        let mut out: Vec<SidebarLine> = Vec::new();
        let mut i: usize = start;
        let ghost v = self@;
        while i < end
            invariant
                start <= i <= end <= self.items@.len(),
                v == self@,
                self.wf(),
                focused == (self.zone == ConfigZone::Sidebar),
                belongs(self.items@, *config),
                out@.len() == i - start,
                forall|k: int|
                    0 <= k < out@.len() ==> (#[trigger] out@[k]).text@ == sidebar_text(
                        v,
                        *config,
                        start + k,
                        width as nat,
                    ) && out@[k].style == sidebar_style(v, *config, start + k),
            decreases end - i,
        {
            let n_host: usize = config.host.len();
            let n_check: usize = config.check.len();
            let n_sync: usize = config.sync.len();
            proof {
                rows_are_numbered(*config, i as int);
            }
            let selected = i == self.sidebar_vp.selected;
            let (prefix, text, header) = sidebar_item_display(self.items[i], config);
            let mark = if selected && focused {
                "▶"
            } else if selected {
                ">"
            } else {
                " "
            };
            let label = truncate(concat3(mark, prefix, text.as_str()).as_str(), width);
            let style = if selected && focused {
                SidebarStyle::SelectedAndFocused
            } else if selected {
                SidebarStyle::Selected
            } else if header {
                SidebarStyle::Header
            } else {
                SidebarStyle::Plain
            };
            out.push(SidebarLine { text: label, style });
            i += 1;
        }
        out
    }
}

/// What is said in place of the fields where there is none.
pub open spec fn no_fields_text(item: Option<SidebarItem>, config: AppConfig) -> Seq<char> {
    match item {
        Some(SidebarItem::SectionHosts) => if config.host@.len() == 0 {
            "(no hosts configured)"@
        } else {
            "(select a host entry in the sidebar  ↑↓)"@
        },
        Some(SidebarItem::SectionChecks) => if config.check@.len() == 0 {
            "(no [[check]] entries configured)"@
        } else {
            "(select a check entry in the sidebar  ↑↓)"@
        },
        Some(SidebarItem::SectionSyncs) => if config.sync@.len() == 0 {
            "(no [[sync]] entries configured)"@
        } else {
            "(select a sync entry in the sidebar  ↑↓)"@
        },
        _ => "(nothing to show)"@,
    }
}

/// What is said in place of the fields where there is none.
pub fn no_fields_message(item: Option<SidebarItem>, config: &AppConfig) -> (r: &'static str)
    ensures
        r@ == no_fields_text(item, *config),
{
    match item {
        Some(SidebarItem::SectionHosts) => if config.host.len() == 0 {
            "(no hosts configured)"
        } else {
            "(select a host entry in the sidebar  ↑↓)"
        },
        Some(SidebarItem::SectionChecks) => if config.check.len() == 0 {
            "(no [[check]] entries configured)"
        } else {
            "(select a check entry in the sidebar  ↑↓)"
        },
        Some(SidebarItem::SectionSyncs) => if config.sync.len() == 0 {
            "(no [[sync]] entries configured)"
        } else {
            "(select a sync entry in the sidebar  ↑↓)"
        },
        _ => "(nothing to show)",
    }
}

/// The width of the widest of the first `n` names.
pub open spec fn widest(rows: Seq<FieldView>, n: int) -> int
    decreases n,
{
    if n <= 0 {
        0
    } else {
        let before = widest(rows, n - 1);
        let w = text_width(rows[n - 1].0) as int;
        if w > before {
            w
        } else {
            before
        }
    }
}

/// The width of the column of names: that of the widest, and at most 30.
pub open spec fn name_width(rows: Seq<FieldView>) -> int {
    if rows.len() == 0 {
        10
    } else {
        min(widest(rows, rows.len() as int), 30)
    }
}

/// The visible part of the table of fields.
pub struct FieldTable {
    pub name_width: u16,
    pub rows: Vec<(String, String)>,
    /// The place of the selected field among the rows, where it has the focus.
    pub selected: Option<usize>,
}

fn widest_name(fields: &Vec<(String, String)>) -> (r: u16)
    ensures
        r == name_width(pair_texts(fields@)),
{
    let ghost rows = pair_texts(fields@);
    if fields.len() == 0 {
        return 10;
    }
    let mut best: usize = 0;
    let mut i: usize = 0;
    while i < fields.len()
        invariant
            i <= fields@.len(),
            rows == pair_texts(fields@),
            best == widest(rows, i as int),
        decreases fields@.len() - i,
    {
        assert(rows[i as int].0 == fields@[i as int].0@);
        let w: usize = measure(fields[i].0.as_str());
        if w > best {
            best = w;
        }
        i += 1;
    }
    if best < 30 {
        best as u16
    } else {
        30
    }
}

impl ConfigTabState {
    /// Fits the table of fields to a height and lists its visible part; `None`
    /// where there is no field.
    pub fn render_field_table(&mut self, config: &AppConfig, height: usize) -> (r: Option<
        FieldTable,
    >)
        requires
            old(self).wf(),
        ensures
            final(self).wf(),
            final(self)@ == (ConfigTabView {
                fields: (Viewport {
                    item_count: old(self)@.rows(*config).len() as usize,
                    visible_height: height,
                    ..old(self).field_vp
                }).clamped(),
                ..old(self)@
            }),
            r is None <==> old(self)@.rows(*config).len() == 0,
            r matches Some(t) ==> ({
                let rows = old(self)@.rows(*config);
                let v = final(self)@;
                let first = v.fields.scroll_y as int;
                let last = min(first + height, rows.len() as int);
                &&& t.name_width == name_width(rows)
                &&& pair_texts(t.rows@) == rows.subrange(first, last)
                &&& t.selected == (if v.zone == ConfigZone::FieldTable && first
                    <= v.fields.selected < last {
                    Some((v.fields.selected - first) as usize)
                } else {
                    None::<usize>
                })
            }),
    {
        let fields = self.current_fields(config);
        let ghost rows = pair_texts(fields@);
        assert(rows.len() == fields@.len());
        self.field_vp.set_dims(fields.len(), height);
        if fields.len() == 0 {
            return None;
        }
        let name_width: u16 = widest_name(&fields);
        let (start, end) = self.field_vp.visible_range();
        let mut out: Vec<(String, String)> = Vec::new();
        let mut i: usize = start;
        while i < end
            invariant
                start <= i <= end <= fields@.len(),
                rows == pair_texts(fields@),
                pair_texts(out@) == rows.subrange(start as int, i as int),
            decreases end - i,
        {
            let ghost before = pair_texts(out@);
            push_pair_text(&mut out, fields[i].0.as_str(), fields[i].1.as_str());
            assert(rows[i as int] == (fields@[i as int].0@, fields@[i as int].1@));
            i += 1;
            assert(before.push(rows[i - 1]) =~= rows.subrange(start as int, i as int));
        }
        let selected: Option<usize> = if self.zone == ConfigZone::FieldTable && start
            <= self.field_vp.selected && self.field_vp.selected < end {
            Some(self.field_vp.selected - start)
        } else {
            None
        };
        Some(FieldTable { name_width, rows: out, selected })
    }
}

// ---------------------------------------------------------------------------
// Laws
// ---------------------------------------------------------------------------

/// Every entry of a configuration has exactly one row of the sidebar, beside the
/// four sections.
pub proof fn every_entry_has_a_row(config: AppConfig)
    ensures
        sidebar_of(config).len() == 4 + config.host@.len() + config.check@.len()
            + config.sync@.len(),
        forall|i: int|
            0 <= i < config.host@.len() ==> #[trigger] sidebar_of(config)[2 + i]
                == SidebarItem::Host(i as usize),
{
}

/// Going to the fields and back to the sidebar changes nothing.
pub proof fn focus_returns(v: ConfigTabView, config: AppConfig)
    requires
        v.zone == ConfigZone::Sidebar,
    ensures
        ({
            let there = tab_keyed(v, KeyCode::Right, config);
            &&& there is Some
            &&& tab_keyed(there->0, KeyCode::Left, config) == Some(v)
        }),
{
}

/// Wherever the selection of the sidebar goes, the table of fields begins at the
/// top of the fields of that row.
pub proof fn fields_follow_the_sidebar(v: ConfigTabView, code: KeyCode, config: AppConfig)
    requires
        v.zone == ConfigZone::Sidebar,
        scrolled(v.sidebar, code) is Some,
    ensures
        tab_keyed(v, code, config)->0.fields == top(tab_keyed(v, code, config)->0.rows(config).len()),
{
}

/// A new configuration keeps the selected row where there still is one, and the focus.
pub proof fn reloading_keeps_the_row(v: ConfigTabView, config: AppConfig)
    ensures
        reloaded(v, config).zone == v.zone,
        reloaded(v, config).items == sidebar_of(config),
        v.sidebar.selected < sidebar_of(config).len() ==> reloaded(v, config).sidebar.selected
            == v.sidebar.selected,
        v.sidebar.selected >= sidebar_of(config).len()
            ==> reloaded(v, config).sidebar.selected == 0,
{
}

/// An entry of the sidebar shows the fields of the entry that it stands for.
pub proof fn entries_show_their_own_fields(config: AppConfig, i: usize)
    ensures
        i < config.host@.len() ==> {
            let rows = item_rows(SidebarItem::Host(i), config);
            let h = config.host@[i as int];
            &&& rows.contains(("name"@, h.name@))
            &&& rows.contains(("ssh_host"@, h.ssh_host@))
            &&& rows.contains(("shell"@, h.shell.spec_name()))
            &&& h.proxy_jump matches Some(p) ==> rows.contains(("proxy_jump"@, p@))
        },
        i < config.check@.len() ==> {
            let rows = item_rows(SidebarItem::Check(i), config);
            let c = config.check@[i as int];
            &&& rows.len() == 4 + c.path@.len()
            &&& rows.contains(("enable_hosts"@, bool_text(c.enable_hosts)))
            &&& rows.contains(("enable_all"@, bool_text(c.enable_all)))
        },
        i < config.sync@.len() ==> {
            let rows = item_rows(SidebarItem::Sync(i), config);
            let s = config.sync@[i as int];
            &&& rows.contains(("enable_hosts"@, bool_text(s.enable_hosts)))
            &&& rows.contains(("enable_all"@, bool_text(s.enable_all)))
            &&& rows.contains(("recursive"@, bool_text(s.recursive)))
            &&& s.source matches Some(h) ==> rows.contains(("source"@, h@))
        },
{
    if i < config.host@.len() {
        let rows = item_rows(SidebarItem::Host(i), config);
        let h = config.host@[i as int];
        assert(rows[0] == ("name"@, h.name@));
        assert(rows[1] == ("ssh_host"@, h.ssh_host@));
        assert(rows[2] == ("shell"@, h.shell.spec_name()));
        if h.proxy_jump is Some {
            assert(rows[4] == ("proxy_jump"@, h.proxy_jump->0@));
        }
    }
    if i < config.check@.len() {
        let rows = item_rows(SidebarItem::Check(i), config);
        let c = config.check@[i as int];
        assert(rows[2] == ("enable_hosts"@, bool_text(c.enable_hosts)));
        assert(rows[3] == ("enable_all"@, bool_text(c.enable_all)));
    }
    if i < config.sync@.len() {
        let rows = item_rows(SidebarItem::Sync(i), config);
        let s = config.sync@[i as int];
        assert(rows[2] == ("enable_hosts"@, bool_text(s.enable_hosts)));
        assert(rows[3] == ("enable_all"@, bool_text(s.enable_all)));
        assert(rows[4] == ("recursive"@, bool_text(s.recursive)));
        if s.source is Some {
            assert(rows[rows.len() - 1] == ("source"@, s.source->0@));
        }
    }
}

} // verus!
