//! The configuration file as text: finding it, commenting it when it is new and
//! editing it in place when it is not.

use vstd::prelude::*;

use crate::config::paths::{
    any_tilde, expand_any_tilde, only_tildes_are_expanded, PathText, PathView, Platform,
};
use crate::config::schema::{AppConfig, Settings};
use crate::scan::{lines, split_lines, trim, trimmed};
use crate::text::{chars_of, copy, same, text_of, text_opt, texts, texts_push};

verus! {

broadcast use texts_push;

// ---------------------------------------------------------------------------
// The file
// ---------------------------------------------------------------------------

/// The directory of the configuration: `.config/ssync` below the home directory; on
/// Windows `ssync` in the directory for configurations.
pub open spec fn default_config_dir(platform: Platform) -> PathView {
    match platform {
        Platform::Windows => PathView::BelowConfigDir("ssync"@),
        Platform::Other => PathView::BelowHome(".config/ssync"@),
    }
}

/// The directory of the configuration.
pub fn config_dir(platform: Platform) -> (r: PathText)
    ensures
        r@ == default_config_dir(platform),
{
    match platform {
        Platform::Windows => PathText::BelowConfigDir(copy("ssync")),
        Platform::Other => PathText::BelowHome(copy(".config/ssync")),
    }
}

/// The configuration file where none is asked for: `config.toml` in the directory of
/// the configuration.
pub open spec fn default_config_path(platform: Platform) -> PathView {
    match platform {
        Platform::Windows => PathView::BelowConfigDir("ssync\\config.toml"@),
        Platform::Other => PathView::BelowHome(".config/ssync/config.toml"@),
    }
}

/// The configuration file where none is asked for.
pub fn config_path(platform: Platform) -> (r: PathText)
    ensures
        r@ == default_config_path(platform),
{
    match platform {
        Platform::Windows => PathText::BelowConfigDir(copy("ssync\\config.toml")),
        Platform::Other => PathText::BelowHome(copy(".config/ssync/config.toml")),
    }
}

/// Which configuration file to use: the one that was asked for, with a leading
/// tilde taken apart, or else the default one.
pub fn resolve_path(custom_path: Option<&str>, platform: Platform) -> (r: PathText)
    ensures
        r@ == (match custom_path {
            Some(p) => any_tilde(p@),
            None => default_config_path(platform),
        }),
{
    match custom_path {
        Some(p) => expand_any_tilde(p),
        None => config_path(platform),
    }
}

/// The text without a byte order mark in front.
pub open spec fn without_bom(s: Seq<char>) -> Seq<char> {
    if s.len() > 0 && s[0] == '\u{feff}' {
        s.skip(1)
    } else {
        s
    }
}

/// Takes a byte order mark off the front of a text.
pub fn strip_bom(s: &str) -> (r: String)
    ensures
        r@ == without_bom(s@),
{
    let cs = chars_of(s);
    if cs.len() > 0 && cs[0] == '\u{feff}' {
        let rest = text_of(&cs, 1, cs.len());
        assert(rest@ =~= s@.skip(1));
        rest
    } else {
        copy(s)
    }
}

// ---------------------------------------------------------------------------
// Guidance in a new file
// ---------------------------------------------------------------------------

/// What is said above the settings.
pub const SETTINGS_COMMENT: &'static str = "\
# [settings] Global settings:
#   state_dir = \"/custom/path/to/state\"  # Custom DB storage location
#                                          # Default: ~/.local/state/ssync (Linux/macOS)
#                                          #          %LOCALAPPDATA%/ssync (Windows)
";

/// What is said above the first check.
pub const CHECK_COMMENT: &'static str = "\
# [[check]] Available enabled values:
# enabled = [
#     \"online\",        # Check if host is online
#     \"system_info\",   # System info (uname / systeminfo)
#     \"cpu_arch\",      # CPU architecture
#     \"memory\",        # Memory usage
#     \"swap\",          # Swap usage
#     \"disk\",          # Disk usage
#     \"cpu_load\",      # CPU load
#     \"network\",       # Network interface info
#     \"battery\",       # Battery status
#     \"ip_address\",    # IP address
# ]
#
# ── Scoping ──
# groups = [\"web\"]       # Apply only to specified groups (used with --group/-g)
#
# ── Visibility controls (default: true) ──
# enable_hosts = true     # Include this entry when using --host/-h mode
#                         # Set to false to exclude from per-host checks
# enable_all   = true     # Include this entry when using --all/-a mode
#                         # Set to false to exclude from whole-fleet checks
#
# Note: When groups is non-empty, the entry is scoped to those groups
#       and only selected with --group/-g (enable_hosts/enable_all are ignored).
#       When groups is empty, the entry is unscoped and filtered by
#       enable_hosts (--host/-h) or enable_all (--all/-a).
#
# [[check.path]] Custom path monitoring:
#   path  = \"/var/log\"    # Path to monitor
#   label = \"Logs\"        # Display label
#
# Examples:
# [[check]]
# enabled = [\"online\", \"memory\", \"disk\", \"cpu_load\", \"ip_address\"]
#
# [[check]]
# enabled = [\"online\", \"memory\", \"disk\", \"cpu_load\"]
# groups = [\"webservers\"]
# [[check.path]]
# path = \"/var/log/nginx\"
# label = \"Nginx Logs\"
#
# [[check]]
# enabled = [\"online\", \"disk\"]
# enable_hosts = false    # Only run with --all or --group, not --host
";

/// What is said above the first sync.
pub const SYNC_COMMENT: &'static str = "\
# [[sync]] Sync settings:
#
# ── Unscoped sync (used with --all/-a when groups is empty) ──
# [[sync]]
# paths = [\"/etc/timezone\"]            # File paths to sync (multiple allowed)
# recursive = false                    # Recursive sync (default: false)
# mode = \"0644\"                        # File permissions (optional)
# propagate_deletes = false            # Sync deletions (optional, default: false)
# source = \"myhost\"                    # Fixed source host (optional, skips auto-selection)
#
# ── Group sync (used with --group/-g) ──
# [[sync]]
# paths = [\"/etc/nginx/nginx.conf\", \"/etc/nginx/conf.d\"]
# groups = [\"webservers\"]              # Target groups (matches host[].groups)
#
# ── Per-host sync (used with --host/-h) ──
# [[sync]]
# paths = [\"/etc/special.conf\"]
# hosts = [\"special-host\"]             # Target hosts (matches host[].name)
#
# ── Visibility controls (default: true) ──
# enable_hosts = true     # Include this entry when using --host/-h mode
#                         # Set to false to exclude from per-host syncs
# enable_all   = true     # Include this entry when using --all/-a mode
#                         # Set to false to exclude from whole-fleet syncs
#
# Note: When groups is non-empty, the entry is scoped to those groups
#       and only selected with --group/-g (enable_hosts/enable_all are ignored).
#       When groups is empty, the entry is unscoped and filtered by
#       enable_hosts (--host/-h) or enable_all (--all/-a).
#
# Example: group-only sync that won't run with --all or --host:
# [[sync]]
# paths = [\"/etc/nginx/nginx.conf\"]
# groups = [\"webservers\"]
# enable_hosts = false
# enable_all = false
";

/// A file that is being commented: its text so far, and whether a check and a
/// sync were met.
pub ghost struct Commented {
    pub text: Seq<char>,
    pub has_check: bool,
    pub has_sync: bool,
}

/// The comment that goes above a line: above every settings heading, above the
/// first check and above the first sync.
pub open spec fn comment_above(c: Commented, line: Seq<char>) -> Seq<char> {
    let t = trim(line);
    if t == "[settings]"@ {
        SETTINGS_COMMENT@
    } else if t == "[[check]]"@ && !c.has_check {
        CHECK_COMMENT@
    } else if t == "[[sync]]"@ && !c.has_sync {
        SYNC_COMMENT@
    } else {
        Seq::empty()
    }
}

/// The lines of a file with their comments.
pub open spec fn commented(ls: Seq<Seq<char>>) -> Commented
    decreases ls.len(),
{
    if ls.len() == 0 {
        Commented { text: Seq::empty(), has_check: false, has_sync: false }
    } else {
        let before = commented(ls.drop_last());
        let t = trim(ls.last());
        Commented {
            text: (before.text + comment_above(before, ls.last()) + ls.last()).push('\n'),
            has_check: before.has_check || (t == "[[check]]"@ && t != "[settings]"@),
            has_sync: before.has_sync || (t == "[[sync]]"@ && t != "[settings]"@ && !(t
                == "[[check]]"@ && !before.has_check)),
        }
    }
}

/// A file with comments: a kind of entry that the file does not have yet is
/// explained at its end.
pub open spec fn with_comments(content: Seq<char>) -> Seq<char> {
    let c = commented(lines(content));
    let checked = if c.has_check {
        c.text
    } else {
        c.text.push('\n') + CHECK_COMMENT@
    };
    if c.has_sync {
        checked
    } else {
        checked.push('\n') + SYNC_COMMENT@
    }
}

/// Comments a new configuration file.
pub fn inject_config_comments(toml_str: &str) -> (r: String)
    ensures
        r@ == with_comments(toml_str@),
{
    let ls = split_lines(toml_str);
    let ghost all = texts(ls@);
    let mut result = String::new();
    let mut has_check: bool = false;
    let mut has_sync: bool = false;
    let mut i: usize = 0;
    while i < ls.len()
        invariant
            i <= ls.len(),
            all == texts(ls@),
            result@ == commented(all.take(i as int)).text,
            has_check == commented(all.take(i as int)).has_check,
            has_sync == commented(all.take(i as int)).has_sync,
        decreases ls.len() - i,
    {
        let ghost before = commented(all.take(i as int));
        assert(all.take(i + 1).drop_last() =~= all.take(i as int));
        assert(all.take(i + 1).last() == ls@[i as int]@);
        let t = trimmed(ls[i].as_str());
        if same(t.as_str(), "[settings]") {
            result.append(SETTINGS_COMMENT);
        } else if same(t.as_str(), "[[check]]") && !has_check {
            result.append(CHECK_COMMENT);
            has_check = true;
        } else if same(t.as_str(), "[[sync]]") && !has_sync {
            result.append(SYNC_COMMENT);
            has_sync = true;
        }
        assert(result@ =~= before.text + comment_above(before, ls@[i as int]@));
        result.append(ls[i].as_str());
        result.push('\n');
        i += 1;
    }
    assert(all.take(i as int) =~= all);
    if !has_check {
        result.push('\n');
        result.append(CHECK_COMMENT);
    }
    if !has_sync {
        result.push('\n');
        result.append(SYNC_COMMENT);
    }
    result
}

// ---------------------------------------------------------------------------
// Editing a file in place
// ---------------------------------------------------------------------------

/// A TOML document that keeps its comments and the order of its keys.
#[verifier::external_type_specification]
#[verifier::external_body]
pub struct ExDocumentMut(toml_edit::DocumentMut);

/// A value in a TOML document, as far as it matters here.
pub ghost enum TomlView {
    Number(int),
    Flag(bool),
    Text(Seq<char>),
    List(Seq<Seq<char>>),
    Other,
}

/// What the `[settings]` table of a document holds, by key.
pub uninterp spec fn settings_of(doc: toml_edit::DocumentMut) -> Map<Seq<char>, TomlView>;

/// What stands around a value on its line, as text: the space in front of it, and the
/// space and the comment behind it. A side of which nothing was said is `None`, and
/// is written in the default way.
pub struct ValueDecor {
    pub before: Option<String>,
    pub after: Option<String>,
}

/// The same as a value of the specification language.
pub ghost struct DecorView {
    pub before: Option<Seq<char>>,
    pub after: Option<Seq<char>>,
}

impl View for ValueDecor {
    type V = DecorView;

    open spec fn view(&self) -> DecorView {
        DecorView { before: text_opt(self.before), after: text_opt(self.after) }
    }
}

/// What stands around each value of the `[settings]` table, by key. A key that holds
/// a table, or no value at all, is not among them.
pub uninterp spec fn decors_of(doc: toml_edit::DocumentMut) -> Map<Seq<char>, DecorView>;

/// Whether `settings` is a table in the document, or is not there yet.
pub uninterp spec fn settings_usable(doc: toml_edit::DocumentMut) -> bool;

/// A single value to write.
pub enum SettingValue {
    Number(i64),
    Flag(bool),
    Text(String),
}

impl View for SettingValue {
    type V = TomlView;

    open spec fn view(&self) -> TomlView {
        match self {
            SettingValue::Number(n) => TomlView::Number(*n as int),
            SettingValue::Flag(b) => TomlView::Flag(*b),
            SettingValue::Text(s) => TomlView::Text(s@),
        }
    }
}

/// `Item::or_insert` of toml_edit on the `settings` entry: an empty table is put
/// there where there is nothing, and the entry is left alone otherwise. The
/// result is whether a table stands there then.
#[verifier::external_body]
fn open_settings(doc: &mut toml_edit::DocumentMut) -> (r: bool)
    ensures
        r == settings_usable(*old(doc)),
        settings_usable(*final(doc)) == settings_usable(*old(doc)),
        settings_of(*final(doc)) == settings_of(*old(doc)),
        decors_of(*final(doc)) == decors_of(*old(doc)),
{
    doc["settings"].or_insert(toml_edit::table()).is_table()
}

/// `Value::decor` of toml_edit: what stands around the value of a key; none where the
/// key holds no value.
#[verifier::external_body]
fn decor_of(doc: &toml_edit::DocumentMut, key: &str) -> (r: Option<ValueDecor>)
    ensures
        r is Some <==> decors_of(*doc).dom().contains(key@),
        r matches Some(d) ==> d@ == decors_of(*doc)[key@],
{
    let table = doc.get("settings").and_then(|s| s.as_table());
    let value = table.and_then(|t| t.get(key)).and_then(|i| i.as_value());
    value.map(
        |v| ValueDecor {
            before: v.decor().prefix().and_then(|r| r.as_str()).map(|r| r.to_string()),
            after: v.decor().suffix().and_then(|r| r.as_str()).map(|r| r.to_string()),
        },
    )
}

/// `IndexMut` of toml_edit on the settings table: the key has the new value then, and
/// nothing is said of what stands around it; every other key keeps what it has.
#[verifier::external_body]
fn put_value(doc: &mut toml_edit::DocumentMut, key: &str, v: SettingValue)
    requires
        settings_usable(*old(doc)),
    ensures
        settings_usable(*final(doc)),
        settings_of(*final(doc)) == settings_of(*old(doc)).insert(key@, v@),
        decors_of(*final(doc)) == decors_of(*old(doc)).insert(key@, bare()),
{
    let new: toml_edit::Value = match v {
        SettingValue::Number(n) => n.into(),
        SettingValue::Flag(b) => b.into(),
        SettingValue::Text(s) => s.into(),
    };
    doc["settings"].or_insert(toml_edit::table())[key] = toml_edit::Item::Value(new);
}

/// `Value::decor_mut` of toml_edit: what is given stands around the value of the key
/// then; the value itself and every other key keep what they have.
#[verifier::external_body]
fn put_decor(doc: &mut toml_edit::DocumentMut, key: &str, decor: ValueDecor)
    requires
        settings_usable(*old(doc)),
        decors_of(*old(doc)).dom().contains(key@),
    ensures
        settings_usable(*final(doc)),
        settings_of(*final(doc)) == settings_of(*old(doc)),
        decors_of(*final(doc)) == decors_of(*old(doc)).insert(key@, decor@),
{
    if let Some(v) = doc["settings"].or_insert(toml_edit::table())[key].as_value_mut() {
        let place = v.decor_mut();
        place.clear();
        if let Some(before) = decor.before {
            place.set_prefix(before);
        }
        if let Some(after) = decor.after {
            place.set_suffix(after);
        }
    }
}

/// `IndexMut` of toml_edit on the settings table: the key has the new list then, and
/// nothing is said of what stands around it; every other key keeps what it has.
#[verifier::external_body]
fn put_list(doc: &mut toml_edit::DocumentMut, key: &str, list: &[String])
    requires
        settings_usable(*old(doc)),
    ensures
        settings_usable(*final(doc)),
        settings_of(*final(doc)) == settings_of(*old(doc)).insert(
            key@,
            TomlView::List(texts(list@)),
        ),
        decors_of(*final(doc)) == decors_of(*old(doc)).insert(key@, bare()),
{
    let items: toml_edit::Array = list.iter().collect();
    doc["settings"].or_insert(toml_edit::table())[key] = toml_edit::value(items);
}

/// `Table::remove` of toml_edit: the key is gone then, and every other key keeps
/// what it has.
#[verifier::external_body]
fn remove_setting(doc: &mut toml_edit::DocumentMut, key: &str)
    requires
        settings_usable(*old(doc)),
    ensures
        settings_usable(*final(doc)),
        settings_of(*final(doc)) == settings_of(*old(doc)).remove(key@),
        decors_of(*final(doc)) == decors_of(*old(doc)).remove(key@),
{
    if let Some(table) = doc["settings"].or_insert(toml_edit::table()).as_table_mut() {
        table.remove(key);
    }
}

/// What stands around a value of which nothing was said.
pub open spec fn bare() -> DecorView {
    DecorView { before: None, after: None }
}

/// What stands around the values after a single value was set: what stood around
/// the one before it stays.
pub open spec fn decor_kept(m: Map<Seq<char>, DecorView>, key: Seq<char>) -> Map<
    Seq<char>,
    DecorView,
> {
    if m.dom().contains(key) {
        m
    } else {
        m.insert(key, bare())
    }
}

/// Sets a single value. What stood around the value that the key had stays around
/// the new one, a comment behind it among them.
fn set_scalar(doc: &mut toml_edit::DocumentMut, key: &str, v: SettingValue)
    requires
        settings_usable(*old(doc)),
    ensures
        settings_usable(*final(doc)),
        settings_of(*final(doc)) == settings_of(*old(doc)).insert(key@, v@),
        decors_of(*final(doc)) == decor_kept(decors_of(*old(doc)), key@),
{
    match decor_of(doc, key) {
        Some(decor) => {
            put_value(doc, key, v);
            put_decor(doc, key, decor);
        },
        None => put_value(doc, key, v),
    }
    assert(decors_of(*doc) =~= decor_kept(decors_of(*old(doc)), key@));
}

/// The settings with a text set, or without the key where there is no text.
pub open spec fn with_text(
    m: Map<Seq<char>, TomlView>,
    key: Seq<char>,
    value: Option<Seq<char>>,
) -> Map<Seq<char>, TomlView> {
    match value {
        Some(t) => m.insert(key, TomlView::Text(t)),
        None => m.remove(key),
    }
}

/// The settings table after a save: every setting has its value, a setting that
/// is empty or unset is gone, and all other keys are as they were.
pub open spec fn saved(m: Map<Seq<char>, TomlView>, s: Settings) -> Map<Seq<char>, TomlView> {
    let m = m.insert("default_timeout"@, TomlView::Number(s.default_timeout as i64 as int));
    let m = m.insert("data_retention_days"@, TomlView::Number(s.data_retention_days as i64 as int));
    let m = m.insert("conflict_strategy"@, TomlView::Text(s.conflict_strategy.spec_name()));
    let m = m.insert("propagate_deletes"@, TomlView::Flag(s.propagate_deletes));
    let m = m.insert("max_concurrency"@, TomlView::Number(s.max_concurrency as i64 as int));
    let m = m.insert(
        "max_per_host_concurrency"@,
        TomlView::Number(s.max_per_host_concurrency as i64 as int),
    );
    let m = if s.skipped_hosts@.len() == 0 {
        m.remove("skipped_hosts"@)
    } else {
        m.insert("skipped_hosts"@, TomlView::List(texts(s.skipped_hosts@)))
    };
    let m = with_text(m, "state_dir"@, text_opt(s.state_dir));
    with_text(m, "default_output_format"@, text_opt(s.default_output_format))
}

/// What stands around the values after a text was set, or its key taken away.
pub open spec fn decor_of_text(
    m: Map<Seq<char>, DecorView>,
    key: Seq<char>,
    value: Option<Seq<char>>,
) -> Map<Seq<char>, DecorView> {
    match value {
        Some(t) => decor_kept(m, key),
        None => m.remove(key),
    }
}

/// What stands around the values of the settings table after a save: a single value
/// keeps what stood around it, a list is written anew, and what is gone is gone.
pub open spec fn saved_decors(m: Map<Seq<char>, DecorView>, s: Settings) -> Map<
    Seq<char>,
    DecorView,
> {
    let m = decor_kept(m, "default_timeout"@);
    let m = decor_kept(m, "data_retention_days"@);
    let m = decor_kept(m, "conflict_strategy"@);
    let m = decor_kept(m, "propagate_deletes"@);
    let m = decor_kept(m, "max_concurrency"@);
    let m = decor_kept(m, "max_per_host_concurrency"@);
    let m = if s.skipped_hosts@.len() == 0 {
        m.remove("skipped_hosts"@)
    } else {
        m.insert("skipped_hosts"@, bare())
    };
    let m = decor_of_text(m, "state_dir"@, text_opt(s.state_dir));
    decor_of_text(m, "default_output_format"@, text_opt(s.default_output_format))
}

fn set_text(doc: &mut toml_edit::DocumentMut, key: &str, value: &Option<String>)
    requires
        settings_usable(*old(doc)),
    ensures
        settings_usable(*final(doc)),
        settings_of(*final(doc)) == with_text(settings_of(*old(doc)), key@, text_opt(*value)),
        decors_of(*final(doc)) == decor_of_text(decors_of(*old(doc)), key@, text_opt(*value)),
{
    match value {
        Some(t) => set_scalar(doc, key, SettingValue::Text(copy(t.as_str()))),
        None => remove_setting(doc, key),
    }
}

/// Whether one document is another with the settings written into it.
pub open spec fn edited(
    before: toml_edit::DocumentMut,
    after: toml_edit::DocumentMut,
    s: Settings,
) -> bool {
    &&& settings_of(after) == saved(settings_of(before), s)
    &&& decors_of(after) == saved_decors(decors_of(before), s)
}

/// Writes the settings into a document. The result is `false`, and nothing is
/// written, where `settings` is no table in it. Of the other tables of the document,
/// and of the order of its keys, the contract says nothing.
pub fn apply_config_to_doc(doc: &mut toml_edit::DocumentMut, config: &AppConfig) -> (r: bool)
    ensures
        r == settings_usable(*old(doc)),
        r ==> edited(*old(doc), *final(doc), config.settings),
        !r ==> settings_of(*final(doc)) == settings_of(*old(doc)),
        !r ==> decors_of(*final(doc)) == decors_of(*old(doc)),
{
    if !open_settings(doc) {
        return false;
    }
    let s = &config.settings;
    set_scalar(doc, "default_timeout", SettingValue::Number(s.default_timeout as i64));
    set_scalar(doc, "data_retention_days", SettingValue::Number(s.data_retention_days as i64));
    set_scalar(doc, "conflict_strategy", SettingValue::Text(copy(s.conflict_strategy.name())));
    set_scalar(doc, "propagate_deletes", SettingValue::Flag(s.propagate_deletes));
    set_scalar(doc, "max_concurrency", SettingValue::Number(s.max_concurrency as i64));
    set_scalar(
        doc,
        "max_per_host_concurrency",
        SettingValue::Number(s.max_per_host_concurrency as i64),
    );
    if s.skipped_hosts.len() == 0 {
        remove_setting(doc, "skipped_hosts");
    } else {
        put_list(doc, "skipped_hosts", s.skipped_hosts.as_slice());
    }
    set_text(doc, "state_dir", &s.state_dir);
    set_text(doc, "default_output_format", &s.default_output_format);
    true
}

// ---------------------------------------------------------------------------
// Saving
// ---------------------------------------------------------------------------

/// The document that a text holds, or what is wrong with the text.
pub uninterp spec fn document_in(text: Seq<char>) -> Result<toml_edit::DocumentMut, Seq<char>>;

/// The text of a document.
pub uninterp spec fn document_text(doc: toml_edit::DocumentMut) -> Seq<char>;

/// `str::parse::<DocumentMut>` of toml_edit: the document, or the message of the error.
#[verifier::external_body]
fn read_document(text: &str) -> (r: Result<toml_edit::DocumentMut, String>)
    ensures
        match r {
            Ok(doc) => document_in(text@) == Ok::<toml_edit::DocumentMut, Seq<char>>(doc),
            Err(fault) => document_in(text@) == Err::<toml_edit::DocumentMut, Seq<char>>(fault@),
        },
{
    text.parse::<toml_edit::DocumentMut>().map_err(|e| e.to_string())
}

/// `DocumentMut::to_string` of toml_edit: the text of the document.
#[verifier::external_body]
fn write_document(doc: &toml_edit::DocumentMut) -> (r: String)
    ensures
        r@ == document_text(*doc),
{
    doc.to_string()
}

/// What a save writes.
pub enum SaveContent {
    /// There was no file: the new text, with guidance.
    Created(String),
    /// The text that was there, with the settings written into it. It keeps its
    /// comments.
    Edited(String),
    /// What was there is no TOML, for the reason that is given: the new text in its
    /// place. Comments are lost.
    Replaced { text: String, fault: String },
    /// `settings` is no table in what was there: nothing can be written.
    NotATable,
}

/// Decides what a save writes, from the text that is there, if any, and the
/// configuration as fresh text.
pub fn new_content(existing: Option<&str>, fresh: &str, config: &AppConfig) -> (r: SaveContent)
    ensures
        match existing {
            None => r matches SaveContent::Created(text) && text@ == with_comments(fresh@),
            Some(old_text) => match document_in(without_bom(old_text@)) {
                Err(reason) => r matches SaveContent::Replaced { text, fault } && text@ == fresh@
                    && fault@ == reason,
                Ok(doc) => if settings_usable(doc) {
                    r matches SaveContent::Edited(text) && exists|after: toml_edit::DocumentMut|
                        #[trigger] edited(doc, after, config.settings) && text@ == document_text(
                            after,
                        )
                } else {
                    r is NotATable
                },
            },
        },
{
    match existing {
        None => SaveContent::Created(inject_config_comments(fresh)),
        Some(text) => match read_document(strip_bom(text).as_str()) {
            Ok(mut doc) => if apply_config_to_doc(&mut doc, config) {
                SaveContent::Edited(write_document(&doc))
            } else {
                SaveContent::NotATable
            },
            Err(fault) => SaveContent::Replaced { text: copy(fresh), fault },
        },
    }
}

// ---------------------------------------------------------------------------
// Laws
// ---------------------------------------------------------------------------

/// The default file lies in the default directory, and to ask for it by its path below
/// the home directory means the same as to ask for none.
pub proof fn the_default_file_can_be_asked_for()
    ensures
        default_config_path(Platform::Other) == any_tilde("~/.config/ssync/config.toml"@),
        default_config_dir(Platform::Other) == any_tilde("~/.config/ssync"@),
        default_config_path(Platform::Other) == PathView::BelowHome(
            ".config/ssync"@ + "/config.toml"@,
        ),
        default_config_path(Platform::Windows) == PathView::BelowConfigDir(
            "ssync"@ + "\\config.toml"@,
        ),
{
    reveal_strlit("~/.config/ssync/config.toml");
    reveal_strlit(".config/ssync/config.toml");
    reveal_strlit("~/.config/ssync");
    reveal_strlit(".config/ssync");
    reveal_strlit("/config.toml");
    reveal_strlit("ssync\\config.toml");
    reveal_strlit("ssync");
    reveal_strlit("\\config.toml");
    reveal_strlit("~/");
    assert("~/"@ + ".config/ssync/config.toml"@ =~= "~/.config/ssync/config.toml"@);
    assert("~/"@ + ".config/ssync"@ =~= "~/.config/ssync"@);
    only_tildes_are_expanded(Seq::empty(), ".config/ssync/config.toml"@);
    only_tildes_are_expanded(Seq::empty(), ".config/ssync"@);
    assert(".config/ssync"@ + "/config.toml"@ =~= ".config/ssync/config.toml"@);
    assert("ssync"@ + "\\config.toml"@ =~= "ssync\\config.toml"@);
}

/// A key that is no setting of this program survives a save.
pub proof fn unknown_keys_survive(m: Map<Seq<char>, TomlView>, s: Settings, key: Seq<char>)
    requires
        m.dom().contains(key),
        key != "default_timeout"@,
        key != "data_retention_days"@,
        key != "conflict_strategy"@,
        key != "propagate_deletes"@,
        key != "max_concurrency"@,
        key != "max_per_host_concurrency"@,
        key != "skipped_hosts"@,
        key != "state_dir"@,
        key != "default_output_format"@,
    ensures
        saved(m, s).dom().contains(key),
        saved(m, s)[key] == m[key],
{
}

/// What stands around a value survives a save, a comment behind it among them, for
/// every key but the list of skipped hosts and a text that is no longer set.
pub proof fn comments_survive_a_save(m: Map<Seq<char>, DecorView>, s: Settings, key: Seq<char>)
    requires
        m.dom().contains(key),
        key != "skipped_hosts"@,
        key == "state_dir"@ ==> s.state_dir is Some,
        key == "default_output_format"@ ==> s.default_output_format is Some,
    ensures
        saved_decors(m, s).dom().contains(key),
        saved_decors(m, s)[key] == m[key],
{
}

/// Saving the same settings twice writes the same table as saving them once.
pub proof fn saving_twice_is_saving_once(m: Map<Seq<char>, TomlView>, s: Settings)
    ensures
        saved(saved(m, s), s) == saved(m, s),
{
    assert(saved(saved(m, s), s) =~= saved(m, s));
}

proof fn setting_names_differ()
    ensures
        "default_timeout"@ != "data_retention_days"@,
        "default_timeout"@ != "conflict_strategy"@,
        "default_timeout"@ != "propagate_deletes"@,
        "default_timeout"@ != "max_concurrency"@,
        "default_timeout"@ != "max_per_host_concurrency"@,
        "default_timeout"@ != "skipped_hosts"@,
        "default_timeout"@ != "state_dir"@,
        "default_timeout"@ != "default_output_format"@,
        "data_retention_days"@ != "conflict_strategy"@,
        "data_retention_days"@ != "propagate_deletes"@,
        "data_retention_days"@ != "max_concurrency"@,
        "data_retention_days"@ != "max_per_host_concurrency"@,
        "data_retention_days"@ != "skipped_hosts"@,
        "data_retention_days"@ != "state_dir"@,
        "data_retention_days"@ != "default_output_format"@,
        "conflict_strategy"@ != "propagate_deletes"@,
        "conflict_strategy"@ != "max_concurrency"@,
        "conflict_strategy"@ != "max_per_host_concurrency"@,
        "conflict_strategy"@ != "skipped_hosts"@,
        "conflict_strategy"@ != "state_dir"@,
        "conflict_strategy"@ != "default_output_format"@,
        "propagate_deletes"@ != "max_concurrency"@,
        "propagate_deletes"@ != "max_per_host_concurrency"@,
        "propagate_deletes"@ != "skipped_hosts"@,
        "propagate_deletes"@ != "state_dir"@,
        "propagate_deletes"@ != "default_output_format"@,
        "max_concurrency"@ != "max_per_host_concurrency"@,
        "max_concurrency"@ != "skipped_hosts"@,
        "max_concurrency"@ != "state_dir"@,
        "max_concurrency"@ != "default_output_format"@,
        "max_per_host_concurrency"@ != "skipped_hosts"@,
        "max_per_host_concurrency"@ != "state_dir"@,
        "max_per_host_concurrency"@ != "default_output_format"@,
        "skipped_hosts"@ != "state_dir"@,
        "skipped_hosts"@ != "default_output_format"@,
        "state_dir"@ != "default_output_format"@,
{
    reveal_strlit("default_timeout");
    reveal_strlit("data_retention_days");
    reveal_strlit("conflict_strategy");
    reveal_strlit("propagate_deletes");
    reveal_strlit("max_concurrency");
    reveal_strlit("max_per_host_concurrency");
    reveal_strlit("skipped_hosts");
    reveal_strlit("state_dir");
    reveal_strlit("default_output_format");
    assert("default_timeout"@.len() == 15 && "data_retention_days"@.len() == 19
        && "conflict_strategy"@.len() == 17 && "propagate_deletes"@.len() == 17
        && "max_concurrency"@.len() == 15 && "max_per_host_concurrency"@.len() == 24
        && "skipped_hosts"@.len() == 13 && "state_dir"@.len() == 9
        && "default_output_format"@.len() == 21);
    assert("default_timeout"@[0] == 'd' && "max_concurrency"@[0] == 'm');
    assert("conflict_strategy"@[0] == 'c' && "propagate_deletes"@[0] == 'p');
}

/// Every setting that is saved stands in the file under its own key.
pub proof fn every_setting_is_saved(m: Map<Seq<char>, TomlView>, s: Settings)
    ensures
        saved(m, s).dom().contains("default_timeout"@)
            && saved(m, s)["default_timeout"@] == TomlView::Number(s.default_timeout as i64 as int),
        saved(m, s).dom().contains("data_retention_days"@)
            && saved(m, s)["data_retention_days"@]
            == TomlView::Number(s.data_retention_days as i64 as int),
        saved(m, s).dom().contains("conflict_strategy"@)
            && saved(m, s)["conflict_strategy"@] == TomlView::Text(s.conflict_strategy.spec_name()),
        saved(m, s).dom().contains("propagate_deletes"@)
            && saved(m, s)["propagate_deletes"@] == TomlView::Flag(s.propagate_deletes),
        saved(m, s).dom().contains("max_concurrency"@)
            && saved(m, s)["max_concurrency"@] == TomlView::Number(s.max_concurrency as i64 as int),
        saved(m, s).dom().contains("max_per_host_concurrency"@)
            && saved(m, s)["max_per_host_concurrency"@]
            == TomlView::Number(s.max_per_host_concurrency as i64 as int),
        s.skipped_hosts@.len() > 0 ==> saved(m, s).dom().contains("skipped_hosts"@) && saved(m, s)[
            "skipped_hosts"@
        ] == TomlView::List(texts(s.skipped_hosts@)),
        s.skipped_hosts@.len() == 0 ==> !saved(m, s).dom().contains("skipped_hosts"@),
        s.state_dir matches Some(d) ==> saved(m, s).dom().contains("state_dir"@) && saved(m, s)[
            "state_dir"@
        ] == TomlView::Text(d@),
        s.state_dir is None ==> !saved(m, s).dom().contains("state_dir"@),
        s.default_output_format matches Some(f) ==> saved(m, s).dom().contains(
            "default_output_format"@,
        ) && saved(m, s)["default_output_format"@] == TomlView::Text(f@),
        s.default_output_format is None ==> !saved(m, s).dom().contains("default_output_format"@),
{
    setting_names_differ();
}

/// Every line of a configuration stays when comments are added above it.
pub proof fn lines_stay_below_their_comments(ls: Seq<Seq<char>>, i: int) -> (around: (
    Seq<char>,
    Seq<char>,
))
    requires
        0 <= i < ls.len(),
    ensures
        commented(ls).text == around.0 + ls[i].push('\n') + around.1,
    decreases ls.len(),
{
    let rest = ls.drop_last();
    let before = commented(rest);
    let note = comment_above(before, ls.last());
    if i < rest.len() {
        assert(rest[i] == ls[i]);
        let (a, b) = lines_stay_below_their_comments(rest, i);
        let more = b + note + ls.last().push('\n');
        assert(commented(ls).text =~= a + ls[i].push('\n') + more);
        (a, more)
    } else {
        let a = before.text + note;
        let none = Seq::<char>::empty();
        assert(commented(ls).text =~= a + ls[i].push('\n') + none);
        (a, none)
    }
}

/// A mark at the start of a file is taken off, once, and nothing else.
pub proof fn the_mark_is_taken_off(s: Seq<char>)
    ensures
        without_bom(seq!['\u{feff}'] + s) == s,
        s.len() == 0 || s[0] != '\u{feff}' ==> without_bom(s) == s,
{
    assert((seq!['\u{feff}'] + s).skip(1) =~= s);
}

proof fn headings_differ()
    ensures
        "[settings]"@ != "[[check]]"@,
        "[settings]"@ != "[[sync]]"@,
        "[[check]]"@ != "[[sync]]"@,
{
    reveal_strlit("[settings]");
    reveal_strlit("[[check]]");
    reveal_strlit("[[sync]]");
    assert("[settings]"@.len() == 10 && "[[check]]"@.len() == 9 && "[[sync]]"@.len() == 8);
}

/// A heading is known to have come where one of the lines so far is it.
pub proof fn headings_are_remembered(ls: Seq<Seq<char>>)
    ensures
        commented(ls).has_check <==> exists|j: int|
            0 <= j < ls.len() && trim(#[trigger] ls[j]) == "[[check]]"@,
        commented(ls).has_sync <==> exists|j: int|
            0 <= j < ls.len() && trim(#[trigger] ls[j]) == "[[sync]]"@,
    decreases ls.len(),
{
    headings_differ();
    if ls.len() > 0 {
        let rest = ls.drop_last();
        let n = ls.len() - 1;
        headings_are_remembered(rest);
        if exists|j: int| 0 <= j < rest.len() && trim(#[trigger] rest[j]) == "[[check]]"@ {
            let j = choose|j: int| 0 <= j < rest.len() && trim(#[trigger] rest[j]) == "[[check]]"@;
            assert(trim(ls[j]) == "[[check]]"@);
        }
        if exists|j: int| 0 <= j < rest.len() && trim(#[trigger] rest[j]) == "[[sync]]"@ {
            let j = choose|j: int| 0 <= j < rest.len() && trim(#[trigger] rest[j]) == "[[sync]]"@;
            assert(trim(ls[j]) == "[[sync]]"@);
        }
        if exists|j: int| 0 <= j < ls.len() && trim(#[trigger] ls[j]) == "[[check]]"@ {
            let j = choose|j: int| 0 <= j < ls.len() && trim(#[trigger] ls[j]) == "[[check]]"@;
            if j < n {
                assert(trim(rest[j]) == "[[check]]"@);
            }
        }
        if exists|j: int| 0 <= j < ls.len() && trim(#[trigger] ls[j]) == "[[sync]]"@ {
            let j = choose|j: int| 0 <= j < ls.len() && trim(#[trigger] ls[j]) == "[[sync]]"@;
            if j < n {
                assert(trim(rest[j]) == "[[sync]]"@);
            }
        }
    }
}

/// A section is explained above its first heading, and no other line is.
pub proof fn sections_are_explained_once(ls: Seq<Seq<char>>, line: Seq<char>)
    ensures
        comment_above(commented(ls), line) == (if trim(line) == "[settings]"@ {
            SETTINGS_COMMENT@
        } else if trim(line) == "[[check]]"@ && (forall|j: int|
            0 <= j < ls.len() ==> trim(#[trigger] ls[j]) != "[[check]]"@) {
            CHECK_COMMENT@
        } else if trim(line) == "[[sync]]"@ && (forall|j: int|
            0 <= j < ls.len() ==> trim(#[trigger] ls[j]) != "[[sync]]"@) {
            SYNC_COMMENT@
        } else {
            Seq::empty()
        }),
{
    headings_are_remembered(ls);
    headings_differ();
}

} // verus!
