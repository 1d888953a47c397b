//! The dialog in which targets are chosen.

use vstd::prelude::*;

use crate::commands::{available_groups, collect_available_groups, host_names, names_of};
use crate::config::schema::AppConfig;
use crate::host::filter::{filter_next, filter_none};
use crate::scan::{join, join_all};
use crate::text::{concat3, copy, copy_all, decimal, decimal_text, same, texts, texts_push};
use crate::tui::key::{KeyCode, KeyEvent};
use crate::tui::state::persist::{FilterView, ShellMode, TargetFilterMode, TargetFilterState};

verus! {

broadcast use texts_push;

/// The element of the dialog that has the focus.
#[derive(Debug, Clone, Copy, PartialEq, Eq, Structural)]
pub enum Field {
    Mode(TargetFilterMode),
    SerialToggle,
    Apply,
    Cancel,
}

/// What a key led to.
#[derive(Debug, Clone, Copy, PartialEq, Eq, Structural)]
pub enum FilterPopupResult {
    /// The choice holds from now on.
    Applied,
    /// The dialog is closed without a change.
    Cancelled,
    /// The dialog stays open.
    Continue,
}

/// The dialog.
#[derive(Debug)]
pub struct FilterPopup {
    pub state: TargetFilterState,
    /// Whether hosts can be chosen by shell.
    pub allow_shell: bool,
    pub available_groups: Vec<String>,
    pub available_hosts: Vec<String>,
    pub field: Field,
}

/// The contents of the dialog.
pub ghost struct PopupView {
    pub state: FilterView,
    pub allow_shell: bool,
    pub available_groups: Seq<Seq<char>>,
    pub available_hosts: Seq<Seq<char>>,
    pub field: Field,
}

impl View for FilterPopup {
    type V = PopupView;

    open spec fn view(&self) -> PopupView {
        PopupView {
            state: self.state@,
            allow_shell: self.allow_shell,
            available_groups: texts(self.available_groups@),
            available_hosts: texts(self.available_hosts@),
            field: self.field,
        }
    }
}

/// The elements of the dialog from top to bottom.
pub open spec fn field_order(allow_shell: bool) -> Seq<Field> {
    if allow_shell {
        seq![
            Field::Mode(TargetFilterMode::All),
            Field::Mode(TargetFilterMode::Groups),
            Field::Mode(TargetFilterMode::Hosts),
            Field::Mode(TargetFilterMode::Shell),
            Field::SerialToggle,
            Field::Apply,
            Field::Cancel,
        ]
    } else {
        seq![
            Field::Mode(TargetFilterMode::All),
            Field::Mode(TargetFilterMode::Groups),
            Field::Mode(TargetFilterMode::Hosts),
            Field::SerialToggle,
            Field::Apply,
            Field::Cancel,
        ]
    }
}

/// The place of an element from the top; the top for one that is not shown.
pub open spec fn field_place(field: Field, allow_shell: bool) -> int {
    let base = if allow_shell {
        4int
    } else {
        3
    };
    match field {
        Field::Mode(TargetFilterMode::All) => 0,
        Field::Mode(TargetFilterMode::Groups) => 1,
        Field::Mode(TargetFilterMode::Hosts) => 2,
        Field::Mode(TargetFilterMode::Shell) => if allow_shell {
            3
        } else {
            0
        },
        Field::SerialToggle => base,
        Field::Apply => base + 1,
        Field::Cancel => base + 2,
    }
}

/// The element some places further down, going round at the ends.
pub open spec fn field_moved(field: Field, allow_shell: bool, delta: int) -> Field {
    let order = field_order(allow_shell);
    order[(field_place(field, allow_shell) + delta) % (order.len() as int)]
}

/// The texts that differ from a given one.
pub open spec fn other_than(text: Seq<char>) -> spec_fn(Seq<char>) -> bool {
    |t: Seq<char>| t != text
}

/// A list with the inclusion of the first of some texts toggled: without it where
/// the list holds it, with it at the end where the list does not.
pub open spec fn first_toggled(list: Seq<Seq<char>>, available: Seq<Seq<char>>) -> Seq<Seq<char>> {
    if available.len() == 0 {
        list
    } else if list.contains(available[0]) {
        list.filter(other_than(available[0]))
    } else {
        list.push(available[0])
    }
}

/// Toggles the inclusion of the first of some texts in a list.
fn toggle_first(list: &[String], available: &[String]) -> (r: Vec<String>)
    ensures
        texts(r@) == first_toggled(texts(list@), texts(available@)),
{
    if available.len() == 0 {
        return copy_all(list);
    }
    let first = &available[0];
    let ghost all = texts(list@);
    let ghost p = other_than(first@);
    let mut kept: Vec<String> = Vec::new();
    let mut held = false;
    let mut i: usize = 0;
    proof {
        filter_none(all, p);
        assert(texts(kept@) =~= Seq::empty());
    }
    while i < list.len()
        invariant
            i <= list@.len(),
            all == texts(list@),
            p == other_than(first@),
            texts(kept@) == all.take(i as int).filter(p),
            held <==> all.take(i as int).contains(first@),
            !held ==> texts(kept@) == all.take(i as int),
        decreases list@.len() - i,
    {
        proof {
            filter_next(all, p, i as int);
            assert(all[i as int] == list@[i as int]@);
            assert(all.take(i + 1) =~= all.take(i as int).push(all[i as int]));
            assert(all.take(i + 1).last() == all[i as int]);
            assert forall|t: Seq<char>| all.take(i as int).contains(t) implies all.take(
                i + 1,
            ).contains(t) by {
                let k = choose|k: int| 0 <= k < i && all.take(i as int)[k] == t;
                assert(all.take(i + 1)[k] == t);
            }
        }
        if same(list[i].as_str(), first.as_str()) {
            held = true;
            assert(all.take(i + 1)[i as int] == first@);
        } else {
            kept.push(copy(list[i].as_str()));
            proof {
                let more = all.take(i + 1);
                if more.contains(first@) {
                    let k = choose|k: int| 0 <= k < more.len() && more[k] == first@;
                    assert(all.take(i as int)[k] == first@);
                }
            }
        }
        i += 1;
    }
    assert(all.take(i as int) =~= all);
    if !held {
        kept.push(copy(first.as_str()));
    }
    kept
}

/// The filter groups that the hosts of a configuration name, sorted.
pub fn collect_groups(config: &AppConfig) -> (r: Vec<String>)
    ensures
        texts(r@) == available_groups(config.host@),
{
    collect_available_groups(config)
}

impl FilterPopup {
    /// The dialog on a filter; the focus is on the filter's mode.
    pub fn new(state: TargetFilterState, allow_shell: bool, config: &AppConfig) -> (r: Self)
        ensures
            r.state == state,
            r.allow_shell == allow_shell,
            texts(r.available_groups@) == available_groups(config.host@),
            texts(r.available_hosts@) == host_names(config.host@),
            r.field == Field::Mode(state.mode),
    {
        let field = Field::Mode(state.mode);
        FilterPopup {
            state,
            allow_shell,
            available_groups: collect_groups(config),
            available_hosts: names_of(config.host.as_slice()),
            field,
        }
    }

    /// The elements of the dialog from top to bottom.
    pub fn fields_in_order(&self) -> (r: Vec<Field>)
        ensures
            r@ == field_order(self.allow_shell),
    {
        let mut v: Vec<Field> = Vec::new();
        v.push(Field::Mode(TargetFilterMode::All));
        v.push(Field::Mode(TargetFilterMode::Groups));
        v.push(Field::Mode(TargetFilterMode::Hosts));
        if self.allow_shell {
            v.push(Field::Mode(TargetFilterMode::Shell));
        }
        v.push(Field::SerialToggle);
        v.push(Field::Apply);
        v.push(Field::Cancel);
        assert(v@ =~= field_order(self.allow_shell));
        v
    }

    /// Moves the focus some elements down, or up for a negative step, going round at
    /// the ends.
    pub fn move_field(&mut self, delta: i32)
        ensures
            *final(self) == (FilterPopup {
                field: field_moved(old(self).field, old(self).allow_shell, delta as int),
                ..*old(self)
            }),
    {
        let order = self.fields_in_order();
        let len: usize = order.len();
        let mut idx: usize = 0;
        let mut i: usize = 0;
        let mut found = false;
        while i < len
            invariant
                len == order@.len(),
                i <= len,
                idx < len,
                order@ == field_order(self.allow_shell),
                *self == *old(self),
                found ==> order@[idx as int] == self.field,
                !found ==> idx == 0 && forall|j: int| 0 <= j < i ==> #[trigger] order@[j] != self.field,
            decreases len - i,
        {
            if !found && order[i] == self.field {
                idx = i;
                found = true;
            }
            i += 1;
        }
        assert(idx == field_place(self.field, self.allow_shell)) by {
            assert(order@[0] == Field::Mode(TargetFilterMode::All));
            assert(order@[1] == Field::Mode(TargetFilterMode::Groups));
            assert(order@[2] == Field::Mode(TargetFilterMode::Hosts));
            assert(order@[field_place(Field::SerialToggle, self.allow_shell)]
                == Field::SerialToggle);
            assert(order@[field_place(Field::Apply, self.allow_shell)] == Field::Apply);
            assert(order@[field_place(Field::Cancel, self.allow_shell)] == Field::Cancel);
            if self.allow_shell {
                assert(order@[3] == Field::Mode(TargetFilterMode::Shell));
            }
        }
        let place: i64 = idx as i64 + delta as i64;
        let next: usize = match place.checked_rem_euclid(len as i64) {
            Some(n) => n as usize,
            None => 0,
        };
        self.field = order[next];
    }

    /// Space on the focused element: takes over its mode, or switches between
    /// parallel and serial.
    pub fn toggle_focused(&mut self)
        ensures
            *final(self) == (match old(self).field {
                Field::Mode(m) => FilterPopup {
                    state: TargetFilterState { mode: m, ..old(self).state },
                    ..*old(self)
                },
                Field::SerialToggle => FilterPopup {
                    state: TargetFilterState { serial: !old(self).state.serial, ..old(self).state },
                    ..*old(self)
                },
                _ => *old(self),
            }),
    {
        match self.field {
            Field::Mode(mode) => {
                self.state.mode = mode;
            },
            Field::SerialToggle => {
                self.state.serial = !self.state.serial;
            },
            _ => {},
        }
    }

    /// Enter on the focused element.
    pub fn activate_focused(&mut self) -> (r: FilterPopupResult)
        ensures
            r == (match old(self).field {
                Field::Apply => FilterPopupResult::Applied,
                Field::Cancel => FilterPopupResult::Cancelled,
                _ => FilterPopupResult::Continue,
            }),
            *final(self) == (match old(self).field {
                Field::Mode(m) => FilterPopup {
                    state: TargetFilterState { mode: m, ..old(self).state },
                    ..*old(self)
                },
                Field::SerialToggle => FilterPopup {
                    state: TargetFilterState { serial: !old(self).state.serial, ..old(self).state },
                    ..*old(self)
                },
                _ => *old(self),
            }),
    {
        match self.field {
            Field::Apply => FilterPopupResult::Applied,
            Field::Cancel => FilterPopupResult::Cancelled,
            Field::Mode(m) => {
                self.state.mode = m;
                FilterPopupResult::Continue
            },
            Field::SerialToggle => {
                self.state.serial = !self.state.serial;
                FilterPopupResult::Continue
            },
        }
    }

    /// An arrow to the side on a row of groups or hosts: toggles the inclusion of the
    /// first one there is.
    pub fn cycle_chip(&mut self, dir: i32)
        ensures
            texts(final(self).state.groups@) == (if old(self).field == Field::Mode(
                TargetFilterMode::Groups,
            ) {
                first_toggled(texts(old(self).state.groups@), texts(old(self).available_groups@))
            } else {
                texts(old(self).state.groups@)
            }),
            texts(final(self).state.hosts@) == (if old(self).field == Field::Mode(
                TargetFilterMode::Hosts,
            ) {
                first_toggled(texts(old(self).state.hosts@), texts(old(self).available_hosts@))
            } else {
                texts(old(self).state.hosts@)
            }),
            *final(self) == (FilterPopup {
                state: TargetFilterState {
                    groups: final(self).state.groups,
                    hosts: final(self).state.hosts,
                    ..old(self).state
                },
                ..*old(self)
            }),
    {
        match self.field {
            Field::Mode(TargetFilterMode::Groups) => {
                self.state.groups =
                toggle_first(self.state.groups.as_slice(), self.available_groups.as_slice());
            },
            Field::Mode(TargetFilterMode::Hosts) => {
                self.state.hosts =
                toggle_first(self.state.hosts.as_slice(), self.available_hosts.as_slice());
            },
            _ => {},
        }
    }

    /// Gives a key to the dialog.
    pub fn handle_key(&mut self, key: KeyEvent) -> (r: FilterPopupResult)
        ensures
            (final(self)@, r) == popup_keyed(old(self)@, key),
    {
        proof {
            reveal(popup_keyed);
        }
        if key.interrupts() {
            return FilterPopupResult::Cancelled;
        }
        match key.code {
            KeyCode::Esc => FilterPopupResult::Cancelled,
            KeyCode::Up | KeyCode::BackTab => {
                self.move_field(-1);
                FilterPopupResult::Continue
            },
            KeyCode::Down | KeyCode::Tab => {
                self.move_field(1);
                FilterPopupResult::Continue
            },
            KeyCode::Char(c) => {
                if c == 'k' {
                    self.move_field(-1);
                } else if c == 'j' {
                    self.move_field(1);
                } else if c == ' ' || c == 'x' {
                    self.toggle_focused();
                }
                FilterPopupResult::Continue
            },
            KeyCode::Enter => self.activate_focused(),
            KeyCode::Left => {
                self.cycle_chip(-1);
                FilterPopupResult::Continue
            },
            KeyCode::Right => {
                self.cycle_chip(1);
                FilterPopupResult::Continue
            },
            _ => FilterPopupResult::Continue,
        }
    }
}

/// The keys that move the focus down.
pub open spec fn goes_down(code: KeyCode) -> bool {
    code == KeyCode::Down || code == KeyCode::Tab || code == KeyCode::Char('j')
}

/// The keys that move the focus up.
pub open spec fn goes_up(code: KeyCode) -> bool {
    code == KeyCode::Up || code == KeyCode::BackTab || code == KeyCode::Char('k')
}

/// What Enter or the space bar does to the element that has the focus.
pub open spec fn pressed(v: PopupView) -> PopupView {
    match v.field {
        Field::Mode(m) => PopupView { state: FilterView { mode: m, ..v.state }, ..v },
        Field::SerialToggle => PopupView {
            state: FilterView { serial: !v.state.serial, ..v.state },
            ..v
        },
        _ => v,
    }
}

/// What an arrow to the side does: it toggles the inclusion of the first one there
/// is.
pub open spec fn cycled(v: PopupView) -> PopupView {
    match v.field {
        Field::Mode(TargetFilterMode::Groups) => PopupView {
            state: FilterView {
                groups: first_toggled(v.state.groups, v.available_groups),
                ..v.state
            },
            ..v
        },
        Field::Mode(TargetFilterMode::Hosts) => PopupView {
            state: FilterView {
                hosts: first_toggled(v.state.hosts, v.available_hosts),
                ..v.state
            },
            ..v
        },
        _ => v,
    }
}

/// What a key does to the dialog and leads to.
#[verifier::opaque]
pub open spec fn popup_keyed(v: PopupView, key: KeyEvent) -> (PopupView, FilterPopupResult) {
    if key.is_interrupt() || key.code == KeyCode::Esc {
        (v, FilterPopupResult::Cancelled)
    } else if goes_down(key.code) {
        (
            PopupView { field: field_moved(v.field, v.allow_shell, 1), ..v },
            FilterPopupResult::Continue,
        )
    } else if goes_up(key.code) {
        (
            PopupView { field: field_moved(v.field, v.allow_shell, -1), ..v },
            FilterPopupResult::Continue,
        )
    } else if key.code == KeyCode::Enter {
        (
            pressed(v),
            match v.field {
                Field::Apply => FilterPopupResult::Applied,
                Field::Cancel => FilterPopupResult::Cancelled,
                _ => FilterPopupResult::Continue,
            },
        )
    } else if key.code == KeyCode::Char(' ') || key.code == KeyCode::Char('x') {
        (pressed(v), FilterPopupResult::Continue)
    } else if key.code == KeyCode::Left || key.code == KeyCode::Right {
        (cycled(v), FilterPopupResult::Continue)
    } else {
        (v, FilterPopupResult::Continue)
    }
}

// ---------------------------------------------------------------------------
// Texts of the dialog
// ---------------------------------------------------------------------------

/// The name of a mode in the dialog.
pub open spec fn mode_name(m: TargetFilterMode) -> Seq<char> {
    match m {
        TargetFilterMode::All => "All hosts"@,
        TargetFilterMode::Groups => "Groups"@,
        TargetFilterMode::Hosts => "Hosts"@,
        TargetFilterMode::Shell => "Shell"@,
    }
}

/// The name of a mode in the dialog.
pub fn mode_label(m: TargetFilterMode) -> (r: &'static str)
    ensures
        r@ == mode_name(m),
{
    match m {
        TargetFilterMode::All => "All hosts",
        TargetFilterMode::Groups => "Groups",
        TargetFilterMode::Hosts => "Hosts",
        TargetFilterMode::Shell => "Shell",
    }
}

/// The name of a shell in the dialog.
pub fn shell_label(s: ShellMode) -> (r: &'static str)
    ensures
        r@ == s.spec_shell().spec_name(),
{
    match s {
        ShellMode::Sh => "sh",
        ShellMode::PowerShell => "powershell",
        ShellMode::Cmd => "cmd",
    }
}

/// A choice as text; a note in round brackets where nothing is chosen.
pub open spec fn chips(items: Seq<Seq<char>>, empty: Seq<char>) -> Seq<char> {
    if items.len() == 0 {
        "("@ + empty + ")"@
    } else {
        join(items, ", "@)
    }
}

/// A choice as text.
pub fn format_chips(items: &[String], empty: &str) -> (r: String)
    ensures
        r@ == chips(texts(items@), empty@),
{
    if items.len() == 0 {
        concat3("(", empty, ")")
    } else {
        join_all(items, ", ")
    }
}

/// The row of a mode: whether it is the chosen one, its name, and what is
/// chosen within it.
pub open spec fn mode_row_text(state: TargetFilterState, m: TargetFilterMode) -> (
    Seq<char>,
    Seq<char>,
) {
    (
        " "@ + (if state.mode == m {
            "◉"@
        } else {
            "○"@
        }) + " "@ + mode_name(m),
        match m {
            TargetFilterMode::All => ""@,
            TargetFilterMode::Groups => chips(texts(state.groups@), "no groups"@),
            TargetFilterMode::Hosts => chips(texts(state.hosts@), "no hosts"@),
            TargetFilterMode::Shell => "["@ + state.shell.spec_shell().spec_name() + "]"@,
        },
    )
}

/// The row of a mode: its label, and what is chosen within it.
pub fn mode_row(state: &TargetFilterState, m: TargetFilterMode) -> (r: (String, String))
    ensures
        (r.0@, r.1@) == mode_row_text(*state, m),
{
    let mut label = copy(" ");
    label.append(
        if state.mode == m {
            "◉"
        } else {
            "○"
        },
    );
    label.append(" ");
    label.append(mode_label(m));
    let extra = match m {
        TargetFilterMode::All => copy(""),
        TargetFilterMode::Groups => format_chips(state.groups.as_slice(), "no groups"),
        TargetFilterMode::Hosts => format_chips(state.hosts.as_slice(), "no hosts"),
        TargetFilterMode::Shell => concat3("[", shell_label(state.shell), "]"),
    };
    (label, extra)
}

/// The row of the serial switch and the timeout.
pub fn serial_row(state: &TargetFilterState) -> (r: String)
    ensures
        r@ == " "@ + (if state.serial {
            "☑"@
        } else {
            "☐"@
        }) + " Serial execution    Timeout: "@ + decimal(state.timeout as nat) + "s"@,
{
    let mut row = copy(" ");
    row.append(
        if state.serial {
            "☑"
        } else {
            "☐"
        },
    );
    row.append(" Serial execution    Timeout: ");
    row.append(decimal_text(state.timeout).as_str());
    row.append("s");
    row
}

// ---------------------------------------------------------------------------
// Laws
// ---------------------------------------------------------------------------

/// Toggling the first text twice gives back a list that did not hold it; and after
/// every toggle the list holds it exactly where it did not before.
pub proof fn toggling_the_first_undoes(list: Seq<Seq<char>>, available: Seq<Seq<char>>)
    requires
        available.len() > 0,
    ensures
        first_toggled(list, available).contains(available[0]) <==> !list.contains(available[0]),
        !list.contains(available[0]) ==> first_toggled(first_toggled(list, available), available)
            == list,
{
    let first = available[0];
    let p = other_than(first);
    let once = first_toggled(list, available);
    if list.contains(first) {
        list.lemma_filter_len(p);
        if once.contains(first) {
            let k = choose|k: int| 0 <= k < once.len() && once[k] == first;
            list.lemma_filter_pred(p, k);
        }
    } else {
        assert(once[list.len() as int] == first);
        assert forall|k: int| 0 <= k < list.len() implies p(#[trigger] list[k]) by {
            assert(list.contains(list[k]));
        }
        all_kept(list, p);
        filter_next(once, p, list.len() as int);
        assert(once.take(list.len() as int) =~= list);
        assert(once.take(once.len() as int) =~= once);
    }
}

proof fn all_kept(list: Seq<Seq<char>>, p: spec_fn(Seq<char>) -> bool)
    requires
        forall|k: int| 0 <= k < list.len() ==> p(#[trigger] list[k]),
    ensures
        list.filter(p) == list,
    decreases list.len(),
{
    reveal(Seq::filter);
    if list.len() > 0 {
        all_kept(list.drop_last(), p);
        assert(list.drop_last().push(list.last()) =~= list);
    }
}

/// Moving the focus down and up again comes back to the same element, from any
/// element that is shown.
pub proof fn focus_moves_undo(field: Field, allow_shell: bool)
    requires
        allow_shell || field != Field::Mode(TargetFilterMode::Shell),
    ensures
        field_moved(field_moved(field, allow_shell, 1), allow_shell, -1) == field,
        field_moved(field_moved(field, allow_shell, -1), allow_shell, 1) == field,
{
    let n = field_order(allow_shell).len() as int;
    let p = field_place(field, allow_shell);
    let down = field_moved(field, allow_shell, 1);
    let up = field_moved(field, allow_shell, -1);
    step_round(p, n);
    assert(field_place(down, allow_shell) == (p + 1) % n);
    assert(field_place(up, allow_shell) == (p - 1) % n);
    step_round((p + 1) % n, n);
    step_round((p - 1) % n, n);
}

proof fn step_round(p: int, n: int)
    by (nonlinear_arith)
    requires
        0 <= p < n,
        n > 1,
    ensures
        (p + 1) % n == (if p + 1 == n {
            0
        } else {
            p + 1
        }),
        (p - 1) % n == (if p == 0 {
            n - 1
        } else {
            p - 1
        }),
{
}

/// The dialog never chooses hosts by shell where that is not offered: the focus
/// of a dialog that does not show the shell row never moves onto it.
pub proof fn hidden_shell_row_stays_hidden(field: Field, delta: int)
    ensures
        field_moved(field, false, delta) != Field::Mode(TargetFilterMode::Shell),
{
    let n = field_order(false).len() as int;
    let k = (field_place(field, false) + delta) % n;
    assert(0 <= k < 6);
}

/// Toggling the first entry adds or takes away that entry alone.
pub proof fn toggling_touches_one_entry(
    list: Seq<Seq<char>>,
    available: Seq<Seq<char>>,
    t: Seq<char>,
)
    requires
        available.len() > 0,
        t != available[0],
    ensures
        first_toggled(list, available).contains(t) <==> list.contains(t),
{
    let x = available[0];
    crate::host::filter::filter_holds(list, other_than(x), t);
    let more = list.push(x);
    if list.contains(t) {
        assert(more[list.index_of(t)] == t);
    }
    if more.contains(t) {
        assert(list[more.index_of(t)] == t);
    }
}

/// Each mode can be chosen where its row has the focus, and the serial switch flips there.
pub proof fn pressing_acts_on_the_row(v: PopupView)
    ensures
        v.field matches Field::Mode(m) ==> pressed(v).state.mode == m && pressed(v).state.serial
            == v.state.serial,
        v.field is SerialToggle ==> pressed(v).state.serial == !v.state.serial
            && pressed(v).state.mode == v.state.mode,
        v.field is Apply || v.field is Cancel ==> pressed(v) == v,
        pressed(v).state.groups == v.state.groups,
        pressed(v).state.hosts == v.state.hosts,
        pressed(v).field == v.field,
{
}

/// Each key of the dialog does what it is for: going up and down, choosing, applying and
/// leaving.
pub proof fn dialog_keys_do_what_they_say(v: PopupView, key: KeyEvent)
    requires
        !key.is_interrupt(),
    ensures
        ({
            let (w, r) = popup_keyed(v, key);
            &&& key.code == KeyCode::Esc ==> w == v && r == FilterPopupResult::Cancelled
            &&& key.code == KeyCode::Down || key.code == KeyCode::Tab || key.code == KeyCode::Char(
                'j',
            ) ==> w.field == field_moved(v.field, v.allow_shell, 1) && w.state == v.state && r
                == FilterPopupResult::Continue
            &&& key.code == KeyCode::Up || key.code == KeyCode::BackTab || key.code
                == KeyCode::Char('k') ==> w.field == field_moved(v.field, v.allow_shell, -1)
                && w.state == v.state && r == FilterPopupResult::Continue
            &&& key.code == KeyCode::Enter && v.field is Apply ==> w == v && r
                == FilterPopupResult::Applied
            &&& key.code == KeyCode::Enter && v.field is Cancel ==> w == v && r
                == FilterPopupResult::Cancelled
            &&& key.code == KeyCode::Enter || key.code == KeyCode::Char(' ') || key.code
                == KeyCode::Char('x') ==> w.state == pressed(v).state
            &&& (key.code == KeyCode::Left || key.code == KeyCode::Right) && v.field == Field::Mode(
                TargetFilterMode::Groups,
            ) ==> w.state.groups == first_toggled(v.state.groups, v.available_groups)
                && w.state.hosts == v.state.hosts
            &&& (key.code == KeyCode::Left || key.code == KeyCode::Right) && v.field == Field::Mode(
                TargetFilterMode::Hosts,
            ) ==> w.state.hosts == first_toggled(v.state.hosts, v.available_hosts)
                && w.state.groups == v.state.groups
        }),
{
    reveal(popup_keyed);
}

/// The rows of the dialog follow each other from the modes to the buttons, and then begin
/// again.
pub proof fn rows_follow_each_other(allow_shell: bool)
    ensures
        field_moved(Field::Mode(TargetFilterMode::All), allow_shell, 1) == Field::Mode(
            TargetFilterMode::Groups,
        ),
        field_moved(Field::Mode(TargetFilterMode::Groups), allow_shell, 1) == Field::Mode(
            TargetFilterMode::Hosts,
        ),
        field_moved(Field::Mode(TargetFilterMode::Hosts), allow_shell, 1) == (if allow_shell {
            Field::Mode(TargetFilterMode::Shell)
        } else {
            Field::SerialToggle
        }),
        field_moved(Field::Mode(TargetFilterMode::Shell), true, 1) == Field::SerialToggle,
        field_moved(Field::SerialToggle, allow_shell, 1) == Field::Apply,
        field_moved(Field::Apply, allow_shell, 1) == Field::Cancel,
        field_moved(Field::Cancel, allow_shell, 1) == Field::Mode(TargetFilterMode::All),
{
    let n = field_order(allow_shell).len() as int;
    step_round(0, n);
    step_round(1, n);
    step_round(2, n);
    step_round(n - 3, n);
    step_round(n - 2, n);
    step_round(n - 1, n);
    step_round(3, field_order(true).len() as int);
}

} // verus!
