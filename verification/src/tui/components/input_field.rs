//! A text field of one line.

use vstd::prelude::*;

use crate::text::{byte_len, chars_of, copy, text_of};
use crate::tui::key::{KeyCode, KeyEvent};

verus! {

/// Whether a field takes keys.
#[derive(Debug, Clone, Copy, PartialEq, Eq, Structural)]
pub enum InputMode {
    Normal,
    Active,
}

impl Default for InputMode {
    fn default() -> (r: Self)
        ensures
            r == InputMode::Normal,
    {
        InputMode::Normal
    }
}

/// A text field with a cursor and a value to go back to.
#[derive(Debug)]
pub struct InputField {
    pub value: String,
    /// Before which character the cursor stands; the number of characters where it
    /// stands behind the last one.
    pub cursor_pos: usize,
    /// The value that Esc goes back to.
    pub saved: String,
    pub mode: InputMode,
}

/// The contents of a field.
pub ghost struct InputView {
    pub value: Seq<char>,
    pub cursor: nat,
    pub saved: Seq<char>,
    pub mode: InputMode,
}

impl View for InputField {
    type V = InputView;

    open spec fn view(&self) -> InputView {
        InputView {
            value: self.value@,
            cursor: self.cursor_pos as nat,
            saved: self.saved@,
            mode: self.mode,
        }
    }
}

impl InputView {
    /// The cursor stands within the value, or right behind it.
    pub open spec fn wf(self) -> bool {
        self.cursor <= self.value.len()
    }
}

impl InputField {
    /// The cursor stands within the value, or right behind it.
    pub open spec fn wf(&self) -> bool {
        self@.wf()
    }
}

/// A place in the text: behind the last character where there is no such one.
pub open spec fn place(cursor: nat, s: Seq<char>) -> int {
    if cursor < s.len() {
        cursor as int
    } else {
        s.len() as int
    }
}

/// A field that holds a text and takes no keys.
pub open spec fn fresh(text: Seq<char>) -> InputView {
    InputView { value: text, cursor: text.len(), saved: text, mode: InputMode::Normal }
}

/// A field that begins to take keys.
pub open spec fn activated(v: InputView) -> InputView {
    InputView { saved: v.value, mode: InputMode::Active, cursor: v.value.len(), ..v }
}

/// A field whose value has been confirmed.
pub open spec fn confirmed(v: InputView) -> InputView {
    InputView { saved: v.value, mode: InputMode::Normal, ..v }
}

/// A field that has gone back to the saved value.
pub open spec fn cancelled(v: InputView) -> InputView {
    InputView { value: v.saved, cursor: v.saved.len(), mode: InputMode::Normal, ..v }
}

/// What a key does to a field that takes keys; `None` for a key it has no use
/// for.
pub open spec fn keyed(v: InputView, key: KeyEvent) -> Option<InputView> {
    match key.code {
        KeyCode::Char(c) => if key.is_plain() {
            Some(
                InputView {
                    value: v.value.insert(v.cursor as int, c),
                    cursor: v.cursor + 1,
                    ..v
                },
            )
        } else {
            None
        },
        KeyCode::Backspace => Some(
            if v.cursor > 0 {
                InputView {
                    value: v.value.remove(v.cursor - 1),
                    cursor: (v.cursor - 1) as nat,
                    ..v
                }
            } else {
                v
            },
        ),
        KeyCode::Delete => Some(
            if v.cursor < v.value.len() {
                InputView { value: v.value.remove(v.cursor as int), ..v }
            } else {
                v
            },
        ),
        KeyCode::Left => Some(
            if v.cursor > 0 {
                InputView { cursor: (v.cursor - 1) as nat, ..v }
            } else {
                v
            },
        ),
        KeyCode::Right => Some(
            if v.cursor < v.value.len() {
                InputView { cursor: v.cursor + 1, ..v }
            } else {
                v
            },
        ),
        KeyCode::Home => Some(InputView { cursor: 0, ..v }),
        KeyCode::End => Some(InputView { cursor: v.value.len(), ..v }),
        KeyCode::Enter => Some(confirmed(v)),
        KeyCode::Esc => Some(cancelled(v)),
        _ => None,
    }
}

impl InputField {
    /// A field with an initial value.
    pub fn new(initial: &str) -> (r: Self)
        ensures
            r.wf(),
            r@ == fresh(initial@),
    {
        InputField {
            value: copy(initial),
            cursor_pos: initial.unicode_len(),
            saved: copy(initial),
            mode: InputMode::Normal,
        }
    }

    /// Begins to take keys, and keeps the value to go back to.
    pub fn activate(&mut self)
        ensures
            final(self).wf(),
            final(self)@ == activated(old(self)@),
    {
        self.saved = copy(self.value.as_str());
        self.mode = InputMode::Active;
        self.cursor_pos = self.char_count();
    }

    /// Stops taking keys and keeps the value.
    pub fn confirm(&mut self)
        requires
            old(self).wf(),
        ensures
            final(self).wf(),
            final(self)@ == confirmed(old(self)@),
    {
        self.saved = copy(self.value.as_str());
        self.mode = InputMode::Normal;
    }

    /// Stops taking keys and goes back to the saved value.
    pub fn cancel(&mut self)
        ensures
            final(self).wf(),
            final(self)@ == cancelled(old(self)@),
    {
        self.value = copy(self.saved.as_str());
        self.cursor_pos = self.char_count();
        self.mode = InputMode::Normal;
    }

    /// How many characters the value has.
    pub fn char_count(&self) -> (r: usize)
        ensures
            r == self.value@.len(),
    {
        self.value.as_str().unicode_len()
    }

    /// At which byte a character of the value begins; the length in bytes where
    /// there is no such character.
    pub fn char_to_byte(&self, char_idx: usize) -> (r: usize)
        ensures
            r == byte_len(self.value@.take(place(char_idx as nat, self.value@))),
    {
        let n: usize = self.char_count();
        let k: usize = if char_idx < n {
            char_idx
        } else {
            n
        };
        let head = self.value.as_str().substring_char(0, k);
        assert(head@ =~= self.value@.take(k as int));
        head.len()
    }

    /// The value before and behind the cursor.
    pub fn split_at_cursor(&self) -> (r: (&str, &str))
        ensures
            r.0@ == self.value@.take(place(self.cursor_pos as nat, self.value@)),
            r.1@ == self.value@.skip(place(self.cursor_pos as nat, self.value@)),
            r.0@ + r.1@ == self.value@,
    {
        let n: usize = self.char_count();
        let k: usize = if self.cursor_pos < n {
            self.cursor_pos
        } else {
            n
        };
        let head = self.value.as_str().substring_char(0, k);
        let tail = self.value.as_str().substring_char(k, n);
        assert(head@ =~= self.value@.take(k as int));
        assert(tail@ =~= self.value@.skip(k as int));
        assert(head@ + tail@ =~= self.value@);
        (head, tail)
    }

    fn insert_char(&mut self, c: char)
        requires
            old(self).wf(),
        ensures
            final(self)@ == (InputView {
                value: old(self)@.value.insert(old(self)@.cursor as int, c),
                ..old(self)@
            }),
    {
        let cs = chars_of(self.value.as_str());
        let k: usize = self.cursor_pos;
        let mut out = text_of(&cs, 0, k);
        out.push(c);
        out.append(text_of(&cs, k, cs.len()).as_str());
        assert(out@ =~= old(self)@.value.insert(k as int, c));
        self.value = out;
    }

    fn remove_char(&mut self, k: usize)
        requires
            k < old(self)@.value.len(),
        ensures
            final(self)@ == (InputView {
                value: old(self)@.value.remove(k as int),
                ..old(self)@
            }),
    {
        let cs = chars_of(self.value.as_str());
        let n: usize = cs.len();
        let mut out = text_of(&cs, 0, k);
        out.append(text_of(&cs, k + 1, n).as_str());
        assert(out@ =~= old(self)@.value.remove(k as int));
        self.value = out;
    }

    /// Gives a key to the field; says whether the field had use for it.
    pub fn handle_key(&mut self, key: KeyEvent) -> (r: bool)
        requires
            old(self).wf(),
        ensures
            final(self).wf(),
            r == (old(self)@.mode == InputMode::Active && keyed(old(self)@, key) is Some),
            final(self)@ == (if r {
                keyed(old(self)@, key)->0
            } else {
                old(self)@
            }),
    {
        if self.mode != InputMode::Active {
            return false;
        }
        match key.code {
            KeyCode::Char(c) => {
                if key.control || key.other {
                    return false;
                }
                self.insert_char(c);
                let n: usize = self.char_count();
                assert(n == old(self)@.value.len() + 1);
                self.cursor_pos += 1;
                true
            },
            KeyCode::Backspace => {
                if self.cursor_pos > 0 {
                    let k: usize = self.cursor_pos - 1;
                    self.remove_char(k);
                    self.cursor_pos = k;
                }
                true
            },
            KeyCode::Delete => {
                if self.cursor_pos < self.char_count() {
                    let k: usize = self.cursor_pos;
                    self.remove_char(k);
                }
                true
            },
            KeyCode::Left => {
                if self.cursor_pos > 0 {
                    self.cursor_pos -= 1;
                }
                true
            },
            KeyCode::Right => {
                if self.cursor_pos < self.char_count() {
                    self.cursor_pos += 1;
                }
                true
            },
            KeyCode::Home => {
                self.cursor_pos = 0;
                true
            },
            KeyCode::End => {
                self.cursor_pos = self.char_count();
                true
            },
            KeyCode::Enter => {
                self.confirm();
                true
            },
            KeyCode::Esc => {
                self.cancel();
                true
            },
            _ => false,
        }
    }
}

// ---------------------------------------------------------------------------
// Laws
// ---------------------------------------------------------------------------

/// Esc undoes everything typed since the field was activated: whatever the
/// value has become, it is again the one at activation.
pub proof fn esc_restores(v: InputView, value: Seq<char>, cursor: nat, key: KeyEvent)
    requires
        key.code == KeyCode::Esc,
    ensures
        keyed((InputView { value, cursor, ..activated(v) }), key) matches Some(w) && w.value
            == v.value && w.mode == InputMode::Normal,
{
}

/// Typing a character and deleting it again leaves the field as it was.
pub proof fn backspace_undoes_typing(v: InputView, typed: KeyEvent, back: KeyEvent)
    requires
        v.wf(),
        typed.code is Char,
        typed.is_plain(),
        back.code == KeyCode::Backspace,
    ensures
        keyed(v, typed) matches Some(w) && keyed(w, back) == Some(v),
{
    let w = keyed(v, typed)->0;
    assert(w.value.remove(v.cursor as int) =~= v.value);
}

/// Deleting backwards takes away the character before the cursor, whatever it is: a
/// field that was just activated loses its last one.
pub proof fn backspace_takes_the_last_character(v: InputView, back: KeyEvent)
    requires
        v.value.len() > 0,
        back.code == KeyCode::Backspace,
    ensures
        keyed(activated(v), back) matches Some(w) && w.value == v.value.drop_last() && w.wf(),
{
    assert(v.value.remove(v.value.len() - 1) =~= v.value.drop_last());
}

/// The cursor never leaves the value, whatever key is given; and activating a field
/// brings it there.
pub proof fn cursor_stays_inside(v: InputView, key: KeyEvent)
    requires
        v.wf(),
    ensures
        keyed(v, key) matches Some(w) ==> w.wf(),
        activated(v).wf(),
        confirmed(v).wf(),
        cancelled(v).wf(),
{
}

/// A character is put in at the cursor, which moves behind it; everything before and after
/// stays.
pub proof fn typing_inserts_at_the_cursor(v: InputView, key: KeyEvent, c: char)
    requires
        v.wf(),
        key.code == KeyCode::Char(c),
        key.is_plain(),
    ensures
        keyed(v, key) matches Some(w) && w.value == v.value.take(v.cursor as int) + seq![c]
            + v.value.skip(v.cursor as int) && w.cursor == v.cursor + 1 && w.mode == v.mode
                && w.saved
            == v.saved,
{
    let at = v.cursor as int;
    assert(v.value.insert(at, c) =~= v.value.take(at) + seq![c] + v.value.skip(at));
}

/// Deleting takes away the one character at the cursor, and moving changes no text.
pub proof fn other_keys_edit_at_the_cursor(v: InputView, key: KeyEvent)
    requires
        v.wf(),
    ensures
        key.code == KeyCode::Delete && v.cursor < v.value.len() ==> (keyed(v, key) matches Some(w)
            && w.value == v.value.take(v.cursor as int) + v.value.skip(v.cursor as int + 1)
                && w.cursor
            == v.cursor),
        key.code == KeyCode::Backspace && v.cursor > 0 ==> (keyed(v, key) matches Some(w) && w.value
            == v.value.take(v.cursor - 1) + v.value.skip(v.cursor as int) && w.cursor == v.cursor
            - 1),
        key.code == KeyCode::Left || key.code == KeyCode::Right || key.code == KeyCode::Home
            || key.code == KeyCode::End ==> (keyed(v, key) matches Some(w) && w.value == v.value),
        key.code == KeyCode::Left && v.cursor > 0 ==> keyed(v, key)->0.cursor == v.cursor - 1,
        key.code == KeyCode::Right && v.cursor < v.value.len() ==> keyed(v, key)->0.cursor
            == v.cursor + 1,
        key.code == KeyCode::Home ==> keyed(v, key)->0.cursor == 0,
        key.code == KeyCode::End ==> keyed(v, key)->0.cursor == v.value.len(),
        key.code == KeyCode::Enter ==> keyed(v, key)->0.value == v.value && keyed(v, key)->0.mode
            == InputMode::Normal,
{
    let at = v.cursor as int;
    if at < v.value.len() {
        assert(v.value.remove(at) =~= v.value.take(at) + v.value.skip(at + 1));
    }
    if at > 0 {
        assert(v.value.remove(at - 1) =~= v.value.take(at - 1) + v.value.skip(at));
    }
}

} // verus!
