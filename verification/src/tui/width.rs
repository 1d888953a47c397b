//! How wide text is on a terminal, and cutting it to a width.

use vstd::prelude::*;

use crate::text::{chars_of, copy, text_of};

verus! {

/// Whether a character is a visible ASCII character or a space.
pub open spec fn is_printable_ascii(c: char) -> bool {
    0x20 <= c as u32 && (c as u32) < 0x7f
}

/// The width of a text in columns, as the crate `unicode_width` gives it.
pub uninterp spec fn text_width(s: Seq<char>) -> usize;

/// The width of a character in columns, as the crate `unicode_width` gives it;
/// `None` for a control character.
pub uninterp spec fn char_width(c: char) -> Option<usize>;

/// `UnicodeWidthStr::width` of the crate `unicode_width`: the width of a text.
/// Text of printable ASCII characters is as wide as it has characters.
#[verifier::external_body]
fn width_of(s: &str) -> (r: usize)
    ensures
        r == text_width(s@),
        (forall|i: int| 0 <= i < s@.len() ==> is_printable_ascii(#[trigger] s@[i])) ==> r
            == s@.len(),
{
    unicode_width::UnicodeWidthStr::width(s)
}

/// `UnicodeWidthChar::width` of the crate `unicode_width`: the width of a
/// character. No character is wider than three columns, and a printable ASCII
/// character takes one.
#[verifier::external_body]
fn width_of_char(c: char) -> (r: Option<usize>)
    ensures
        r == char_width(c),
        r matches Some(n) ==> n <= 3,
        is_printable_ascii(c) ==> r == Some(1usize),
{
    unicode_width::UnicodeWidthChar::width(c)
}

/// The columns that a character takes; none for a control character.
pub open spec fn columns(c: char) -> nat {
    match char_width(c) {
        Some(n) => n as nat,
        None => 0,
    }
}

/// How many characters from `from` on fit into a number of columns: up to the
/// first one that does not.
pub open spec fn fitting(s: Seq<char>, from: int, room: int) -> int
    decreases s.len() - from,
{
    if from < 0 || from >= s.len() || columns(s[from]) > room {
        0
    } else {
        1 + fitting(s, from + 1, room - columns(s[from]))
    }
}

/// A text that is at most `max` columns wide as it is; otherwise as many
/// characters as fit into one column less, and an ellipsis.
pub open spec fn cut(s: Seq<char>, max: nat) -> Seq<char> {
    if text_width(s) <= max {
        s
    } else {
        s.take(
            fitting(
                s,
                0,
                if max > 0 {
                    max - 1
                } else {
                    0
                },
            ),
        ).push('…')
    }
}

/// What fits is part of the text.
pub proof fn fitting_in_range(s: Seq<char>, from: int, room: int)
    requires
        0 <= from <= s.len(),
    ensures
        0 <= fitting(s, from, room) <= s.len() - from,
    decreases s.len() - from,
{
    if from < s.len() && columns(s[from]) <= room {
        fitting_in_range(s, from + 1, room - columns(s[from]));
    }
}

/// The width of a text in columns.
pub fn measure(s: &str) -> (r: usize)
    ensures
        r == text_width(s@),
{
    width_of(s)
}

/// Cuts a text to a width.
pub fn truncate(s: &str, max: usize) -> (r: String)
    ensures
        r@ == cut(s@, max as nat),
{
    if width_of(s) <= max {
        return copy(s);
    }
    let limit: usize = if max > 0 {
        max - 1
    } else {
        0
    };
    let cs = chars_of(s);
    let mut used: usize = 0;
    let mut i: usize = 0;
    let mut going = true;
    while going && i < cs.len()
        invariant
            cs@ == s@,
            i <= cs@.len(),
            used <= limit,
            going ==> fitting(s@, 0, limit as int) == i + fitting(s@, i as int, limit - used),
            !going ==> fitting(s@, 0, limit as int) == i,
        decreases cs@.len() - i + (if going {
            1int
        } else {
            0
        }),
    {
        let cw: usize = match width_of_char(cs[i]) {
            Some(n) => n,
            None => 0,
        };
        if cw > limit - used {
            going = false;
        } else {
            used = used + cw;
            i += 1;
        }
    }
    let mut out = text_of(&cs, 0, i);
    assert(out@ =~= s@.take(i as int));
    out.push('…');
    out
}

/// The columns of the characters of a text, one by one.
pub open spec fn sum_columns(s: Seq<char>) -> nat
    decreases s.len(),
{
    if s.len() == 0 {
        0
    } else {
        columns(s[0]) + sum_columns(s.skip(1))
    }
}

/// A text that has been cut keeps its beginning, and what is kept leaves a
/// column for the ellipsis, unless there is no column at all.
pub proof fn cut_text_fits(s: Seq<char>, max: nat)
    requires
        text_width(s) > max,
        max > 0,
    ensures
        cut(s, max).last() == '…',
        cut(s, max).drop_last().is_prefix_of(s),
        sum_columns(cut(s, max).drop_last()) <= max - 1,
{
    let n = fitting(s, 0, max - 1);
    fitting_in_range(s, 0, max - 1);
    assert(cut(s, max).drop_last() =~= s.take(n));
    fitting_sum(s, 0, max - 1);
    assert(s.subrange(0, n) =~= s.take(n));
}

proof fn fitting_sum(s: Seq<char>, from: int, room: int)
    requires
        0 <= from <= s.len(),
        room >= 0,
    ensures
        sum_columns(s.subrange(from, from + fitting(s, from, room))) <= room,
    decreases s.len() - from,
{
    fitting_in_range(s, from, room);
    let n = fitting(s, from, room);
    if n > 0 {
        fitting_sum(s, from + 1, room - columns(s[from]));
        let t = s.subrange(from, from + n);
        assert(t.skip(1) =~= s.subrange(from + 1, from + n));
        assert(t[0] == s[from]);
    }
}

} // verus!
