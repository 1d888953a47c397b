//! Numbers with a fraction, kept as they were written.
//!
//! The value of such a number is never computed here: whoever prints one reads
//! the text as a floating-point number. What is decided here is whether a text
//! is such a number at all.

use vstd::prelude::*;

use crate::order::ascii_lower;
use crate::scan::{find_char, find_char_skip, search_char};
use crate::text::{all_digits, chars_of, is_digit, text_of};

verus! {

/// The text without one leading sign.
pub open spec fn without_sign(s: Seq<char>) -> Seq<char> {
    if s.len() > 0 && (s[0] == '+' || s[0] == '-') {
        s.skip(1)
    } else {
        s
    }
}

/// Whether two texts differ in the case of ASCII letters at most, where the
/// second has no capital letter.
pub open spec fn same_letters(s: Seq<char>, small: Seq<char>) -> bool {
    s.len() == small.len() && forall|i: int|
        0 <= i < s.len() ==> ascii_lower(#[trigger] s[i]) == small[i]
}

/// Whether every character is a decimal digit.
pub open spec fn only_digits(s: Seq<char>) -> bool {
    forall|i: int| 0 <= i < s.len() ==> is_digit(#[trigger] s[i])
}

/// Digits with at most one point among them, and at least one digit.
pub open spec fn is_mantissa(s: Seq<char>) -> bool {
    let point = find_char(s, '.', 0);
    let whole = s.take(point);
    let part = if point < s.len() {
        s.skip(point + 1)
    } else {
        Seq::empty()
    };
    only_digits(whole) && only_digits(part) && whole.len() + part.len() > 0
}

/// Where the exponent of a number begins; the length where it has none.
pub open spec fn exponent_at(s: Seq<char>) -> int {
    let small = find_char(s, 'e', 0);
    let large = find_char(s, 'E', 0);
    if small < large {
        small
    } else {
        large
    }
}

/// A mantissa, perhaps followed by an exponent.
pub open spec fn is_plain_number(s: Seq<char>) -> bool {
    let at = exponent_at(s);
    is_mantissa(s.take(at)) && (at < s.len() ==> all_digits(without_sign(s.skip(at + 1))))
}

/// Whether a text is a floating-point number: a sign or none, then a plain
/// number or one of the words for infinity and for no number.
pub open spec fn is_float_text(s: Seq<char>) -> bool {
    let t = without_sign(s);
    ||| same_letters(t, "inf"@)
    ||| same_letters(t, "infinity"@)
    ||| same_letters(t, "nan"@)
    ||| is_plain_number(t)
}

fn lower(c: char) -> (r: char)
    ensures
        r == ascii_lower(c),
{
    if 'A' <= c && c <= 'Z' {
        ((c as u8) + 32) as char
    } else {
        c
    }
}

fn reads_as(cs: &Vec<char>, from: usize, word: &str) -> (r: bool)
    requires
        from <= cs.len(),
    ensures
        r == same_letters(cs@.skip(from as int), word@),
{
    let ws = chars_of(word);
    let ghost t = cs@.skip(from as int);
    if cs.len() - from != ws.len() {
        return false;
    }
    let mut i: usize = 0;
    while i < ws.len()
        invariant
            i <= ws.len(),
            from <= cs.len(),
            ws@ == word@,
            cs.len() - from == ws.len(),
            t == cs@.skip(from as int),
            forall|j: int| 0 <= j < i ==> ascii_lower(#[trigger] t[j]) == word@[j],
        decreases ws.len() - i,
    {
        assert(t[i as int] == cs@[from + i]);
        if lower(cs[from + i]) != ws[i] {
            return false;
        }
        i += 1;
    }
    true
}

fn digits_from(cs: &Vec<char>, from: usize, to: usize) -> (r: bool)
    requires
        from <= to <= cs.len(),
    ensures
        r == only_digits(cs@.subrange(from as int, to as int)),
{
    let ghost t = cs@.subrange(from as int, to as int);
    let mut i: usize = from;
    while i < to
        invariant
            from <= i <= to <= cs.len(),
            t == cs@.subrange(from as int, to as int),
            forall|j: int| 0 <= j < i - from ==> is_digit(#[trigger] t[j]),
        decreases to - i,
    {
        let c = cs[i];
        assert(t[i - from] == c);
        if c < '0' || c > '9' {
            return false;
        }
        i += 1;
    }
    true
}

/// Whether a text is a floating-point number.
pub fn reads_as_float(s: &str) -> (r: bool)
    ensures
        r == is_float_text(s@),
{
    let cs = chars_of(s);
    let from: usize = if cs.len() > 0 && (cs[0] == '+' || cs[0] == '-') {
        1
    } else {
        0
    };
    let ghost t = without_sign(s@);
    assert(cs@.skip(from as int) =~= t);
    if reads_as(&cs, from, "inf") || reads_as(&cs, from, "infinity") || reads_as(&cs, from, "nan") {
        return true;
    }
    let small: usize = search_char(&cs, 'e', from);
    let large: usize = search_char(&cs, 'E', from);
    let at: usize = if small < large {
        small
    } else {
        large
    };
    proof {
        find_char_skip(s@, 'e', from as int, from as int);
        find_char_skip(s@, 'E', from as int, from as int);
        assert(exponent_at(t) == at - from);
    }
    let rest_ok = if at < cs.len() {
        let tail: usize = if at + 1 < cs.len() && (cs[at + 1] == '+' || cs[at + 1] == '-') {
            at + 2
        } else {
            at + 1
        };
        let ghost e = t.skip(at - from + 1);
        assert(e =~= cs@.skip(at + 1));
        assert(without_sign(e) =~= cs@.subrange(tail as int, cs.len() as int));
        tail < cs.len() && digits_from(&cs, tail, cs.len())
    } else {
        true
    };
    let head = chars_of(text_of(&cs, from, at).as_str());
    assert(head@ =~= t.take(at - from));
    let point: usize = search_char(&head, '.', 0);
    let whole_ok = digits_from(&head, 0, point);
    let part_ok = point == head.len() || digits_from(&head, point + 1, head.len());
    proof {
        assert(head@.subrange(0, point as int) =~= head@.take(point as int));
        if point < head.len() {
            assert(head@.subrange(point + 1, head.len() as int) =~= head@.skip(point + 1));
        }
    }
    let some = head.len() > 1 || (head.len() == 1 && point == 1);
    whole_ok && part_ok && some && rest_ok
}

// ---------------------------------------------------------------------------
// Laws
// ---------------------------------------------------------------------------

proof fn digits_hold_no_mark(s: Seq<char>, c: char)
    requires
        only_digits(s),
        !is_digit(c),
    ensures
        find_char(s, c, 0) == s.len(),
{
    crate::scan::find_char_facts(s, c, 0);
    let k = find_char(s, c, 0);
    if k < s.len() {
        assert(is_digit(s[k]));
    }
}

/// Whole numbers and numbers with a decimal point are numbers, with a sign in front or
/// without.
pub proof fn decimals_are_numbers(n: nat, m: nat)
    ensures
        is_float_text(crate::text::decimal(n)),
        is_float_text(crate::text::decimal(n) + seq!['.'] + crate::text::decimal(m)),
        is_float_text(seq!['-'] + crate::text::decimal(n)),
        !is_float_text(Seq::empty()),
{
    let a = crate::text::decimal(n);
    let b = crate::text::decimal(m);
    crate::text::decimals_are_read_back(n);
    crate::text::decimals_are_read_back(m);
    assert(only_digits(a) && only_digits(b));
    assert(is_digit(a[0]));
    digits_hold_no_mark(a, '.');
    digits_hold_no_mark(a, 'e');
    digits_hold_no_mark(a, 'E');
    assert(a.take(a.len() as int) =~= a);
    assert(is_plain_number(a));
    let minus = seq!['-'] + a;
    assert(minus.skip(1) =~= a);
    let s = a + seq!['.'] + b;
    assert(s[0] == a[0]);
    crate::scan::find_char_facts(s, '.', 0);
    crate::scan::find_char_facts(s, 'e', 0);
    crate::scan::find_char_facts(s, 'E', 0);
    assert forall|i: int| 0 <= i < s.len() implies is_digit(#[trigger] s[i]) || (i == a.len()
        && s[i] == '.') by {
        if i < a.len() {
            assert(is_digit(a[i]));
        } else if i > a.len() {
            assert(s[i] == b[i - a.len() - 1]);
            assert(is_digit(b[i - a.len() - 1]));
        }
    }
    assert(find_char(s, 'e', 0) == s.len());
    assert(find_char(s, 'E', 0) == s.len());
    assert(s.take(s.len() as int) =~= s);
    assert(s[a.len() as int] == '.');
    assert(find_char(s, '.', 0) == a.len());
    assert(s.take(a.len() as int) =~= a);
    assert(s.skip(a.len() as int + 1) =~= b);
    reveal_strlit("inf");
    reveal_strlit("infinity");
    reveal_strlit("nan");
}

} // verus!
