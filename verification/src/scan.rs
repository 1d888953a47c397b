//! Cutting text apart: white space, lines, words, separators and markers.

use vstd::prelude::*;

use crate::text::{chars_of, text_of, texts, texts_push};

verus! {

broadcast use texts_push;

// ---------------------------------------------------------------------------
// White space
// ---------------------------------------------------------------------------

/// Whether a character has the Unicode property `White_Space`.
pub open spec fn is_white(c: char) -> bool {
    let n = c as u32;
    ||| 0x9 <= n <= 0xd
    ||| n == 0x20
    ||| n == 0x85
    ||| n == 0xa0
    ||| n == 0x1680
    ||| 0x2000 <= n <= 0x200a
    ||| n == 0x2028
    ||| n == 0x2029
    ||| n == 0x202f
    ||| n == 0x205f
    ||| n == 0x3000
}

/// Whether a character is white space.
pub fn white(c: char) -> (r: bool)
    ensures
        r == is_white(c),
{
    let n: u32 = c as u32;
    (0x9 <= n && n <= 0xd) || n == 0x20 || n == 0x85 || n == 0xa0 || n == 0x1680 || (0x2000 <= n && n
        <= 0x200a) || n == 0x2028 || n == 0x2029 || n == 0x202f || n == 0x205f || n == 0x3000
}

/// The text from its first character that is not white space.
pub open spec fn trim_start(s: Seq<char>) -> Seq<char>
    decreases s.len(),
{
    if s.len() > 0 && is_white(s[0]) {
        trim_start(s.skip(1))
    } else {
        s
    }
}

/// The text up to its last character that is not white space.
pub open spec fn trim_end(s: Seq<char>) -> Seq<char>
    decreases s.len(),
{
    if s.len() > 0 && is_white(s.last()) {
        trim_end(s.drop_last())
    } else {
        s
    }
}

/// The text without white space at either end.
pub open spec fn trim(s: Seq<char>) -> Seq<char> {
    trim_end(trim_start(s))
}

fn trimmed_from(cs: &Vec<char>, from: usize, to: usize) -> (r: usize)
    requires
        from <= to <= cs.len(),
    ensures
        from <= r <= to,
        cs@.subrange(r as int, to as int) == trim_start(cs@.subrange(from as int, to as int)),
{
    let mut i: usize = from;
    while i < to && white(cs[i])
        invariant
            from <= i <= to <= cs.len(),
            trim_start(cs@.subrange(from as int, to as int)) == trim_start(
                cs@.subrange(i as int, to as int),
            ),
        decreases to - i,
    {
        let ghost t = cs@.subrange(i as int, to as int);
        assert(t.skip(1) =~= cs@.subrange(i as int + 1, to as int));
        assert(t[0] == cs@[i as int]);
        i += 1;
    }
    assert(i < to ==> cs@.subrange(i as int, to as int)[0] == cs@[i as int]);
    i
}

fn trimmed_to(cs: &Vec<char>, from: usize, to: usize) -> (r: usize)
    requires
        from <= to <= cs.len(),
    ensures
        from <= r <= to,
        cs@.subrange(from as int, r as int) == trim_end(cs@.subrange(from as int, to as int)),
{
    let mut j: usize = to;
    while j > from && white(cs[j - 1])
        invariant
            from <= j <= to <= cs.len(),
            trim_end(cs@.subrange(from as int, to as int)) == trim_end(
                cs@.subrange(from as int, j as int),
            ),
        decreases j,
    {
        let ghost t = cs@.subrange(from as int, j as int);
        assert(t.drop_last() =~= cs@.subrange(from as int, j as int - 1));
        assert(t.last() == cs@[j as int - 1]);
        j -= 1;
    }
    assert(j > from ==> cs@.subrange(from as int, j as int).last() == cs@[j as int - 1]);
    j
}

/// The text without white space at either end.
pub fn trimmed(s: &str) -> (r: String)
    ensures
        r@ == trim(s@),
{
    let cs = chars_of(s);
    let i: usize = trimmed_from(&cs, 0, cs.len());
    let j: usize = trimmed_to(&cs, i, cs.len());
    assert(cs@.subrange(0, cs.len() as int) =~= s@);
    text_of(&cs, i, j)
}

// ---------------------------------------------------------------------------
// Searching
// ---------------------------------------------------------------------------

/// Where `c` first occurs at or after `from`; the length where it does not.
pub open spec fn find_char(s: Seq<char>, c: char, from: int) -> int
    decreases s.len() - from,
{
    if from < 0 || from >= s.len() {
        s.len() as int
    } else if s[from] == c {
        from
    } else {
        find_char(s, c, from + 1)
    }
}

/// Whether `pat` stands in `s` at `at`.
pub open spec fn occurs_at(s: Seq<char>, pat: Seq<char>, at: int) -> bool {
    0 <= at && at + pat.len() <= s.len() && s.subrange(at, at + pat.len()) == pat
}

/// Where `pat` first occurs at or after `from`; `-1` where it does not.
pub open spec fn find_text(s: Seq<char>, pat: Seq<char>, from: int) -> int
    decreases s.len() + 1 - from,
{
    if from < 0 || from > s.len() {
        -1
    } else if occurs_at(s, pat, from) {
        from
    } else {
        find_text(s, pat, from + 1)
    }
}

/// Whether `pat` occurs anywhere in `s`.
pub open spec fn has_text(s: Seq<char>, pat: Seq<char>) -> bool {
    exists|at: int| occurs_at(s, pat, at)
}

/// Where `find_char` points, and that the character is not met before.
pub proof fn find_char_facts(s: Seq<char>, c: char, from: int)
    requires
        0 <= from <= s.len(),
    ensures
        from <= find_char(s, c, from) <= s.len(),
        find_char(s, c, from) < s.len() ==> s[find_char(s, c, from)] == c,
        forall|i: int| from <= i < find_char(s, c, from) ==> #[trigger] s[i] != c,
    decreases s.len() - from,
{
    if from < s.len() && s[from] != c {
        find_char_facts(s, c, from + 1);
    }
}

/// Where `find_text` points, and that the pattern is not met before.
pub proof fn find_text_facts(s: Seq<char>, pat: Seq<char>, from: int)
    requires
        0 <= from,
    ensures
        find_text(s, pat, from) == -1 || (from <= find_text(s, pat, from) && occurs_at(
            s,
            pat,
            find_text(s, pat, from),
        )),
        find_text(s, pat, from) == -1 ==> forall|i: int| from <= i ==> !#[trigger] occurs_at(
            s,
            pat,
            i,
        ),
        forall|i: int|
            from <= i < find_text(s, pat, from) ==> !#[trigger] occurs_at(s, pat, i),
    decreases s.len() + 1 - from,
{
    if from <= s.len() && !occurs_at(s, pat, from) {
        find_text_facts(s, pat, from + 1);
    }
}

/// Whether `pat` stands at `at`.
pub fn stands_at(cs: &Vec<char>, pat: &Vec<char>, at: usize) -> (r: bool)
    requires
        at <= cs.len(),
    ensures
        r == occurs_at(cs@, pat@, at as int),
{
    if cs.len() - at < pat.len() {
        return false;
    }
    let mut k: usize = 0;
    while k < pat.len()
        invariant
            k <= pat.len(),
            at + pat.len() <= cs.len(),
            forall|j: int| 0 <= j < k ==> cs@[at + j] == #[trigger] pat@[j],
        decreases pat.len() - k,
    {
        if cs[at + k] != pat[k] {
            assert(cs@.subrange(at as int, at + pat.len())[k as int] != pat@[k as int]);
            return false;
        }
        k += 1;
    }
    assert(cs@.subrange(at as int, at + pat.len()) =~= pat@);
    true
}

/// The first place at or after `from` where `pat` stands.
pub fn search(cs: &Vec<char>, pat: &Vec<char>, from: usize) -> (r: Option<usize>)
    requires
        from <= cs.len(),
    ensures
        r matches Some(i) ==> i == find_text(cs@, pat@, from as int) && i <= cs.len(),
        r is None ==> find_text(cs@, pat@, from as int) == -1,
{
    let mut i: usize = from;
    loop
        invariant
            from <= i <= cs.len(),
            find_text(cs@, pat@, from as int) == find_text(cs@, pat@, i as int),
        decreases cs.len() - i,
    {
        if stands_at(cs, pat, i) {
            return Some(i);
        }
        if i == cs.len() {
            assert(find_text(cs@, pat@, i + 1) == -1);
            return None;
        }
        i += 1;
    }
}

/// The first place at or after `from` where the character stands.
pub fn search_char(cs: &Vec<char>, c: char, from: usize) -> (r: usize)
    requires
        from <= cs.len(),
    ensures
        r == find_char(cs@, c, from as int),
        from <= r <= cs.len(),
{
    let mut i: usize = from;
    while i < cs.len() && cs[i] != c
        invariant
            from <= i <= cs.len(),
            find_char(cs@, c, from as int) == find_char(cs@, c, i as int),
        decreases cs.len() - i,
    {
        i += 1;
    }
    i
}

/// Whether `pat` occurs in `s`.
pub fn contains_text(s: &str, pat: &str) -> (r: bool)
    ensures
        r == has_text(s@, pat@),
{
    let cs = chars_of(s);
    let ps = chars_of(pat);
    let found = search(&cs, &ps, 0);
    proof {
        find_text_facts(s@, pat@, 0);
    }
    match found {
        Some(i) => true,
        None => {
            assert forall|at: int| !occurs_at(s@, pat@, at) by {
                if at < 0 {
                    assert(!occurs_at(s@, pat@, at));
                }
            }
            false
        },
    }
}

/// Whether a character occurs in `s`.
pub fn contains_char(s: &str, c: char) -> (r: bool)
    ensures
        r == s@.contains(c),
{
    let cs = chars_of(s);
    let i: usize = search_char(&cs, c, 0);
    proof {
        find_char_facts(s@, c, 0);
    }
    if i < cs.len() {
        assert(s@[i as int] == c);
        true
    } else {
        false
    }
}

/// Whether `s` begins with `pat`.
pub open spec fn begins(s: Seq<char>, pat: Seq<char>) -> bool {
    occurs_at(s, pat, 0)
}

/// Whether `s` ends with `pat`.
pub open spec fn ends(s: Seq<char>, pat: Seq<char>) -> bool {
    occurs_at(s, pat, s.len() - pat.len())
}

/// Whether `s` begins with `pat`.
pub fn begins_with(s: &str, pat: &str) -> (r: bool)
    ensures
        r == begins(s@, pat@),
{
    let cs = chars_of(s);
    let ps = chars_of(pat);
    stands_at(&cs, &ps, 0)
}

/// Whether `s` ends with `pat`.
pub fn ends_with(s: &str, pat: &str) -> (r: bool)
    ensures
        r == ends(s@, pat@),
{
    let cs = chars_of(s);
    let ps = chars_of(pat);
    if ps.len() > cs.len() {
        return false;
    }
    stands_at(&cs, &ps, cs.len() - ps.len())
}

/// What follows `pat` at the start of `s`.
pub open spec fn after_prefix(s: Seq<char>, pat: Seq<char>) -> Option<Seq<char>> {
    if begins(s, pat) {
        Some(s.skip(pat.len() as int))
    } else {
        None
    }
}

/// What follows `pat` at the start of `s`, if `s` begins with it.
pub fn strip_prefix(s: &str, pat: &str) -> (r: Option<String>)
    ensures
        crate::text::text_opt(r) == after_prefix(s@, pat@),
{
    let cs = chars_of(s);
    let ps = chars_of(pat);
    if stands_at(&cs, &ps, 0) {
        let rest = text_of(&cs, ps.len(), cs.len());
        assert(rest@ =~= s@.skip(pat@.len() as int));
        Some(rest)
    } else {
        None
    }
}

// ---------------------------------------------------------------------------
// Lines
// ---------------------------------------------------------------------------

/// A line without the carriage return that stood before its line feed.
pub open spec fn without_cr(line: Seq<char>) -> Seq<char> {
    if line.len() > 0 && line.last() == '\r' {
        line.drop_last()
    } else {
        line
    }
}

/// The lines of a text: each ends at a line feed or at the end of the text, and
/// a line feed at the very end opens no further line.
pub open spec fn lines(s: Seq<char>) -> Seq<Seq<char>>
    decreases s.len(),
    via lines_shrink
{
    if s.len() == 0 {
        Seq::empty()
    } else {
        let k = find_char(s, '\n', 0);
        if k >= s.len() {
            seq![s]
        } else {
            seq![without_cr(s.take(k))] + lines(s.skip(k + 1))
        }
    }
}

#[via_fn]
proof fn lines_shrink(s: Seq<char>) {
    if s.len() > 0 {
        find_char_facts(s, '\n', 0);
    }
}

/// Shifting the text shifts where a character is found.
pub proof fn find_char_skip(s: Seq<char>, c: char, base: int, from: int)
    requires
        0 <= base <= from <= s.len(),
    ensures
        find_char(s.skip(base), c, from - base) == find_char(s, c, from) - base,
    decreases s.len() - from,
{
    if from < s.len() && s[from] != c {
        find_char_skip(s, c, base, from + 1);
    }
}

/// The lines of a text.
pub fn split_lines(s: &str) -> (r: Vec<String>)
    ensures
        texts(r@) == lines(s@),
{
    let cs = chars_of(s);
    let mut out: Vec<String> = Vec::new();
    let mut start: usize = 0;
    assert(s@.skip(0) =~= s@);
    assert(texts(out@) + lines(s@) =~= lines(s@));
    while start < cs.len()
        invariant
            cs@ == s@,
            start <= cs.len(),
            lines(s@) == texts(out@) + lines(s@.skip(start as int)),
        decreases cs.len() - start,
    {
        let ghost before = texts(out@);
        let ghost rest = s@.skip(start as int);
        let k: usize = search_char(&cs, '\n', start);
        proof {
            find_char_skip(s@, '\n', start as int, start as int);
            find_char_facts(rest, '\n', 0);
        }
        if k == cs.len() {
            let line = text_of(&cs, start, k);
            assert(line@ =~= rest);
            out.push(line);
            assert(lines(s@) =~= texts(out@));
            return out;
        }
        let end: usize = if k > start && cs[k - 1] == '\r' {
            k - 1
        } else {
            k
        };
        let line = text_of(&cs, start, end);
        proof {
            assert(rest.take(k - start) =~= s@.subrange(start as int, k as int));
            assert(line@ =~= without_cr(rest.take(k - start)));
            assert(rest.skip(k - start + 1) =~= s@.skip(k + 1));
        }
        out.push(line);
        start = k + 1;
        assert(before + (seq![line@] + lines(s@.skip(start as int))) =~= texts(out@) + lines(
            s@.skip(start as int),
        ));
    }
    assert(s@.skip(start as int) =~= Seq::<char>::empty());
    assert(lines(s@) =~= texts(out@));
    out
}

// ---------------------------------------------------------------------------
// Words
// ---------------------------------------------------------------------------

/// Where the first white space at or after `from` stands; the length if none.
pub open spec fn find_white(s: Seq<char>, from: int) -> int
    decreases s.len() - from,
{
    if from < 0 || from >= s.len() {
        s.len() as int
    } else if is_white(s[from]) {
        from
    } else {
        find_white(s, from + 1)
    }
}

proof fn find_white_facts(s: Seq<char>, from: int)
    requires
        0 <= from <= s.len(),
    ensures
        from <= find_white(s, from) <= s.len(),
        find_white(s, from) < s.len() ==> is_white(s[find_white(s, from)]),
        from < s.len() && !is_white(s[from]) ==> find_white(s, from) > from,
    decreases s.len() - from,
{
    if from < s.len() && !is_white(s[from]) {
        find_white_facts(s, from + 1);
    }
}

proof fn trim_start_shrinks(s: Seq<char>)
    ensures
        trim_start(s).len() <= s.len(),
        trim_start(s).len() > 0 ==> !is_white(trim_start(s)[0]),
    decreases s.len(),
{
    if s.len() > 0 && is_white(s[0]) {
        trim_start_shrinks(s.skip(1));
    }
}

/// The words of a text: its longest runs without white space.
pub open spec fn words(s: Seq<char>) -> Seq<Seq<char>>
    decreases s.len(),
    via words_shrink
{
    let t = trim_start(s);
    if t.len() == 0 {
        Seq::empty()
    } else {
        let k = find_white(t, 0);
        seq![t.take(k)] + words(t.skip(k))
    }
}

#[via_fn]
proof fn words_shrink(s: Seq<char>) {
    trim_start_shrinks(s);
    let t = trim_start(s);
    if t.len() > 0 {
        find_white_facts(t, 0);
    }
}

/// Where the next white space stands at or after `from`.
pub fn search_white(cs: &Vec<char>, from: usize) -> (r: usize)
    requires
        from <= cs.len(),
    ensures
        r == find_white(cs@, from as int),
        from <= r <= cs.len(),
{
    let mut i: usize = from;
    while i < cs.len() && !white(cs[i])
        invariant
            from <= i <= cs.len(),
            find_white(cs@, from as int) == find_white(cs@, i as int),
        decreases cs.len() - i,
    {
        i += 1;
    }
    i
}

proof fn find_white_skip(s: Seq<char>, base: int, from: int)
    requires
        0 <= base <= from <= s.len(),
    ensures
        find_white(s.skip(base), from - base) == find_white(s, from) - base,
    decreases s.len() - from,
{
    if from < s.len() && !is_white(s[from]) {
        find_white_skip(s, base, from + 1);
    }
}

/// The words of a text.
pub fn split_words(s: &str) -> (r: Vec<String>)
    ensures
        texts(r@) == words(s@),
{
    let cs = chars_of(s);
    let mut out: Vec<String> = Vec::new();
    let mut start: usize = 0;
    assert(s@.skip(0) =~= s@);
    assert(texts(out@) + words(s@) =~= words(s@));
    loop
        invariant
            cs@ == s@,
            start <= cs.len(),
            words(s@) == texts(out@) + words(s@.skip(start as int)),
        decreases cs.len() - start,
    {
        let ghost before = texts(out@);
        let i: usize = trimmed_from(&cs, start, cs.len());
        let ghost t = s@.skip(i as int);
        proof {
            assert(cs@.subrange(start as int, cs.len() as int) =~= s@.skip(start as int));
            assert(cs@.subrange(i as int, cs.len() as int) =~= t);
            trim_start_shrinks(s@.skip(start as int));
        }
        if i == cs.len() {
            assert(words(s@.skip(start as int)) =~= Seq::empty());
            assert(words(s@) =~= texts(out@));
            return out;
        }
        let k: usize = search_white(&cs, i);
        proof {
            find_white_skip(s@, i as int, i as int);
            find_white_facts(t, 0);
        }
        let word = text_of(&cs, i, k);
        proof {
            assert(word@ =~= t.take(k - i));
            assert(t.skip(k - i) =~= s@.skip(k as int));
        }
        out.push(word);
        start = k;
        assert(before + (seq![word@] + words(s@.skip(start as int))) =~= texts(out@) + words(
            s@.skip(start as int),
        ));
    }
}

// ---------------------------------------------------------------------------
// Separators
// ---------------------------------------------------------------------------

/// The pieces of a text between the occurrences of a character.
pub open spec fn split_on(s: Seq<char>, c: char) -> Seq<Seq<char>>
    decreases s.len(),
    via split_on_shrink
{
    let k = find_char(s, c, 0);
    if k >= s.len() {
        seq![s]
    } else {
        seq![s.take(k)] + split_on(s.skip(k + 1), c)
    }
}

#[via_fn]
proof fn split_on_shrink(s: Seq<char>, c: char) {
    find_char_facts(s, c, 0);
}

/// The pieces of a text between the occurrences of a character.
pub fn split_char(s: &str, c: char) -> (r: Vec<String>)
    ensures
        texts(r@) == split_on(s@, c),
        r.len() > 0,
{
    let cs = chars_of(s);
    let mut out: Vec<String> = Vec::new();
    let mut start: usize = 0;
    assert(s@.skip(0) =~= s@);
    assert(texts(out@) + split_on(s@, c) =~= split_on(s@, c));
    loop
        invariant
            cs@ == s@,
            start <= cs.len(),
            split_on(s@, c) == texts(out@) + split_on(s@.skip(start as int), c),
        decreases cs.len() - start,
    {
        let ghost before = texts(out@);
        let ghost rest = s@.skip(start as int);
        let k: usize = search_char(&cs, c, start);
        proof {
            find_char_skip(s@, c, start as int, start as int);
            find_char_facts(rest, c, 0);
        }
        let piece = text_of(&cs, start, k);
        out.push(piece);
        assert(piece@ =~= rest.take(k - start));
        if k == cs.len() {
            assert(rest.take(k - start) =~= rest);
            assert(split_on(s@, c) =~= texts(out@));
            return out;
        }
        assert(rest.skip(k - start + 1) =~= s@.skip(k + 1));
        start = k + 1;
        assert(before + (seq![piece@] + split_on(s@.skip(start as int), c)) =~= texts(out@)
            + split_on(s@.skip(start as int), c));
    }
}

/// The pieces of a text between the occurrences of a marker.
pub open spec fn split_at_marker(s: Seq<char>, marker: Seq<char>) -> Seq<Seq<char>>
    decreases s.len(),
    via split_at_marker_shrink
{
    let k = find_text(s, marker, 0);
    if marker.len() == 0 || k < 0 {
        seq![s]
    } else {
        seq![s.take(k)] + split_at_marker(s.skip(k + marker.len()), marker)
    }
}

#[via_fn]
proof fn split_at_marker_shrink(s: Seq<char>, marker: Seq<char>) {
    find_text_facts(s, marker, 0);
}

/// Shifting the text shifts where a pattern is found.
proof fn find_text_skip(s: Seq<char>, pat: Seq<char>, base: int, from: int)
    requires
        0 <= base <= from <= s.len() + 1,
        base <= s.len(),
    ensures
        find_text(s.skip(base), pat, from - base) == if find_text(s, pat, from) == -1 {
            -1
        } else {
            find_text(s, pat, from) - base
        },
    decreases s.len() + 1 - from,
{
    let t = s.skip(base);
    if from <= s.len() {
        if from + pat.len() <= s.len() {
            assert(t.subrange(from - base, from - base + pat.len()) =~= s.subrange(
                from,
                from + pat.len(),
            ));
        }
        assert(occurs_at(t, pat, from - base) == occurs_at(s, pat, from));
        if !occurs_at(s, pat, from) {
            find_text_skip(s, pat, base, from + 1);
        }
    }
}

/// The pieces of a text between the occurrences of a marker.
pub fn split_marker(s: &str, marker: &str) -> (r: Vec<String>)
    requires
        marker@.len() > 0,
    ensures
        texts(r@) == split_at_marker(s@, marker@),
        r.len() > 0,
{
    let cs = chars_of(s);
    let ps = chars_of(marker);
    let mut out: Vec<String> = Vec::new();
    let mut start: usize = 0;
    assert(s@.skip(0) =~= s@);
    assert(texts(out@) + split_at_marker(s@, marker@) =~= split_at_marker(s@, marker@));
    loop
        invariant
            cs@ == s@,
            ps@ == marker@,
            marker@.len() > 0,
            start <= cs.len(),
            split_at_marker(s@, marker@) == texts(out@) + split_at_marker(
                s@.skip(start as int),
                marker@,
            ),
        decreases cs.len() - start,
    {
        let ghost before = texts(out@);
        let ghost rest = s@.skip(start as int);
        let found = search(&cs, &ps, start);
        proof {
            find_text_skip(s@, marker@, start as int, start as int);
            find_text_facts(s@, marker@, start as int);
        }
        match found {
            None => {
                let piece = text_of(&cs, start, cs.len());
                assert(piece@ =~= rest);
                out.push(piece);
                assert(split_at_marker(s@, marker@) =~= texts(out@));
                return out;
            },
            Some(k) => {
                let piece = text_of(&cs, start, k);
                assert(piece@ =~= rest.take(k - start));
                out.push(piece);
                assert(rest.skip(k - start + marker@.len()) =~= s@.skip(k + marker@.len()));
                start = k + ps.len();
                assert(before + (seq![piece@] + split_at_marker(s@.skip(start as int), marker@))
                    =~= texts(out@) + split_at_marker(s@.skip(start as int), marker@));
            },
        }
    }
}

// ---------------------------------------------------------------------------
// Joining and replacing
// ---------------------------------------------------------------------------

/// The parts, one after the other, with the separator between neighbours.
pub open spec fn join(parts: Seq<Seq<char>>, sep: Seq<char>) -> Seq<char>
    decreases parts.len(),
{
    if parts.len() == 0 {
        Seq::empty()
    } else if parts.len() == 1 {
        parts[0]
    } else {
        join(parts.drop_last(), sep) + sep + parts.last()
    }
}

/// The parts, one after the other, with the separator between neighbours.
pub fn join_all(parts: &[String], sep: &str) -> (r: String)
    ensures
        r@ == join(texts(parts@), sep@),
{
    let mut out = String::new();
    let mut i: usize = 0;
    while i < parts.len()
        invariant
            i <= parts.len(),
            out@ == join(texts(parts@).take(i as int), sep@),
        decreases parts.len() - i,
    {
        let ghost all = texts(parts@);
        if i > 0 {
            out.append(sep);
        }
        out.append(parts[i].as_str());
        proof {
            assert(all.take(i + 1).drop_last() =~= all.take(i as int));
            assert(all.take(i + 1).last() == parts[i as int]@);
            if i == 0 {
                assert(all.take(0) =~= Seq::empty());
                assert(out@ =~= parts[0]@);
            }
        }
        i += 1;
    }
    assert(texts(parts@).take(i as int) =~= texts(parts@));
    out
}

/// Every occurrence of a character replaced by a text.
pub open spec fn replace_char(s: Seq<char>, c: char, by: Seq<char>) -> Seq<char>
    decreases s.len(),
{
    if s.len() == 0 {
        Seq::empty()
    } else {
        replace_char(s.drop_last(), c, by) + (if s.last() == c {
            by
        } else {
            seq![s.last()]
        })
    }
}

/// Every occurrence of a character replaced by a text.
pub fn replaced(s: &str, c: char, by: &str) -> (r: String)
    ensures
        r@ == replace_char(s@, c, by@),
{
    let cs = chars_of(s);
    let mut out = String::new();
    let mut i: usize = 0;
    while i < cs.len()
        invariant
            cs@ == s@,
            i <= cs.len(),
            out@ == replace_char(s@.take(i as int), c, by@),
        decreases cs.len() - i,
    {
        let d = cs[i];
        assert(s@.take(i + 1).drop_last() =~= s@.take(i as int));
        if d == c {
            out.append(by);
        } else {
            out.push(d);
        }
        i += 1;
        assert(out@ =~= replace_char(s@.take(i as int), c, by@));
    }
    assert(s@.take(i as int) =~= s@);
    out
}

// ---------------------------------------------------------------------------
// Laws
// ---------------------------------------------------------------------------

proof fn trim_start_cuts(s: Seq<char>) -> (n: int)
    ensures
        0 <= n <= s.len(),
        trim_start(s) == s.skip(n),
        forall|i: int| 0 <= i < n ==> is_white(#[trigger] s[i]),
        n < s.len() ==> !is_white(s[n]),
    decreases s.len(),
{
    if s.len() > 0 && is_white(s[0]) {
        let rest = s.skip(1);
        let m = trim_start_cuts(rest);
        assert(rest.skip(m) =~= s.skip(m + 1));
        assert forall|i: int| 0 <= i < m + 1 implies is_white(#[trigger] s[i]) by {
            if i > 0 {
                assert(rest[i - 1] == s[i]);
            }
        }
        if m + 1 < s.len() {
            assert(rest[m] == s[m + 1]);
        }
        m + 1
    } else {
        assert(s.skip(0) =~= s);
        0
    }
}

proof fn trim_end_cuts(s: Seq<char>) -> (n: int)
    ensures
        0 <= n <= s.len(),
        trim_end(s) == s.take(n),
        forall|i: int| n <= i < s.len() ==> is_white(#[trigger] s[i]),
        n > 0 ==> !is_white(s[n - 1]),
    decreases s.len(),
{
    if s.len() > 0 && is_white(s.last()) {
        let rest = s.drop_last();
        let m = trim_end_cuts(rest);
        assert(rest.take(m) =~= s.take(m));
        assert forall|i: int| m <= i < s.len() implies is_white(#[trigger] s[i]) by {
            if i < rest.len() {
                assert(rest[i] == s[i]);
            }
        }
        if m > 0 {
            assert(rest[m - 1] == s[m - 1]);
        }
        m
    } else {
        assert(s.take(s.len() as int) =~= s);
        s.len() as int
    }
}

/// What is cut off a text at both ends is white space, and what stays neither begins nor
/// ends with any.
pub proof fn trimming_cuts_white_space(s: Seq<char>) -> (at: (int, int))
    ensures
        0 <= at.0 <= at.1 <= s.len(),
        trim(s) == s.subrange(at.0, at.1),
        forall|i: int| 0 <= i < at.0 || at.1 <= i < s.len() ==> is_white(#[trigger] s[i]),
        trim(s).len() > 0 ==> !is_white(trim(s)[0]) && !is_white(trim(s).last()),
{
    let a = trim_start_cuts(s);
    let t = s.skip(a);
    let b = trim_end_cuts(t);
    assert(t.take(b) =~= s.subrange(a, a + b));
    assert forall|i: int| 0 <= i < a || a + b <= i < s.len() implies is_white(#[trigger] s[i]) by {
        if i >= a + b {
            assert(t[i - a] == s[i]);
        }
    }
    if b > 0 {
        assert(t[b - 1] == trim(s).last());
        assert(t[0] == trim(s)[0]);
        if a >= s.len() {
            assert(t.len() == 0);
        }
    }
    (a, a + b)
}

proof fn join_from_first(first: Seq<char>, rest: Seq<Seq<char>>, sep: Seq<char>)
    requires
        rest.len() > 0,
    ensures
        join(seq![first] + rest, sep) == first + sep + join(rest, sep),
    decreases rest.len(),
{
    let all = seq![first] + rest;
    assert(all.drop_last() =~= seq![first] + rest.drop_last());
    assert(all.last() == rest.last());
    if rest.len() == 1 {
        assert(all.drop_last() =~= seq![first]);
        assert(join(seq![first], sep) == first);
    } else {
        join_from_first(first, rest.drop_last(), sep);
        assert(join(all, sep) =~= first + sep + join(rest, sep));
    }
}

/// The pieces between the occurrences of a character hold none of it, and put together
/// with it between them they are the text again.
pub proof fn splitting_and_joining(s: Seq<char>, c: char)
    ensures
        join(split_on(s, c), seq![c]) == s,
        split_on(s, c).len() > 0,
        forall|i: int| 0 <= i < split_on(s, c).len()
            ==> !(#[trigger] split_on(s, c)[i]).contains(c),
    decreases s.len(),
{
    find_char_facts(s, c, 0);
    let k = find_char(s, c, 0);
    if k >= s.len() {
        assert(split_on(s, c) == seq![s]);
        assert(!s.contains(c));
    } else {
        let rest = s.skip(k + 1);
        splitting_and_joining(rest, c);
        let parts = split_on(rest, c);
        join_from_first(s.take(k), parts, seq![c]);
        assert(s.take(k) + seq![c] + rest =~= s);
        let all = split_on(s, c);
        assert(all == seq![s.take(k)] + parts);
        assert forall|i: int| 0 <= i < all.len() implies !(#[trigger] all[i]).contains(c) by {
            if i > 0 {
                assert(all[i] == parts[i - 1]);
            }
        }
    }
}

/// The pieces between the occurrences of a marker, put together with it between them, are
/// the text again.
pub proof fn markers_part_a_text(s: Seq<char>, marker: Seq<char>)
    ensures
        join(split_at_marker(s, marker), marker) == s,
        split_at_marker(s, marker).len() > 0,
    decreases s.len(),
{
    find_text_facts(s, marker, 0);
    let k = find_text(s, marker, 0);
    if marker.len() > 0 && k >= 0 {
        let rest = s.skip(k + marker.len());
        markers_part_a_text(rest, marker);
        join_from_first(s.take(k), split_at_marker(rest, marker), marker);
        assert(s.take(k) + marker + rest =~= s);
    }
}

/// No line holds a line feed, and a text without any is one line.
pub proof fn lines_end_at_line_feeds(s: Seq<char>)
    ensures
        forall|i: int| 0 <= i < lines(s).len() ==> !(#[trigger] lines(s)[i]).contains('\n'),
        s.len() > 0 && !s.contains('\n') ==> lines(s) == seq![s],
        s.len() == 0 ==> lines(s).len() == 0,
    decreases s.len(),
{
    if s.len() > 0 {
        find_char_facts(s, '\n', 0);
        let k = find_char(s, '\n', 0);
        if k < s.len() {
            assert(s.contains(s[k]));
            lines_end_at_line_feeds(s.skip(k + 1));
            let rest = lines(s.skip(k + 1));
            let all = lines(s);
            assert(all == seq![without_cr(s.take(k))] + rest);
            assert forall|i: int| 0 <= i < all.len()
                implies !(#[trigger] all[i]).contains('\n') by {
                if i > 0 {
                    assert(all[i] == rest[i - 1]);
                }
            }
        } else {
            assert(!s.contains('\n'));
        }
    }
}

/// A line in front of a text is its first line, and the lines of the text follow; a
/// carriage return before the line feed is no part of it.
pub proof fn a_line_comes_first(line: Seq<char>, rest: Seq<char>)
    requires
        !line.contains('\n'),
    ensures
        line.len() == 0 || line.last() != '\r' ==> lines(line + seq!['\n'] + rest) == seq![line]
            + lines(rest),
        lines(line + seq!['\r', '\n'] + rest) == seq![line] + lines(rest),
{
    let s = line + seq!['\n'] + rest;
    find_char_facts(s, '\n', 0);
    let k = find_char(s, '\n', 0);
    let n = line.len() as int;
    assert(s[n] == '\n');
    assert(k <= n);
    if k < n {
        assert(line.contains(s[k]));
    }
    assert(s.take(k) =~= line);
    assert(s.skip(k + 1) =~= rest);
    let t = line + seq!['\r', '\n'] + rest;
    find_char_facts(t, '\n', 0);
    let m = find_char(t, '\n', 0);
    assert(t[n + 1] == '\n');
    assert(t[n] == '\r');
    assert(m <= n + 1);
    if m < n {
        assert(line.contains(t[m]));
    }
    assert(t.take(m) =~= line.push('\r'));
    assert(line.push('\r').drop_last() =~= line);
    assert(t.skip(m + 1) =~= rest);
}

/// Words hold no white space and are not empty; a text without white space is one word.
pub proof fn words_are_runs(s: Seq<char>)
    ensures
        forall|i: int| 0 <= i < words(s).len() ==> (#[trigger] words(s)[i]).len() > 0,
        forall|i: int, j: int|
            0 <= i < words(s).len() && 0 <= j < words(s)[i].len() ==> !is_white(
                #[trigger] words(s)[i][j],
            ),
        s.len() > 0 && (forall|i: int| 0 <= i < s.len() ==> !is_white(#[trigger] s[i])) ==> words(s)
            == seq![s],
        (forall|i: int| 0 <= i < s.len() ==> is_white(#[trigger] s[i])) <==> words(s).len() == 0,
    decreases s.len(),
{
    let a = trim_start_cuts(s);
    let t = s.skip(a);
    trim_start_shrinks(s);
    if t.len() > 0 {
        find_white_facts(t, 0);
        find_white_first(t, 0);
        let k = find_white(t, 0);
        words_are_runs(t.skip(k));
        let rest = words(t.skip(k));
        let all = words(s);
        assert(all == seq![t.take(k)] + rest);
        assert(!is_white(s[a]));
        assert forall|i: int| 0 <= i < all.len() implies (#[trigger] all[i]).len() > 0 by {
            if i > 0 {
                assert(all[i] == rest[i - 1]);
            }
        }
        assert forall|i: int, j: int| 0 <= i < all.len() && 0 <= j < all[i].len() implies !is_white(
            #[trigger] all[i][j],
        ) by {
            if i > 0 {
                assert(all[i] == rest[i - 1]);
                assert(!is_white(rest[i - 1][j]));
            }
        }
        if forall|i: int| 0 <= i < s.len() ==> !is_white(#[trigger] s[i]) {
            if a > 0 {
                assert(is_white(s[0]));
            }
            assert(t =~= s);
            if k < t.len() {
                assert(is_white(s[k]));
            }
            assert(t.take(k) =~= s);
            assert(t.skip(k).len() == 0);
            assert(rest =~= Seq::empty());
        }
    } else {
        assert(a == s.len());
    }
}

proof fn find_white_first(s: Seq<char>, from: int)
    requires
        0 <= from <= s.len(),
    ensures
        forall|i: int| from <= i < find_white(s, from) ==> !is_white(#[trigger] s[i]),
    decreases s.len() - from,
{
    if from < s.len() && !is_white(s[from]) {
        find_white_first(s, from + 1);
    }
}

/// A text that neither begins nor ends with white space stays as it is when it is trimmed.
pub proof fn trimmed_texts_stay(s: Seq<char>)
    requires
        s.len() > 0 ==> !is_white(s[0]) && !is_white(s.last()),
    ensures
        trim(s) == s,
{
}

/// A word in front of white space is the first word of a text, and the words of what
/// follows come next.
pub proof fn a_word_comes_first(word: Seq<char>, rest: Seq<char>)
    requires
        word.len() > 0,
        forall|i: int| 0 <= i < word.len() ==> !is_white(#[trigger] word[i]),
        rest.len() > 0 ==> is_white(rest[0]),
    ensures
        words(word + rest) == seq![word] + words(rest),
{
    let s = word + rest;
    let n = word.len() as int;
    assert(s[0] == word[0]);
    assert(trim_start(s) == s);
    find_white_facts(s, 0);
    find_white_first(s, 0);
    let k = find_white(s, 0);
    assert(k == n) by {
        if k < n {
            assert(s[k] == word[k]);
        }
        if k > n {
            assert(s[n] == rest[0]);
        }
    }
    assert(s.take(k) =~= word);
    assert(s.skip(k) =~= rest);
}

/// White space in front of a text adds no word.
pub proof fn leading_white_space_adds_no_word(c: char, rest: Seq<char>)
    requires
        is_white(c),
    ensures
        words(seq![c] + rest) == words(rest),
{
    let s = seq![c] + rest;
    assert(s.skip(1) =~= rest);
    assert(trim_start(s) == trim_start(rest));
}

/// Every part of a joined text stands in it.
pub proof fn joined_texts_hold_their_parts(list: Seq<Seq<char>>, sep: Seq<char>,
    i: int) -> (around: (
    Seq<char>,
    Seq<char>,
))
    requires
        0 <= i < list.len(),
    ensures
        join(list, sep) == around.0 + list[i] + around.1,
    decreases list.len(),
{
    let none = Seq::<char>::empty();
    let rest = list.drop_last();
    if list.len() == 1 {
        assert(join(list, sep) =~= none + list[i] + none);
        (none, none)
    } else if i == list.len() - 1 {
        let pre = join(rest, sep) + sep;
        assert(join(list, sep) =~= pre + list[i] + none);
        (pre, none)
    } else {
        assert(rest[i] == list[i]);
        let (pre, post) = joined_texts_hold_their_parts(rest, sep, i);
        let more = post + sep + list.last();
        assert(join(list, sep) =~= pre + list[i] + more);
        (pre, more)
    }
}

/// White space is found behind the word that it ends.
pub proof fn a_word_ends_at_white_space(word: Seq<char>, rest: Seq<char>)
    requires
        forall|i: int| 0 <= i < word.len() ==> !is_white(#[trigger] word[i]),
        rest.len() > 0 ==> is_white(rest[0]),
    ensures
        find_white(word + rest, 0) == word.len(),
{
    let s = word + rest;
    let n = word.len() as int;
    find_white_facts(s, 0);
    find_white_first(s, 0);
    let k = find_white(s, 0);
    if k < n {
        assert(s[k] == word[k]);
    }
    if k > n {
        assert(s[n] == rest[0]);
    }
}

/// White space in front of a text is cut off.
pub proof fn leading_white_space_is_cut(c: char, rest: Seq<char>)
    requires
        is_white(c),
    ensures
        trim(seq![c] + rest) == trim(rest),
{
    let s = seq![c] + rest;
    assert(s.skip(1) =~= rest);
}

} // verus!
