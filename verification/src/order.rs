//! The order of texts, sorted sets of them, and plain lists used as sets.

use vstd::prelude::*;

use crate::text::{chars_of, copy, same, texts, texts_push};

verus! {

broadcast use texts_push;

// ---------------------------------------------------------------------------
// Letter case
// ---------------------------------------------------------------------------

/// An ASCII capital letter as the small one; any other character as it is.
pub open spec fn ascii_lower(c: char) -> char {
    if 'A' <= c && c <= 'Z' {
        (c as u32 + 32) as char
    } else {
        c
    }
}

/// Whether a text holds ASCII characters only.
pub open spec fn ascii_only(s: Seq<char>) -> bool {
    forall|i: int| 0 <= i < s.len() ==> (#[trigger] s[i] as u32) < 128
}

/// An ASCII text with small letters in place of the capital ones.
pub open spec fn ascii_lowercase(s: Seq<char>) -> Seq<char> {
    Seq::new(s.len(), |i: int| ascii_lower(s[i]))
}

/// The lower-case form of a text by Unicode's rules, as `str::to_lowercase` of std
/// gives it.
pub uninterp spec fn unicode_lowercase(s: Seq<char>) -> Seq<char>;

/// The lower-case form of a text: that of its letters where it is ASCII, and that of
/// Unicode's rules where it is not.
pub open spec fn lowercase(s: Seq<char>) -> Seq<char> {
    if ascii_only(s) {
        ascii_lowercase(s)
    } else {
        unicode_lowercase(s)
    }
}

/// `str::to_lowercase` of std: the lower-case form by Unicode's rules, which on
/// ASCII characters change the capital letters and nothing else.
#[verifier::external_body]
pub(crate) fn to_lowercase(s: &str) -> (r: String)
    ensures
        ascii_only(s@) ==> r@ == ascii_lowercase(s@),
        r@ == unicode_lowercase(s@),
{
    s.to_lowercase()
}

// ---------------------------------------------------------------------------
// The order of texts
// ---------------------------------------------------------------------------

/// Whether `a` comes before `b`: at the first difference its character has the
/// smaller code point, or it is a proper prefix.
pub open spec fn text_lt(a: Seq<char>, b: Seq<char>) -> bool
    decreases a.len(),
{
    if b.len() == 0 {
        false
    } else if a.len() == 0 {
        true
    } else if a[0] != b[0] {
        a[0] < b[0]
    } else {
        text_lt(a.skip(1), b.skip(1))
    }
}

/// No text comes before itself.
pub proof fn text_lt_irreflexive(a: Seq<char>)
    ensures
        !text_lt(a, a),
    decreases a.len(),
{
    if a.len() > 0 {
        text_lt_irreflexive(a.skip(1));
    }
}

/// The order of texts is transitive.
pub proof fn text_lt_transitive(a: Seq<char>, b: Seq<char>, c: Seq<char>)
    requires
        text_lt(a, b),
        text_lt(b, c),
    ensures
        text_lt(a, c),
    decreases a.len(),
{
    if a.len() > 0 && a[0] == b[0] && b[0] == c[0] {
        text_lt_transitive(a.skip(1), b.skip(1), c.skip(1));
    }
}

/// Of two different texts one comes before the other.
pub proof fn text_lt_total(a: Seq<char>, b: Seq<char>)
    ensures
        a == b || text_lt(a, b) || text_lt(b, a),
    decreases a.len(),
{
    if a.len() == 0 && b.len() == 0 {
        assert(a =~= b);
    } else if a.len() > 0 && b.len() > 0 && a[0] == b[0] {
        text_lt_total(a.skip(1), b.skip(1));
        if a.skip(1) == b.skip(1) {
            assert(a =~= seq![a[0]] + a.skip(1));
            assert(b =~= seq![b[0]] + b.skip(1));
        }
    }
}

/// Whether `a` comes before `b`.
pub fn comes_before(a: &str, b: &str) -> (r: bool)
    ensures
        r == text_lt(a@, b@),
{
    let x = chars_of(a);
    let y = chars_of(b);
    let mut i: usize = 0;
    assert(a@.skip(0) =~= a@);
    assert(b@.skip(0) =~= b@);
    while i < x.len() && i < y.len() && x[i] == y[i]
        invariant
            x@ == a@,
            y@ == b@,
            i <= x.len(),
            i <= y.len(),
            text_lt(a@, b@) == text_lt(a@.skip(i as int), b@.skip(i as int)),
        decreases x.len() - i,
    {
        assert(a@.skip(i as int).skip(1) =~= a@.skip(i + 1));
        assert(b@.skip(i as int).skip(1) =~= b@.skip(i + 1));
        i += 1;
    }
    if i == y.len() {
        false
    } else if i == x.len() {
        true
    } else {
        x[i] < y[i]
    }
}

// ---------------------------------------------------------------------------
// Rows of texts
// ---------------------------------------------------------------------------

/// The order of rows: by the first text in which they differ; a proper prefix
/// comes first.
pub open spec fn row_lt(a: Seq<Seq<char>>, b: Seq<Seq<char>>) -> bool
    decreases a.len(),
{
    if b.len() == 0 {
        false
    } else if a.len() == 0 {
        true
    } else if a[0] != b[0] {
        text_lt(a[0], b[0])
    } else {
        row_lt(a.skip(1), b.skip(1))
    }
}

/// The texts of each row of a table.
pub open spec fn rows(table: Seq<Vec<String>>) -> Seq<Seq<Seq<char>>> {
    Seq::new(table.len(), |i: int| texts(table[i]@))
}

/// `rows` of a table that has grown by one row.
pub broadcast proof fn rows_push(table: Seq<Vec<String>>, row: Vec<String>)
    ensures
        #[trigger] rows(table.push(row)) == rows(table).push(texts(row@)),
{
    assert(rows(table.push(row)) =~= rows(table).push(texts(row@)));
}

/// Whether row `a` comes before row `b`.
pub fn row_before(a: &[String], b: &[String]) -> (r: bool)
    ensures
        r == row_lt(texts(a@), texts(b@)),
{
    let mut i: usize = 0;
    assert(texts(a@).skip(0) =~= texts(a@));
    assert(texts(b@).skip(0) =~= texts(b@));
    while i < a.len() && i < b.len() && same(a[i].as_str(), b[i].as_str())
        invariant
            i <= a.len(),
            i <= b.len(),
            row_lt(texts(a@), texts(b@)) == row_lt(
                texts(a@).skip(i as int),
                texts(b@).skip(i as int),
            ),
        decreases a.len() - i,
    {
        assert(texts(a@).skip(i as int).skip(1) =~= texts(a@).skip(i + 1));
        assert(texts(b@).skip(i as int).skip(1) =~= texts(b@).skip(i + 1));
        i += 1;
    }
    if i == b.len() {
        false
    } else if i == a.len() {
        true
    } else {
        comes_before(a[i].as_str(), b[i].as_str())
    }
}

/// Whether two rows hold the same texts.
pub fn same_row(a: &[String], b: &[String]) -> (r: bool)
    ensures
        r == (texts(a@) == texts(b@)),
{
    if a.len() != b.len() {
        assert(texts(a@).len() != texts(b@).len());
        return false;
    }
    let mut i: usize = 0;
    while i < a.len()
        invariant
            i <= a.len(),
            a.len() == b.len(),
            forall|j: int| 0 <= j < i ==> #[trigger] texts(a@)[j] == texts(b@)[j],
        decreases a.len() - i,
    {
        if !same(a[i].as_str(), b[i].as_str()) {
            assert(texts(a@)[i as int] != texts(b@)[i as int]);
            return false;
        }
        i += 1;
    }
    assert(texts(a@) =~= texts(b@));
    true
}

// ---------------------------------------------------------------------------
// Sorted sets
// ---------------------------------------------------------------------------

/// The order of texts as a relation.
pub open spec fn by_text() -> spec_fn(Seq<char>, Seq<char>) -> bool {
    |a: Seq<char>, b: Seq<char>| text_lt(a, b)
}

/// The order of rows as a relation.
pub open spec fn by_row() -> spec_fn(Seq<Seq<char>>, Seq<Seq<char>>) -> bool {
    |a: Seq<Seq<char>>, b: Seq<Seq<char>>| row_lt(a, b)
}

/// A list with `t` put behind every element that comes before it, unless the
/// search for that place meets `t` itself.
pub open spec fn inserted<T>(list: Seq<T>, t: T, lt: spec_fn(T, T) -> bool) -> Seq<T>
    decreases list.len(),
{
    if list.len() == 0 {
        seq![t]
    } else if list.last() == t {
        list
    } else if lt(list.last(), t) {
        list.push(t)
    } else {
        inserted(list.drop_last(), t, lt).push(list.last())
    }
}

/// The elements of a list in ascending order, each once.
pub open spec fn sorted_set<T>(list: Seq<T>, lt: spec_fn(T, T) -> bool) -> Seq<T>
    decreases list.len(),
{
    if list.len() == 0 {
        Seq::empty()
    } else {
        inserted(sorted_set(list.drop_last(), lt), list.last(), lt)
    }
}

/// Each element comes before every later one, so none occurs twice.
pub open spec fn ascending<T>(list: Seq<T>, lt: spec_fn(T, T) -> bool) -> bool {
    forall|i: int, j: int|
        #![trigger list[i], list[j]]
        0 <= i < j < list.len() ==> lt(list[i], list[j])
}

/// A strict total order.
pub open spec fn strict_order<T>(lt: spec_fn(T, T) -> bool) -> bool {
    &&& forall|a: T| !#[trigger] lt(a, a)
    &&& forall|a: T, b: T, c: T| #[trigger] lt(a, b) && #[trigger] lt(b, c) ==> lt(a, c)
    &&& forall|a: T, b: T| a == b || #[trigger] lt(a, b) || lt(b, a)
}

/// The order of texts is strict and total.
pub proof fn by_text_is_strict()
    ensures
        strict_order(by_text()),
{
    let lt = by_text();
    assert forall|a: Seq<char>| !#[trigger] lt(a, a) by {
        text_lt_irreflexive(a);
    }
    assert forall|a: Seq<char>, b: Seq<char>, c: Seq<char>| #[trigger] lt(a, b) && #[trigger] lt(
        b,
        c,
    ) implies lt(a, c) by {
        text_lt_transitive(a, b, c);
    }
    assert forall|a: Seq<char>, b: Seq<char>| a == b || #[trigger] lt(a, b) || lt(b, a) by {
        text_lt_total(a, b);
    }
}

proof fn row_lt_irreflexive(a: Seq<Seq<char>>)
    ensures
        !row_lt(a, a),
    decreases a.len(),
{
    if a.len() > 0 {
        row_lt_irreflexive(a.skip(1));
    }
}

proof fn row_lt_transitive(a: Seq<Seq<char>>, b: Seq<Seq<char>>, c: Seq<Seq<char>>)
    requires
        row_lt(a, b),
        row_lt(b, c),
    ensures
        row_lt(a, c),
    decreases a.len(),
{
    if a.len() > 0 {
        if a[0] == b[0] && b[0] == c[0] {
            row_lt_transitive(a.skip(1), b.skip(1), c.skip(1));
        } else if a[0] != b[0] && b[0] != c[0] {
            text_lt_transitive(a[0], b[0], c[0]);
            text_lt_irreflexive(a[0]);
        }
    }
}

proof fn row_lt_total(a: Seq<Seq<char>>, b: Seq<Seq<char>>)
    ensures
        a == b || row_lt(a, b) || row_lt(b, a),
    decreases a.len(),
{
    if a.len() == 0 && b.len() == 0 {
        assert(a =~= b);
    } else if a.len() > 0 && b.len() > 0 {
        text_lt_total(a[0], b[0]);
        if a[0] == b[0] {
            row_lt_total(a.skip(1), b.skip(1));
            if a.skip(1) == b.skip(1) {
                assert(a =~= seq![a[0]] + a.skip(1));
                assert(b =~= seq![b[0]] + b.skip(1));
            }
        }
    }
}

/// The order of rows is strict and total.
pub proof fn by_row_is_strict()
    ensures
        strict_order(by_row()),
{
    let lt = by_row();
    assert forall|a: Seq<Seq<char>>| !#[trigger] lt(a, a) by {
        row_lt_irreflexive(a);
    }
    assert forall|a: Seq<Seq<char>>, b: Seq<Seq<char>>, c: Seq<Seq<char>>| #[trigger]
        lt(a, b) && #[trigger] lt(b, c) implies lt(a, c) by {
        row_lt_transitive(a, b, c);
    }
    assert forall|a: Seq<Seq<char>>, b: Seq<Seq<char>>|
        a == b || #[trigger] lt(a, b) || lt(b, a) by {
        row_lt_total(a, b);
    }
}

/// Insertion keeps a list ascending and adds the one element.
pub proof fn inserted_facts<T>(list: Seq<T>, t: T, lt: spec_fn(T, T) -> bool)
    requires
        strict_order(lt),
        ascending(list, lt),
    ensures
        ascending(inserted(list, t, lt), lt),
        forall|x: T| #[trigger] inserted(list, t, lt).contains(x) <==> list.contains(x) || x == t,
    decreases list.len(),
{
    let r = inserted(list, t, lt);
    if list.len() == 0 {
        assert(r[0] == t);
        assert(r.contains(t));
    } else if list.last() == t {
        assert(list[list.len() - 1] == t);
    } else if lt(list.last(), t) {
        assert forall|i: int, j: int|
            #![trigger r[i], r[j]]
            0 <= i < j < r.len() implies lt(r[i], r[j]) by {
            if j == list.len() && i < list.len() - 1 {
                assert(lt(list[i], list[list.len() - 1]));
            }
        }
        assert forall|x: T| #[trigger] r.contains(x) <==> list.contains(x) || x == t by {
            if list.contains(x) {
                let k = choose|k: int| 0 <= k < list.len() && list[k] == x;
                assert(r[k] == x);
            }
            assert(r[list.len() as int] == t);
        }
    } else {
        let rest = list.drop_last();
        let z = list.last();
        inserted_facts(rest, t, lt);
        let s = inserted(rest, t, lt);
        assert(r == s.push(z));
        assert(lt(t, z));
        assert forall|i: int, j: int|
            #![trigger r[i], r[j]]
            0 <= i < j < r.len() implies lt(r[i], r[j]) by {
            if j == s.len() {
                assert(s.contains(s[i]));
                if rest.contains(s[i]) {
                    let k = choose|k: int| 0 <= k < rest.len() && rest[k] == s[i];
                    assert(lt(list[k], list[list.len() - 1]));
                }
            }
        }
        assert forall|x: T| #[trigger] r.contains(x) <==> list.contains(x) || x == t by {
            assert(s.contains(x) <==> rest.contains(x) || x == t);
            if r.contains(x) {
                let k = choose|k: int| 0 <= k < r.len() && r[k] == x;
                if k < s.len() {
                    assert(s[k] == x);
                    if rest.contains(x) {
                        let m = choose|m: int| 0 <= m < rest.len() && rest[m] == x;
                        assert(list[m] == x);
                    }
                } else {
                    assert(list[list.len() - 1] == x);
                }
            }
            if list.contains(x) {
                let k = choose|k: int| 0 <= k < list.len() && list[k] == x;
                if k < rest.len() {
                    assert(rest[k] == x);
                    let m = choose|m: int| 0 <= m < s.len() && s[m] == x;
                    assert(r[m] == x);
                } else {
                    assert(r[s.len() as int] == x);
                }
            }
            if x == t {
                let m = choose|m: int| 0 <= m < s.len() && s[m] == x;
                assert(r[m] == x);
            }
        }
    }
}

/// A sorted set is ascending and holds exactly the elements of the list.
pub proof fn sorted_set_facts<T>(list: Seq<T>, lt: spec_fn(T, T) -> bool)
    requires
        strict_order(lt),
    ensures
        ascending(sorted_set(list, lt), lt),
        forall|x: T| #[trigger] sorted_set(list, lt).contains(x) <==> list.contains(x),
    decreases list.len(),
{
    if list.len() > 0 {
        let rest = list.drop_last();
        sorted_set_facts(rest, lt);
        inserted_facts(sorted_set(rest, lt), list.last(), lt);
        assert forall|x: T| #[trigger]
            sorted_set(list, lt).contains(x) <==> list.contains(x) by {
            assert(sorted_set(rest, lt).contains(x) <==> rest.contains(x));
            if rest.contains(x) {
                let k = choose|k: int| 0 <= k < rest.len() && rest[k] == x;
                assert(list[k] == x);
            }
            if list.contains(x) {
                let k = choose|k: int| 0 <= k < list.len() && list[k] == x;
                if k < rest.len() {
                    assert(rest[k] == x);
                }
            }
            assert(list[list.len() - 1] == list.last());
        }
    }
}

/// An ascending list is fixed by the elements that occur in it.
pub proof fn ascending_is_unique<T>(a: Seq<T>, b: Seq<T>, lt: spec_fn(T, T) -> bool)
    requires
        strict_order(lt),
        ascending(a, lt),
        ascending(b, lt),
        forall|x: T| a.contains(x) <==> #[trigger] b.contains(x),
    ensures
        a == b,
    decreases a.len(),
{
    if a.len() == 0 {
        if b.len() > 0 {
            assert(b.contains(b[0]));
        }
        assert(a =~= b);
    } else if b.len() == 0 {
        assert(a.contains(a[0]));
        assert(b.contains(a[0]));
    } else {
        let x = a.last();
        let y = b.last();
        assert(a.contains(x) && b.contains(y));
        assert(b.contains(x));
        let p = choose|p: int| 0 <= p < b.len() && b[p] == x;
        let q = choose|q: int| 0 <= q < a.len() && a[q] == y;
        if x != y {
            assert(lt(b[p], b[b.len() - 1]));
            assert(lt(a[q], a[a.len() - 1]));
            assert(lt(x, y) && lt(y, x));
            assert(lt(x, x));
        }
        let a1 = a.drop_last();
        let b1 = b.drop_last();
        assert forall|t: T| a1.contains(t) <==> #[trigger] b1.contains(t) by {
            if a1.contains(t) {
                let i = choose|i: int| 0 <= i < a1.len() && a1[i] == t;
                assert(a[i] == t && a.contains(t) && b.contains(t));
                assert(lt(a[i], a[a.len() - 1]));
                let j = choose|j: int| 0 <= j < b.len() && b[j] == t;
                assert(j < b.len() - 1);
                assert(b1[j] == t);
            }
            if b1.contains(t) {
                let i = choose|i: int| 0 <= i < b1.len() && b1[i] == t;
                assert(b[i] == t && b.contains(t));
                assert(lt(b[i], b[b.len() - 1]));
                let j = choose|j: int| 0 <= j < a.len() && a[j] == t;
                assert(j < a.len() - 1);
                assert(a1[j] == t);
            }
        }
        ascending_is_unique(a1, b1, lt);
        assert(a =~= a1.push(x));
        assert(b =~= b1.push(y));
    }
}

/// Unrolls the search for the place of insertion by one step.
proof fn inserted_before<T>(list: Seq<T>, t: T, lt: spec_fn(T, T) -> bool, j: int)
    requires
        0 < j <= list.len(),
        list[j - 1] != t,
        !lt(list[j - 1], t),
        inserted(list, t, lt) == inserted(list.take(j), t, lt) + list.skip(j),
    ensures
        inserted(list, t, lt) == inserted(list.take(j - 1), t, lt) + list.skip(j - 1),
{
    assert(list.take(j).drop_last() =~= list.take(j - 1));
    assert(list.take(j).last() == list[j - 1]);
    assert(inserted(list.take(j), t, lt) == inserted(list.take(j - 1), t, lt).push(list[j - 1]));
    assert(inserted(list.take(j - 1), t, lt).push(list[j - 1]) + list.skip(j) =~= inserted(
        list.take(j - 1),
        t,
        lt,
    ) + list.skip(j - 1));
}

/// What the list becomes once the place of insertion is known.
proof fn inserted_here<T>(list: Seq<T>, t: T, lt: spec_fn(T, T) -> bool, j: int)
    requires
        0 <= j <= list.len(),
        inserted(list, t, lt) == inserted(list.take(j), t, lt) + list.skip(j),
        j > 0 ==> list[j - 1] == t || lt(list[j - 1], t),
    ensures
        j > 0 && list[j - 1] == t ==> inserted(list, t, lt) == list,
        !(j > 0 && list[j - 1] == t) ==> inserted(list, t, lt) == list.insert(j, t),
{
    if j > 0 {
        assert(list.take(j).last() == list[j - 1]);
    }
    assert(list.take(j) + list.skip(j) =~= list);
    assert(list.take(j).push(t) + list.skip(j) =~= list.insert(j, t));
    assert(list.take(0) =~= Seq::<T>::empty());
    if j == 0 {
        assert(seq![t] + list.skip(0) =~= list.insert(0, t));
    }
}

/// Puts a text into a list at its place in the order.
pub fn insert_sorted(list: &mut Vec<String>, s: &str)
    ensures
        texts(final(list)@) == inserted(texts(old(list)@), s@, by_text()),
{
    let ghost before = texts(list@);
    let mut j: usize = list.len();
    assert(before.take(j as int) =~= before);
    assert(inserted(before, s@, by_text()) + before.skip(j as int) =~= inserted(
        before,
        s@,
        by_text(),
    ));
    while j > 0 && !same(list[j - 1].as_str(), s) && !comes_before(list[j - 1].as_str(), s)
        invariant
            list@ == old(list)@,
            before == texts(list@),
            j <= list.len(),
            inserted(before, s@, by_text()) == inserted(before.take(j as int), s@, by_text())
                + before.skip(j as int),
        decreases j,
    {
        proof {
            inserted_before(before, s@, by_text(), j as int);
        }
        j -= 1;
    }
    proof {
        inserted_here(before, s@, by_text(), j as int);
    }
    if j > 0 && same(list[j - 1].as_str(), s) {
        return ;
    }
    list.insert(j, copy(s));
    assert(texts(list@) =~= before.insert(j as int, s@));
}

/// Puts a row into a table at its place in the order.
pub fn insert_row(table: &mut Vec<Vec<String>>, row: Vec<String>)
    ensures
        rows(final(table)@) == inserted(rows(old(table)@), texts(row@), by_row()),
{
    let ghost before = rows(table@);
    let ghost t = texts(row@);
    let mut j: usize = table.len();
    assert(before.take(j as int) =~= before);
    assert(inserted(before, t, by_row()) + before.skip(j as int) =~= inserted(before, t, by_row()));
    while j > 0 && !same_row(table[j - 1].as_slice(), row.as_slice()) && !row_before(
        table[j - 1].as_slice(),
        row.as_slice(),
    )
        invariant
            table@ == old(table)@,
            before == rows(table@),
            t == texts(row@),
            j <= table.len(),
            inserted(before, t, by_row()) == inserted(before.take(j as int), t, by_row())
                + before.skip(j as int),
        decreases j,
    {
        proof {
            inserted_before(before, t, by_row(), j as int);
        }
        j -= 1;
    }
    proof {
        inserted_here(before, t, by_row(), j as int);
    }
    if j > 0 && same_row(table[j - 1].as_slice(), row.as_slice()) {
        return ;
    }
    table.insert(j, row);
    assert(rows(table@) =~= before.insert(j as int, t));
}

// ---------------------------------------------------------------------------
// Lists as sets
// ---------------------------------------------------------------------------

/// Whether a text occurs in a list of strings.
pub fn listed(list: &[String], s: &str) -> (r: bool)
    ensures
        r == texts(list@).contains(s@),
{
    let mut i: usize = 0;
    while i < list.len()
        invariant
            i <= list.len(),
            forall|j: int| 0 <= j < i ==> #[trigger] texts(list@)[j] != s@,
        decreases list.len() - i,
    {
        if same(list[i].as_str(), s) {
            assert(texts(list@)[i as int] == s@);
            return true;
        }
        i += 1;
    }
    false
}

/// Whether a row occurs in a table.
pub fn row_listed(table: &[Vec<String>], row: &[String]) -> (r: bool)
    ensures
        r == rows(table@).contains(texts(row@)),
{
    let mut i: usize = 0;
    while i < table.len()
        invariant
            i <= table.len(),
            forall|j: int| 0 <= j < i ==> #[trigger] rows(table@)[j] != texts(row@),
        decreases table.len() - i,
    {
        if same_row(table[i].as_slice(), row) {
            assert(rows(table@)[i as int] == texts(row@));
            return true;
        }
        i += 1;
    }
    false
}

/// A list to which an element is added at the end unless it occurs already.
pub open spec fn with_new<T>(list: Seq<T>, t: T) -> Seq<T> {
    if list.contains(t) {
        list
    } else {
        list.push(t)
    }
}

/// A list to which the new ones of some elements are added, in their order.
pub open spec fn with_all_new<T>(list: Seq<T>, more: Seq<T>) -> Seq<T>
    decreases more.len(),
{
    if more.len() == 0 {
        list
    } else {
        with_new(with_all_new(list, more.drop_last()), more.last())
    }
}

/// The elements of a list, each where it first occurs.
pub open spec fn unique<T>(list: Seq<T>) -> Seq<T> {
    with_all_new(Seq::empty(), list)
}

/// Adds a text at the end unless it occurs already.
pub fn push_new(list: &mut Vec<String>, s: &str)
    ensures
        texts(final(list)@) == with_new(texts(old(list)@), s@),
{
    if !listed(list.as_slice(), s) {
        list.push(copy(s));
    }
}

/// Adds the new ones of some texts, in their order.
pub fn push_all_new(list: &mut Vec<String>, more: &[String])
    ensures
        texts(final(list)@) == with_all_new(texts(old(list)@), texts(more@)),
{
    let ghost before = texts(list@);
    let mut i: usize = 0;
    assert(texts(more@).take(0) =~= Seq::empty());
    while i < more.len()
        invariant
            i <= more.len(),
            texts(list@) == with_all_new(before, texts(more@).take(i as int)),
        decreases more.len() - i,
    {
        push_new(list, more[i].as_str());
        assert(texts(more@).take(i + 1).drop_last() =~= texts(more@).take(i as int));
        i += 1;
    }
    assert(texts(more@).take(i as int) =~= texts(more@));
}

/// What `with_all_new` keeps and adds: the old list stands in front, and an
/// element occurs exactly when it occurred before or is one of the new ones.
pub proof fn with_all_new_facts<T>(list: Seq<T>, more: Seq<T>)
    ensures
        list.is_prefix_of(with_all_new(list, more)),
        forall|t: T| #[trigger]
            with_all_new(list, more).contains(t) <==> list.contains(t) || more.contains(t),
        list.no_duplicates() ==> with_all_new(list, more).no_duplicates(),
    decreases more.len(),
{
    if more.len() > 0 {
        let m = more.drop_last();
        let x = more.last();
        with_all_new_facts(list, m);
        let w = with_all_new(list, m);
        let r = with_all_new(list, more);
        assert forall|t: T| #[trigger]
            r.contains(t) <==> list.contains(t) || more.contains(t) by {
            if m.contains(t) {
                let k = choose|k: int| 0 <= k < m.len() && m[k] == t;
                assert(more[k] == t);
            }
            if more.contains(t) {
                let k = choose|k: int| 0 <= k < more.len() && more[k] == t;
                if k < m.len() {
                    assert(m[k] == t);
                }
            }
            assert(w.contains(t) <==> list.contains(t) || m.contains(t));
            if !w.contains(x) {
                assert(r == w.push(x));
                if w.contains(t) {
                    let k = choose|k: int| 0 <= k < w.len() && w[k] == t;
                    assert(r[k] == t);
                }
                assert(r[w.len() as int] == x);
                if r.contains(t) {
                    let k = choose|k: int| 0 <= k < r.len() && r[k] == t;
                    if k < w.len() {
                        assert(w[k] == t);
                    }
                }
            }
            assert(more[more.len() - 1] == x);
        }
    }
}

/// Texts are ordered by the first place where they differ, and a text comes before every
/// longer one that begins with it.
pub proof fn the_first_difference_decides(
    front: Seq<char>,
    a: char,
    b: char,
    rest: Seq<char>,
    more: Seq<char>,
)
    ensures
        text_lt(front + seq![a] + rest, front + seq![b] + more) <==> a < b || (a == b && text_lt(
            rest,
            more,
        )),
        text_lt(front, front + seq![a] + rest),
        !text_lt(front + seq![a] + rest, front),
    decreases front.len(),
{
    let x = front + seq![a] + rest;
    let y = front + seq![b] + more;
    if front.len() == 0 {
        assert(x.skip(1) =~= rest);
        assert(y.skip(1) =~= more);
        assert(x[0] == a && y[0] == b);
    } else {
        let f = front.skip(1);
        the_first_difference_decides(f, a, b, rest, more);
        assert(x.skip(1) =~= f + seq![a] + rest);
        assert(y.skip(1) =~= f + seq![b] + more);
        assert(x[0] == front[0] && y[0] == front[0]);
    }
}

/// Lower case changes capital letters alone, each to its small letter.
pub proof fn lower_case_changes_capitals_alone(s: Seq<char>, i: int)
    requires
        ascii_only(s),
        0 <= i < s.len(),
    ensures
        lowercase(s).len() == s.len(),
        !('A' <= s[i] && s[i] <= 'Z') ==> lowercase(s)[i] == s[i],
        'A' <= s[i] && s[i] <= 'Z' ==> lowercase(s)[i] as u32 == s[i] as u32 + 32,
{
}

} // verus!
