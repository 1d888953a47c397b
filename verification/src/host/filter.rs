//! Choosing hosts by group and by name.

use vstd::prelude::*;

use crate::config::schema::HostEntry;
use crate::order::listed;
use crate::text::texts;

verus! {

/// The values that references of a list point to.
pub open spec fn pointees<T>(list: Seq<&T>) -> Seq<T> {
    Seq::new(list.len(), |i: int| *list[i])
}

/// Whether two lists of texts have one in common.
pub open spec fn shares(a: Seq<Seq<char>>, b: Seq<Seq<char>>) -> bool {
    exists|i: int| 0 <= i < a.len() && b.contains(#[trigger] a[i])
}

/// Whether two lists of strings have one in common.
pub fn any_shared(a: &[String], b: &[String]) -> (r: bool)
    ensures
        r == shares(texts(a@), texts(b@)),
{
    let mut i: usize = 0;
    while i < a.len()
        invariant
            i <= a@.len(),
            forall|j: int| 0 <= j < i ==> !texts(b@).contains(#[trigger] texts(a@)[j]),
        decreases a@.len() - i,
    {
        if listed(b, a[i].as_str()) {
            assert(texts(b@).contains(texts(a@)[i as int]));
            return true;
        }
        assert(!texts(b@).contains(texts(a@)[i as int]));
        i += 1;
    }
    false
}

/// One more element for `filter`.
pub proof fn filter_next<T>(list: Seq<T>, p: spec_fn(T) -> bool, i: int)
    requires
        0 <= i < list.len(),
    ensures
        list.take(i + 1).filter(p) == (if p(list[i]) {
            list.take(i).filter(p).push(list[i])
        } else {
            list.take(i).filter(p)
        }),
{
    reveal(Seq::filter);
    assert(list.take(i + 1).drop_last() =~= list.take(i));
    assert(list.take(i + 1).last() == list[i]);
}

/// Filtering nothing.
pub proof fn filter_none<T>(list: Seq<T>, p: spec_fn(T) -> bool)
    ensures
        list.take(0).filter(p) == Seq::<T>::empty(),
{
    reveal(Seq::filter);
}

/// `filter` keeps the elements that satisfy the predicate, and no others.
pub proof fn filter_holds<T>(list: Seq<T>, p: spec_fn(T) -> bool, x: T)
    ensures
        list.filter(p).contains(x) <==> list.contains(x) && p(x),
{
    let at = filter_picks(list, p);
    let kept = list.filter(p);
    if kept.contains(x) {
        let i = kept.index_of(x);
        assert(at.contains(at[i]));
        assert(list[at[i]] == x);
    }
    if list.contains(x) && p(x) {
        let k = list.index_of(x);
        assert(at.contains(k));
        let i = at.index_of(k);
        assert(kept[i] == x);
    }
}

/// Whether a list holds the elements of another one that stand at certain places, in
/// the order of the places.
pub open spec fn picked<T>(whole: Seq<T>, at: Seq<int>, part: Seq<T>) -> bool {
    &&& part.len() == at.len()
    &&& forall|i: int| 0 <= i < at.len() ==> 0 <= #[trigger] at[i] < whole.len() && part[i]
        == whole[at[i]]
    &&& forall|i: int, j: int| 0 <= i < j < at.len() ==> #[trigger] at[i] < #[trigger] at[j]
}

/// `filter` picks the places where the predicate holds, each once and in their order.
pub proof fn filter_picks<T>(list: Seq<T>, p: spec_fn(T) -> bool) -> (at: Seq<int>)
    ensures
        picked(list, at, list.filter(p)),
        forall|k: int| 0 <= k < list.len() ==> (at.contains(k) <==> p(#[trigger] list[k])),
    decreases list.len(),
{
    reveal(Seq::filter);
    if list.len() == 0 {
        Seq::empty()
    } else {
        let rest = list.drop_last();
        let n = list.len() - 1;
        let before = filter_picks(rest, p);
        let at = if p(list.last()) {
            before.push(n)
        } else {
            before
        };
        assert forall|k: int| 0 <= k < list.len() implies (at.contains(k) <==> p(
            #[trigger] list[k],
        )) by {
            if k < n {
                assert(rest[k] == list[k]);
                if before.contains(k) {
                    let i = before.index_of(k);
                    assert(at[i] == k);
                }
                if at.contains(k) {
                    let i = at.index_of(k);
                    assert(before[i] == k);
                }
            } else {
                if before.contains(k) {
                    let i = before.index_of(k);
                    assert(before[i] < rest.len());
                }
                if p(list.last()) {
                    assert(at[before.len() as int] == k);
                }
            }
        }
        assert(picked(list, at, list.filter(p))) by {
            let part = list.filter(p);
            assert forall|i: int| 0 <= i < at.len() implies 0 <= #[trigger] at[i] < list.len()
                && part[i] == list[at[i]] by {
                if i < before.len() {
                    assert(at[i] == before[i]);
                    assert(rest[before[i]] == list[before[i]]);
                }
            }
        }
        at
    }
}

/// Whether a host passes the filter: each list that is not empty must name one
/// of its groups or the host itself.
pub open spec fn passes(
    h: HostEntry,
    groups: Seq<Seq<char>>,
    names: Seq<Seq<char>>,
    all: bool,
) -> bool {
    all || ((groups.len() == 0 || shares(texts(h.groups@), groups)) && (names.len() == 0
        || names.contains(h.name@)))
}

/// The hosts that pass the filter, in their order.
pub fn filter_hosts<'a>(
    hosts: &'a [HostEntry],
    groups: &[String],
    host_names: &[String],
    all: bool,
) -> (r: Vec<&'a HostEntry>)
    ensures
        pointees(r@) == hosts@.filter(
            |h: HostEntry| passes(h, texts(groups@), texts(host_names@), all),
        ),
{
    let ghost p = |h: HostEntry| passes(h, texts(groups@), texts(host_names@), all);
    let mut out: Vec<&'a HostEntry> = Vec::new();
    let mut i: usize = 0;
    proof {
        filter_none(hosts@, p);
        assert(pointees(out@) =~= Seq::empty());
    }
    while i < hosts.len()
        invariant
            i <= hosts@.len(),
            p == (|h: HostEntry| passes(h, texts(groups@), texts(host_names@), all)),
            pointees(out@) == hosts@.take(i as int).filter(p),
        decreases hosts@.len() - i,
    {
        let h = &hosts[i];
        proof {
            filter_next(hosts@, p, i as int);
        }
        assert(texts(groups@).len() == groups@.len());
        assert(texts(host_names@).len() == host_names@.len());
        let ghost before = pointees(out@);
        if all || ((groups.len() == 0 || any_shared(h.groups.as_slice(), groups)) && (
        host_names.len() == 0 || listed(host_names, h.name.as_str()))) {
            out.push(h);
            assert(pointees(out@) =~= before.push(*h));
        }
        i += 1;
    }
    assert(hosts@.take(i as int) =~= hosts@);
    out
}

// ---------------------------------------------------------------------------
// Laws
// ---------------------------------------------------------------------------

/// A host passes where all hosts do, and otherwise where it has one of the groups that
/// are asked for, if any are, and is one of the names that are asked for, if any are.
pub proof fn filters_narrow(
    h: HostEntry,
    groups: Seq<Seq<char>>,
    names: Seq<Seq<char>>,
    all: bool,
)
    ensures
        all ==> passes(h, groups, names, all),
        groups.len() == 0 && names.len() == 0 ==> passes(h, groups, names, all),
        passes(h, groups, names, false) && groups.len() > 0 ==> exists|i: int, j: int|
            0 <= i < h.groups@.len() && 0 <= j < groups.len() && #[trigger] h.groups@[i]@
                == #[trigger] groups[j],
        passes(h, groups, names, false) && names.len() > 0 ==> exists|i: int|
            0 <= i < names.len() && #[trigger] names[i] == h.name@,
        forall|i: int, j: int|
            0 <= i < h.groups@.len() && 0 <= j < groups.len() && #[trigger] h.groups@[i]@
                == #[trigger] groups[j] && names.len() == 0 ==> passes(h, groups, names, false),
        forall|i: int|
            0 <= i < names.len() && #[trigger] names[i] == h.name@ && groups.len() == 0 ==> passes(
                h,
                groups,
                names,
                false,
            ),
{
    let own = texts(h.groups@);
    assert forall|i: int, j: int|
        0 <= i < h.groups@.len() && 0 <= j < groups.len() && #[trigger] h.groups@[i]@
            == #[trigger] groups[j] && names.len() == 0 implies passes(h, groups, names, false) by {
        assert(own[i] == groups[j]);
        assert(groups.contains(own[i]));
    }
    assert forall|i: int|
        0 <= i < names.len() && #[trigger] names[i] == h.name@ && groups.len() == 0 implies passes(
        h,
        groups,
        names,
        false,
    ) by {
        assert(names.contains(h.name@));
    }
    if passes(h, groups, names, false) && groups.len() > 0 {
        let i = choose|i: int| 0 <= i < own.len() && groups.contains(#[trigger] own[i]);
        let j = groups.index_of(own[i]);
        assert(h.groups@[i]@ == groups[j]);
    }
    if passes(h, groups, names, false) && names.len() > 0 {
        assert(names[names.index_of(h.name@)] == h.name@);
    }
}

} // verus!
