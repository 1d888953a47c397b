//! A map from text to values that keeps its keys in the order of insertion.

use vstd::prelude::*;

use crate::text::same;

verus! {

/// A map from text to values.
pub struct TextMap<V> {
    pub entries: Vec<(String, V)>,
}

impl<V> TextMap<V> {
    /// The keys, in the order in which they were first inserted.
    pub open spec fn keys(&self) -> Seq<Seq<char>> {
        Seq::new(self.entries@.len(), |i: int| self.entries@[i].0@)
    }

    /// No key occurs twice.
    pub open spec fn wf(&self) -> bool {
        self.keys().no_duplicates()
    }
}

impl<V> View for TextMap<V> {
    type V = Map<Seq<char>, V>;

    open spec fn view(&self) -> Map<Seq<char>, V> {
        Map::new(
            |k: Seq<char>| self.keys().contains(k),
            |k: Seq<char>| self.entries@[self.keys().index_of(k)].1,
        )
    }
}

impl<V> TextMap<V> {
    /// The value of a key is the one that stands beside it.
    pub proof fn value_at(&self, i: int)
        requires
            self.wf(),
            0 <= i < self.entries@.len(),
        ensures
            self@.dom().contains(self.entries@[i].0@),
            self@[self.entries@[i].0@] == self.entries@[i].1,
    {
        let k = self.keys()[i];
        assert(self.keys().contains(k));
        assert(self.keys().index_of(k) == i);
    }

    /// An empty map.
    pub fn new() -> (r: Self)
        ensures
            r.wf(),
            r@ == Map::<Seq<char>, V>::empty(),
            r.keys() == Seq::<Seq<char>>::empty(),
    {
        let r = TextMap { entries: Vec::new() };
        assert(r@ =~= Map::<Seq<char>, V>::empty());
        assert(r.keys() =~= Seq::<Seq<char>>::empty());
        r
    }

    /// How many keys there are.
    pub fn len(&self) -> (r: usize)
        ensures
            r == self.keys().len(),
    {
        self.entries.len()
    }

    /// Where a key stands.
    pub fn position(&self, key: &str) -> (r: Option<usize>)
        ensures
            r matches Some(i) ==> i < self.entries@.len() && self.keys()[i as int] == key@,
            r is None ==> !self.keys().contains(key@),
    {
        let mut i: usize = 0;
        while i < self.entries.len()
            invariant
                i <= self.entries@.len(),
                forall|j: int| 0 <= j < i ==> #[trigger] self.keys()[j] != key@,
            decreases self.entries@.len() - i,
        {
            if same(self.entries[i].0.as_str(), key) {
                return Some(i);
            }
            assert(self.keys()[i as int] != key@);
            i += 1;
        }
        None
    }

    /// The value of a key.
    pub fn get(&self, key: &str) -> (r: Option<&V>)
        requires
            self.wf(),
        ensures
            r matches Some(v) ==> self@.dom().contains(key@) && *v == self@[key@],
            r is None ==> !self@.dom().contains(key@),
    {
        match self.position(key) {
            Some(i) => {
                proof {
                    self.value_at(i as int);
                }
                Some(&self.entries[i].1)
            },
            None => None,
        }
    }

    /// Sets the value of a key; an existing value is replaced.
    pub fn insert(&mut self, key: String, value: V)
        requires
            old(self).wf(),
        ensures
            final(self).wf(),
            final(self)@ == old(self)@.insert(key@, value),
            final(self).keys() == crate::order::with_new(old(self).keys(), key@),
    {
        let ghost before = *self;
        let ghost k = key@;
        match self.position(key.as_str()) {
            Some(i) => {
                self.entries.set(i, (key, value));
                proof {
                    assert(self.keys() =~= before.keys());
                    assert(before.keys().contains(k));
                    assert forall|x: Seq<char>| self@.dom().contains(x) implies self@[x]
                        == before@.insert(k, value)[x] by {
                        let n = self.keys().index_of(x);
                        assert(self.keys()[n] == x);
                        if x == k {
                            assert(n == i);
                        } else {
                            assert(n != i);
                        }
                    }
                    assert(self@ =~= before@.insert(k, value));
                }
            },
            None => {
                self.entries.push((key, value));
                proof {
                    assert(self.keys() =~= before.keys().push(k));
                    assert(self.wf());
                    assert forall|x: Seq<char>| self@.dom().contains(x) <==> before@.insert(
                        k,
                        value,
                    ).dom().contains(x) by {
                        if before.keys().contains(x) {
                            let n = before.keys().index_of(x);
                            assert(self.keys()[n] == x);
                        }
                        if x == k {
                            assert(self.keys()[before.keys().len() as int] == x);
                        }
                        if self.keys().contains(x) && x != k {
                            let n = self.keys().index_of(x);
                            assert(before.keys()[n] == x);
                        }
                    }
                    assert forall|x: Seq<char>| self@.dom().contains(x) implies self@[x]
                        == before@.insert(k, value)[x] by {
                        let n = self.keys().index_of(x);
                        assert(self.keys()[n] == x);
                        if x == k {
                            assert(self.keys()[before.keys().len() as int] == x);
                            assert(n == before.keys().len());
                        } else {
                            assert(before.keys()[n] == x);
                            assert(before.keys().contains(x));
                            assert(before.keys().index_of(x) == n);
                        }
                    }
                    assert(self@ =~= before@.insert(k, value));
                }
            },
        }
    }
}

} // verus!
