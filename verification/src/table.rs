//! A small key-value table, modelled by a `Map` from key views to value views.

use vstd::prelude::*;

verus! {

/// What a table needs of its keys: an equality test that agrees with the view.
pub trait Key: View + Sized {
    fn same(&self, other: &Self) -> (b: bool)
        ensures
            b == (self@ == other@),
    ;
}

impl Key for String {
    fn same(&self, other: &Self) -> (b: bool) {
        self.eq(other)
    }
}

/// A table from `K` to `V`. Of two entries under one key the earlier counts.
#[derive(Clone, Debug)]
pub struct Table<K, V> {
    entries: Vec<(K, V)>,
}

/// The place of the first entry under `key` at or after `from`, or the length.
spec fn place<K: Key, V: View>(entries: Seq<(K, V)>, key: K::V, from: int) -> int
    decreases entries.len() - from,
{
    if from >= entries.len() {
        entries.len() as int
    } else if entries[from].0@ == key {
        from
    } else {
        place(entries, key, from + 1)
    }
}

spec fn contents<K: Key, V: View>(entries: Seq<(K, V)>) -> Map<K::V, V::V> {
    Map::new(
        |key: K::V| place(entries, key, 0) < entries.len(),
        |key: K::V| entries[place(entries, key, 0)].1@,
    )
}

impl<K: Key, V: View> View for Table<K, V> {
    type V = Map<K::V, V::V>;

    closed spec fn view(&self) -> Map<K::V, V::V> {
        contents(self.entries@)
    }
}

proof fn lemma_place<K: Key, V: View>(entries: Seq<(K, V)>, key: K::V, from: int, at: int)
    requires
        0 <= from <= at <= entries.len(),
        forall|i: int| from <= i < at ==> (#[trigger] entries[i]).0@ != key,
        at < entries.len() ==> entries[at].0@ == key,
    ensures
        place(entries, key, from) == at,
    decreases at - from,
{
    if from < at {
        assert(entries[from].0@ != key);
        lemma_place(entries, key, from + 1, at);
    }
}

proof fn lemma_place_bounds<K: Key, V: View>(entries: Seq<(K, V)>, key: K::V, from: int)
    requires
        0 <= from <= entries.len(),
    ensures
        from <= place(entries, key, from) <= entries.len(),
        place(entries, key, from) < entries.len() ==> entries[place(entries, key, from)].0@ == key,
        forall|i: int|
            from <= i < place(entries, key, from) ==> (#[trigger] entries[i]).0@ != key,
    decreases entries.len() - from,
{
    if from < entries.len() && entries[from].0@ != key {
        lemma_place_bounds(entries, key, from + 1);
    }
}

impl<K: Key, V: View> Table<K, V> {
    /// A table without entries.
    pub fn new() -> (r: Self)
        ensures
            r@ == Map::<K::V, V::V>::empty(),
    {
        let r = Table { entries: Vec::new() };
        assert(r@ =~= Map::<K::V, V::V>::empty());
        r
    }

    fn find(&self, key: &K) -> (at: usize)
        ensures
            at == place(self.entries@, key@, 0),
            at <= self.entries@.len(),
    {
        let mut i: usize = 0;
        while i < self.entries.len()
            invariant
                i <= self.entries@.len(),
                forall|j: int| 0 <= j < i ==> (#[trigger] self.entries@[j]).0@ != key@,
            decreases self.entries@.len() - i,
        {
            if self.entries[i].0.same(key) {
                proof {
                    lemma_place(self.entries@, key@, 0, i as int);
                }
                return i;
            }
            i = i + 1;
        }
        proof {
            lemma_place(self.entries@, key@, 0, i as int);
        }
        i
    }

    /// Whether there is an entry under `key`.
    pub fn has(&self, key: &K) -> (b: bool)
        ensures
            b == self@.contains_key(key@),
    {
        self.find(key) < self.entries.len()
    }

    /// The value under `key`.
    pub fn get(&self, key: &K) -> (r: Option<&V>)
        ensures
            match r {
                Some(v) => self@.contains_key(key@) && v@ == self@[key@],
                None => !self@.contains_key(key@),
            },
    {
        let at: usize = self.find(key);
        if at < self.entries.len() {
            Some(&self.entries[at].1)
        } else {
            None
        }
    }

    /// Puts `value` under `key`, in place of what stood there.
    pub fn set(&mut self, key: K, value: V)
        ensures
            final(self)@ == old(self)@.insert(key@, value@),
    {
        let at: usize = self.find(&key);
        let ghost before = self.entries@;
        proof {
            lemma_place_bounds(before, key@, 0);
        }
        if at < self.entries.len() {
            self.entries[at] = (key, value);
        } else {
            self.entries.push((key, value));
        }
        proof {
            let after = self.entries@;
            assert forall|k: K::V| #[trigger] place(after, k, 0) == (if k == key@ {
                at as int
            } else if place(before, k, 0) < before.len() {
                place(before, k, 0)
            } else {
                after.len() as int
            }) by {
                lemma_place_bounds(before, k, 0);
                if k == key@ {
                    lemma_place(after, k, 0, at as int);
                } else if place(before, k, 0) < before.len() {
                    lemma_place(after, k, 0, place(before, k, 0));
                } else {
                    lemma_place(after, k, 0, after.len() as int);
                }
            }
            let wanted = contents(before).insert(key@, value@);
            assert forall|k: K::V| self@.contains_key(k) == wanted.contains_key(k) by {
                lemma_place_bounds(before, k, 0);
            }
            assert forall|k: K::V| wanted.contains_key(k) implies #[trigger] self@[k]
                == wanted[k] by {
                lemma_place_bounds(before, k, 0);
                if k != key@ {
                    assert(contents(before).contains_key(k));
                    assert(after[place(before, k, 0)] == before[place(before, k, 0)]);
                }
            }
            assert(self@ =~= wanted);
        }
    }

    /// Removes what stands under `key`.
    pub fn remove(&mut self, key: &K)
        ensures
            final(self)@ == old(self)@.remove(key@),
    {
        let ghost before = self.entries@;
        let mut i: usize = 0;
        while i < self.entries.len()
            invariant
                i <= self.entries@.len(),
                forall|j: int| 0 <= j < i ==> (#[trigger] self.entries@[j]).0@ != key@,
                self@.remove(key@) == contents(before).remove(key@),
            decreases self.entries@.len() - i,
        {
            if self.entries[i].0.same(key) {
                let ghost held = self.entries@;
                self.entries.remove(i);
                proof {
                    lemma_without(held, i as int, key@);
                }
            } else {
                i = i + 1;
            }
        }
        proof {
            lemma_place(self.entries@, key@, 0, i as int);
            assert(self@ =~= self@.remove(key@));
        }
    }
}

proof fn lemma_without<K: Key, V: View>(entries: Seq<(K, V)>, at: int, key: K::V)
    requires
        0 <= at < entries.len(),
        entries[at].0@ == key,
    ensures
        contents(entries.remove(at)).remove(key) == contents(entries).remove(key),
{
    let after = entries.remove(at);
    assert forall|k: K::V| k != key implies #[trigger] place(after, k, 0) == (if place(entries, k, 0)
        < at {
        place(entries, k, 0)
    } else {
        place(entries, k, 0) - 1
    }) by {
        lemma_place_bounds(entries, k, 0);
        let p = place(entries, k, 0);
        assert(p != at);
        if p < at {
            lemma_place(after, k, 0, p);
        } else {
            assert forall|i: int| 0 <= i < p - 1 implies (#[trigger] after[i]).0@ != k by {
                if i < at {
                    assert(entries[i].0@ != k);
                } else {
                    assert(entries[i + 1].0@ != k);
                }
            }
            lemma_place(after, k, 0, p - 1);
        }
    }
    assert forall|k: K::V| k != key implies contents(after).contains_key(k) == contents(
        entries,
    ).contains_key(k) by {
        lemma_place_bounds(entries, k, 0);
        lemma_place_bounds(after, k, 0);
    }
    assert(contents(after).remove(key) =~= contents(entries).remove(key)) by {
        assert forall|k: K::V| k != key && contents(entries).contains_key(k) implies contents(
            after,
        )[k] == contents(entries)[k] by {
            lemma_place_bounds(entries, k, 0);
            lemma_place_bounds(after, k, 0);
        }
    }
}

} // verus!
