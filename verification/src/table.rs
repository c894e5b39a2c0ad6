//! A table from keys to values.

use vstd::prelude::*;

verus! {

/// A type that can key a [`Table`].  Two keys name the same entry exactly when
/// their `id`s are equal.
pub trait TableKey: Sized {
    type Id;

    /// What the key stands for.
    spec fn id(&self) -> Self::Id;

    /// Whether two keys name the same entry.
    fn same(&self, other: &Self) -> (r: bool)
        ensures
            r == (self.id() == other.id()),
    ;
}

/// A finite map, kept as a list of entries no two of which have the same key.
pub struct Table<K: TableKey, V> {
    entries: Vec<(K, V)>,
}

/// The position of the entry for `id`, where there is one.
spec fn is_entry<K: TableKey, V>(entries: Seq<(K, V)>, id: K::Id, i: int) -> bool {
    0 <= i < entries.len() && entries[i].0.id() == id
}

spec fn has_entry<K: TableKey, V>(entries: Seq<(K, V)>, id: K::Id) -> bool {
    exists|i: int| is_entry(entries, id, i)
}

spec fn entry_value<K: TableKey, V>(entries: Seq<(K, V)>, id: K::Id) -> V {
    entries[choose|i: int| is_entry(entries, id, i)].1
}

spec fn distinct<K: TableKey, V>(entries: Seq<(K, V)>) -> bool {
    forall|i: int, j: int|
        0 <= i < j < entries.len() ==> (#[trigger] entries[i]).0.id() != (
        #[trigger] entries[j]).0.id()
}

spec fn contents<K: TableKey, V>(entries: Seq<(K, V)>) -> Map<K::Id, V> {
    Map::new(|id: K::Id| has_entry(entries, id), |id: K::Id| entry_value(entries, id))
}

/// Two maps agree at a key.
spec fn agree<I, V>(a: Map<I, V>, b: Map<I, V>, k: I) -> bool {
    a.dom().contains(k) == b.dom().contains(k) && (a.dom().contains(k) ==> a[k] == b[k])
}

proof fn lemma_agree_everywhere<I, V>(a: Map<I, V>, b: Map<I, V>)
    requires
        forall|k: I| #[trigger] agree(a, b, k),
    ensures
        a == b,
{
    assert forall|k: I| a.dom().contains(k) == b.dom().contains(k) by {
        assert(agree(a, b, k));
    }
    assert forall|k: I| a.dom().contains(k) implies a[k] == b[k] by {
        assert(agree(a, b, k));
    }
    assert(a =~= b);
}

proof fn lemma_entry<K: TableKey, V>(entries: Seq<(K, V)>, i: int)
    requires
        distinct(entries),
        0 <= i < entries.len(),
    ensures
        contents(entries).dom().contains(entries[i].0.id()),
        contents(entries)[entries[i].0.id()] == entries[i].1,
{
    let id = entries[i].0.id();
    assert(is_entry(entries, id, i));
    let j = choose|j: int| is_entry(entries, id, j);
    assert(is_entry(entries, id, j));
    assert(i == j) by {
        if i < j {
            assert(entries[i].0.id() != entries[j].0.id());
        } else if j < i {
            assert(entries[j].0.id() != entries[i].0.id());
        }
    }
}

proof fn lemma_no_entry<K: TableKey, V>(entries: Seq<(K, V)>, id: K::Id)
    requires
        forall|i: int| 0 <= i < entries.len() ==> (#[trigger] entries[i]).0.id() != id,
    ensures
        !contents(entries).dom().contains(id),
{
}

impl<K: TableKey, V> View for Table<K, V> {
    type V = Map<K::Id, V>;

    closed spec fn view(&self) -> Map<K::Id, V> {
        contents(self.entries@)
    }
}

impl<K: TableKey, V> Table<K, V> {
    #[verifier::type_invariant]
    spec fn inv(self) -> bool {
        distinct(self.entries@)
    }

    /// An empty table.
    pub fn new() -> (r: Self)
        ensures
            r@ == Map::<K::Id, V>::empty(),
    {
        let r = Table { entries: Vec::new() };
        assert(r@ =~= Map::<K::Id, V>::empty());
        r
    }

    fn position(&self, key: &K) -> (r: Option<usize>)
        ensures
            match r {
                Some(i) => i < self.entries@.len() && self.entries@[i as int].0.id() == key.id()
                    && self@.dom().contains(key.id()) && self@[key.id()]
                    == self.entries@[i as int].1,
                None => !self@.dom().contains(key.id()) && forall|i: int|
                    0 <= i < self.entries@.len() ==> (#[trigger] self.entries@[i]).0.id()
                        != key.id(),
            },
    {
        proof {
            use_type_invariant(self);
        }
        let mut i: usize = 0;
        while i < self.entries.len()
            invariant
                i <= self.entries.len(),
                distinct(self.entries@),
                forall|j: int| 0 <= j < i ==> (#[trigger] self.entries@[j]).0.id() != key.id(),
            decreases self.entries.len() - i,
        {
            if self.entries[i].0.same(key) {
                proof {
                    lemma_entry(self.entries@, i as int);
                }
                return Some(i);
            }
            i = i + 1;
        }
        proof {
            lemma_no_entry(self.entries@, key.id());
        }
        None
    }

    /// Whether the table has an entry for the key.
    pub fn has(&self, key: &K) -> (r: bool)
        ensures
            r == self@.dom().contains(key.id()),
    {
        self.position(key).is_some()
    }

    /// The value under the key.
    pub fn get(&self, key: &K) -> (r: Option<&V>)
        ensures
            match r {
                Some(v) => self@.dom().contains(key.id()) && *v == self@[key.id()],
                None => !self@.dom().contains(key.id()),
            },
    {
        match self.position(key) {
            Some(i) => Some(&self.entries[i].1),
            None => None,
        }
    }

    /// Puts the value under the key, in place of what was there.
    pub fn set(&mut self, key: K, value: V)
        ensures
            final(self)@ == old(self)@.insert(key.id(), value),
    {
        proof {
            use_type_invariant(&*self);
        }
        let found = self.position(&key);
        let mut entries: Vec<(K, V)> = Vec::new();
        std::mem::swap(&mut entries, &mut self.entries);
        let ghost before = entries@;
        let ghost id = key.id();
        match found {
            Some(i) => {
                entries.set(i, (key, value));
                proof {
                    let after = entries@;
                    assert(distinct(after)) by {
                        assert forall|a: int, b: int| 0 <= a < b < after.len() implies (
                        #[trigger] after[a]).0.id() != (#[trigger] after[b]).0.id() by {
                            assert(before[a].0.id() != before[b].0.id());
                        }
                    }
                    assert forall|k: K::Id| #[trigger]
                        agree(contents(after), contents(before).insert(id, value), k) by {
                        if has_entry(after, k) {
                            let a = choose|a: int| is_entry(after, k, a);
                            assert(is_entry(after, k, a));
                            lemma_entry(after, a);
                            lemma_entry(before, a);
                        }
                        if has_entry(before, k) {
                            let b = choose|b: int| is_entry(before, k, b);
                            assert(is_entry(before, k, b));
                            lemma_entry(before, b);
                            lemma_entry(after, b);
                        }
                        if k == id {
                            lemma_entry(after, i as int);
                        }
                    }
                    lemma_agree_everywhere(contents(after), contents(before).insert(id, value));
                }
            },
            None => {
                entries.push((key, value));
                proof {
                    let after = entries@;
                    assert(distinct(after)) by {
                        assert forall|a: int, b: int| 0 <= a < b < after.len() implies (
                        #[trigger] after[a]).0.id() != (#[trigger] after[b]).0.id() by {
                            assert(before[a].0.id() != id);
                            if b < before.len() {
                                assert(before[a].0.id() != before[b].0.id());
                            }
                        }
                    }
                    assert forall|k: K::Id| #[trigger]
                        agree(contents(after), contents(before).insert(id, value), k) by {
                        if has_entry(after, k) {
                            let a = choose|a: int| is_entry(after, k, a);
                            assert(is_entry(after, k, a));
                            lemma_entry(after, a);
                            if a < before.len() {
                                lemma_entry(before, a);
                            }
                        }
                        if has_entry(before, k) {
                            let b = choose|b: int| is_entry(before, k, b);
                            assert(is_entry(before, k, b));
                            lemma_entry(before, b);
                            lemma_entry(after, b);
                        }
                        if k == id {
                            lemma_entry(after, before.len() as int);
                        }
                    }
                    lemma_agree_everywhere(contents(after), contents(before).insert(id, value));
                }
            },
        }
        self.entries = entries;
    }

    /// Takes out the entry for the key and hands its value back.
    pub fn remove(&mut self, key: &K) -> (r: Option<V>)
        ensures
            final(self)@ == old(self)@.remove(key.id()),
            match r {
                Some(v) => old(self)@.dom().contains(key.id()) && v == old(self)@[key.id()],
                None => !old(self)@.dom().contains(key.id()),
            },
    {
        proof {
            use_type_invariant(&*self);
        }
        match self.position(key) {
            Some(i) => {
                let mut entries: Vec<(K, V)> = Vec::new();
                std::mem::swap(&mut entries, &mut self.entries);
                let ghost before = entries@;
                let ghost id = key.id();
                let (_, value) = entries.remove(i);
                proof {
                    let after = entries@;
                    assert forall|a: int| 0 <= a < after.len() implies #[trigger] after[a]
                        == before[if a < i {
                        a
                    } else {
                        a + 1
                    }] by {}
                    assert(distinct(after)) by {
                        assert forall|a: int, b: int| 0 <= a < b < after.len() implies (
                        #[trigger] after[a]).0.id() != (#[trigger] after[b]).0.id() by {
                            let a1 = if a < i {
                                a
                            } else {
                                a + 1
                            };
                            let b1 = if b < i {
                                b
                            } else {
                                b + 1
                            };
                            assert(before[a1].0.id() != before[b1].0.id());
                        }
                    }
                    assert forall|k: K::Id| #[trigger]
                        agree(contents(after), contents(before).remove(id), k) by {
                        if has_entry(after, k) {
                            let a = choose|a: int| is_entry(after, k, a);
                            assert(is_entry(after, k, a));
                            lemma_entry(after, a);
                            let a1 = if a < i {
                                a
                            } else {
                                a + 1
                            };
                            lemma_entry(before, a1);
                            assert(before[a1].0.id() != before[i as int].0.id());
                        }
                        if has_entry(before, k) {
                            let b = choose|b: int| is_entry(before, k, b);
                            assert(is_entry(before, k, b));
                            lemma_entry(before, b);
                            if b < i {
                                lemma_entry(after, b);
                            } else if b > i {
                                assert(after[b - 1] == before[b]);
                                lemma_entry(after, b - 1);
                            }
                        }
                    }
                    lemma_agree_everywhere(contents(after), contents(before).remove(id));
                }
                self.entries = entries;
                Some(value)
            },
            None => {
                assert(self@ =~= self@.remove(key.id()));
                None
            },
        }
    }

    /// The number of entries.
    pub fn len(&self) -> (r: usize)
        ensures
            r == self.size(),
    {
        self.entries.len()
    }

    /// The number of entries, as a mathematical number.
    pub closed spec fn size(&self) -> nat {
        self.entries@.len()
    }

    /// The entry at a place of the list.  Every entry has its place.
    pub fn entry(&self, i: usize) -> (r: (&K, &V))
        requires
            i < self.size(),
        ensures
            self@.dom().contains(r.0.id()),
            self@[r.0.id()] == *r.1,
    {
        proof {
            use_type_invariant(self);
            lemma_entry(self.entries@, i as int);
        }
        let e = &self.entries[i];
        (&e.0, &e.1)
    }
}

impl<K: TableKey + Copy, V: Copy> Table<K, V> {
    /// A second table with the same contents.
    pub fn duplicate(&self) -> (r: Self)
        ensures
            r@ == self@,
    {
        proof {
            use_type_invariant(self);
        }
        let mut entries: Vec<(K, V)> = Vec::new();
        let mut i: usize = 0;
        while i < self.entries.len()
            invariant
                i <= self.entries.len(),
                entries@ == self.entries@.take(i as int),
            decreases self.entries.len() - i,
        {
            let pair = &self.entries[i];
            entries.push((pair.0, pair.1));
            i = i + 1;
        }
        assert(entries@ =~= self.entries@);
        Table { entries }
    }
}

} // verus!
