//! A small table: one value for each key.

use vstd::prelude::*;

use crate::text::same_text;

verus! {

/// A key of a table.
pub trait TableKey: Sized {
    /// What makes two keys the same.
    type Id;

    /// What makes this key the same as another.
    spec fn id(&self) -> Self::Id;

    /// Tells whether two keys are the same.
    fn same(&self, other: &Self) -> (r: bool)
        ensures
            r == (self.id() == other.id()),
    ;
}

impl TableKey for String {
    type Id = Seq<char>;

    open spec fn id(&self) -> Seq<char> {
        self@
    }

    fn same(&self, other: &Self) -> (r: bool) {
        same_text(self.as_str(), other.as_str())
    }
}

/// A table; no key occurs twice.
pub struct Table<K: TableKey, V> {
    entries: Vec<(K, V)>,
}

/// Whether no key occurs twice.
pub open spec fn distinct<K: TableKey, V>(entries: Seq<(K, V)>) -> bool {
    forall|i: int, j: int|
        0 <= i < j < entries.len() ==> (#[trigger] entries[i]).0.id() != (#[trigger]
        entries[j]).0.id()
}

/// Whether a key is at a place.
pub open spec fn holds_at<K: TableKey, V>(entries: Seq<(K, V)>, k: K::Id, i: int) -> bool {
    0 <= i < entries.len() && entries[i].0.id() == k
}

/// The values by key.
pub open spec fn as_map<K: TableKey, V>(entries: Seq<(K, V)>) -> Map<K::Id, V> {
    Map::new(
        |k: K::Id| exists|i: int| #[trigger] holds_at(entries, k, i),
        |k: K::Id| entries[choose|i: int| #[trigger] holds_at(entries, k, i)].1,
    )
}

proof fn lemma_as_map<K: TableKey, V>(entries: Seq<(K, V)>, i: int)
    requires
        distinct(entries),
        0 <= i < entries.len(),
    ensures
        as_map(entries).contains_key(entries[i].0.id()),
        as_map(entries)[entries[i].0.id()] == entries[i].1,
{
    let k = entries[i].0.id();
    assert(holds_at(entries, k, i));
    let j = choose|j: int| #[trigger] holds_at(entries, k, j);
    assert(holds_at(entries, k, j));
    if i < j {
        assert(entries[i].0.id() != entries[j].0.id());
    } else if j < i {
        assert(entries[j].0.id() != entries[i].0.id());
    }
}

proof fn lemma_as_map_absent<K: TableKey, V>(entries: Seq<(K, V)>, k: K::Id)
    requires
        forall|i: int| 0 <= i < entries.len() ==> (#[trigger] entries[i]).0.id() != k,
    ensures
        !as_map(entries).contains_key(k),
{
    if as_map(entries).contains_key(k) {
        let i = choose|i: int| #[trigger] holds_at(entries, k, i);
        assert(holds_at(entries, k, i));
    }
}

proof fn lemma_as_map_push<K: TableKey, V>(entries: Seq<(K, V)>, e: (K, V))
    requires
        distinct(entries),
        !as_map(entries).contains_key(e.0.id()),
    ensures
        distinct(entries.push(e)),
        as_map(entries.push(e)) == as_map(entries).insert(e.0.id(), e.1),
{
    let more = entries.push(e);
    assert forall|i: int, j: int| 0 <= i < j < more.len() implies (#[trigger] more[i]).0.id() != (
    #[trigger] more[j]).0.id() by {
        if j == entries.len() {
            assert(holds_at(entries, entries[i].0.id(), i));
        }
    }
    assert forall|k: K::Id| as_map(more).contains_key(k) == as_map(entries).insert(
        e.0.id(),
        e.1,
    ).contains_key(k) by {
        if as_map(more).contains_key(k) {
            let i = choose|i: int| #[trigger] holds_at(more, k, i);
            assert(holds_at(more, k, i));
            if i < entries.len() {
                assert(holds_at(entries, k, i));
            }
        }
        if as_map(entries).contains_key(k) {
            let i = choose|i: int| #[trigger] holds_at(entries, k, i);
            assert(holds_at(more, k, i));
        }
        assert(holds_at(more, e.0.id(), entries.len() as int));
    }
    assert forall|k: K::Id| as_map(more).contains_key(k) implies as_map(more)[k] == as_map(
        entries,
    ).insert(e.0.id(), e.1)[k] by {
        let i = choose|i: int| #[trigger] holds_at(more, k, i);
        assert(holds_at(more, k, i));
        lemma_as_map(more, i);
        if i < entries.len() {
            lemma_as_map(entries, i);
            assert(entries[i] == more[i]);
            assert(k != e.0.id());
        }
    }
    assert(as_map(more) =~= as_map(entries).insert(e.0.id(), e.1));
}

proof fn lemma_as_map_remove<K: TableKey, V>(entries: Seq<(K, V)>, p: int)
    requires
        distinct(entries),
        0 <= p < entries.len(),
    ensures
        distinct(entries.remove(p)),
        as_map(entries.remove(p)) == as_map(entries).remove(entries[p].0.id()),
{
    let less = entries.remove(p);
    let gone = entries[p].0.id();
    assert forall|i: int, j: int| 0 <= i < j < less.len() implies (#[trigger] less[i]).0.id() != (
    #[trigger] less[j]).0.id() by {
        let a = if i < p {
            i
        } else {
            i + 1
        };
        let b = if j < p {
            j
        } else {
            j + 1
        };
        assert(less[i] == entries[a] && less[j] == entries[b]);
    }
    assert forall|k: K::Id| as_map(less).contains_key(k) == as_map(entries).remove(
        gone,
    ).contains_key(k) by {
        if as_map(less).contains_key(k) {
            let i = choose|i: int| #[trigger] holds_at(less, k, i);
            assert(holds_at(less, k, i));
            let a = if i < p {
                i
            } else {
                i + 1
            };
            assert(less[i] == entries[a]);
            assert(holds_at(entries, k, a));
            if a < p {
                assert(entries[a].0.id() != entries[p].0.id());
            } else {
                assert(entries[p].0.id() != entries[a].0.id());
            }
        }
        if as_map(entries).contains_key(k) && k != gone {
            let i = choose|i: int| #[trigger] holds_at(entries, k, i);
            assert(holds_at(entries, k, i));
            let a = if i < p {
                i
            } else {
                i - 1
            };
            assert(less[a] == entries[i]);
            assert(holds_at(less, k, a));
        }
    }
    assert forall|k: K::Id| as_map(less).contains_key(k) implies as_map(less)[k] == as_map(
        entries,
    ).remove(gone)[k] by {
        let i = choose|i: int| #[trigger] holds_at(less, k, i);
        assert(holds_at(less, k, i));
        lemma_as_map(less, i);
        let a = if i < p {
            i
        } else {
            i + 1
        };
        assert(less[i] == entries[a]);
        lemma_as_map(entries, a);
    }
    assert(as_map(less) =~= as_map(entries).remove(gone));
}

impl<K: TableKey, V> Table<K, V> {
    /// Whether no key occurs twice.
    pub closed spec fn wf(&self) -> bool {
        distinct(self.entries@)
    }

    /// The values by key.
    pub closed spec fn contents(&self) -> Map<K::Id, V> {
        as_map(self.entries@)
    }

    /// An empty table.
    pub fn new() -> (r: Self)
        ensures
            r.wf(),
            r.contents() == Map::<K::Id, V>::empty(),
    {
        let r = Table { entries: Vec::new() };
        proof {
            assert forall|k: K::Id| !as_map(r.entries@).contains_key(k) by {
                lemma_as_map_absent(r.entries@, k);
            }
            assert(as_map(r.entries@) =~= Map::<K::Id, V>::empty());
        }
        r
    }

    fn find(&self, key: &K) -> (r: Option<usize>)
        requires
            self.wf(),
        ensures
            match r {
                Some(i) => i < self.entries@.len() && self.entries@[i as int].0.id() == key.id()
                    && self.contents().contains_key(key.id()) && self.contents()[key.id()]
                    == self.entries@[i as int].1,
                None => !self.contents().contains_key(key.id()),
            },
    {
        let mut i: usize = 0;
        while i < self.entries.len()
            invariant
                i <= self.entries@.len(),
                self.wf(),
                forall|j: int| 0 <= j < i ==> (#[trigger] self.entries@[j]).0.id() != key.id(),
            decreases self.entries@.len() - i,
        {
            if self.entries[i].0.same(key) {
                proof {
                    lemma_as_map(self.entries@, i as int);
                }
                return Some(i);
            }
            i = i + 1;
        }
        proof {
            lemma_as_map_absent(self.entries@, key.id());
        }
        None
    }

    /// Whether a key has a value.
    pub fn contains(&self, key: &K) -> (r: bool)
        requires
            self.wf(),
        ensures
            r == self.contents().contains_key(key.id()),
    {
        match self.find(key) {
            Some(_) => true,
            None => false,
        }
    }

    /// The value of a key.
    pub fn get(&self, key: &K) -> (r: Option<&V>)
        requires
            self.wf(),
        ensures
            match r {
                Some(v) => self.contents().contains_key(key.id()) && self.contents()[key.id()]
                    == *v,
                None => !self.contents().contains_key(key.id()),
            },
    {
        match self.find(key) {
            Some(i) => Some(&self.entries[i].1),
            None => None,
        }
    }

    /// Takes the value of a key out of the table.
    pub fn remove(&mut self, key: &K) -> (r: Option<V>)
        requires
            old(self).wf(),
        ensures
            final(self).wf(),
            final(self).contents() == old(self).contents().remove(key.id()),
            match r {
                Some(v) => old(self).contents().contains_key(key.id()) && old(
                    self,
                ).contents()[key.id()] == v,
                None => !old(self).contents().contains_key(key.id()),
            },
    {
        match self.find(key) {
            Some(i) => {
                proof {
                    lemma_as_map_remove(self.entries@, i as int);
                }
                let (_, v) = self.entries.remove(i);
                Some(v)
            },
            None => {
                assert(self.contents() =~= old(self).contents().remove(key.id()));
                None
            },
        }
    }

    /// Gives a key a value, in place of the one that it had.
    pub fn insert(&mut self, key: K, value: V)
        requires
            old(self).wf(),
        ensures
            final(self).wf(),
            final(self).contents() == old(self).contents().insert(key.id(), value),
    {
        let ghost before = self.contents();
        let ghost k = key.id();
        let _ = self.remove(&key);
        proof {
            lemma_as_map_push(self.entries@, (key, value));
        }
        self.entries.push((key, value));
        assert(self.contents() =~= before.insert(k, value));
    }

    /// How many keys have a value.
    pub fn len(&self) -> (r: usize)
        ensures
            r == self.size(),
    {
        self.entries.len()
    }

    /// How many keys have a value.
    pub closed spec fn size(&self) -> nat {
        self.entries@.len()
    }

    /// The value at a place.
    pub(crate) fn value_at(&self, i: usize) -> (r: &V)
        requires
            self.wf(),
            i < self.size(),
        ensures
            self.contents().contains_key(self.key_at(i as int)),
            *r == self.contents()[self.key_at(i as int)],
    {
        proof {
            lemma_as_map(self.entries@, i as int);
        }
        &self.entries[i].1
    }

    /// The key at a place.
    pub closed spec fn key_at(&self, i: int) -> K::Id {
        self.entries@[i].0.id()
    }

    /// Every key is at some place.
    pub proof fn every_key_has_a_place(&self, k: K::Id) -> (i: int)
        requires
            self.wf(),
            self.contents().contains_key(k),
        ensures
            0 <= i < self.size(),
            self.key_at(i) == k,
    {
        let i = choose|i: int| #[trigger] holds_at(self.entries@, k, i);
        assert(holds_at(self.entries@, k, i));
        i
    }

    /// Takes what is at a place out of the table; what follows moves up.
    pub(crate) fn remove_at(&mut self, i: usize)
        requires
            old(self).wf(),
            i < old(self).size(),
        ensures
            final(self).wf(),
            final(self).size() == old(self).size() - 1,
            final(self).contents() == old(self).contents().remove(old(self).key_at(i as int)),
            forall|j: int| 0 <= j < i ==> final(self).key_at(j) == #[trigger] old(self).key_at(j),
    {
        proof {
            lemma_as_map_remove(self.entries@, i as int);
        }
        let _ = self.entries.remove(i);
    }
}

/// A key that was given a value has that value; other keys are not touched.
pub proof fn values_are_found_under_their_key<K: TableKey, V>(
    table: &&mut Table<K, V>,
    before: Map<K::Id, V>,
    after: Map<K::Id, V>,
    key: K,
    value: V,
    other: K::Id,
)
    requires
        call_ensures(Table::<K, V>::insert, (*table, key, value), ()),
        before == (**table).contents(),
        after == final(*table).contents(),
    ensures
        after.contains_key(key.id()) && after[key.id()] == value,
        other != key.id() ==> after.contains_key(other) == before.contains_key(other),
        other != key.id() && before.contains_key(other) ==> after[other] == before[other],
{
}

/// A key that was removed has no value; what it had is given back, and other
/// keys are not touched.
pub proof fn removed_keys_have_no_value<K: TableKey, V>(
    table: &&mut Table<K, V>,
    before: Map<K::Id, V>,
    after: Map<K::Id, V>,
    key: K,
    r: Option<V>,
    other: K::Id,
)
    requires
        call_ensures(Table::<K, V>::remove, (*table, &key), r),
        before == (**table).contents(),
        after == final(*table).contents(),
    ensures
        !after.contains_key(key.id()),
        r is Some <==> before.contains_key(key.id()),
        r matches Some(v) ==> v == before[key.id()],
        other != key.id() ==> after.contains_key(other) == before.contains_key(other),
        other != key.id() && before.contains_key(other) ==> after[other] == before[other],
{
}

} // verus!
