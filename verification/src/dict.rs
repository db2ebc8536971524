//! An insertion-ordered dictionary whose contents are specified as a finite map.

use vstd::prelude::*;

use crate::text::same_text;

verus! {

/// A key of a [`Dict`]: keys are compared by their views.
pub trait DictKey: View + Sized {
    /// Whether two keys denote the same view.
    fn same_key(&self, other: &Self) -> (same: bool)
        ensures
            same == (self@ == other@),
    ;

    /// A key with the same view.
    fn copy_key(&self) -> (copy: Self)
        ensures
            copy@ == self@,
    ;
}

impl DictKey for String {
    fn same_key(&self, other: &Self) -> (same: bool) {
        same_text(self.as_str(), other.as_str())
    }

    fn copy_key(&self) -> (copy: Self) {
        self.clone()
    }
}

impl DictKey for u64 {
    fn same_key(&self, other: &Self) -> (same: bool) {
        *self == *other
    }

    fn copy_key(&self) -> (copy: Self) {
        *self
    }
}

/// No two entries carry the same key.
pub open spec fn distinct_keys<K: View, W>(entries: Seq<(K, W)>) -> bool {
    forall|i: int, j: int|
        0 <= i < j < entries.len() ==> (#[trigger] entries[i]).0@ != (#[trigger] entries[j]).0@
}

/// Whether one of the first `n` entries carries `key`.
pub open spec fn key_among<K: View, W>(entries: Seq<(K, W)>, n: int, key: K::V) -> bool {
    exists|j: int| 0 <= j < n && (#[trigger] entries[j]).0@ == key
}

/// The map that a list of entries stands for.
pub open spec fn entries_map<K: View, W>(entries: Seq<(K, W)>) -> Map<K::V, W>
    decreases entries.len(),
{
    if entries.len() == 0 {
        Map::empty()
    } else {
        entries_map(entries.drop_last()).insert(entries.last().0@, entries.last().1)
    }
}

/// Membership and lookup in [`entries_map`] are membership and lookup in the list.
pub proof fn lemma_entries_map<K: View, W>(entries: Seq<(K, W)>)
    requires
        distinct_keys(entries),
    ensures
        forall|i: int| #![trigger entries[i]]
            0 <= i < entries.len() ==> entries_map(entries).contains_key(entries[i].0@)
                && entries_map(entries)[entries[i].0@] == entries[i].1,
        forall|k: K::V| #[trigger]
            entries_map(entries).contains_key(k) ==> exists|i: int|
                0 <= i < entries.len() && (#[trigger] entries[i]).0@ == k,
        entries_map(entries).dom().finite(),
        entries_map(entries).dom().len() == entries.len(),
    decreases entries.len(),
{
    if entries.len() > 0 {
        let rest = entries.drop_last();
        assert(forall|i: int| 0 <= i < rest.len() ==> rest[i] == entries[i]);
        lemma_entries_map(rest);
        let last = entries.len() - 1;
        assert(!entries_map(rest).contains_key(entries.last().0@)) by {
            if entries_map(rest).contains_key(entries.last().0@) {
                let i = choose|i: int|
                    0 <= i < rest.len() && (#[trigger] rest[i]).0@ == entries.last().0@;
                assert(entries[i].0@ != entries[last].0@);
            }
        }
        assert forall|i: int| #![trigger entries[i]] 0 <= i < entries.len() implies entries_map(
            entries,
        ).contains_key(entries[i].0@) && entries_map(entries)[entries[i].0@] == entries[i].1 by {
            if i < last {
                assert(rest[i] == entries[i]);
                assert(entries[i].0@ != entries[last].0@);
            }
        }
        assert forall|k: K::V| #[trigger] entries_map(entries).contains_key(k) implies exists|i: int|
            0 <= i < entries.len() && (#[trigger] entries[i]).0@ == k by {
            if k == entries.last().0@ {
                assert(entries[last].0@ == k);
            } else {
                let i = choose|i: int| 0 <= i < rest.len() && (#[trigger] rest[i]).0@ == k;
                assert(entries[i].0@ == k);
            }
        }
    }
}

/// An insertion-ordered dictionary; its view is the map from key views to values.
pub struct Dict<K: DictKey, W> {
    entries: Vec<(K, W)>,
}

impl<K: DictKey, W> View for Dict<K, W> {
    type V = Map<K::V, W>;

    closed spec fn view(&self) -> Map<K::V, W> {
        entries_map(self.entries@)
    }
}

impl<K: DictKey, W> Dict<K, W> {
    #[verifier::type_invariant]
    spec fn inv(self) -> bool {
        distinct_keys(self.entries@)
    }

    /// The entries in insertion order.
    pub closed spec fn entries(&self) -> Seq<(K, W)> {
        self.entries@
    }

    /// A dictionary without entries.
    pub fn new() -> (dict: Self)
        ensures
            dict@ == Map::<K::V, W>::empty(),
            dict.entries() == Seq::<(K, W)>::empty(),
    {
        Dict { entries: Vec::new() }
    }

    /// What the entries of a dictionary say of its view.
    pub open spec fn lawful(&self) -> bool {
        &&& self@ == entries_map(self.entries())
        &&& distinct_keys(self.entries())
        &&& forall|i: int| #![trigger self.entries()[i]]
            0 <= i < self.entries().len() ==> self@.contains_key(self.entries()[i].0@)
                && self@[self.entries()[i].0@] == self.entries()[i].1
        &&& forall|k: K::V| #[trigger]
            self@.contains_key(k) ==> exists|i: int|
                0 <= i < self.entries().len() && (#[trigger] self.entries()[i]).0@ == k
        &&& self@.dom().finite()
        &&& self@.dom().len() == self.entries().len()
    }

    /// The number of entries.
    pub fn len(&self) -> (n: usize)
        ensures
            n == self@.dom().len(),
            n == self.entries().len(),
            self.lawful(),
    {
        proof {
            use_type_invariant(self);
            lemma_entries_map(self.entries@);
        }
        self.entries.len()
    }

    /// The key and the value of the entry at position `i`.
    pub fn at(&self, i: usize) -> (entry: (&K, &W))
        requires
            i < self.entries().len(),
        ensures
            *entry.0 == self.entries()[i as int].0,
            *entry.1 == self.entries()[i as int].1,
    {
        let entry = &self.entries[i];
        (&entry.0, &entry.1)
    }

    fn position(&self, key: &K) -> (at: Option<usize>)
        ensures
            match at {
                Some(i) => i < self.entries@.len() && self.entries@[i as int].0@ == key@
                    && self@.contains_key(key@) && self@[key@] == self.entries@[i as int].1,
                None => !self@.contains_key(key@) && forall|i: int|
                    0 <= i < self.entries@.len() ==> (#[trigger] self.entries@[i]).0@ != key@,
            },
    {
        proof {
            use_type_invariant(self);
            lemma_entries_map(self.entries@);
        }
        let mut i: usize = 0;
        while i < self.entries.len()
            invariant
                i <= self.entries@.len(),
                self.lawful(),
                forall|k: int| 0 <= k < i ==> (#[trigger] self.entries@[k]).0@ != key@,
            decreases self.entries@.len() - i,
        {
            if self.entries[i].0.same_key(key) {
                proof {
                    assert(self.entries()[i as int].0@ == key@);
                }
                return Some(i);
            }
            i = i + 1;
        }
        proof {
            assert(!self@.contains_key(key@)) by {
                if self@.contains_key(key@) {
                    let j = choose|j: int|
                        0 <= j < self.entries().len() && (#[trigger] self.entries()[j]).0@ == key@;
                    assert(self.entries@[j].0@ == key@);
                }
            }
        }
        None
    }

    /// Whether `key` has an entry.
    pub fn contains(&self, key: &K) -> (found: bool)
        ensures
            found == self@.contains_key(key@),
    {
        self.position(key).is_some()
    }

    /// The value of `key`.
    pub fn get(&self, key: &K) -> (value: Option<&W>)
        ensures
            match value {
                Some(w) => self@.contains_key(key@) && *w == self@[key@],
                None => !self@.contains_key(key@),
            },
    {
        match self.position(key) {
            Some(i) => Some(&self.entries[i].1),
            None => None,
        }
    }

    /// Sets the value of `key`, replacing what was there.
    pub fn insert(&mut self, key: K, value: W)
        ensures
            final(self)@ == old(self)@.insert(key@, value),
    {
        let at = self.position(&key);
        proof {
            use_type_invariant(&*self);
            lemma_entries_map(self.entries@);
        }
        let ghost before = self.entries@;
        let mut taken = Dict::new();
        core::mem::swap(self, &mut taken);
        let mut entries = taken.entries;
        match at {
            Some(i) => {
                let pair = (key, value);
                entries.set(i, pair);
                proof {
                    lemma_update(before, i as int, pair);
                }
            },
            None => {
                entries.push((key, value));
                proof {
                    assert(entries@.drop_last() =~= before);
                }
            },
        }
        *self = Dict { entries };
    }

    /// Takes the entry of `key` out, if there is one.
    pub fn remove(&mut self, key: &K) -> (value: Option<W>)
        ensures
            final(self)@ == old(self)@.remove(key@),
            match value {
                Some(w) => old(self)@.contains_key(key@) && w == old(self)@[key@],
                None => !old(self)@.contains_key(key@),
            },
    {
        let at = self.position(key);
        proof {
            use_type_invariant(&*self);
            lemma_entries_map(self.entries@);
        }
        let ghost before = self.entries@;
        match at {
            Some(i) => {
                let mut taken = Dict::new();
                core::mem::swap(self, &mut taken);
                let mut entries = taken.entries;
                let (_, value) = entries.remove(i);
                proof {
                    lemma_removed(before, i as int);
                }
                *self = Dict { entries };
                Some(value)
            },
            None => {
                assert(self@.remove(key@) =~= self@);
                None
            },
        }
    }
}

/// Two lists with the same lookups stand for the same map.
proof fn lemma_update<K: View, W>(entries: Seq<(K, W)>, i: int, pair: (K, W))
    requires
        distinct_keys(entries),
        0 <= i < entries.len(),
        entries[i].0@ == pair.0@,
    ensures
        distinct_keys(entries.update(i, pair)),
        entries_map(entries.update(i, pair)) == entries_map(entries).insert(pair.0@, pair.1),
{
    let after = entries.update(i, pair);
    assert forall|a: int, b: int| 0 <= a < b < after.len() implies (#[trigger] after[a]).0@
        != (#[trigger] after[b]).0@ by {
        assert(entries[a].0@ != entries[b].0@);
    }
    lemma_entries_map(entries);
    lemma_entries_map(after);
    let left = entries_map(after);
    let right = entries_map(entries).insert(pair.0@, pair.1);
    assert forall|k: K::V| left.contains_key(k) == right.contains_key(k) by {
        if left.contains_key(k) {
            let j = choose|j: int| 0 <= j < after.len() && (#[trigger] after[j]).0@ == k;
            assert(entries[j].0@ == k);
        }
        if right.contains_key(k) && k != pair.0@ {
            let j = choose|j: int| 0 <= j < entries.len() && (#[trigger] entries[j]).0@ == k;
            assert(after[j].0@ == k);
        }
        if k == pair.0@ {
            assert(after[i].0@ == k);
        }
    }
    assert forall|k: K::V| left.contains_key(k) implies left[k] == right[k] by {
        let j = choose|j: int| 0 <= j < after.len() && (#[trigger] after[j]).0@ == k;
        assert(entries[j].0@ == k);
        if j != i {
            assert(entries[j].0@ != entries[i].0@);
        }
    }
    assert(left =~= right);
}

proof fn lemma_removed<K: View, W>(entries: Seq<(K, W)>, i: int)
    requires
        distinct_keys(entries),
        0 <= i < entries.len(),
    ensures
        distinct_keys(entries.remove(i)),
        entries_map(entries.remove(i)) == entries_map(entries).remove(entries[i].0@),
{
    let after = entries.remove(i);
    assert forall|a: int, b: int| 0 <= a < b < after.len() implies (#[trigger] after[a]).0@
        != (#[trigger] after[b]).0@ by {
        let a1 = if a < i { a } else { a + 1 };
        let b1 = if b < i { b } else { b + 1 };
        assert(entries[a1].0@ != entries[b1].0@);
    }
    lemma_entries_map(entries);
    lemma_entries_map(after);
    let left = entries_map(after);
    let right = entries_map(entries).remove(entries[i].0@);
    assert forall|k: K::V| left.contains_key(k) == right.contains_key(k) by {
        if left.contains_key(k) {
            let j = choose|j: int| 0 <= j < after.len() && (#[trigger] after[j]).0@ == k;
            let j1 = if j < i { j } else { j + 1 };
            assert(entries[j1].0@ == k);
            if j1 < i {
                assert(entries[j1].0@ != entries[i].0@);
            } else {
                assert(entries[i].0@ != entries[j1].0@);
            }
        }
        if right.contains_key(k) {
            let j = choose|j: int| 0 <= j < entries.len() && (#[trigger] entries[j]).0@ == k;
            let j1 = if j < i { j } else { j - 1 };
            assert(after[j1].0@ == k);
        }
    }
    assert forall|k: K::V| left.contains_key(k) implies left[k] == right[k] by {
        let j = choose|j: int| 0 <= j < after.len() && (#[trigger] after[j]).0@ == k;
        let j1 = if j < i { j } else { j + 1 };
        assert(entries[j1].0@ == k);
    }
    assert(left =~= right);
}

/// What was set is found, and every other key is found as it was.
pub proof fn law_set_value_is_found<K: DictKey, W>(
    dict: &mut Dict<K, W>,
    key: K,
    value: W,
    other: &K,
    before: Option<&W>,
    after: Option<&W>,
)
    requires
        call_ensures(Dict::<K, W>::insert, (dict, key, value), ()),
        call_ensures(Dict::<K, W>::get, (&*old(dict), other), before),
        call_ensures(Dict::<K, W>::get, (&*final(dict), other), after),
    ensures
        other@ == key@ ==> after == Some(&value),
        other@ != key@ ==> after == before,
{
}

/// What was taken out is what was found, it is found no longer, and every other key is found as it
/// was.
pub proof fn law_removed_value_is_gone<K: DictKey, W>(
    dict: &mut Dict<K, W>,
    key: &K,
    taken: Option<W>,
    other: &K,
    before: Option<&W>,
    after: Option<&W>,
)
    requires
        call_ensures(Dict::<K, W>::remove, (dict, key), taken),
        call_ensures(Dict::<K, W>::get, (&*old(dict), other), before),
        call_ensures(Dict::<K, W>::get, (&*final(dict), other), after),
    ensures
        other@ == key@ ==> after is None && match before {
            Some(value) => taken == Some(*value),
            None => taken is None,
        },
        other@ != key@ ==> after == before,
{
}

/// A dictionary holds what was set: it has an entry exactly for each key that it contains, and its
/// entries are the values of their keys.
pub proof fn law_entries_are_the_values<K: DictKey, W>(
    dict: &Dict<K, W>,
    n: usize,
    i: usize,
    entry: (&K, &W),
    there: bool,
    value: Option<&W>,
)
    requires
        call_ensures(Dict::<K, W>::len, (dict,), n),
        i < n,
        call_ensures(Dict::<K, W>::at, (dict, i), entry),
        call_ensures(Dict::<K, W>::contains, (dict, entry.0), there),
        call_ensures(Dict::<K, W>::get, (dict, entry.0), value),
    ensures
        n == dict@.dom().len(),
        there,
        value is Some,
        *value->Some_0 == *entry.1,
{
    assert(dict.entries()[i as int].0@ == entry.0@);
}

/// Every key that a dictionary contains is that of an entry.
pub proof fn law_every_key_has_an_entry<K: DictKey, W>(
    dict: &Dict<K, W>,
    n: usize,
    key: &K,
    there: bool,
)
    requires
        call_ensures(Dict::<K, W>::len, (dict,), n),
        call_ensures(Dict::<K, W>::contains, (dict, key), there),
    ensures
        there <==> exists|i: int|
            0 <= i < n && (#[trigger] dict.entries()[i]).0@ == key@,
        forall|i: int, j: int|
            0 <= i < j < n ==> (#[trigger] dict.entries()[i]).0@ != (#[trigger] dict.entries()[j]).0@,
{
}

} // verus!
