//! Key-value storage.

use crate::config::Key;
use vstd::prelude::*;

verus! {

/// The map that a list of pairs stands for: where a key occurs more than once,
/// its last value counts.
pub open spec fn collect<K, V>(pairs: Seq<(K, V)>) -> Map<K, V>
    decreases pairs.len(),
{
    if pairs.len() == 0 {
        Map::empty()
    } else {
        collect(pairs.drop_last()).insert(pairs.last().0, pairs.last().1)
    }
}

/// No key occurs twice.
pub open spec fn distinct<K, V>(pairs: Seq<(K, V)>) -> bool {
    forall|i: int, j: int|
        0 <= i < j < pairs.len() ==> (#[trigger] pairs[i]).0 != (#[trigger] pairs[j]).0
}

/// A list of pairs stands for a map that holds the keys of the pairs and no others.
pub proof fn collected_keys<K, V>(pairs: Seq<(K, V)>, key: K)
    ensures
        collect(pairs).contains_key(key) <==> exists|i: int|
            0 <= i < pairs.len() && (#[trigger] pairs[i]).0 == key,
    decreases pairs.len(),
{
    if pairs.len() > 0 {
        let init = pairs.drop_last();
        collected_keys(init, key);
        if collect(init).contains_key(key) {
            let i = choose|i: int| 0 <= i < init.len() && (#[trigger] init[i]).0 == key;
            assert(pairs[i].0 == key);
        }
        if exists|i: int| 0 <= i < pairs.len() && (#[trigger] pairs[i]).0 == key {
            let i = choose|i: int| 0 <= i < pairs.len() && (#[trigger] pairs[i]).0 == key;
            if i < init.len() {
                assert(init[i].0 == key);
            }
        }
    }
}

/// A key has the value of the last pair that holds it.
pub proof fn last_pair_counts<K, V>(pairs: Seq<(K, V)>, i: int)
    requires
        0 <= i < pairs.len(),
        forall|j: int| i < j < pairs.len() ==> (#[trigger] pairs[j]).0 != pairs[i].0,
    ensures
        collect(pairs).contains_key(pairs[i].0),
        collect(pairs)[pairs[i].0] == pairs[i].1,
    decreases pairs.len(),
{
    if i < pairs.len() - 1 {
        let init = pairs.drop_last();
        assert forall|j: int| i < j < init.len() implies (#[trigger] init[j]).0 != init[i].0 by {
            assert(pairs[j].0 != pairs[i].0);
        }
        last_pair_counts(init, i);
        assert(pairs[pairs.len() - 1].0 != pairs[i].0);
    }
}

/// Two lists without repeated keys that hold the same pairs stand for maps that
/// agree wherever they hold the same key.
proof fn lemma_collect_agree<K, V>(left: Seq<(K, V)>, i: int, right: Seq<(K, V)>, j: int)
    requires
        distinct(left),
        distinct(right),
        0 <= i < left.len(),
        0 <= j < right.len(),
        left[i] == right[j],
    ensures
        collect(left)[left[i].0] == collect(right)[left[i].0],
{
    last_pair_counts(left, i);
    last_pair_counts(right, j);
}

/// A storage map. Every key occurs at most once.
pub struct StorageMap<K, V> {
    entries: Vec<(K, V)>,
}

impl<K, V> View for StorageMap<K, V> {
    type V = Map<K, V>;

    closed spec fn view(&self) -> Map<K, V> {
        collect(self.entries@)
    }
}

impl<K, V> StorageMap<K, V> {
    #[verifier::type_invariant]
    spec fn keys_are_distinct(self) -> bool {
        distinct(self.entries@)
    }

    /// The entries of the map, in no particular order.
    pub fn into_pairs(self) -> (result: Vec<(K, V)>)
        ensures
            distinct(result@),
            collect(result@) == self@,
    {
        proof {
            use_type_invariant(&self);
        }
        self.entries
    }

    /// A map with nothing in it.
    pub fn new() -> (result: Self)
        ensures
            result@ == Map::<K, V>::empty(),
    {
        StorageMap { entries: Vec::new() }
    }
}

impl<K: Key, V> StorageMap<K, V> {
    /// Where a key stands in a list of entries.
    fn position(entries: &Vec<(K, V)>, key: &K) -> (result: Option<usize>)
        ensures
            match result {
                Some(i) => i < entries@.len() && entries@[i as int].0 == *key,
                None => forall|i: int| 0 <= i < entries@.len() ==> (#[trigger] entries@[i]).0 != *key,
            },
    {
        let mut i: usize = 0;
        while i < entries.len()
            invariant
                i <= entries@.len(),
                forall|j: int| 0 <= j < i ==> (#[trigger] entries@[j]).0 != *key,
            decreases entries@.len() - i,
        {
            if entries[i].0.same(key) {
                return Some(i);
            }
            i = i + 1;
        }
        None
    }

    /// The value stored under a key.
    pub fn get(&self, key: &K) -> (result: Option<&V>)
        ensures
            match result {
                Some(value) => self@.contains_key(*key) && self@[*key] == *value,
                None => !self@.contains_key(*key),
            },
    {
        proof {
            use_type_invariant(self);
            collected_keys(self.entries@, *key);
        }
        match Self::position(&self.entries, key) {
            Some(i) => {
                proof {
                    last_pair_counts(self.entries@, i as int);
                }
                Some(&self.entries[i].1)
            },
            None => None,
        }
    }

    /// Stores a value under a key, in place of the one that was there.
    pub fn insert(&mut self, key: K, value: V)
        ensures
            final(self)@ == old(self)@.insert(key, value),
    {
        proof {
            use_type_invariant(&*self);
        }
        let mut entries: Vec<(K, V)> = Vec::new();
        std::mem::swap(&mut entries, &mut self.entries);
        let ghost before = entries@;
        match Self::position(&entries, &key) {
            Some(i) => {
                entries.set(i, (key, value));
                proof {
                    let after = before.update(i as int, (key, value));
                    assert(entries@ == after);
                    assert forall|k: K| collect(after).contains_key(k) == collect(
                        before,
                    ).insert(key, value).contains_key(k) by {
                        collected_keys(after, k);
                        collected_keys(before, k);
                        if collect(before).contains_key(k) && k != key {
                            let j = choose|j: int|
                                0 <= j < before.len() && (#[trigger] before[j]).0 == k;
                            assert(after[j].0 == k);
                        }
                        assert(after[i as int].0 == key);
                    }
                    assert forall|k: K| #[trigger]
                        collect(after).contains_key(k) implies collect(after)[k] == collect(
                        before,
                    ).insert(key, value)[k] by {
                        collected_keys(after, k);
                        let j = choose|j: int| 0 <= j < after.len() && (#[trigger] after[j]).0 == k;
                        last_pair_counts(after, j);
                        if j != i {
                            lemma_collect_agree(after, j, before, j);
                        }
                    }
                    assert(collect(after) =~= collect(before).insert(key, value));
                }
            },
            None => {
                entries.push((key, value));
                proof {
                    assert(entries@.drop_last() =~= before);
                }
            },
        }
        self.entries = entries;
    }

    /// Takes out what is stored under a key.
    pub fn take(&mut self, key: &K) -> (result: Option<V>)
        ensures
            final(self)@ == old(self)@.remove(*key),
            match result {
                Some(value) => old(self)@.contains_key(*key) && old(self)@[*key] == value,
                None => !old(self)@.contains_key(*key),
            },
    {
        proof {
            use_type_invariant(&*self);
        }
        let mut entries: Vec<(K, V)> = Vec::new();
        std::mem::swap(&mut entries, &mut self.entries);
        let ghost before = entries@;
        proof {
            collected_keys(before, *key);
        }
        match Self::position(&entries, key) {
            Some(i) => {
                proof {
                    last_pair_counts(before, i as int);
                }
                let entry = entries.remove(i);
                proof {
                    let after = before.remove(i as int);
                    assert(entries@ == after);
                    assert forall|a: int, b: int| 0 <= a < b < after.len() implies (
                    #[trigger] after[a]).0 != (#[trigger] after[b]).0 by {
                        let x = if a < i { a } else { a + 1 };
                        let y = if b < i { b } else { b + 1 };
                        assert(before[x] == after[a] && before[y] == after[b]);
                    }
                    assert forall|k: K| collect(after).contains_key(k) == collect(before).remove(
                        *key,
                    ).contains_key(k) by {
                        collected_keys(after, k);
                        collected_keys(before, k);
                        if collect(before).contains_key(k) && k != *key {
                            let j = choose|j: int|
                                0 <= j < before.len() && (#[trigger] before[j]).0 == k;
                            let x = if j < i { j } else { j - 1 };
                            assert(after[x].0 == k);
                        }
                        if collect(after).contains_key(k) {
                            let a = choose|a: int|
                                0 <= a < after.len() && (#[trigger] after[a]).0 == k;
                            let x = if a < i { a } else { a + 1 };
                            assert(before[x].0 == k);
                            assert(before[i as int].0 == *key);
                        }
                    }
                    assert forall|k: K| #[trigger]
                        collect(after).contains_key(k) implies collect(after)[k] == collect(
                        before,
                    ).remove(*key)[k] by {
                        collected_keys(after, k);
                        let a = choose|a: int| 0 <= a < after.len() && (#[trigger] after[a]).0 == k;
                        let x = if a < i { a } else { a + 1 };
                        lemma_collect_agree(after, a, before, x);
                        assert(collect(before).remove(*key).contains_key(k));
                    }
                    assert(collect(after) =~= collect(before).remove(*key));
                }
                self.entries = entries;
                Some(entry.1)
            },
            None => {
                proof {
                    assert(collect(before).remove(*key) =~= collect(before));
                }
                self.entries = entries;
                None
            },
        }
    }
}

impl<K: Key, V> StorageMap<K, V> {
    /// The map that a list of pairs stands for.
    pub fn from_pairs(pairs: Vec<(K, V)>) -> (result: Self)
        ensures
            result@ == collect(pairs@),
    {
        let mut rest = pairs;
        let mut map: StorageMap<K, V> = StorageMap::new();
        assert(collect(rest@).union_prefer_right(map@) =~= collect(rest@));
        while rest.len() > 0
            invariant
                collect(rest@).union_prefer_right(map@) == collect(pairs@),
            decreases rest@.len(),
        {
            let ghost pairs_left = rest@;
            let ghost seen = map@;
            if let Some((key, value)) = rest.pop() {
                assert(collect(pairs_left) == collect(rest@).insert(key, value));
                if map.get(&key).is_none() {
                    map.insert(key, value);
                }
                assert(collect(rest@).union_prefer_right(map@) =~= collect(
                    pairs_left,
                ).union_prefer_right(seen));
            }
        }
        assert(collect(rest@).union_prefer_right(map@) =~= map@);
        map
    }
}

impl<K: Key, V: Key> StorageMap<K, V> {
    /// The same map once more.
    pub fn duplicate(&self) -> (result: Self)
        ensures
            result@ == self@,
    {
        proof {
            use_type_invariant(self);
        }
        let mut copy: Vec<(K, V)> = Vec::new();
        let mut i: usize = 0;
        while i < self.entries.len()
            invariant
                i <= self.entries@.len(),
                copy@ == self.entries@.take(i as int),
            decreases self.entries@.len() - i,
        {
            copy.push(self.entries[i].duplicate());
            i = i + 1;
            assert(copy@ =~= self.entries@.take(i as int));
        }
        assert(copy@ =~= self.entries@);
        StorageMap { entries: copy }
    }
}

/// What is left of a map with two-part keys when every entry under one first part
/// is dropped.
pub open spec fn without_prefix<A, B, V>(map: Map<(A, B), V>, first: A) -> Map<(A, B), V> {
    map.filter_keys(|key: (A, B)| key.0 != first)
}

impl<A: Key, B: Key, V> StorageMap<(A, B), V> {
    /// Drops every entry whose key starts with `first`.
    pub fn remove_prefix(&mut self, first: &A)
        ensures
            final(self)@ == without_prefix(old(self)@, *first),
    {
        let mut entries: Vec<((A, B), V)> = Vec::new();
        std::mem::swap(&mut entries, &mut self.entries);
        let ghost before = entries@;
        let mut kept: StorageMap<(A, B), V> = StorageMap::new();
        assert(without_prefix(collect(before), *first).union_prefer_right(kept@)
            =~= without_prefix(collect(before), *first));
        while entries.len() > 0
            invariant
                without_prefix(collect(entries@), *first).union_prefer_right(kept@)
                    == without_prefix(collect(before), *first),
            decreases entries@.len(),
        {
            let ghost entries_left = entries@;
            let ghost kept_before = kept@;
            if let Some((key, value)) = entries.pop() {
                assert(collect(entries_left) == collect(entries@).insert(key, value));
                if !key.0.same(first) && kept.get(&key).is_none() {
                    kept.insert(key, value);
                }
                assert(without_prefix(collect(entries@), *first).union_prefer_right(kept@)
                    =~= without_prefix(collect(entries_left), *first).union_prefer_right(
                    kept_before,
                ));
            }
        }
        assert(without_prefix(collect(entries@), *first).union_prefer_right(kept@) =~= kept@);
        *self = kept;
    }
}

/// Dropping what is stored under a first part leaves every entry under another first part
/// as it was, and no other entry.
pub proof fn prefix_is_dropped_and_nothing_else<A, B, V>(map: Map<(A, B), V>, first: A)
    ensures
        forall|key: (A, B)| #[trigger]
            without_prefix(map, first).contains_key(key) <==> map.contains_key(key) && key.0
                != first,
        forall|key: (A, B)|
            map.contains_key(key) && key.0 != first ==> #[trigger] without_prefix(map, first)[key]
                == map[key],
{
}

/// Pairs are distinct where any two of them that hold one key are the same pair.
pub proof fn distinct_pairs_share_no_key<K, V>(pairs: Seq<(K, V)>)
    ensures
        distinct(pairs) <==> forall|i: int, j: int|
            0 <= i < pairs.len() && 0 <= j < pairs.len() && (#[trigger] pairs[i]).0 == (
            #[trigger] pairs[j]).0 ==> i == j,
{
    if distinct(pairs) {
        assert forall|i: int, j: int|
            0 <= i < pairs.len() && 0 <= j < pairs.len() && (#[trigger] pairs[i]).0 == (
            #[trigger] pairs[j]).0 implies i == j by {
            if i < j {
                assert(pairs[i].0 != pairs[j].0);
            } else if j < i {
                assert(pairs[j].0 != pairs[i].0);
            }
        }
    }
}

} // verus!
