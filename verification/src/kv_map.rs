//! A map from keys to values, as a prefix query returns it.

use vstd::prelude::*;
use crate::message::{views, KeyValue, KeyValueView};

verus! {

/// Some entry of `kvs` has the key `k`.
pub open spec fn has_key(kvs: Seq<KeyValueView>, k: Seq<u8>) -> bool {
    exists|i: int| 0 <= i < kvs.len() && (#[trigger] kvs[i]).key == k
}

/// No key occurs twice in `kvs`.
pub open spec fn distinct_keys(kvs: Seq<KeyValueView>) -> bool {
    forall|i: int, j: int|
        0 <= i < j < kvs.len() ==> (#[trigger] kvs[i]).key != (#[trigger] kvs[j]).key
}

/// The map that holds the entries of `kvs`. Where a key occurs more than
/// once, its last entry decides.
pub open spec fn map_of(kvs: Seq<KeyValueView>) -> Map<Seq<u8>, Seq<u8>>
    decreases kvs.len(),
{
    if kvs.len() == 0 {
        Map::empty()
    } else {
        map_of(kvs.drop_last()).insert(kvs.last().key, kvs.last().value)
    }
}

/// The keys of `map_of(kvs)` are the keys of the entries of `kvs`.
pub proof fn lemma_map_of_contains(kvs: Seq<KeyValueView>, k: Seq<u8>)
    ensures
        map_of(kvs).contains_key(k) <==> has_key(kvs, k),
    decreases kvs.len(),
{
    if kvs.len() > 0 {
        let init = kvs.drop_last();
        lemma_map_of_contains(init, k);
        if has_key(init, k) {
            let i = choose|i: int| 0 <= i < init.len() && (#[trigger] init[i]).key == k;
            assert(kvs[i].key == k);
        }
        if kvs.last().key == k {
            assert(kvs[kvs.len() - 1].key == k);
        }
        if has_key(kvs, k) {
            let i = choose|i: int| 0 <= i < kvs.len() && (#[trigger] kvs[i]).key == k;
            if i < kvs.len() - 1 {
                assert(init[i].key == k);
            }
        }
    }
}

/// Where no key occurs twice in `kvs`, none does in `kvs` without its last
/// entry.
proof fn lemma_distinct_without_last(kvs: Seq<KeyValueView>)
    requires
        distinct_keys(kvs),
        kvs.len() > 0,
    ensures
        distinct_keys(kvs.drop_last()),
{
    let init = kvs.drop_last();
    assert forall|a: int, b: int| 0 <= a < b < init.len() implies (#[trigger] init[a]).key
        != (#[trigger] init[b]).key by {
        assert(kvs[a].key != kvs[b].key);
    }
}

/// Where no key occurs twice, `map_of(kvs)` holds each entry of `kvs`.
pub proof fn lemma_map_of_entry(kvs: Seq<KeyValueView>, i: int)
    requires
        distinct_keys(kvs),
        0 <= i < kvs.len(),
    ensures
        map_of(kvs).contains_key(kvs[i].key),
        map_of(kvs)[kvs[i].key] == kvs[i].value,
    decreases kvs.len(),
{
    let init = kvs.drop_last();
    if i < kvs.len() - 1 {
        lemma_distinct_without_last(kvs);
        lemma_map_of_entry(init, i);
        assert(kvs[i].key != kvs[kvs.len() - 1].key);
    }
}

/// Where no key occurs twice, `map_of(kvs)` has as many keys as `kvs` has
/// entries.
pub proof fn lemma_map_of_len(kvs: Seq<KeyValueView>)
    requires
        distinct_keys(kvs),
    ensures
        map_of(kvs).dom().finite(),
        map_of(kvs).len() == kvs.len(),
    decreases kvs.len(),
{
    if kvs.len() > 0 {
        let init = kvs.drop_last();
        lemma_distinct_without_last(kvs);
        lemma_map_of_len(init);
        lemma_map_of_contains(init, kvs.last().key);
        if has_key(init, kvs.last().key) {
            let i = choose|i: int| 0 <= i < init.len() && (#[trigger] init[i]).key == kvs.last().key;
            assert(kvs[i].key != kvs[kvs.len() - 1].key);
        }
    }
}

/// Whether two byte strings are equal.
fn same_bytes(a: &[u8], b: &[u8]) -> (same: bool)
    ensures
        same == (a@ == b@),
{
    if a.len() != b.len() {
        return false;
    }
    let mut i: usize = 0;
    while i < a.len()
        invariant
            a@.len() == b@.len(),
            i <= a@.len(),
            forall|j: int| 0 <= j < i ==> a@[j] == b@[j],
        decreases a@.len() - i,
    {
        if a[i] != b[i] {
            return false;
        }
        i += 1;
    }
    assert(a@ =~= b@);
    true
}

/// A finite map from keys to values. It holds each key once.
#[derive(Debug)]
pub struct KvMap {
    entries: Vec<KeyValue>,
}

impl View for KvMap {
    type V = Map<Seq<u8>, Seq<u8>>;

    closed spec fn view(&self) -> Map<Seq<u8>, Seq<u8>> {
        map_of(views(self.entries@))
    }
}

impl KvMap {
    #[verifier::type_invariant]
    spec fn holds_each_key_once(self) -> bool {
        distinct_keys(views(self.entries@))
    }

    /// The empty map.
    pub fn new() -> (map: KvMap)
        ensures
            map@ == Map::<Seq<u8>, Seq<u8>>::empty(),
    {
        KvMap { entries: Vec::new() }
    }

    /// The map that holds the entries of `kvs`: where a key occurs more
    /// than once, its last entry decides.
    pub fn from_entries(kvs: Vec<KeyValue>) -> (map: KvMap)
        ensures
            map@ == map_of(views(kvs@)),
    {
        let ghost given = views(kvs@);
        let mut map = KvMap::new();
        for kv in it: kvs
            invariant
                views(it.seq()) == given,
                map@ == map_of(given.take(it.index())),
        {
            proof {
                let n = it.index();
                assert(given.take(n + 1).drop_last() =~= given.take(n));
                assert(given.take(n + 1).last() == kv@);
            }
            map.insert(kv.key, kv.value);
        }
        assert(given.take(given.len() as int) =~= given);
        map
    }

    /// The index of the entry for `key`, if there is one.
    fn position(&self, key: &[u8]) -> (found: Option<usize>)
        ensures
            match found {
                Some(i) => i < self.entries@.len() && self.entries@[i as int].key@ == key@,
                None => !self@.contains_key(key@),
            },
    {
        let mut i: usize = 0;
        while i < self.entries.len()
            invariant
                i <= self.entries@.len(),
                forall|j: int| 0 <= j < i ==> self.entries@[j].key@ != key@,
            decreases self.entries@.len() - i,
        {
            if same_bytes(self.entries[i].key.as_slice(), key) {
                return Some(i);
            }
            i += 1;
        }
        proof {
            let kvs = views(self.entries@);
            lemma_map_of_contains(kvs, key@);
            if has_key(kvs, key@) {
                let j = choose|j: int| 0 <= j < kvs.len() && (#[trigger] kvs[j]).key == key@;
                assert(self.entries@[j].key@ == key@);
            }
        }
        None
    }

    /// The number of keys.
    pub fn len(&self) -> (n: usize)
        ensures
            self@.dom().finite(),
            n == self@.len(),
    {
        proof {
            use_type_invariant(self);
            lemma_map_of_len(views(self.entries@));
        }
        self.entries.len()
    }

    /// Whether the map holds no key.
    pub fn is_empty(&self) -> (empty: bool)
        ensures
            empty == (self@ == Map::<Seq<u8>, Seq<u8>>::empty()),
    {
        proof {
            use_type_invariant(self);
            lemma_map_of_len(views(self.entries@));
            if self.entries@.len() > 0 {
                lemma_map_of_entry(views(self.entries@), 0);
            }
        }
        self.entries.len() == 0
    }

    /// The value stored under `key`, if there is one.
    pub fn get(&self, key: &[u8]) -> (value: Option<&Vec<u8>>)
        ensures
            match value {
                Some(v) => self@.contains_key(key@) && self@[key@] == v@,
                None => !self@.contains_key(key@),
            },
    {
        match self.position(key) {
            Some(i) => {
                proof {
                    use_type_invariant(self);
                    lemma_map_of_entry(views(self.entries@), i as int);
                }
                Some(&self.entries[i].value)
            },
            None => None,
        }
    }

    /// Stores `value` under `key`, in place of any value held there.
    pub fn insert(&mut self, key: Vec<u8>, value: Vec<u8>)
        ensures
            final(self)@ == old(self)@.insert(key@, value@),
    {
        proof {
            use_type_invariant(&*self);
        }
        let ghost before = views(self.entries@);
        let ghost entry = KeyValueView { key: key@, value: value@ };
        let found = self.position(key.as_slice());
        let mut entries: Vec<KeyValue> = Vec::new();
        std::mem::swap(&mut self.entries, &mut entries);
        match found {
            Some(i) => {
                entries[i] = KeyValue { key, value };
                proof {
                    let after = views(entries@);
                    assert(after =~= before.update(i as int, entry));
                    assert forall|a: int, b: int| 0 <= a < b < after.len() implies (#[trigger] after[a]).key
                        != (#[trigger] after[b]).key by {
                        assert(before[a].key != before[b].key);
                    }
                    let updated = map_of(before).insert(entry.key, entry.value);
                    assert forall|k: Seq<u8>|
                        map_of(after).contains_key(k) <==> #[trigger] updated.contains_key(k) by {
                        lemma_map_of_contains(after, k);
                        lemma_map_of_contains(before, k);
                        if has_key(after, k) {
                            let j = choose|j: int|
                                0 <= j < after.len() && (#[trigger] after[j]).key == k;
                            assert(before[j].key == k);
                        }
                        if has_key(before, k) {
                            let j = choose|j: int|
                                0 <= j < before.len() && (#[trigger] before[j]).key == k;
                            assert(after[j].key == k);
                        }
                        if k == entry.key {
                            assert(after[i as int].key == k);
                        }
                    }
                    assert forall|k: Seq<u8>| #[trigger] map_of(after).contains_key(k) implies map_of(
                        after,
                    )[k] == updated[k] by {
                        lemma_map_of_contains(after, k);
                        let j = choose|j: int|
                            0 <= j < after.len() && (#[trigger] after[j]).key == k;
                        lemma_map_of_entry(after, j);
                        if j != i {
                            assert(before[j].key != before[i as int].key);
                            lemma_map_of_entry(before, j);
                        }
                    }
                    assert(map_of(after) =~= updated);
                }
            },
            None => {
                entries.push(KeyValue { key, value });
                proof {
                    let after = views(entries@);
                    assert(after =~= before.push(entry));
                    assert(after.drop_last() =~= before);
                    assert forall|a: int, b: int| 0 <= a < b < after.len() implies (#[trigger] after[a]).key
                        != (#[trigger] after[b]).key by {
                        lemma_map_of_contains(before, entry.key);
                        if b < before.len() {
                            assert(before[a].key != before[b].key);
                        } else {
                            assert(before[a].key == after[a].key);
                        }
                    }
                }
            },
        }
        std::mem::swap(&mut self.entries, &mut entries);
    }

    /// The entries of the map, each key once, in no particular order.
    pub fn into_entries(self) -> (kvs: Vec<KeyValue>)
        ensures
            distinct_keys(views(kvs@)),
            map_of(views(kvs@)) == self@,
    {
        proof {
            use_type_invariant(&self);
        }
        self.entries
    }
}

} // verus!
