//! What the operations achieve on the store: theorems that relate the
//! requests this client builds, and its reading of the replies, to the
//! model of the store.

use vstd::prelude::*;
use crate::bulk::{
    batch_keys, batch_request_for, covered, insertion_of, lemma_batches_in_order,
};
use crate::client::{
    delete_prefix_request_for, delete_request_for, deletion_of, get_prefix_request_for,
    get_request_for, last_value, put_request_for, swap_request_for,
};
use crate::kv_map::map_of;
use crate::message::KeyValueView;
use crate::range::{is_prefix_of, lemma_prefix_in_range, lemma_range_has_prefix, prefix_end};
use crate::store::{
    after_delete_range, after_ops, after_put, after_txn, answers, holds, selected, txn_succeeds,
    Store,
};
use crate::transaction::{operations_of, unconditional, MutationView};

verus! {

/// The entries of `store` whose key starts with `prefix`.
pub open spec fn with_prefix(store: Store, prefix: Seq<u8>) -> Store {
    Map::new(
        |k: Seq<u8>| store.contains_key(k) && is_prefix_of(prefix, k),
        |k: Seq<u8>| store[k],
    )
}

/// The entries of `store` whose key does not start with `prefix`.
pub open spec fn without_prefix(store: Store, prefix: Seq<u8>) -> Store {
    Map::new(
        |k: Seq<u8>| store.contains_key(k) && !is_prefix_of(prefix, k),
        |k: Seq<u8>| store[k],
    )
}

/// The entries of `store` whose key is none of `keys`.
pub open spec fn without_keys(store: Store, keys: Seq<Seq<u8>>) -> Store {
    Map::new(|k: Seq<u8>| store.contains_key(k) && !keys.contains(k), |k: Seq<u8>| store[k])
}

/// A transaction without comparisons succeeds on every store and applies
/// its success operations.
pub proof fn lemma_unconditional_applies(store: Store, mutations: Seq<MutationView>)
    ensures
        txn_succeeds(store, unconditional(mutations)),
        after_txn(store, unconditional(mutations)) == after_ops(store, operations_of(mutations)),
{
}

/// A get yields the value that the store holds under the key, and `None`
/// when it holds none.
pub proof fn lemma_get_reads(store: Store, key: Seq<u8>, kvs: Seq<KeyValueView>)
    requires
        answers(store, get_request_for(key), kvs),
    ensures
        last_value(kvs) == if store.contains_key(key) {
            Some(store[key])
        } else {
            None
        },
{
    let found = selected(store, key, Seq::empty());
    assert(map_of(kvs) == found);
    assert(found.contains_key(key) <==> store.contains_key(key));
    if kvs.len() > 0 {
        let last = kvs.last();
        assert(map_of(kvs).contains_key(last.key));
        assert(map_of(kvs)[last.key] == last.value);
        assert(found.contains_key(last.key));
        assert(found[key] == store[key]);
    }
}

/// After a put of `value` under a non-empty `key`, a get of `key` yields
/// `value`.
pub proof fn lemma_put_then_get(
    store: Store,
    key: Seq<u8>,
    value: Seq<u8>,
    kvs: Seq<KeyValueView>,
)
    requires
        key.len() > 0,
        answers(after_put(store, put_request_for(key, value)), get_request_for(key), kvs),
    ensures
        last_value(kvs) == Some(value),
{
    lemma_get_reads(after_put(store, put_request_for(key, value)), key, kvs);
}

/// Putting the same value under the same key twice leaves the store as
/// putting it once does.
pub proof fn lemma_put_idempotent(store: Store, key: Seq<u8>, value: Seq<u8>)
    ensures
        after_put(after_put(store, put_request_for(key, value)), put_request_for(key, value))
            == after_put(store, put_request_for(key, value)),
{
    let once = after_put(store, put_request_for(key, value));
    assert(after_put(once, put_request_for(key, value)) =~= once);
}

/// The deletions of `keys`, applied in order, remove exactly those keys.
proof fn lemma_deletions_remove(store: Store, keys: Seq<Seq<u8>>)
    ensures
        after_ops(store, operations_of(keys.map_values(|k: Seq<u8>| deletion_of(k))))
            == without_keys(store, keys),
    decreases keys.len(),
{
    let ops = operations_of(keys.map_values(|k: Seq<u8>| deletion_of(k)));
    if keys.len() == 0 {
        assert(after_ops(store, ops) =~= without_keys(store, keys));
    } else {
        let init = keys.drop_last();
        let init_ops = operations_of(init.map_values(|k: Seq<u8>| deletion_of(k)));
        assert(ops.drop_last() =~= init_ops);
        lemma_deletions_remove(store, init);
        assert forall|k: Seq<u8>| keys.contains(k) <==> init.contains(k) || k == keys.last() by {
            if keys.contains(k) {
                let i = choose|i: int| 0 <= i < keys.len() && keys[i] == k;
                if i < keys.len() - 1 {
                    assert(init[i] == k);
                }
            }
            if init.contains(k) {
                let i = choose|i: int| 0 <= i < init.len() && init[i] == k;
                assert(keys[i] == k);
            }
            if k == keys.last() {
                assert(keys[keys.len() - 1] == k);
            }
        }
        assert(after_ops(store, ops) =~= without_keys(store, keys));
    }
}

/// A delete removes exactly the given keys: every other entry stays as it
/// was.
pub proof fn lemma_delete_removes(store: Store, keys: Seq<Seq<u8>>)
    ensures
        txn_succeeds(store, delete_request_for(keys)),
        after_txn(store, delete_request_for(keys)) == without_keys(store, keys),
{
    lemma_deletions_remove(store, keys);
}

/// After a delete of `key`, a get of `key` yields `None`.
pub proof fn lemma_delete_then_get(store: Store, key: Seq<u8>, kvs: Seq<KeyValueView>)
    requires
        answers(after_txn(store, delete_request_for(seq![key])), get_request_for(key), kvs),
    ensures
        last_value(kvs) == None::<Seq<u8>>,
{
    lemma_delete_removes(store, seq![key]);
    assert(seq![key][0] == key);
    lemma_get_reads(after_txn(store, delete_request_for(seq![key])), key, kvs);
}

/// Deleting the same keys twice leaves the store as deleting them once
/// does.
pub proof fn lemma_delete_idempotent(store: Store, keys: Seq<Seq<u8>>)
    ensures
        after_txn(after_txn(store, delete_request_for(keys)), delete_request_for(keys))
            == after_txn(store, delete_request_for(keys)),
{
    let once = after_txn(store, delete_request_for(keys));
    lemma_delete_removes(store, keys);
    lemma_delete_removes(once, keys);
    assert(without_keys(once, keys) =~= once);
}

/// A swap succeeds exactly when the store holds `old_value` under `key`.
/// It then stores `new_value` there and nothing else changes; a failed
/// swap changes nothing.
pub proof fn lemma_swap_compares_and_sets(
    store: Store,
    key: Seq<u8>,
    old_value: Seq<u8>,
    new_value: Seq<u8>,
)
    ensures
        txn_succeeds(store, swap_request_for(key, old_value, new_value)) <==> store.contains_key(
            key,
        ) && store[key] == old_value,
        after_txn(store, swap_request_for(key, old_value, new_value)) == if store.contains_key(key)
            && store[key] == old_value {
            store.insert(key, new_value)
        } else {
            store
        },
{
    let txn = swap_request_for(key, old_value, new_value);
    assert(txn.compare.len() == 1);
    assert(holds(store, txn.compare[0]) <==> store.contains_key(key) && store[key] == old_value);
    assert(txn.success.len() == 1);
    assert(txn.success.drop_last().len() == 0);
    assert(txn.success.last() == txn.success[0]);
    assert(after_ops(store, txn.success.drop_last()) == store);
    assert(after_ops(store, txn.success) == store.insert(key, new_value));
    assert(after_ops(store, txn.failure) == store);
}

/// After a swap that succeeded, a get of the key yields the new value.
pub proof fn lemma_swap_then_get(
    store: Store,
    key: Seq<u8>,
    old_value: Seq<u8>,
    new_value: Seq<u8>,
    kvs: Seq<KeyValueView>,
)
    requires
        txn_succeeds(store, swap_request_for(key, old_value, new_value)),
        answers(
            after_txn(store, swap_request_for(key, old_value, new_value)),
            get_request_for(key),
            kvs,
        ),
    ensures
        last_value(kvs) == Some(new_value),
{
    lemma_swap_compares_and_sets(store, key, old_value, new_value);
    lemma_get_reads(after_txn(store, swap_request_for(key, old_value, new_value)), key, kvs);
}

/// A prefix query yields exactly the entries whose key starts with the
/// prefix, provided the prefix has a last byte and that byte is not
/// `0xFF`.
pub proof fn lemma_get_prefix_reads(store: Store, prefix: Seq<u8>, kvs: Seq<KeyValueView>)
    requires
        prefix.len() > 0,
        prefix.last() != 0xFF,
        answers(store, get_prefix_request_for(prefix), kvs),
    ensures
        map_of(kvs) == with_prefix(store, prefix),
{
    assert forall|k: Seq<u8>|
        store.contains_key(k) implies (is_prefix_of(prefix, k) <==> #[trigger] selected(
        store,
        prefix,
        prefix_end(prefix),
    ).contains_key(k)) by {
        if is_prefix_of(prefix, k) {
            lemma_prefix_in_range(prefix, k);
        }
        if selected(store, prefix, prefix_end(prefix)).contains_key(k) {
            lemma_range_has_prefix(prefix, k);
        }
    }
    assert(selected(store, prefix, prefix_end(prefix)) =~= with_prefix(store, prefix));
}

/// A prefix deletion removes exactly the entries whose key starts with the
/// prefix, provided the prefix has a last byte and that byte is not
/// `0xFF`.
pub proof fn lemma_delete_prefix_removes(store: Store, prefix: Seq<u8>)
    requires
        prefix.len() > 0,
        prefix.last() != 0xFF,
    ensures
        after_delete_range(store, delete_prefix_request_for(prefix)) == without_prefix(
            store,
            prefix,
        ),
{
    let after = after_delete_range(store, delete_prefix_request_for(prefix));
    assert forall|k: Seq<u8>|
        store.contains_key(k) implies (!is_prefix_of(prefix, k) <==> #[trigger] after.contains_key(
        k,
    )) by {
        if is_prefix_of(prefix, k) {
            lemma_prefix_in_range(prefix, k);
        }
        if !after.contains_key(k) {
            lemma_range_has_prefix(prefix, k);
        }
    }
    assert(after =~= without_prefix(store, prefix));
}

/// The entries of `store`, and each of `keys` with an empty value.
pub open spec fn with_keys(store: Store, keys: Seq<Seq<u8>>) -> Store {
    Map::new(
        |k: Seq<u8>| store.contains_key(k) || keys.contains(k),
        |k: Seq<u8>|
            if keys.contains(k) {
                Seq::empty()
            } else {
                store[k]
            },
    )
}

/// The store after the first `batches` batches of a bulk load of `keys`.
pub open spec fn after_batches(store: Store, keys: Seq<Seq<u8>>, batches: nat) -> Store
    decreases batches,
{
    if batches == 0 {
        store
    } else {
        after_txn(
            after_batches(store, keys, (batches - 1) as nat),
            batch_request_for(keys, (batches - 1) as nat),
        )
    }
}

/// The insertions of `keys`, applied in order, store each key with an
/// empty value.
proof fn lemma_insertions_store(store: Store, keys: Seq<Seq<u8>>)
    ensures
        after_ops(store, operations_of(keys.map_values(|k: Seq<u8>| insertion_of(k))))
            == with_keys(store, keys),
    decreases keys.len(),
{
    let ops = operations_of(keys.map_values(|k: Seq<u8>| insertion_of(k)));
    if keys.len() == 0 {
        assert(after_ops(store, ops) =~= with_keys(store, keys));
    } else {
        let init = keys.drop_last();
        let init_ops = operations_of(init.map_values(|k: Seq<u8>| insertion_of(k)));
        assert(ops.drop_last() =~= init_ops);
        lemma_insertions_store(store, init);
        assert(keys =~= init + seq![keys.last()]);
        lemma_contains_either(init, seq![keys.last()]);
        assert forall|k: Seq<u8>| seq![keys.last()].contains(k) <==> k == keys.last() by {
            assert(seq![keys.last()][0] == keys.last());
        }
        assert(after_ops(store, ops) =~= with_keys(store, keys));
    }
}

/// A key occurs in two sequences laid end to end exactly when it occurs
/// in one of them.
proof fn lemma_contains_either(a: Seq<Seq<u8>>, b: Seq<Seq<u8>>)
    ensures
        forall|k: Seq<u8>| #[trigger] (a + b).contains(k) <==> a.contains(k) || b.contains(k),
{
    assert forall|k: Seq<u8>| #[trigger] (a + b).contains(k) <==> a.contains(k) || b.contains(
        k,
    ) by {
        if (a + b).contains(k) {
            let i = choose|i: int| 0 <= i < (a + b).len() && (a + b)[i] == k;
            if i < a.len() {
                assert(a[i] == k);
            } else {
                assert(b[i - a.len()] == k);
            }
        }
        if a.contains(k) {
            let i = choose|i: int| 0 <= i < a.len() && a[i] == k;
            assert((a + b)[i] == k);
        }
        if b.contains(k) {
            let i = choose|i: int| 0 <= i < b.len() && b[i] == k;
            assert((a + b)[a.len() + i] == k);
        }
    }
}

/// After the first `batches` batches of a bulk load, the store holds the
/// keys of those batches with empty values; every other entry is as it
/// was. So when a batch fails, the keys of the batches before it are
/// loaded and no key after them is.
pub proof fn lemma_bulk_put_loads(store: Store, keys: Seq<Seq<u8>>, batches: nat)
    ensures
        after_batches(store, keys, batches) == with_keys(
            store,
            keys.take(covered(keys.len(), batches) as int),
        ),
    decreases batches,
{
    if batches == 0 {
        lemma_batches_in_order(keys, 0);
        assert(keys.take(0).len() == 0);
        assert(after_batches(store, keys, 0) =~= with_keys(store, keys.take(0)));
    } else {
        let index = (batches - 1) as nat;
        let before = keys.take(covered(keys.len(), index) as int);
        let batch = batch_keys(keys, index);
        lemma_bulk_put_loads(store, keys, index);
        lemma_batches_in_order(keys, index);
        lemma_insertions_store(with_keys(store, before), batch);
        lemma_contains_either(before, batch);
        assert(with_keys(with_keys(store, before), batch) =~= with_keys(store, before + batch));
    }
}

} // verus!
