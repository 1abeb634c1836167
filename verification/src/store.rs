//! A model of the store, as far as this client relies on it: what each
//! request does to the stored entries and which replies answer it. The
//! model is specification only; the guarantees of the operations are
//! stated against it.

use vstd::prelude::*;
use crate::kv_map::{distinct_keys, map_of};
use crate::message::{
    CompareResult, CompareView, DeleteRangeRequestView, KeyValueView, PutRequestView,
    RangeRequestView, RequestOpView, TxnRequestView,
};
use crate::range::{lex_lt, within};

verus! {

/// The entries of a store: each key once, with its value.
pub type Store = Map<Seq<u8>, Seq<u8>>;

/// Whether a request with the fields `key` and `range_end` selects the
/// key `k`: with an empty `range_end` it selects `key` alone, otherwise
/// the keys of `[key, range_end)`.
pub open spec fn selects(key: Seq<u8>, range_end: Seq<u8>, k: Seq<u8>) -> bool {
    if range_end.len() == 0 {
        k == key
    } else {
        within(key, range_end, k)
    }
}

/// The entries of `store` that `key` and `range_end` select.
pub open spec fn selected(store: Store, key: Seq<u8>, range_end: Seq<u8>) -> Store {
    Map::new(
        |k: Seq<u8>| store.contains_key(k) && selects(key, range_end, k),
        |k: Seq<u8>| store[k],
    )
}

/// The entries of `store` that `key` and `range_end` do not select.
pub open spec fn unselected(store: Store, key: Seq<u8>, range_end: Seq<u8>) -> Store {
    Map::new(
        |k: Seq<u8>| store.contains_key(k) && !selects(key, range_end, k),
        |k: Seq<u8>| store[k],
    )
}

/// The store after a put.
pub open spec fn after_put(store: Store, put: PutRequestView) -> Store {
    store.insert(put.key, put.value)
}

/// The store after a range deletion.
pub open spec fn after_delete_range(store: Store, delete: DeleteRangeRequestView) -> Store {
    unselected(store, delete.key, delete.range_end)
}

/// Whether `kvs` is an answer of `store` to `request`: the selected
/// entries, each once, in any order.
pub open spec fn answers(store: Store, request: RangeRequestView, kvs: Seq<KeyValueView>) -> bool {
    distinct_keys(kvs) && map_of(kvs) == selected(store, request.key, request.range_end)
}

/// Whether `compare` holds of `store`. A comparison on a key that the
/// store does not hold fails.
pub open spec fn holds(store: Store, compare: CompareView) -> bool {
    store.contains_key(compare.key) && match compare.result {
        CompareResult::Equal => store[compare.key] == compare.value,
        CompareResult::NotEqual => store[compare.key] != compare.value,
        CompareResult::Greater => lex_lt(compare.value, store[compare.key]),
        CompareResult::Less => lex_lt(store[compare.key], compare.value),
    }
}

/// The store after one operation of a transaction.
pub open spec fn after_op(store: Store, op: RequestOpView) -> Store {
    match op {
        RequestOpView::Put(put) => after_put(store, put),
        RequestOpView::DeleteRange(delete) => after_delete_range(store, delete),
    }
}

/// The store after the operations `ops`, applied in order.
pub open spec fn after_ops(store: Store, ops: Seq<RequestOpView>) -> Store
    decreases ops.len(),
{
    if ops.len() == 0 {
        store
    } else {
        after_op(after_ops(store, ops.drop_last()), ops.last())
    }
}

/// Whether every comparison of `txn` holds of `store`, which is what the
/// reply to the transaction reports.
pub open spec fn txn_succeeds(store: Store, txn: TxnRequestView) -> bool {
    forall|i: int| 0 <= i < txn.compare.len() ==> holds(store, #[trigger] txn.compare[i])
}

/// The store after a transaction: the success operations are applied when
/// every comparison holds, the failure operations otherwise.
pub open spec fn after_txn(store: Store, txn: TxnRequestView) -> Store {
    if txn_succeeds(store, txn) {
        after_ops(store, txn.success)
    } else {
        after_ops(store, txn.failure)
    }
}

} // verus!
