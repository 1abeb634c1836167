//! The client's operations, each as the request to send and the reading of
//! the reply. A caller sends the request over its connection and hands
//! back what the RPC returned.

use vstd::prelude::*;
use crate::error::EtcdError;
use crate::kv_map::{map_of, KvMap};
use crate::message::{
    views, DeleteRangeRequest, DeleteRangeRequestView, KeyValueView, PutRequest, PutRequestView,
    RangeRequest, RangeRequestView, RangeResponse, TxnRequest, TxnRequestView, TxnResponse,
};
use crate::range::{prefix_end, prefix_range};
use crate::transaction::{
    build_conditional, build_unconditional, conditional, interpret, unconditional, Mutation,
    MutationView, Predicate, PredicateView,
};

verus! {

/// The endpoint of an etcd server on this machine, at etcd's client port.
pub fn default_endpoint() -> (url: &'static str)
    ensures
        url@ == "http://localhost:2379"@,
{
    "http://localhost:2379"
}

/// The request that stores `value` under `key`.
pub open spec fn put_request_for(key: Seq<u8>, value: Seq<u8>) -> PutRequestView {
    PutRequestView { key, value }
}

/// The request that reads the single key `key`.
pub open spec fn get_request_for(key: Seq<u8>) -> RangeRequestView {
    RangeRequestView { key, range_end: Seq::empty() }
}

/// The request that reads the range of `prefix`.
pub open spec fn get_prefix_request_for(prefix: Seq<u8>) -> RangeRequestView {
    RangeRequestView { key: prefix, range_end: prefix_end(prefix) }
}

/// The deletion of exactly `key`.
pub open spec fn deletion_of(key: Seq<u8>) -> MutationView {
    MutationView::Delete { key, range_end: Seq::empty() }
}

/// The transaction that removes exactly the keys of `keys`, all at once.
pub open spec fn delete_request_for(keys: Seq<Seq<u8>>) -> TxnRequestView {
    unconditional(keys.map_values(|k: Seq<u8>| deletion_of(k)))
}

/// The request that removes the range of `prefix`.
pub open spec fn delete_prefix_request_for(prefix: Seq<u8>) -> DeleteRangeRequestView {
    DeleteRangeRequestView { key: prefix, range_end: prefix_end(prefix) }
}

/// The transaction that stores `new_value` under `key` if the store holds
/// `old_value` there, and changes nothing otherwise.
pub open spec fn swap_request_for(
    key: Seq<u8>,
    old_value: Seq<u8>,
    new_value: Seq<u8>,
) -> TxnRequestView {
    conditional(
        seq![PredicateView { key, expected: old_value }],
        seq![MutationView::Put { key, value: new_value }],
        Seq::empty(),
    )
}

/// The value of the last entry of `kvs`, if it has one.
pub open spec fn last_value(kvs: Seq<KeyValueView>) -> Option<Seq<u8>> {
    if kvs.len() == 0 {
        None
    } else {
        Some(kvs.last().value)
    }
}

/// Builds the request that stores `v` under `k`.
pub fn put_request(k: &[u8], v: &[u8]) -> (request: PutRequest)
    ensures
        request@ == put_request_for(k@, v@),
{
    PutRequest { key: vstd::slice::slice_to_vec(k), value: vstd::slice::slice_to_vec(v) }
}

/// Reads the reply to a request whose answer carries nothing this client
/// uses: the operation succeeded unless the RPC failed.
pub fn acknowledge<T>(reply: Result<T, tonic::Status>) -> (outcome: Result<(), EtcdError>)
    ensures
        match reply {
            Ok(_) => outcome is Ok,
            Err(status) => outcome == Err::<(), EtcdError>(EtcdError::Grpc(status)),
        },
{
    match reply {
        Ok(_) => Ok(()),
        Err(status) => Err(EtcdError::Grpc(status)),
    }
}

/// Builds the request that reads the single key `k`.
pub fn get_request(k: &[u8]) -> (request: RangeRequest)
    ensures
        request@ == get_request_for(k@),
{
    RangeRequest { key: vstd::slice::slice_to_vec(k), range_end: Vec::new() }
}

/// Reads the reply to a [`get_request`]: the value of the last entry that
/// the store returned, or `None` when it returned no entry.
pub fn get_reply(reply: Result<RangeResponse, tonic::Status>) -> (outcome: Result<
    Option<Vec<u8>>,
    EtcdError,
>)
    ensures
        match reply {
            Ok(response) => outcome matches Ok(found) && match found {
                Some(value) => last_value(response@) == Some(value@),
                None => last_value(response@) == None::<Seq<u8>>,
            },
            Err(status) => outcome == Err::<Option<Vec<u8>>, EtcdError>(EtcdError::Grpc(status)),
        },
{
    match reply {
        Ok(response) => {
            let mut kvs = response.kvs;
            match kvs.pop() {
                Some(kv) => Ok(Some(kv.value)),
                None => Ok(None),
            }
        },
        Err(status) => Err(EtcdError::Grpc(status)),
    }
}

/// Builds the request that reads every key starting with `prefix`.
pub fn get_prefix_request(prefix: &[u8]) -> (request: RangeRequest)
    ensures
        request@ == get_prefix_request_for(prefix@),
{
    let range = prefix_range(prefix);
    RangeRequest { key: range.start, range_end: range.end }
}

/// Reads the reply to a [`get_prefix_request`]: the entries that the store
/// returned, as a map.
pub fn get_prefix_reply(reply: Result<RangeResponse, tonic::Status>) -> (outcome: Result<
    KvMap,
    EtcdError,
>)
    ensures
        match reply {
            Ok(response) => outcome matches Ok(entries) && entries@ == map_of(response@),
            Err(status) => outcome == Err::<KvMap, EtcdError>(EtcdError::Grpc(status)),
        },
{
    match reply {
        Ok(response) => Ok(KvMap::from_entries(response.kvs)),
        Err(status) => Err(EtcdError::Grpc(status)),
    }
}

/// Builds the transaction that removes exactly the keys of `keys`, all of
/// them or none.
pub fn delete_request(keys: &[Vec<u8>]) -> (request: TxnRequest)
    ensures
        request@ == delete_request_for(views(keys@)),
{
    let mut deletions: Vec<Mutation> = Vec::new();
    let mut i: usize = 0;
    while i < keys.len()
        invariant
            i <= keys@.len(),
            deletions@.len() == i,
            forall|j: int| 0 <= j < i ==> (#[trigger] deletions@[j])@ == deletion_of(keys@[j]@),
        decreases keys@.len() - i,
    {
        deletions.push(
            Mutation::Delete {
                key: vstd::slice::slice_to_vec(keys[i].as_slice()),
                range_end: Vec::new(),
            },
        );
        i += 1;
    }
    assert(views(deletions@) =~= views(keys@).map_values(|k: Seq<u8>| deletion_of(k)));
    build_unconditional(deletions)
}

/// Builds the request that removes every key starting with `prefix`.
pub fn delete_prefix_request(prefix: &[u8]) -> (request: DeleteRangeRequest)
    ensures
        request@ == delete_prefix_request_for(prefix@),
{
    let range = prefix_range(prefix);
    DeleteRangeRequest { key: range.start, range_end: range.end }
}

/// Builds the compare-and-swap transaction for `k`: store `new_v` there if
/// the store holds `old_v`, change nothing otherwise.
pub fn swap_request(k: &[u8], old_v: &[u8], new_v: &[u8]) -> (request: TxnRequest)
    ensures
        request@ == swap_request_for(k@, old_v@, new_v@),
{
    let mut predicates: Vec<Predicate> = Vec::new();
    predicates.push(
        Predicate { key: vstd::slice::slice_to_vec(k), expected: vstd::slice::slice_to_vec(old_v) },
    );
    let mut on_success: Vec<Mutation> = Vec::new();
    on_success.push(
        Mutation::Put { key: vstd::slice::slice_to_vec(k), value: vstd::slice::slice_to_vec(new_v) },
    );
    let on_failure: Vec<Mutation> = Vec::new();
    assert(views(predicates@) =~= seq![PredicateView { key: k@, expected: old_v@ }]);
    assert(views(on_success@) =~= seq![MutationView::Put { key: k@, value: new_v@ }]);
    assert(views(on_failure@) =~= Seq::<MutationView>::empty());
    build_conditional(predicates, on_success, on_failure)
}

/// Reads the reply to the [`swap_request`] for `k`: the swap took place
/// exactly when the transaction reports that its comparison held.
pub fn swap_reply(k: &[u8], reply: Result<TxnResponse, tonic::Status>) -> (outcome: Result<
    (),
    EtcdError,
>)
    ensures
        match reply {
            Ok(response) => if response.succeeded {
                outcome is Ok
            } else {
                outcome matches Err(EtcdError::Swap(key)) && key@ == k@
            },
            Err(status) => outcome == Err::<(), EtcdError>(EtcdError::Grpc(status)),
        },
{
    match reply {
        Ok(response) => {
            if interpret(&response) {
                Ok(())
            } else {
                Err(EtcdError::Swap(vstd::slice::slice_to_vec(k)))
            }
        },
        Err(status) => Err(EtcdError::Grpc(status)),
    }
}

} // verus!
