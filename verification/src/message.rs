//! The requests and replies of etcd's KV service, reduced to the fields
//! this client sets and reads. Every other field of the wire messages keeps
//! its protocol default.

use vstd::prelude::*;

verus! {

/// The views of the items of `items`, in order.
pub open spec fn views<T: View>(items: Seq<T>) -> Seq<T::V> {
    items.map_values(|item: T| item@)
}

/// Stores `value` under `key`.
#[derive(Clone, Debug, PartialEq, Eq)]
pub struct PutRequest {
    pub key: Vec<u8>,
    pub value: Vec<u8>,
}

/// What a [`PutRequest`] holds, as byte sequences.
pub struct PutRequestView {
    pub key: Seq<u8>,
    pub value: Seq<u8>,
}

impl View for PutRequest {
    type V = PutRequestView;

    open spec fn view(&self) -> PutRequestView {
        PutRequestView { key: self.key@, value: self.value@ }
    }
}

/// Reads the keys selected by `key` and `range_end`: the single key `key`
/// when `range_end` is empty, the interval `[key, range_end)` otherwise.
#[derive(Clone, Debug, PartialEq, Eq)]
pub struct RangeRequest {
    pub key: Vec<u8>,
    pub range_end: Vec<u8>,
}

/// What a [`RangeRequest`] holds, as byte sequences.
pub struct RangeRequestView {
    pub key: Seq<u8>,
    pub range_end: Seq<u8>,
}

impl View for RangeRequest {
    type V = RangeRequestView;

    open spec fn view(&self) -> RangeRequestView {
        RangeRequestView { key: self.key@, range_end: self.range_end@ }
    }
}

/// Removes the keys selected by `key` and `range_end`, which select as in
/// a [`RangeRequest`].
#[derive(Clone, Debug, PartialEq, Eq)]
pub struct DeleteRangeRequest {
    pub key: Vec<u8>,
    pub range_end: Vec<u8>,
}

/// What a [`DeleteRangeRequest`] holds, as byte sequences.
pub struct DeleteRangeRequestView {
    pub key: Seq<u8>,
    pub range_end: Seq<u8>,
}

impl View for DeleteRangeRequest {
    type V = DeleteRangeRequestView;

    open spec fn view(&self) -> DeleteRangeRequestView {
        DeleteRangeRequestView { key: self.key@, range_end: self.range_end@ }
    }
}

/// How the stored value must relate to the given one for a comparison to
/// hold.
#[derive(Clone, Copy, Debug, PartialEq, Eq)]
pub enum CompareResult {
    Equal,
    Greater,
    Less,
    NotEqual,
}

/// A comparison of the value stored under `key` with `value`. It fails
/// when the store holds no such key.
#[derive(Clone, Debug, PartialEq, Eq)]
pub struct Compare {
    pub result: CompareResult,
    pub key: Vec<u8>,
    pub value: Vec<u8>,
}

/// What a [`Compare`] holds, as byte sequences.
pub struct CompareView {
    pub result: CompareResult,
    pub key: Seq<u8>,
    pub value: Seq<u8>,
}

impl View for Compare {
    type V = CompareView;

    open spec fn view(&self) -> CompareView {
        CompareView { result: self.result, key: self.key@, value: self.value@ }
    }
}

/// One operation inside a transaction.
#[derive(Clone, Debug, PartialEq, Eq)]
pub enum RequestOp {
    Put(PutRequest),
    DeleteRange(DeleteRangeRequest),
}

/// What a [`RequestOp`] holds, as byte sequences.
pub enum RequestOpView {
    Put(PutRequestView),
    DeleteRange(DeleteRangeRequestView),
}

impl View for RequestOp {
    type V = RequestOpView;

    open spec fn view(&self) -> RequestOpView {
        match self {
            RequestOp::Put(put) => RequestOpView::Put(put@),
            RequestOp::DeleteRange(delete) => RequestOpView::DeleteRange(delete@),
        }
    }
}

/// An atomic transaction: the store applies `success` when every
/// comparison holds and `failure` otherwise.
#[derive(Clone, Debug, PartialEq, Eq)]
pub struct TxnRequest {
    pub compare: Vec<Compare>,
    pub success: Vec<RequestOp>,
    pub failure: Vec<RequestOp>,
}

/// What a [`TxnRequest`] holds, as byte sequences.
pub struct TxnRequestView {
    pub compare: Seq<CompareView>,
    pub success: Seq<RequestOpView>,
    pub failure: Seq<RequestOpView>,
}

impl View for TxnRequest {
    type V = TxnRequestView;

    open spec fn view(&self) -> TxnRequestView {
        TxnRequestView {
            compare: views(self.compare@),
            success: views(self.success@),
            failure: views(self.failure@),
        }
    }
}

/// One stored entry.
#[derive(Clone, Debug, PartialEq, Eq)]
pub struct KeyValue {
    pub key: Vec<u8>,
    pub value: Vec<u8>,
}

/// What a [`KeyValue`] holds, as byte sequences.
pub struct KeyValueView {
    pub key: Seq<u8>,
    pub value: Seq<u8>,
}

impl View for KeyValue {
    type V = KeyValueView;

    open spec fn view(&self) -> KeyValueView {
        KeyValueView { key: self.key@, value: self.value@ }
    }
}

/// The entries that a [`RangeRequest`] selected.
#[derive(Clone, Debug, PartialEq, Eq)]
pub struct RangeResponse {
    pub kvs: Vec<KeyValue>,
}

impl View for RangeResponse {
    type V = Seq<KeyValueView>;

    open spec fn view(&self) -> Seq<KeyValueView> {
        views(self.kvs@)
    }
}

/// The outcome of a transaction: whether every comparison held, and so
/// which of the two operation lists the store applied.
#[derive(Clone, Copy, Debug, PartialEq, Eq)]
pub struct TxnResponse {
    pub succeeded: bool,
}

} // verus!
