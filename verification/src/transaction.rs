//! Building transactions from mutations and predicates, and reading their
//! outcome.

use vstd::prelude::*;
use crate::message::{
    views, Compare, CompareResult, CompareView, DeleteRangeRequest, DeleteRangeRequestView,
    PutRequest, PutRequestView, RequestOp, RequestOpView, TxnRequest, TxnRequestView,
    TxnResponse,
};

verus! {

/// One change to the store, to be applied atomically with others.
#[derive(Clone, Debug, PartialEq, Eq)]
pub enum Mutation {
    /// Store `value` under `key`.
    Put { key: Vec<u8>, value: Vec<u8> },
    /// Remove `key` when `range_end` is empty, the keys of
    /// `[key, range_end)` otherwise.
    Delete { key: Vec<u8>, range_end: Vec<u8> },
}

/// What a [`Mutation`] holds, as byte sequences.
pub enum MutationView {
    Put { key: Seq<u8>, value: Seq<u8> },
    Delete { key: Seq<u8>, range_end: Seq<u8> },
}

impl View for Mutation {
    type V = MutationView;

    open spec fn view(&self) -> MutationView {
        match self {
            Mutation::Put { key, value } => MutationView::Put { key: key@, value: value@ },
            Mutation::Delete { key, range_end } => MutationView::Delete {
                key: key@,
                range_end: range_end@,
            },
        }
    }
}

/// A condition on the store: the value under `key` equals `expected`.
#[derive(Clone, Debug, PartialEq, Eq)]
pub struct Predicate {
    pub key: Vec<u8>,
    pub expected: Vec<u8>,
}

/// What a [`Predicate`] holds, as byte sequences.
pub struct PredicateView {
    pub key: Seq<u8>,
    pub expected: Seq<u8>,
}

impl View for Predicate {
    type V = PredicateView;

    open spec fn view(&self) -> PredicateView {
        PredicateView { key: self.key@, expected: self.expected@ }
    }
}

/// The transaction operation that carries out `mutation`.
pub open spec fn operation_of(mutation: MutationView) -> RequestOpView {
    match mutation {
        MutationView::Put { key, value } => RequestOpView::Put(PutRequestView { key, value }),
        MutationView::Delete { key, range_end } => RequestOpView::DeleteRange(
            DeleteRangeRequestView { key, range_end },
        ),
    }
}

/// The comparison that tests `predicate`: equality on the stored value.
pub open spec fn comparison_of(predicate: PredicateView) -> CompareView {
    CompareView { result: CompareResult::Equal, key: predicate.key, value: predicate.expected }
}

/// The operations that carry out `mutations`, in order.
pub open spec fn operations_of(mutations: Seq<MutationView>) -> Seq<RequestOpView> {
    mutations.map_values(|m: MutationView| operation_of(m))
}

/// The transaction that applies `on_success` when every one of
/// `predicates` holds, and `on_failure` otherwise.
pub open spec fn conditional(
    predicates: Seq<PredicateView>,
    on_success: Seq<MutationView>,
    on_failure: Seq<MutationView>,
) -> TxnRequestView {
    TxnRequestView {
        compare: predicates.map_values(|p: PredicateView| comparison_of(p)),
        success: operations_of(on_success),
        failure: operations_of(on_failure),
    }
}

/// The transaction that applies `mutations` whatever the store holds.
pub open spec fn unconditional(mutations: Seq<MutationView>) -> TxnRequestView {
    conditional(Seq::empty(), mutations, Seq::empty())
}

/// Encodes one mutation as a transaction operation.
pub fn encode_mutation(mutation: Mutation) -> (op: RequestOp)
    ensures
        op@ == operation_of(mutation@),
{
    match mutation {
        Mutation::Put { key, value } => RequestOp::Put(PutRequest { key, value }),
        Mutation::Delete { key, range_end } => RequestOp::DeleteRange(
            DeleteRangeRequest { key, range_end },
        ),
    }
}

/// Encodes one predicate as an equality comparison on the stored value.
pub fn encode_predicate(predicate: Predicate) -> (compare: Compare)
    ensures
        compare@ == comparison_of(predicate@),
{
    Compare { result: CompareResult::Equal, key: predicate.key, value: predicate.expected }
}

fn encode_mutations(mutations: Vec<Mutation>) -> (ops: Vec<RequestOp>)
    ensures
        views(ops@) == operations_of(views(mutations@)),
{
    let ghost given = mutations@;
    let mut ops: Vec<RequestOp> = Vec::new();
    for mutation in it: mutations
        invariant
            it.seq() == given,
            ops@.len() == it.index(),
            forall|j: int| 0 <= j < ops@.len() ==> ops@[j]@ == operation_of(#[trigger] given[j]@),
    {
        ops.push(encode_mutation(mutation));
    }
    assert(views(ops@) =~= operations_of(views(given)));
    ops
}

fn encode_predicates(predicates: Vec<Predicate>) -> (compare: Vec<Compare>)
    ensures
        views(compare@) == views(predicates@).map_values(|p: PredicateView| comparison_of(p)),
{
    let ghost given = predicates@;
    let mut compare: Vec<Compare> = Vec::new();
    for predicate in it: predicates
        invariant
            it.seq() == given,
            compare@.len() == it.index(),
            forall|j: int|
                0 <= j < compare@.len() ==> compare@[j]@ == comparison_of(#[trigger] given[j]@),
    {
        compare.push(encode_predicate(predicate));
    }
    assert(views(compare@) =~= views(given).map_values(|p: PredicateView| comparison_of(p)));
    compare
}

/// Builds the transaction that tests `predicates` and applies
/// `on_success` when all of them hold, `on_failure` otherwise.
pub fn build_conditional(
    predicates: Vec<Predicate>,
    on_success: Vec<Mutation>,
    on_failure: Vec<Mutation>,
) -> (txn: TxnRequest)
    ensures
        txn@ == conditional(views(predicates@), views(on_success@), views(on_failure@)),
{
    TxnRequest {
        compare: encode_predicates(predicates),
        success: encode_mutations(on_success),
        failure: encode_mutations(on_failure),
    }
}

/// Builds the transaction that applies `mutations` without a condition.
pub fn build_unconditional(mutations: Vec<Mutation>) -> (txn: TxnRequest)
    ensures
        txn@ == unconditional(views(mutations@)),
{
    let txn = build_conditional(Vec::new(), mutations, Vec::new());
    assert(views(Seq::<Predicate>::empty()) =~= Seq::<PredicateView>::empty());
    assert(views(Seq::<Mutation>::empty()) =~= Seq::<MutationView>::empty());
    txn
}

/// Reads from a transaction's reply whether its comparisons held, that is
/// whether the store applied the success operations.
pub fn interpret(response: &TxnResponse) -> (succeeded: bool)
    ensures
        succeeded == response.succeeded,
{
    response.succeeded
}

} // verus!
