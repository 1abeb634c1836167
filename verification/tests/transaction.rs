use etcd_client::message::{
    Compare, CompareResult, DeleteRangeRequest, PutRequest, RequestOp, TxnRequest, TxnResponse,
};
use etcd_client::transaction::{
    build_conditional, build_unconditional, encode_mutation, encode_predicate, interpret,
    Mutation, Predicate,
};

#[test]
fn a_put_mutation_becomes_a_put_operation() {
    let op = encode_mutation(Mutation::Put { key: b"k".to_vec(), value: b"v".to_vec() });
    assert_eq!(op, RequestOp::Put(PutRequest { key: b"k".to_vec(), value: b"v".to_vec() }));
}

#[test]
fn a_delete_mutation_becomes_a_delete_range_operation() {
    let op = encode_mutation(Mutation::Delete { key: b"a".to_vec(), range_end: b"b".to_vec() });
    assert_eq!(
        op,
        RequestOp::DeleteRange(DeleteRangeRequest { key: b"a".to_vec(), range_end: b"b".to_vec() })
    );
}

#[test]
fn a_predicate_becomes_an_equality_comparison() {
    let compare = encode_predicate(Predicate { key: b"k".to_vec(), expected: b"old".to_vec() });
    assert_eq!(
        compare,
        Compare { result: CompareResult::Equal, key: b"k".to_vec(), value: b"old".to_vec() }
    );
}

#[test]
fn a_conditional_transaction_keeps_every_list_in_order() {
    let txn = build_conditional(
        vec![
            Predicate { key: b"p1".to_vec(), expected: b"x".to_vec() },
            Predicate { key: b"p2".to_vec(), expected: b"y".to_vec() },
        ],
        vec![
            Mutation::Put { key: b"s1".to_vec(), value: b"1".to_vec() },
            Mutation::Delete { key: b"s2".to_vec(), range_end: Vec::new() },
        ],
        vec![Mutation::Put { key: b"f1".to_vec(), value: b"2".to_vec() }],
    );
    let expected = TxnRequest {
        compare: vec![
            Compare { result: CompareResult::Equal, key: b"p1".to_vec(), value: b"x".to_vec() },
            Compare { result: CompareResult::Equal, key: b"p2".to_vec(), value: b"y".to_vec() },
        ],
        success: vec![
            RequestOp::Put(PutRequest { key: b"s1".to_vec(), value: b"1".to_vec() }),
            RequestOp::DeleteRange(DeleteRangeRequest {
                key: b"s2".to_vec(),
                range_end: Vec::new(),
            }),
        ],
        failure: vec![RequestOp::Put(PutRequest { key: b"f1".to_vec(), value: b"2".to_vec() })],
    };
    assert_eq!(txn, expected);
}

#[test]
fn an_unconditional_transaction_has_no_comparison_and_no_failure_branch() {
    let txn = build_unconditional(vec![
        Mutation::Put { key: b"a".to_vec(), value: Vec::new() },
        Mutation::Put { key: b"b".to_vec(), value: Vec::new() },
    ]);
    assert!(txn.compare.is_empty());
    assert!(txn.failure.is_empty());
    assert_eq!(
        txn.success,
        vec![
            RequestOp::Put(PutRequest { key: b"a".to_vec(), value: Vec::new() }),
            RequestOp::Put(PutRequest { key: b"b".to_vec(), value: Vec::new() }),
        ]
    );
}

#[test]
fn an_unconditional_transaction_of_nothing_is_empty() {
    let txn = build_unconditional(Vec::new());
    assert_eq!(txn, TxnRequest { compare: Vec::new(), success: Vec::new(), failure: Vec::new() });
}

#[test]
fn interpret_reads_the_success_flag() {
    assert!(interpret(&TxnResponse { succeeded: true }));
    assert!(!interpret(&TxnResponse { succeeded: false }));
}
