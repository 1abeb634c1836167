use etcd_client::client::{
    acknowledge, default_endpoint, delete_prefix_request, delete_request, get_prefix_reply,
    get_prefix_request, get_reply, get_request, put_request, swap_reply, swap_request,
};
use etcd_client::error::EtcdError;
use etcd_client::message::{
    Compare, CompareResult, DeleteRangeRequest, KeyValue, PutRequest, RangeRequest, RangeResponse,
    RequestOp, TxnRequest, TxnResponse,
};

fn entry(key: &[u8], value: &[u8]) -> KeyValue {
    KeyValue { key: key.to_vec(), value: value.to_vec() }
}

#[test]
fn the_default_endpoint_is_the_local_client_port() {
    assert_eq!(default_endpoint(), "http://localhost:2379");
}

#[test]
fn put_request_carries_key_and_value() {
    assert_eq!(
        put_request(b"name", b"value"),
        PutRequest { key: b"name".to_vec(), value: b"value".to_vec() }
    );
    assert_eq!(
        put_request(b"k", &[0x00, 0xFF, 0x80]),
        PutRequest { key: b"k".to_vec(), value: vec![0x00, 0xFF, 0x80] }
    );
}

#[test]
fn acknowledge_passes_success_and_wraps_a_status() {
    assert!(acknowledge(Ok::<u8, tonic::Status>(7)).is_ok());
    let outcome = acknowledge(Err::<(), tonic::Status>(tonic::Status::unavailable("down")));
    match outcome {
        Err(EtcdError::Grpc(status)) => {
            assert_eq!(status.code(), tonic::Code::Unavailable);
            assert_eq!(status.message(), "down");
        },
        other => panic!("unexpected outcome {:?}", other),
    }
}

#[test]
fn get_request_asks_for_one_key() {
    assert_eq!(get_request(b"a/1"), RangeRequest { key: b"a/1".to_vec(), range_end: Vec::new() });
}

#[test]
fn get_reply_without_entries_is_none() {
    let outcome = get_reply(Ok(RangeResponse { kvs: Vec::new() }));
    assert_eq!(outcome.unwrap(), None);
}

#[test]
fn get_reply_with_one_entry_is_its_value() {
    let outcome = get_reply(Ok(RangeResponse { kvs: vec![entry(b"k", b"v")] }));
    assert_eq!(outcome.unwrap(), Some(b"v".to_vec()));
}

#[test]
fn get_reply_with_several_entries_takes_the_last() {
    let outcome = get_reply(Ok(RangeResponse {
        kvs: vec![entry(b"k", b"first"), entry(b"k2", b"second"), entry(b"k3", b"third")],
    }));
    assert_eq!(outcome.unwrap(), Some(b"third".to_vec()));
}

#[test]
fn get_reply_keeps_bytes_that_are_no_text() {
    let outcome = get_reply(Ok(RangeResponse { kvs: vec![entry(b"k", &[0xFF, 0xFE])] }));
    assert_eq!(outcome.unwrap(), Some(vec![0xFF, 0xFE]));
}

#[test]
fn get_reply_wraps_a_status() {
    let outcome = get_reply(Err(tonic::Status::not_found("gone")));
    match outcome {
        Err(EtcdError::Grpc(status)) => assert_eq!(status.code(), tonic::Code::NotFound),
        other => panic!("unexpected outcome {:?}", other),
    }
}

#[test]
fn get_prefix_request_asks_for_the_prefix_range() {
    assert_eq!(
        get_prefix_request(b"a/"),
        RangeRequest { key: b"a/".to_vec(), range_end: b"a0".to_vec() }
    );
}

#[test]
fn get_prefix_reply_collects_the_entries() {
    let outcome = get_prefix_reply(Ok(RangeResponse {
        kvs: vec![entry(b"a/1", b"x"), entry(b"a/2", b"y")],
    }));
    let map = outcome.unwrap();
    assert_eq!(map.len(), 2);
    assert_eq!(map.get(b"a/1"), Some(&b"x".to_vec()));
    assert_eq!(map.get(b"a/2"), Some(&b"y".to_vec()));
    assert_eq!(map.get(b"b/1"), None);
}

#[test]
fn get_prefix_reply_without_entries_is_empty() {
    let map = get_prefix_reply(Ok(RangeResponse { kvs: Vec::new() })).unwrap();
    assert!(map.is_empty());
    assert_eq!(map.len(), 0);
}

#[test]
fn get_prefix_reply_lets_the_last_entry_of_a_key_decide() {
    let map = get_prefix_reply(Ok(RangeResponse {
        kvs: vec![entry(b"a/1", b"x"), entry(b"a/2", b"y"), entry(b"a/1", b"z")],
    }))
    .unwrap();
    assert_eq!(map.len(), 2);
    assert_eq!(map.get(b"a/1"), Some(&b"z".to_vec()));
    assert_eq!(map.get(b"a/2"), Some(&b"y".to_vec()));
}

#[test]
fn get_prefix_reply_wraps_a_status() {
    let outcome = get_prefix_reply(Err(tonic::Status::internal("broken")));
    match outcome {
        Err(EtcdError::Grpc(status)) => assert_eq!(status.code(), tonic::Code::Internal),
        other => panic!("unexpected outcome {:?}", other),
    }
}

#[test]
fn delete_request_removes_each_key_exactly() {
    let request = delete_request(&[b"a/1".to_vec(), b"b/1".to_vec()]);
    let expected = TxnRequest {
        compare: Vec::new(),
        success: vec![
            RequestOp::DeleteRange(DeleteRangeRequest {
                key: b"a/1".to_vec(),
                range_end: Vec::new(),
            }),
            RequestOp::DeleteRange(DeleteRangeRequest {
                key: b"b/1".to_vec(),
                range_end: Vec::new(),
            }),
        ],
        failure: Vec::new(),
    };
    assert_eq!(request, expected);
}

#[test]
fn delete_request_of_no_key_is_an_empty_transaction() {
    let request = delete_request(&[]);
    assert_eq!(
        request,
        TxnRequest { compare: Vec::new(), success: Vec::new(), failure: Vec::new() }
    );
}

#[test]
fn delete_prefix_request_covers_the_prefix_range() {
    assert_eq!(
        delete_prefix_request(b"a/"),
        DeleteRangeRequest { key: b"a/".to_vec(), range_end: b"a0".to_vec() }
    );
    assert_eq!(
        delete_prefix_request(&[0x01, 0xFF]),
        DeleteRangeRequest { key: vec![0x01, 0xFF], range_end: vec![0x01, 0x00] }
    );
}

#[test]
fn swap_request_compares_the_old_value_and_puts_the_new() {
    let request = swap_request(b"k", b"old", b"new");
    let expected = TxnRequest {
        compare: vec![Compare {
            result: CompareResult::Equal,
            key: b"k".to_vec(),
            value: b"old".to_vec(),
        }],
        success: vec![RequestOp::Put(PutRequest { key: b"k".to_vec(), value: b"new".to_vec() })],
        failure: Vec::new(),
    };
    assert_eq!(request, expected);
}

#[test]
fn swap_reply_succeeds_when_the_comparison_held() {
    assert!(swap_reply(b"k", Ok(TxnResponse { succeeded: true })).is_ok());
}

#[test]
fn swap_reply_names_the_key_when_the_comparison_failed() {
    let outcome = swap_reply(b"a/1", Ok(TxnResponse { succeeded: false }));
    match outcome {
        Err(EtcdError::Swap(key)) => assert_eq!(key, b"a/1".to_vec()),
        other => panic!("unexpected outcome {:?}", other),
    }
}

#[test]
fn swap_reply_wraps_a_status() {
    let outcome = swap_reply(b"k", Err(tonic::Status::deadline_exceeded("slow")));
    match outcome {
        Err(EtcdError::Grpc(status)) => {
            assert_eq!(status.code(), tonic::Code::DeadlineExceeded);
            assert_eq!(status.message(), "slow");
        },
        other => panic!("unexpected outcome {:?}", other),
    }
}
