use etcd_client::bulk::{BulkPut, BulkPutStep, BATCH_SIZE};
use etcd_client::error::EtcdError;
use etcd_client::message::{PutRequest, RequestOp, TxnResponse};

fn keys_from(first: usize, count: usize) -> Vec<Vec<u8>> {
    let mut keys: Vec<Vec<u8>> = Vec::new();
    for i in first..first + count {
        keys.push(format!("k{}", i).into_bytes());
    }
    keys
}

fn empty_puts(keys: &[Vec<u8>]) -> Vec<RequestOp> {
    keys.iter()
        .map(|key| RequestOp::Put(PutRequest { key: key.clone(), value: Vec::new() }))
        .collect()
}

#[test]
fn the_batch_size_is_one_thousand() {
    assert_eq!(BATCH_SIZE, 1000);
}

#[test]
fn a_load_without_keys_is_done_at_once() {
    match BulkPut::start(Vec::new()) {
        BulkPutStep::Done(outcome) => assert!(outcome.is_ok()),
        other => panic!("unexpected step {:?}", other),
    }
}

#[test]
fn a_small_load_is_one_unconditional_batch() {
    let keys = keys_from(0, 3);
    let pending = match BulkPut::start(keys.clone()) {
        BulkPutStep::Send { request, pending } => {
            assert!(request.compare.is_empty());
            assert!(request.failure.is_empty());
            assert_eq!(request.success, empty_puts(&keys));
            pending
        },
        other => panic!("unexpected step {:?}", other),
    };
    match pending.resume(Ok(TxnResponse { succeeded: true })) {
        BulkPutStep::Done(outcome) => assert!(outcome.is_ok()),
        other => panic!("unexpected step {:?}", other),
    }
}

#[test]
fn the_batches_follow_one_another_through_the_keys() {
    let keys = keys_from(0, 2500);
    let mut step = BulkPut::start(keys.clone());
    let mut seen: Vec<Vec<RequestOp>> = Vec::new();
    loop {
        match step {
            BulkPutStep::Send { request, pending } => {
                seen.push(request.success);
                step = pending.resume(Ok(()));
            },
            BulkPutStep::Done(outcome) => {
                assert!(outcome.is_ok());
                break;
            },
        }
    }
    assert_eq!(seen.len(), 3);
    assert_eq!(seen[0], empty_puts(&keys[..1000]));
    assert_eq!(seen[1], empty_puts(&keys[1000..2000]));
    assert_eq!(seen[2], empty_puts(&keys[2000..]));
}

#[test]
fn a_failed_batch_ends_the_load_with_its_status() {
    let pending = match BulkPut::start(keys_from(0, 1500)) {
        BulkPutStep::Send { pending, .. } => pending,
        other => panic!("unexpected step {:?}", other),
    };
    match pending.resume(Err::<(), tonic::Status>(tonic::Status::resource_exhausted("full"))) {
        BulkPutStep::Done(Err(EtcdError::Grpc(status))) => {
            assert_eq!(status.code(), tonic::Code::ResourceExhausted);
            assert_eq!(status.message(), "full");
        },
        other => panic!("unexpected step {:?}", other),
    }
}

#[test]
fn a_failure_of_the_last_batch_is_reported_too() {
    let pending = match BulkPut::start(keys_from(0, 1001)) {
        BulkPutStep::Send { pending, .. } => pending,
        other => panic!("unexpected step {:?}", other),
    };
    let pending = match pending.resume(Ok(())) {
        BulkPutStep::Send { request, pending } => {
            assert_eq!(request.success, empty_puts(&keys_from(1000, 1)));
            pending
        },
        other => panic!("unexpected step {:?}", other),
    };
    match pending.resume(Err::<(), tonic::Status>(tonic::Status::aborted("late"))) {
        BulkPutStep::Done(Err(EtcdError::Grpc(status))) => {
            assert_eq!(status.code(), tonic::Code::Aborted)
        },
        other => panic!("unexpected step {:?}", other),
    }
}
