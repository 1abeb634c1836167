use etcd_client::error::EtcdError;

#[test]
fn a_status_converts_to_a_grpc_error() {
    let error = EtcdError::from(tonic::Status::permission_denied("no"));
    match error {
        EtcdError::Grpc(status) => {
            assert_eq!(status.code(), tonic::Code::PermissionDenied);
            assert_eq!(status.message(), "no");
        },
        other => panic!("unexpected error {:?}", other),
    }
}

#[test]
fn an_io_error_converts_to_an_io_error() {
    let cause = std::io::Error::new(std::io::ErrorKind::Other, "no runtime");
    let error = EtcdError::from(cause);
    match error {
        EtcdError::Io(cause) => assert_eq!(cause.kind(), std::io::ErrorKind::Other),
        other => panic!("unexpected error {:?}", other),
    }
}

#[test]
fn a_swap_error_holds_the_key() {
    let error = EtcdError::Swap(b"a/1".to_vec());
    assert!(matches!(error, EtcdError::Swap(key) if key == b"a/1".to_vec()));
}

#[test]
fn a_transport_error_converts_to_a_transport_error() {
    let cause = tonic::transport::Endpoint::from_shared(String::from("not a uri\n")).unwrap_err();
    let error = EtcdError::from(cause);
    assert!(matches!(error, EtcdError::Transport(_)));
}
