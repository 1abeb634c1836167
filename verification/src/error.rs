//! The failures that a client operation reports.

use vstd::prelude::*;
use vstd::std_specs::convert::FromSpecImpl;

verus! {

/// `tonic::Status`, the status with which the RPC layer fails a call.
/// Nothing is claimed of it: a value is carried from the reply into
/// [`EtcdError::Grpc`] as it came.
#[verifier::external_type_specification]
#[verifier::external_body]
pub struct ExStatus(tonic::Status);

/// `tonic::transport::Error`, the failure to set up or use a channel.
/// Nothing is claimed of it: a value is carried in [`EtcdError::Transport`]
/// as it came.
#[verifier::external_type_specification]
#[verifier::external_body]
pub struct ExTransportError(tonic::transport::Error);

/// `std::io::Error`. Nothing is claimed of it: a value is carried in
/// [`EtcdError::Io`] as it came.
#[verifier::external_type_specification]
#[verifier::external_body]
pub struct ExIoError(std::io::Error);

/// An error raised by the client.
#[derive(Debug)]
pub enum EtcdError {
    /// The RPC layer answered a request with a failure status.
    Grpc(tonic::Status),
    /// The connection could not be set up or broke.
    Transport(tonic::transport::Error),
    /// An I/O error was raised.
    Io(std::io::Error),
    /// Compare and swap failed for the key: the store held another value
    /// under it, or none.
    Swap(Vec<u8>),
}

impl From<tonic::Status> for EtcdError {
    fn from(status: tonic::Status) -> (error: EtcdError)
        ensures
            error == EtcdError::Grpc(status),
    {
        EtcdError::Grpc(status)
    }
}

impl FromSpecImpl<tonic::Status> for EtcdError {
    open spec fn obeys_from_spec() -> bool {
        true
    }

    open spec fn from_spec(status: tonic::Status) -> EtcdError {
        EtcdError::Grpc(status)
    }
}

impl From<tonic::transport::Error> for EtcdError {
    fn from(cause: tonic::transport::Error) -> (error: EtcdError)
        ensures
            error == EtcdError::Transport(cause),
    {
        EtcdError::Transport(cause)
    }
}

impl FromSpecImpl<tonic::transport::Error> for EtcdError {
    open spec fn obeys_from_spec() -> bool {
        true
    }

    open spec fn from_spec(cause: tonic::transport::Error) -> EtcdError {
        EtcdError::Transport(cause)
    }
}

impl From<std::io::Error> for EtcdError {
    fn from(cause: std::io::Error) -> (error: EtcdError)
        ensures
            error == EtcdError::Io(cause),
    {
        EtcdError::Io(cause)
    }
}

impl FromSpecImpl<std::io::Error> for EtcdError {
    open spec fn obeys_from_spec() -> bool {
        true
    }

    open spec fn from_spec(cause: std::io::Error) -> EtcdError {
        EtcdError::Io(cause)
    }
}

} // verus!
