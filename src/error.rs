//! Errors reported by the client.
use vstd::prelude::*;

verus! {

#[verifier::external_type_specification]
#[verifier::external_body]
pub struct ExIoError(std::io::Error);

/// The failures that the client reports to its callers.
#[derive(Debug)]
pub enum ClientError {
    /// An endpoint string that is not a socket address.
    BadAddress(String),
    /// The connection could not be established, or the transport failed.
    ConnectTimeout(std::io::Error),
    /// The peer closed the stream while a partial frame was buffered.
    ConnectionReset,
    /// The peer sent bytes that are not a well-formed frame.
    InvalidFrame(String),
    /// Internal failure, such as a poisoned lock.
    Unknown,
}

} // verus!
