use crate::text::concat2;
use vstd::prelude::*;

verus! {

/// Errors of the protocol layer.
#[derive(Debug)]
pub enum CoreError {
    /// The peer or server sent something that breaks the protocol.
    Protocol(String),
    /// A value supplied by the caller is unusable.
    Payload(String),
    /// A cryptographic operation failed.
    Crypto(String),
    /// A shared resource could not be used.
    Task(String),
}

pub type CoreResult<T> = Result<T, CoreError>;

impl CoreError {
    pub open spec fn is_protocol(&self) -> bool {
        self is Protocol
    }

    pub open spec fn is_payload(&self) -> bool {
        self is Payload
    }

    /// The text carried by the error, whatever its kind.
    pub open spec fn detail(&self) -> Seq<char> {
        match self {
            CoreError::Protocol(m) => m@,
            CoreError::Payload(m) => m@,
            CoreError::Crypto(m) => m@,
            CoreError::Task(m) => m@,
        }
    }

    /// The human-readable text of the error, as the client reports it.
    pub fn message(&self) -> (s: String)
        ensures
            self is Protocol ==> s@ == "protocol error: "@ + self->Protocol_0@,
            self is Payload ==> s@ == "payload error: "@ + self->Payload_0@,
            self is Crypto ==> s@ == "crypto error: "@ + self->Crypto_0@,
            self is Task ==> s@ == "task error: "@ + self->Task_0@,
    {
        match self {
            CoreError::Protocol(m) => concat2("protocol error: ", m.as_str()),
            CoreError::Payload(m) => concat2("payload error: ", m.as_str()),
            CoreError::Crypto(m) => concat2("crypto error: ", m.as_str()),
            CoreError::Task(m) => concat2("task error: ", m.as_str()),
        }
    }
}

/// A protocol error with the given text.
pub fn protocol(msg: &str) -> (e: CoreError)
    ensures
        e matches CoreError::Protocol(m) && m@ == msg@,
{
    CoreError::Protocol(crate::text::owned(msg))
}

/// A payload error with the given text.
pub fn payload(msg: &str) -> (e: CoreError)
    ensures
        e matches CoreError::Payload(m) && m@ == msg@,
{
    CoreError::Payload(crate::text::owned(msg))
}

} // verus!
