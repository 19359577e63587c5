//! The protocol's error kinds and the single conversion boundary that maps
//! each kind to a response status and a structured payload.

use vstd::prelude::*;

verus! {

/// Everything that can go wrong in the protocol.
///
/// `SizeMismatch` and `PositionMismatch` carry the two values that the
/// receiver reports back: the value it expected and the value it received.
/// For `PositionMismatch` that pair is exactly what the sender's
/// duplicate-skip check consumes.
#[derive(Clone, Copy, Debug, PartialEq, Eq, Structural)]
pub enum ProtocolError {
    /// No response was received at all; the sender backs off and retries.
    TransportFailure,
    /// The upload body's length differs from its declared size.
    SizeMismatch { expected: usize, received: usize },
    /// The declared resulting position does not extend the job's watermark.
    PositionMismatch { expected: usize, received: usize },
    /// The job identifier is not in the registry.
    JobNotFound,
    /// The subprocess for a new job could not be started.
    ProcessSpawnFailure,
}

impl ProtocolError {
    /// The human-readable message of each kind, without the numbers.
    pub open spec fn spec_message(self) -> Seq<char> {
        match self {
            ProtocolError::TransportFailure => "no response from server"@,
            ProtocolError::SizeMismatch { .. } => "unexpected size"@,
            ProtocolError::PositionMismatch { .. } => "unexpected position"@,
            ProtocolError::JobNotFound => "could not find job id in memory"@,
            ProtocolError::ProcessSpawnFailure => "could not spawn process"@,
        }
    }

    /// The expected/received pair of the payload, where the kind has one.
    pub open spec fn spec_details(self) -> Option<(usize, usize)> {
        match self {
            ProtocolError::SizeMismatch { expected, received } => Some((expected, received)),
            ProtocolError::PositionMismatch { expected, received } => Some((expected, received)),
            _ => None,
        }
    }

    /// Every receiver-side rejection is carried on the same response status.
    pub fn status_code(&self) -> (c: u16)
        ensures
            c == 500u16,
    {
        500
    }

    /// The message of the structured payload.
    pub fn message(&self) -> (m: &'static str)
        ensures
            m@ == self.spec_message(),
    {
        match self {
            ProtocolError::TransportFailure => "no response from server",
            ProtocolError::SizeMismatch { .. } => "unexpected size",
            ProtocolError::PositionMismatch { .. } => "unexpected position",
            ProtocolError::JobNotFound => "could not find job id in memory",
            ProtocolError::ProcessSpawnFailure => "could not spawn process",
        }
    }

    /// The expected/received pair of the structured payload, where the kind
    /// has one.
    pub fn details(&self) -> (r: Option<(usize, usize)>)
        ensures
            r == self.spec_details(),
    {
        match self {
            ProtocolError::SizeMismatch { expected, received } => Some((*expected, *received)),
            ProtocolError::PositionMismatch { expected, received } => Some((*expected, *received)),
            _ => None,
        }
    }
}

} // verus!
