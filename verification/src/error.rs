//! Error taxonomy of the bus.
//!
//! Transient, per-entry failures (decode, acknowledge) are absorbed by the
//! engine loop; connection-level failures (read, append) and caller contract
//! violations terminate it. `is_fatal` states that classification exactly.

use vstd::prelude::*;

verus! {

/// The client-facing error type.
#[derive(Clone, Debug, PartialEq, Eq)]
pub enum Error {
    /// a backend call failed; the message carries the backend's diagnosis
    RedisError { msg: String },
    /// an envelope without an id was handed to an operation that needs one
    InvalidStreamID,
}

/// Why one entry's field map could not be decoded into a payload.
#[derive(Clone, Copy, Debug, PartialEq, Eq, Structural)]
pub enum DecodeError {
    /// the field map holds no payload field at all
    MissingPayload,
}

/// Everything that can go wrong inside the engine loop, by origin.
#[derive(Clone, Debug, PartialEq, Eq)]
pub enum BusError {
    /// consumer-group creation failed for a reason other than "already exists"
    Bootstrap { msg: String },
    /// one entry's field map could not be reconstructed into a payload
    Decode(DecodeError),
    /// the backend group-read call failed (not merely returned empty)
    Read { msg: String },
    /// the backend append call failed
    Append { msg: String },
    /// the backend acknowledge call failed
    Ack { msg: String },
    /// a caller tried to acknowledge an envelope that has no id
    Contract,
}

impl BusError {
    /// The spec-level fatality classification: read failures, append
    /// failures and caller contract violations terminate the loop; bootstrap,
    /// decode and acknowledge failures are absorbed and logged.
    pub open spec fn spec_is_fatal(self) -> bool {
        match self {
            BusError::Read { .. } => true,
            BusError::Append { .. } => true,
            BusError::Contract => true,
            BusError::Bootstrap { .. } => false,
            BusError::Decode(_) => false,
            BusError::Ack { .. } => false,
        }
    }

    /// Whether this failure must terminate the engine loop.
    pub fn is_fatal(&self) -> (r: bool)
        ensures
            r == self.spec_is_fatal(),
    {
        match self {
            BusError::Read { .. } => true,
            BusError::Append { .. } => true,
            BusError::Contract => true,
            BusError::Bootstrap { .. } => false,
            BusError::Decode(_) => false,
            BusError::Ack { .. } => false,
        }
    }
}

} // verus!
