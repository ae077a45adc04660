//! The transport error taxonomy.
//!
//! `ConnectFailed` and `BindFailed` concern connection setup; `WriteFailed`,
//! `ReadFailed` and `DecodeFailed` are per-connection, per-message failures.
//! Transient non-blocking conditions are not errors and never appear here.

use vstd::prelude::*;

verus! {

/// Every failure the transport core can report.
#[derive(Clone, Copy, Debug, PartialEq, Eq, Structural)]
pub enum TransportError {
    /// An outbound connection attempt did not produce a usable socket.
    ConnectFailed,
    /// A listener could not be bound; fatal to manager construction.
    BindFailed,
    /// An encoded frame could not be produced or written in full.
    WriteFailed,
    /// A socket read failed for a reason other than "would block".
    ReadFailed,
    /// Received bytes did not decode to a well-formed message.
    DecodeFailed,
}

impl TransportError {
    /// A short description, for reporting outside the core.
    pub fn describe(&self) -> (r: &'static str)
        ensures
            *self is ConnectFailed ==> r@ == "tcp failed to connect"@,
            *self is BindFailed ==> r@ == "failed to bind tcp listener"@,
            *self is WriteFailed ==> r@ == "tcp write failed"@,
            *self is ReadFailed ==> r@ == "tcp receive failed"@,
            *self is DecodeFailed ==> r@ == "decode failed"@,
    {
        match *self {
            TransportError::ConnectFailed => "tcp failed to connect",
            TransportError::BindFailed => "failed to bind tcp listener",
            TransportError::WriteFailed => "tcp write failed",
            TransportError::ReadFailed => "tcp receive failed",
            TransportError::DecodeFailed => "decode failed",
        }
    }
}

} // verus!
