use vstd::prelude::*;

verus! {

/// Severity of a TLS alert.
#[derive(Clone, Copy, Debug, PartialEq, Eq, Structural)]
pub enum AlertLevel {
    Warning,
    Fatal,
}

/// Reason carried by a TLS alert.
#[derive(Clone, Copy, Debug, PartialEq, Eq, Structural)]
pub enum AlertDescription {
    CloseNotify,
    UnexpectedMessage,
    HandshakeFailure,
    IllegalParameter,
    DecodeError,
}

} // verus!
