pub mod alert;
pub mod buffer;
pub mod cipher_suites;
pub mod crypto;
pub mod extension_type;
pub mod heartbeat;
pub mod key_share;
pub mod parse_buffer;
pub mod server_extension;
pub mod server_hello;
pub mod transcript;
pub mod wire;

use vstd::prelude::*;

verus! {

/// Errors surfaced while decoding or encoding handshake messages.
///
/// Malformed-wire conditions (`InvalidHandshake`, `InvalidSessionIdLength`,
/// `DecodeError`) terminate the current decode. `InvalidCipherSuite` is a
/// semantic rejection. `UnknownExtensionType` marks an extension code this
/// build does not know at all, kept distinct from `AbortHandshake`, which
/// carries the alert a peer must receive when a recognized extension appears
/// in a message where it is not legal. `CapacityExceeded` reports more
/// extensions than the decoder is configured to hold.
#[derive(Clone, Copy, Debug, PartialEq, Eq, Structural)]
pub enum TlsError {
    InvalidHandshake,
    InvalidSessionIdLength,
    InvalidCipherSuite,
    UnknownExtensionType,
    DecodeError,
    EncodeError,
    CapacityExceeded,
    AbortHandshake(crate::alert::AlertLevel, crate::alert::AlertDescription),
}

} // verus!
