use vstd::prelude::*;

use crate::buffer::CryptoBuffer;
use crate::parse_buffer::ParseBuffer;
use crate::parse_buffer::ParseError;
use crate::TlsError;

verus! {

/// Heartbeat mode negotiation payload (RFC 6520): a single byte saying
/// whether the peer may send heartbeat requests.
#[derive(Clone, Copy, Debug, PartialEq, Eq, Structural)]
pub enum Heartbeat {
    PeerAllowedToSend,
    PeerNotAllowedToSend,
}

/// The wire code of a heartbeat mode.
pub open spec fn heartbeat_code(h: Heartbeat) -> u8 {
    match h {
        Heartbeat::PeerAllowedToSend => 1,
        Heartbeat::PeerNotAllowedToSend => 2,
    }
}

/// The heartbeat mode a byte decodes to: 1 and 2 each map to their own
/// variant, every other byte is invalid.
pub open spec fn spec_heartbeat_of(b: u8) -> Option<Heartbeat> {
    if b == 1 {
        Some(Heartbeat::PeerAllowedToSend)
    } else if b == 2 {
        Some(Heartbeat::PeerNotAllowedToSend)
    } else {
        None
    }
}

impl Heartbeat {
    /// Reads one byte and maps it to its heartbeat mode; any byte other than
    /// the two defined codes is `InvalidData`.
    pub fn parse(buf: &mut ParseBuffer) -> (r: Result<Heartbeat, ParseError>)
        requires
            old(buf).wf(),
        ensures
            final(buf).wf(),
            old(buf).remaining().len() == 0 ==> r == Err::<Heartbeat, ParseError>(
                ParseError::InsufficientData,
            ) && *final(buf) == *old(buf),
            old(buf).remaining().len() > 0 ==> final(buf).remaining() == old(
                buf,
            ).remaining().skip(1) && r == (match spec_heartbeat_of(old(buf).remaining()[0]) {
                Some(h) => Ok::<Heartbeat, ParseError>(h),
                None => Err::<Heartbeat, ParseError>(ParseError::InvalidData),
            }),
    {
        match buf.read_u8() {
            Ok(b) => {
                if b == 1 {
                    Ok(Heartbeat::PeerAllowedToSend)
                } else if b == 2 {
                    Ok(Heartbeat::PeerNotAllowedToSend)
                } else {
                    Err(ParseError::InvalidData)
                }
            },
            Err(e) => Err(e),
        }
    }

    /// Writes the mode's numeric code as a single byte.
    pub fn encode(&self, buf: &mut CryptoBuffer) -> (r: Result<(), TlsError>)
        ensures
            r == Ok::<(), TlsError>(()),
            final(buf)@ == old(buf)@.push(heartbeat_code(*self)),
    {
        let code: u8 = match self {
            Heartbeat::PeerAllowedToSend => 1,
            Heartbeat::PeerNotAllowedToSend => 2,
        };
        buf.push(code)
    }
}

/// Decoding the encoded code of a heartbeat mode gives that mode back, for
/// both variants.
pub proof fn lemma_heartbeat_round(h: Heartbeat)
    ensures
        spec_heartbeat_of(heartbeat_code(h)) == Some(h),
{
}

} // verus!
