use vstd::prelude::*;

use crate::buffer::CryptoBuffer;
use crate::parse_buffer::ParseBuffer;
use crate::parse_buffer::ParseError;
use crate::wire::be16;
use crate::wire::u16_be;
use crate::TlsError;

verus! {

/// The closed registry of extension identities this build knows, each tied to
/// its two-byte wire code.
#[derive(Clone, Copy, Debug, PartialEq, Eq, Structural)]
pub enum ExtensionType {
    ServerName,
    MaxFragmentLength,
    StatusRequest,
    SupportedGroups,
    SignatureAlgorithms,
    UseSrtp,
    Heartbeat,
    ApplicationLayerProtocolNegotiation,
    ClientCertificateType,
    ServerCertificateType,
    Padding,
    PreSharedKey,
    SupportedVersions,
    PskKeyExchangeModes,
    CertificateAuthorities,
    OidFilters,
    PostHandshakeAuth,
    SignatureAlgorithmsCert,
    KeyShare,
}

/// The wire code of a known extension type.
pub open spec fn ext_type_code(t: ExtensionType) -> u16 {
    match t {
        ExtensionType::ServerName => 0,
        ExtensionType::MaxFragmentLength => 1,
        ExtensionType::StatusRequest => 5,
        ExtensionType::SupportedGroups => 10,
        ExtensionType::SignatureAlgorithms => 13,
        ExtensionType::UseSrtp => 14,
        ExtensionType::Heartbeat => 15,
        ExtensionType::ApplicationLayerProtocolNegotiation => 16,
        ExtensionType::ClientCertificateType => 19,
        ExtensionType::ServerCertificateType => 20,
        ExtensionType::Padding => 21,
        ExtensionType::PreSharedKey => 41,
        ExtensionType::SupportedVersions => 43,
        ExtensionType::PskKeyExchangeModes => 45,
        ExtensionType::CertificateAuthorities => 47,
        ExtensionType::OidFilters => 48,
        ExtensionType::PostHandshakeAuth => 49,
        ExtensionType::SignatureAlgorithmsCert => 50,
        ExtensionType::KeyShare => 51,
    }
}

/// The extension type a wire code resolves to, if this build knows it.
pub open spec fn spec_ext_type_of(code: u16) -> Option<ExtensionType> {
    if code == 0 {
        Some(ExtensionType::ServerName)
    } else if code == 1 {
        Some(ExtensionType::MaxFragmentLength)
    } else if code == 5 {
        Some(ExtensionType::StatusRequest)
    } else if code == 10 {
        Some(ExtensionType::SupportedGroups)
    } else if code == 13 {
        Some(ExtensionType::SignatureAlgorithms)
    } else if code == 14 {
        Some(ExtensionType::UseSrtp)
    } else if code == 15 {
        Some(ExtensionType::Heartbeat)
    } else if code == 16 {
        Some(ExtensionType::ApplicationLayerProtocolNegotiation)
    } else if code == 19 {
        Some(ExtensionType::ClientCertificateType)
    } else if code == 20 {
        Some(ExtensionType::ServerCertificateType)
    } else if code == 21 {
        Some(ExtensionType::Padding)
    } else if code == 41 {
        Some(ExtensionType::PreSharedKey)
    } else if code == 43 {
        Some(ExtensionType::SupportedVersions)
    } else if code == 45 {
        Some(ExtensionType::PskKeyExchangeModes)
    } else if code == 47 {
        Some(ExtensionType::CertificateAuthorities)
    } else if code == 48 {
        Some(ExtensionType::OidFilters)
    } else if code == 49 {
        Some(ExtensionType::PostHandshakeAuth)
    } else if code == 50 {
        Some(ExtensionType::SignatureAlgorithmsCert)
    } else if code == 51 {
        Some(ExtensionType::KeyShare)
    } else {
        None
    }
}

impl ExtensionType {
    /// Resolves a wire code against the registry.
    pub fn of(code: u16) -> (r: Option<ExtensionType>)
        ensures
            r == spec_ext_type_of(code),
    {
        if code == 0 {
            Some(ExtensionType::ServerName)
        } else if code == 1 {
            Some(ExtensionType::MaxFragmentLength)
        } else if code == 5 {
            Some(ExtensionType::StatusRequest)
        } else if code == 10 {
            Some(ExtensionType::SupportedGroups)
        } else if code == 13 {
            Some(ExtensionType::SignatureAlgorithms)
        } else if code == 14 {
            Some(ExtensionType::UseSrtp)
        } else if code == 15 {
            Some(ExtensionType::Heartbeat)
        } else if code == 16 {
            Some(ExtensionType::ApplicationLayerProtocolNegotiation)
        } else if code == 19 {
            Some(ExtensionType::ClientCertificateType)
        } else if code == 20 {
            Some(ExtensionType::ServerCertificateType)
        } else if code == 21 {
            Some(ExtensionType::Padding)
        } else if code == 41 {
            Some(ExtensionType::PreSharedKey)
        } else if code == 43 {
            Some(ExtensionType::SupportedVersions)
        } else if code == 45 {
            Some(ExtensionType::PskKeyExchangeModes)
        } else if code == 47 {
            Some(ExtensionType::CertificateAuthorities)
        } else if code == 48 {
            Some(ExtensionType::OidFilters)
        } else if code == 49 {
            Some(ExtensionType::PostHandshakeAuth)
        } else if code == 50 {
            Some(ExtensionType::SignatureAlgorithmsCert)
        } else if code == 51 {
            Some(ExtensionType::KeyShare)
        } else {
            None
        }
    }

    /// The wire code of this extension type.
    pub fn code(&self) -> (r: u16)
        ensures
            r == ext_type_code(*self),
    {
        match self {
            ExtensionType::ServerName => 0,
            ExtensionType::MaxFragmentLength => 1,
            ExtensionType::StatusRequest => 5,
            ExtensionType::SupportedGroups => 10,
            ExtensionType::SignatureAlgorithms => 13,
            ExtensionType::UseSrtp => 14,
            ExtensionType::Heartbeat => 15,
            ExtensionType::ApplicationLayerProtocolNegotiation => 16,
            ExtensionType::ClientCertificateType => 19,
            ExtensionType::ServerCertificateType => 20,
            ExtensionType::Padding => 21,
            ExtensionType::PreSharedKey => 41,
            ExtensionType::SupportedVersions => 43,
            ExtensionType::PskKeyExchangeModes => 45,
            ExtensionType::CertificateAuthorities => 47,
            ExtensionType::OidFilters => 48,
            ExtensionType::PostHandshakeAuth => 49,
            ExtensionType::SignatureAlgorithmsCert => 50,
            ExtensionType::KeyShare => 51,
        }
    }

    /// Reads a two-byte code and resolves it. A code this build does not know
    /// is `InvalidData`, a recoverable condition distinct from a short read.
    pub fn parse(buf: &mut ParseBuffer) -> (r: Result<ExtensionType, ParseError>)
        requires
            old(buf).wf(),
        ensures
            final(buf).wf(),
            old(buf).remaining().len() < 2 ==> r == Err::<ExtensionType, ParseError>(
                ParseError::InsufficientData,
            ) && *final(buf) == *old(buf),
            old(buf).remaining().len() >= 2 ==> final(buf).remaining() == old(
                buf,
            ).remaining().skip(2) && r == (match spec_ext_type_of(
                be16(old(buf).remaining()[0], old(buf).remaining()[1]),
            ) {
                Some(t) => Ok::<ExtensionType, ParseError>(t),
                None => Err::<ExtensionType, ParseError>(ParseError::InvalidData),
            }),
    {
        match buf.read_u16() {
            Ok(code) => match ExtensionType::of(code) {
                Some(t) => Ok(t),
                None => Err(ParseError::InvalidData),
            },
            Err(e) => Err(e),
        }
    }

    /// Writes the two-byte code of this extension type.
    pub fn encode(&self, buf: &mut CryptoBuffer) -> (r: Result<(), TlsError>)
        ensures
            r == Ok::<(), TlsError>(()),
            final(buf)@ == old(buf)@ + u16_be(ext_type_code(*self)),
    {
        buf.push_u16(self.code())
    }
}

/// Resolving the code of a known extension type gives that type back: the
/// registry round-trips the exact numeric code.
pub proof fn lemma_ext_type_round(t: ExtensionType)
    ensures
        spec_ext_type_of(ext_type_code(t)) == Some(t),
{
}

} // verus!
