use vstd::prelude::*;

verus! {

/// The cipher suites this build knows, each tied to its wire code.
#[derive(Clone, Copy, Debug, PartialEq, Eq, Structural)]
pub enum CipherSuite {
    TlsAes128GcmSha256,
    TlsAes256GcmSha384,
    TlsChacha20Poly1305Sha256,
    TlsAes128CcmSha256,
    TlsAes128Ccm8Sha256,
}

/// The wire code of a known cipher suite.
pub open spec fn cipher_suite_code(cs: CipherSuite) -> u16 {
    match cs {
        CipherSuite::TlsAes128GcmSha256 => 0x1301,
        CipherSuite::TlsAes256GcmSha384 => 0x1302,
        CipherSuite::TlsChacha20Poly1305Sha256 => 0x1303,
        CipherSuite::TlsAes128CcmSha256 => 0x1304,
        CipherSuite::TlsAes128Ccm8Sha256 => 0x1305,
    }
}

/// The known-suite table: the suite a wire code resolves to, if any.
pub open spec fn spec_cipher_suite_of(code: u16) -> Option<CipherSuite> {
    if code == 0x1301 {
        Some(CipherSuite::TlsAes128GcmSha256)
    } else if code == 0x1302 {
        Some(CipherSuite::TlsAes256GcmSha384)
    } else if code == 0x1303 {
        Some(CipherSuite::TlsChacha20Poly1305Sha256)
    } else if code == 0x1304 {
        Some(CipherSuite::TlsAes128CcmSha256)
    } else if code == 0x1305 {
        Some(CipherSuite::TlsAes128Ccm8Sha256)
    } else {
        None
    }
}

impl CipherSuite {
    /// Resolves a wire code against the known-suite table.
    pub fn of(code: u16) -> (r: Option<CipherSuite>)
        ensures
            r == spec_cipher_suite_of(code),
    {
        if code == 0x1301 {
            Some(CipherSuite::TlsAes128GcmSha256)
        } else if code == 0x1302 {
            Some(CipherSuite::TlsAes256GcmSha384)
        } else if code == 0x1303 {
            Some(CipherSuite::TlsChacha20Poly1305Sha256)
        } else if code == 0x1304 {
            Some(CipherSuite::TlsAes128CcmSha256)
        } else if code == 0x1305 {
            Some(CipherSuite::TlsAes128Ccm8Sha256)
        } else {
            None
        }
    }

    /// The wire code of this suite.
    pub fn code(&self) -> (r: u16)
        ensures
            r == cipher_suite_code(*self),
    {
        match self {
            CipherSuite::TlsAes128GcmSha256 => 0x1301,
            CipherSuite::TlsAes256GcmSha384 => 0x1302,
            CipherSuite::TlsChacha20Poly1305Sha256 => 0x1303,
            CipherSuite::TlsAes128CcmSha256 => 0x1304,
            CipherSuite::TlsAes128Ccm8Sha256 => 0x1305,
        }
    }
}

/// Resolving the code of a known suite gives that suite back.
pub proof fn lemma_cipher_suite_round(cs: CipherSuite)
    ensures
        spec_cipher_suite_of(cipher_suite_code(cs)) == Some(cs),
{
}

} // verus!
