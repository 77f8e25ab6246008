use vstd::prelude::*;

use crate::cipher_suites::spec_cipher_suite_of;
use crate::cipher_suites::CipherSuite;
use crate::crypto::parse_public_key;
use crate::crypto::sec1_point_valid;
use crate::crypto::CryptoEngine;
use crate::crypto::EphemeralSecret;
use crate::crypto::SharedSecret;
use crate::key_share::KeyShareEntry;
use crate::parse_buffer::ParseBuffer;
use crate::server_extension::ext_views;
use crate::server_extension::spec_parse_ext_block;
use crate::server_extension::ExtModel;
use crate::server_extension::ListParsed;
use crate::server_extension::ServerExtension;
use crate::server_extension::MAX_EXTENSIONS;
use crate::transcript::Transcript;
use crate::wire::be16;
use crate::TlsError;

verus! {

/// Mathematical image of a decoded ServerHello.
#[verifier::ext_equal]
pub struct ShModel {
    pub random: Seq<u8>,
    pub legacy_session_id_echo: Seq<u8>,
    pub cipher_suite: CipherSuite,
    pub extensions: Seq<ExtModel>,
}

/// Outcome of decoding a ServerHello: its image, or the exact error owed.
pub enum ShParsed {
    Done { sh: ShModel, consumed: int },
    Fail { err: TlsError },
}

/// Decoding a ServerHello from `s`, field by field in wire order: legacy
/// version (read and discarded), 32 bytes of random, the length-prefixed
/// session-id echo, the cipher suite resolved against the known-suite table,
/// one compression-method byte (format only), then the extensions block.
/// The first failing step names the whole outcome.
pub open spec fn spec_parse_server_hello(s: Seq<u8>) -> ShParsed {
    if s.len() < 2 {
        ShParsed::Fail { err: TlsError::InvalidHandshake }
    } else {
        let s1 = s.skip(2);
        if s1.len() < 32 {
            ShParsed::Fail { err: TlsError::DecodeError }
        } else {
            let random = s1.take(32);
            let s2 = s1.skip(32);
            if s2.len() < 1 {
                ShParsed::Fail { err: TlsError::InvalidSessionIdLength }
            } else {
                let sid_len = s2[0] as int;
                let s3 = s2.skip(1);
                if s3.len() < sid_len {
                    ShParsed::Fail { err: TlsError::InvalidSessionIdLength }
                } else {
                    let sid = s3.take(sid_len);
                    let s4 = s3.skip(sid_len);
                    if s4.len() < 2 {
                        ShParsed::Fail { err: TlsError::InvalidCipherSuite }
                    } else {
                        match spec_cipher_suite_of(be16(s4[0], s4[1])) {
                            None => ShParsed::Fail { err: TlsError::InvalidCipherSuite },
                            Some(cs) => {
                                let s5 = s4.skip(2);
                                if s5.len() < 1 {
                                    ShParsed::Fail { err: TlsError::DecodeError }
                                } else {
                                    let s6 = s5.skip(1);
                                    match spec_parse_ext_block(s6) {
                                        ListParsed::Fail { err } => ShParsed::Fail { err },
                                        ListParsed::Done { exts } => ShParsed::Done {
                                            sh: ShModel {
                                                random,
                                                legacy_session_id_echo: sid,
                                                cipher_suite: cs,
                                                extensions: exts,
                                            },
                                            consumed: s.len() - s6.len() + 2 + be16(
                                                s6[0],
                                                s6[1],
                                            ) as int,
                                        },
                                    }
                                }
                            },
                        }
                    }
                }
            }
        }
    }
}

/// The first KeyShare extension in received order, if any.
pub open spec fn spec_first_key_share(exts: Seq<ExtModel>) -> Option<ExtModel>
    decreases exts.len(),
{
    if exts.len() == 0 {
        None
    } else {
        match exts[0] {
            ExtModel::KeyShare { .. } => Some(exts[0]),
            _ => spec_first_key_share(exts.skip(1)),
        }
    }
}

/// A decoded ServerHello, borrowing from the caller-owned receive buffer.
/// Immutable once constructed.
#[derive(Debug)]
pub struct ServerHello<'a> {
    random: &'a [u8],
    legacy_session_id_echo: &'a [u8],
    cipher_suite: CipherSuite,
    extensions: Vec<ServerExtension<'a>>,
}

impl<'a> View for ServerHello<'a> {
    type V = ShModel;

    closed spec fn view(&self) -> ShModel {
        ShModel {
            random: self.random@,
            legacy_session_id_echo: self.legacy_session_id_echo@,
            cipher_suite: self.cipher_suite,
            extensions: ext_views(self.extensions@),
        }
    }
}

impl<'a> ServerHello<'a> {
    /// The random is exactly 32 bytes and the extension list is within
    /// capacity.
    pub open spec fn wf(&self) -> bool {
        self@.random.len() == 32 && self@.extensions.len() <= MAX_EXTENSIONS
    }

    /// Feeds the entire raw input span into the running transcript hash,
    /// before and independent of any attempt to interpret it, then decodes.
    pub fn read(buf: &'a [u8], digest: &mut Transcript) -> (r: Result<ServerHello<'a>, TlsError>)
        ensures
            final(digest)@ == old(digest)@ + buf@,
            (match spec_parse_server_hello(buf@) {
                ShParsed::Done { sh, .. } => r matches Ok(h) && h@ == sh && h.wf(),
                ShParsed::Fail { err } => r matches Err(e) && e == err,
            }),
    {
        digest.update(buf);
        let mut pb = ParseBuffer::new(buf);
        Self::parse(&mut pb)
    }

    /// Single-pass decode of the fields in wire order; any step failing
    /// aborts the whole decode with the first error encountered.
    pub fn parse(buf: &mut ParseBuffer<'a>) -> (r: Result<ServerHello<'a>, TlsError>)
        requires
            old(buf).wf(),
        ensures
            final(buf).wf(),
            (match spec_parse_server_hello(old(buf).remaining()) {
                ShParsed::Done { sh, consumed } => r matches Ok(h) && h@ == sh && h.wf()
                    && final(buf).remaining() == old(buf).remaining().skip(consumed),
                ShParsed::Fail { err } => r matches Err(e) && e == err,
            }),
    {
        let ghost s = old(buf).remaining();
        let _version = match buf.read_u16() {
            Ok(v) => v,
            Err(_) => {
                return Err(TlsError::InvalidHandshake);
            },
        };
        let random = match buf.slice(32) {
            Ok(rb) => rb,
            Err(_) => {
                return Err(TlsError::DecodeError);
            },
        };
        proof {
            assert(random@ =~= s.skip(2).take(32));
            assert(buf.remaining() =~= s.skip(2).skip(32));
        }
        let session_id_length = match buf.read_u8() {
            Ok(b) => b,
            Err(_) => {
                return Err(TlsError::InvalidSessionIdLength);
            },
        };
        let session_id = match buf.slice(session_id_length as usize) {
            Ok(x) => x,
            Err(_) => {
                return Err(TlsError::InvalidSessionIdLength);
            },
        };
        proof {
            assert(session_id@ =~= s.skip(2).skip(32).skip(1).take(session_id_length as int));
            assert(buf.remaining() =~= s.skip(2).skip(32).skip(1).skip(session_id_length as int));
        }
        let cipher_code = match buf.read_u16() {
            Ok(c) => c,
            Err(_) => {
                return Err(TlsError::InvalidCipherSuite);
            },
        };
        let cipher_suite = match CipherSuite::of(cipher_code) {
            Some(cs) => cs,
            None => {
                return Err(TlsError::InvalidCipherSuite);
            },
        };
        // Compression method: its presence is checked, its value is not.
        match buf.read_u8() {
            Ok(_) => (),
            Err(_) => {
                return Err(TlsError::DecodeError);
            },
        };
        proof {
            assert(buf.remaining() =~= s.skip(2).skip(32).skip(1).skip(
                session_id_length as int,
            ).skip(2).skip(1));
        }
        let extensions = match ServerExtension::parse_vector(buf) {
            Ok(v) => v,
            Err(e) => {
                return Err(e);
            },
        };
        let h = ServerHello { random, legacy_session_id_echo: session_id, cipher_suite, extensions };
        proof {
            match spec_parse_server_hello(s) {
                ShParsed::Done { sh, consumed } => {
                    assert(h@ =~= sh);
                    assert(buf.remaining() =~= s.skip(consumed));
                },
                ShParsed::Fail { .. } => {
                    assert(false);
                },
            }
        }
        Ok(h)
    }

    /// Scans the decoded extensions in received order for the first KeyShare
    /// and hands it out, or nothing when none is present.
    pub fn key_share(&self) -> (r: Option<&KeyShareEntry<'a>>)
        ensures
            (match spec_first_key_share(self@.extensions) {
                Some(m) => r matches Some(k) && (m matches ExtModel::KeyShare { group, key }
                    && k.group == group && k.opaque@ == key),
                None => r is None,
            }),
    {
        let ghost views = ext_views(self.extensions@);
        proof {
            assert(views.skip(0) =~= views);
        }
        let mut i: usize = 0;
        while i < self.extensions.len()
            invariant
                i <= self.extensions@.len(),
                views == ext_views(self.extensions@),
                views == self@.extensions,
                spec_first_key_share(views) == spec_first_key_share(views.skip(i as int)),
            decreases self.extensions@.len() - i,
        {
            match &self.extensions[i] {
                ServerExtension::KeyShare(entry) => {
                    proof {
                        assert(views.skip(i as int)[0] == views[i as int]);
                    }
                    return Some(entry);
                },
                _ => {},
            }
            proof {
                assert(views.skip(i as int)[0] == views[i as int]);
                assert(views.skip(i as int).skip(1) =~= views.skip(i as int + 1));
            }
            i = i + 1;
        }
        proof {
            assert(views.skip(i as int).len() == 0);
        }
        None
    }

    /// Parses the key share's public bytes as a point on the negotiated
    /// group and performs the Diffie-Hellman exchange. Nothing comes back
    /// exactly when no KeyShare extension is present or its bytes are not a
    /// valid point encoding; neither case is a protocol-fatal error here.
    pub fn calculate_shared_secret(&self, secret: &EphemeralSecret) -> (r: Option<SharedSecret>)
        ensures
            (match spec_first_key_share(self@.extensions) {
                Some(m) => m matches ExtModel::KeyShare { key, .. } ==> r.is_some()
                    == sec1_point_valid(key),
                None => r is None,
            }),
    {
        let ks = match self.key_share() {
            Some(k) => k,
            None => {
                return None;
            },
        };
        let pk = match parse_public_key(ks.opaque) {
            Some(p) => p,
            None => {
                return None;
            },
        };
        Some(secret.diffie_hellman(&pk))
    }

    /// Consumes the ephemeral secret — the exchange is single-use — and on
    /// success hands back the cryptographic engine constructed from the
    /// negotiated group and the derived shared secret. Nothing comes back
    /// exactly when no KeyShare is present or its point encoding is invalid;
    /// the caller decides whether that is fatal.
    pub fn initialize_crypto_engine(&self, secret: EphemeralSecret) -> (r: Option<CryptoEngine>)
        ensures
            (match spec_first_key_share(self@.extensions) {
                Some(m) => m matches ExtModel::KeyShare { group, key } ==> (if sec1_point_valid(
                    key,
                ) {
                    r matches Some(eng) && eng.group_id() == group
                } else {
                    r is None
                }),
                None => r is None,
            }),
    {
        let ks = match self.key_share() {
            Some(k) => k,
            None => {
                return None;
            },
        };
        let group = ks.group;
        let pk = match parse_public_key(ks.opaque) {
            Some(p) => p,
            None => {
                return None;
            },
        };
        let shared = secret.diffie_hellman(&pk);
        Some(CryptoEngine::new(group, shared))
    }

    /// The 32-byte server random.
    pub fn random(&self) -> (r: &'a [u8])
        ensures
            r@ == self@.random,
    {
        self.random
    }

    /// The echoed legacy session id.
    pub fn legacy_session_id_echo(&self) -> (r: &'a [u8])
        ensures
            r@ == self@.legacy_session_id_echo,
    {
        self.legacy_session_id_echo
    }

    /// The negotiated cipher suite.
    pub fn cipher_suite(&self) -> (r: CipherSuite)
        ensures
            r == self@.cipher_suite,
    {
        self.cipher_suite
    }

    /// The decoded extensions, in received order.
    pub fn extensions(&self) -> (r: &Vec<ServerExtension<'a>>)
        ensures
            ext_views(r@) == self@.extensions,
    {
        &self.extensions
    }
}

/// A session-id length byte claiming more bytes than remain in the input
/// fails with `InvalidSessionIdLength`; no bytes past the input are read.
pub proof fn lemma_session_id_truncation(s: Seq<u8>)
    requires
        s.len() >= 35,
        s[34] as int > s.len() - 35,
    ensures
        spec_parse_server_hello(s) == (ShParsed::Fail { err: TlsError::InvalidSessionIdLength }),
{
    let s1 = s.skip(2);
    let s2 = s1.skip(32);
    assert(s2[0] == s[34]);
    assert(s2.skip(1).len() == s.len() - 35);
}

/// A cipher-suite code outside the known-suite table fails with
/// `InvalidCipherSuite`.
pub proof fn lemma_unknown_cipher_suite(s: Seq<u8>)
    requires
        s.len() >= 35,
        s.len() >= 37 + s[34] as int,
        spec_cipher_suite_of(be16(s[35 + s[34] as int], s[36 + s[34] as int])) is None,
    ensures
        spec_parse_server_hello(s) == (ShParsed::Fail { err: TlsError::InvalidCipherSuite }),
{
    let n = s[34] as int;
    let s1 = s.skip(2);
    let s2 = s1.skip(32);
    let s3 = s2.skip(1);
    let s4 = s3.skip(n);
    assert(s2[0] == s[34]);
    assert(s3.len() == s.len() - 35);
    assert(s4[0] == s[35 + n] && s4[1] == s[36 + n]);
}

} // verus!
