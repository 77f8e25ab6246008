use vstd::prelude::*;

use p256::elliptic_curve::Generate;

verus! {

/// Locally generated ECDH ephemeral secret over P-256, held opaquely.
/// Deriving a shared secret through `ServerHello::initialize_crypto_engine`
/// consumes it: the exchange is single-use.
#[verifier::external_body]
pub struct EphemeralSecret {
    inner: p256::ecdh::EphemeralSecret,
}

/// Shared secret produced by the ECDH key agreement, held opaquely.
#[verifier::external_body]
pub struct SharedSecret {
    inner: p256::ecdh::SharedSecret,
}

/// A peer public key already checked to lie on the curve, held opaquely.
#[verifier::external_body]
pub struct PublicKey {
    inner: p256::PublicKey,
}

/// Whether a byte sequence is a valid SEC1 encoding of a point on the P-256
/// curve, as p256::PublicKey::from_sec1_bytes decides it: a function of the
/// bytes alone.
pub uninterp spec fn sec1_point_valid(bytes: Seq<u8>) -> bool;

/// Relies on p256::PublicKey::from_sec1_bytes: it parses a SEC1 point
/// encoding and returns Ok exactly on valid ones, deciding by the bytes
/// alone.
#[verifier::external_body]
pub(crate) fn parse_public_key(bytes: &[u8]) -> (r: Option<PublicKey>)
    ensures
        r.is_some() == sec1_point_valid(bytes@),
{
    match p256::PublicKey::from_sec1_bytes(bytes) {
        Ok(inner) => Some(PublicKey { inner }),
        Err(_) => None,
    }
}

impl EphemeralSecret {
    /// Relies on Generate::generate (crypto-common, via p256): draws a fresh
    /// ephemeral secret from the system's random number generator. Nothing
    /// is assumed of the value drawn.
    #[verifier::external_body]
    pub fn generate() -> (r: EphemeralSecret) {
        EphemeralSecret { inner: p256::ecdh::EphemeralSecret::generate() }
    }

    /// Relies on EphemeralSecret::public_key and p256::Sec1Point: the SEC1
    /// encoding of this secret's public point, which from_sec1_bytes
    /// accepts again.
    #[verifier::external_body]
    pub fn public_key_sec1(&self) -> (r: Vec<u8>)
        ensures
            sec1_point_valid(r@),
    {
        let point = p256::Sec1Point::from(self.inner.public_key());
        point.as_ref().to_vec()
    }

    /// Relies on EphemeralSecret::diffie_hellman: the ECDH key agreement
    /// over P-256. Nothing is assumed of the secret value it returns.
    #[verifier::external_body]
    pub(crate) fn diffie_hellman(&self, peer: &PublicKey) -> SharedSecret {
        SharedSecret { inner: self.inner.diffie_hellman(&peer.inner) }
    }
}

impl SharedSecret {
    /// Relies on SharedSecret::raw_secret_bytes: the raw byte value of the
    /// shared secret. Nothing is assumed of it.
    #[verifier::external_body]
    pub fn raw_bytes(&self) -> Vec<u8> {
        self.inner.raw_secret_bytes().to_vec()
    }
}

/// Handle over the record-layer cryptography, constructed from the
/// negotiated group and the shared secret the key exchange produced.
/// Opaque to this layer beyond its constructor contract.
pub struct CryptoEngine {
    group: u16,
    shared: SharedSecret,
}

impl CryptoEngine {
    /// The group identifier this engine was constructed with.
    pub closed spec fn group_id(&self) -> u16 {
        self.group
    }

    pub fn new(group: u16, shared: SharedSecret) -> (r: CryptoEngine)
        ensures
            r.group_id() == group,
    {
        CryptoEngine { group, shared }
    }

    /// The negotiated group identifier.
    pub fn group(&self) -> (r: u16)
        ensures
            r == self.group_id(),
    {
        self.group
    }
}

} // verus!
