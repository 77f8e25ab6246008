use tls_hello::alert::AlertDescription;
use tls_hello::alert::AlertLevel;
use tls_hello::cipher_suites::CipherSuite;
use tls_hello::crypto::EphemeralSecret;
use tls_hello::server_hello::ServerHello;
use tls_hello::transcript::Transcript;
use tls_hello::TlsError;
use p256::elliptic_curve::Generate;

/// Builds a ServerHello byte sequence from its parts, computing the
/// extensions-block length prefix from the given block body.
fn build_server_hello(
    random: &[u8; 32],
    session_id: &[u8],
    cipher_suite: u16,
    ext_block: &[u8],
) -> Vec<u8> {
    let mut out = Vec::new();
    out.extend_from_slice(&[0x03, 0x03]);
    out.extend_from_slice(random);
    out.push(session_id.len() as u8);
    out.extend_from_slice(session_id);
    out.extend_from_slice(&cipher_suite.to_be_bytes());
    out.push(0x00);
    out.extend_from_slice(&(ext_block.len() as u16).to_be_bytes());
    out.extend_from_slice(ext_block);
    out
}

#[test]
fn concrete_key_share_scenario() {
    // 00 00 | random[32]=0x00..00 | 00 | known suite | 00 | 00 06 00 33 00 02 00 1d
    let mut bytes = vec![0x00u8, 0x00];
    bytes.extend_from_slice(&[0u8; 32]);
    bytes.push(0x00);
    bytes.extend_from_slice(&[0x13, 0x01]);
    bytes.push(0x00);
    bytes.extend_from_slice(&[0x00, 0x06, 0x00, 0x33, 0x00, 0x02, 0x00, 0x1d]);

    let mut digest = Transcript::new();
    let sh = ServerHello::read(&bytes, &mut digest).expect("decode must succeed");
    let ks = sh.key_share().expect("a KeyShareEntry must be extracted");
    assert_eq!(ks.group, 0x001d);
    assert_eq!(ks.opaque.len(), 0);
    // A zero-length key is not a valid point encoding, so derivation fails
    // softly; the ServerHello decode itself stood.
    let secret = EphemeralSecret::generate();
    assert!(sh.calculate_shared_secret(&secret).is_none());
    assert!(sh.initialize_crypto_engine(secret).is_none());
}

#[test]
fn decodes_fields_exactly() {
    let random = [7u8; 32];
    let session_id = [1u8, 2, 3, 4];
    let sh_bytes = build_server_hello(&random, &session_id, 0x1302, &[]);
    let mut digest = Transcript::new();
    let sh = ServerHello::read(&sh_bytes, &mut digest).unwrap();
    assert_eq!(sh.random(), &random);
    assert_eq!(sh.legacy_session_id_echo(), &session_id);
    assert_eq!(sh.cipher_suite(), CipherSuite::TlsAes256GcmSha384);
    assert_eq!(sh.extensions().len(), 0);
}

#[test]
fn short_input_is_invalid_handshake() {
    let bytes = [0x03u8];
    let mut digest = Transcript::new();
    assert_eq!(
        ServerHello::read(&bytes, &mut digest).unwrap_err(),
        TlsError::InvalidHandshake
    );
}

#[test]
fn truncated_random_is_decode_error() {
    let mut bytes = vec![0x03u8, 0x03];
    bytes.extend_from_slice(&[0u8; 16]);
    let mut digest = Transcript::new();
    assert_eq!(
        ServerHello::read(&bytes, &mut digest).unwrap_err(),
        TlsError::DecodeError
    );
}

#[test]
fn session_id_truncation() {
    // The length byte claims five bytes; only two remain.
    let mut bytes = vec![0x03u8, 0x03];
    bytes.extend_from_slice(&[0u8; 32]);
    bytes.push(5);
    bytes.extend_from_slice(&[0xaa, 0xbb]);
    let mut digest = Transcript::new();
    assert_eq!(
        ServerHello::read(&bytes, &mut digest).unwrap_err(),
        TlsError::InvalidSessionIdLength
    );
}

#[test]
fn unknown_cipher_suite_is_rejected() {
    let sh_bytes = build_server_hello(&[0u8; 32], &[], 0x0000, &[]);
    let mut digest = Transcript::new();
    assert_eq!(
        ServerHello::read(&sh_bytes, &mut digest).unwrap_err(),
        TlsError::InvalidCipherSuite
    );
}

#[test]
fn missing_compression_byte_is_decode_error() {
    let mut bytes = vec![0x03u8, 0x03];
    bytes.extend_from_slice(&[0u8; 32]);
    bytes.push(0);
    bytes.extend_from_slice(&[0x13, 0x01]);
    let mut digest = Transcript::new();
    assert_eq!(
        ServerHello::read(&bytes, &mut digest).unwrap_err(),
        TlsError::DecodeError
    );
}

#[test]
fn foreign_extension_is_fatal_illegal_parameter() {
    // ServerName is legal elsewhere, never in a ServerHello: the handshake
    // must abort with the fatal illegal-parameter alert, not a generic error.
    let ext_block = [0x00u8, 0x00, 0x00, 0x00];
    let sh_bytes = build_server_hello(&[0u8; 32], &[], 0x1301, &ext_block);
    let mut digest = Transcript::new();
    assert_eq!(
        ServerHello::read(&sh_bytes, &mut digest).unwrap_err(),
        TlsError::AbortHandshake(AlertLevel::Fatal, AlertDescription::IllegalParameter)
    );
}

#[test]
fn unknown_extension_is_distinct_error() {
    let ext_block = [0xfau8, 0xfa, 0x00, 0x00];
    let sh_bytes = build_server_hello(&[0u8; 32], &[], 0x1301, &ext_block);
    let mut digest = Transcript::new();
    assert_eq!(
        ServerHello::read(&sh_bytes, &mut digest).unwrap_err(),
        TlsError::UnknownExtensionType
    );
}

#[test]
fn capacity_boundary_full_block_decodes() {
    // Exactly the maximum number of extensions decodes successfully.
    let mut ext_block = Vec::new();
    for _ in 0..16 {
        ext_block.extend_from_slice(&[0x00, 0x31, 0x00, 0x00]);
    }
    let sh_bytes = build_server_hello(&[0u8; 32], &[], 0x1301, &ext_block);
    let mut digest = Transcript::new();
    let sh = ServerHello::read(&sh_bytes, &mut digest).unwrap();
    assert_eq!(sh.extensions().len(), 16);
}

#[test]
fn capacity_boundary_one_more_fails() {
    let mut ext_block = Vec::new();
    for _ in 0..17 {
        ext_block.extend_from_slice(&[0x00, 0x31, 0x00, 0x00]);
    }
    let sh_bytes = build_server_hello(&[0u8; 32], &[], 0x1301, &ext_block);
    let mut digest = Transcript::new();
    assert_eq!(
        ServerHello::read(&sh_bytes, &mut digest).unwrap_err(),
        TlsError::CapacityExceeded
    );
}

#[test]
fn no_key_share_yields_no_secret_and_no_engine() {
    // SupportedVersions only: decoding succeeds, the key exchange finds
    // nothing, and nothing fails.
    let ext_block = [0x00u8, 0x2b, 0x00, 0x02, 0x03, 0x04];
    let sh_bytes = build_server_hello(&[0u8; 32], &[], 0x1301, &ext_block);
    let mut digest = Transcript::new();
    let sh = ServerHello::read(&sh_bytes, &mut digest).unwrap();
    assert!(sh.key_share().is_none());
    let secret = EphemeralSecret::generate();
    assert!(sh.calculate_shared_secret(&secret).is_none());
    assert!(sh.initialize_crypto_engine(secret).is_none());
}

#[test]
fn valid_point_derives_matching_shared_secret() {
    // The server side is played by a p256 ephemeral secret; its public key
    // travels inside the KeyShare extension.
    let server_secret = p256::ecdh::EphemeralSecret::generate();
    let server_pub = p256::Sec1Point::from(server_secret.public_key());
    let server_pub_bytes: &[u8] = server_pub.as_ref();

    let mut ext_block = vec![0x00u8, 0x33];
    ext_block.extend_from_slice(&((server_pub_bytes.len() + 2) as u16).to_be_bytes());
    ext_block.extend_from_slice(&[0x00, 0x17]);
    ext_block.extend_from_slice(server_pub_bytes);

    let sh_bytes = build_server_hello(&[0u8; 32], &[], 0x1301, &ext_block);
    let mut digest = Transcript::new();
    let sh = ServerHello::read(&sh_bytes, &mut digest).unwrap();
    assert_eq!(sh.key_share().unwrap().group, 0x0017);

    let client_secret = EphemeralSecret::generate();
    let client_pub_bytes = client_secret.public_key_sec1();

    let shared = sh.calculate_shared_secret(&client_secret).expect("valid point must derive");
    let client_view = shared.raw_bytes();

    // The server derives the same secret from the client's public key.
    let client_pub = p256::PublicKey::from_sec1_bytes(&client_pub_bytes).unwrap();
    let server_view = server_secret.diffie_hellman(&client_pub);
    assert_eq!(client_view.as_slice(), server_view.raw_secret_bytes().as_slice());

    let engine = sh.initialize_crypto_engine(client_secret).expect("engine must be constructed");
    assert_eq!(engine.group(), 0x0017);
}
