use tls_hello::buffer::CryptoBuffer;
use tls_hello::cipher_suites::CipherSuite;
use tls_hello::extension_type::ExtensionType;
use tls_hello::heartbeat::Heartbeat;
use tls_hello::key_share::KeyShareEntry;
use tls_hello::parse_buffer::ParseBuffer;
use tls_hello::parse_buffer::ParseError;
use tls_hello::server_extension::ServerExtension;
use tls_hello::alert::AlertDescription;
use tls_hello::alert::AlertLevel;
use tls_hello::TlsError;

#[test]
fn heartbeat_round_trip_allowed() {
    let mut buf = CryptoBuffer::new();
    Heartbeat::PeerAllowedToSend.encode(&mut buf).unwrap();
    let bytes = buf.into_vec();
    assert_eq!(bytes, vec![1u8]);
    let mut pb = ParseBuffer::new(&bytes);
    assert_eq!(Heartbeat::parse(&mut pb), Ok(Heartbeat::PeerAllowedToSend));
}

// RFC 6520 gives byte 2 its own mode: it must decode to PeerNotAllowedToSend,
// not be conflated with the other variant.
#[test]
fn heartbeat_round_trip_not_allowed() {
    let mut buf = CryptoBuffer::new();
    Heartbeat::PeerNotAllowedToSend.encode(&mut buf).unwrap();
    let bytes = buf.into_vec();
    assert_eq!(bytes, vec![2u8]);
    let mut pb = ParseBuffer::new(&bytes);
    assert_eq!(Heartbeat::parse(&mut pb), Ok(Heartbeat::PeerNotAllowedToSend));
}

#[test]
fn heartbeat_invalid_byte() {
    let bytes = [3u8];
    let mut pb = ParseBuffer::new(&bytes);
    assert_eq!(Heartbeat::parse(&mut pb), Err(ParseError::InvalidData));
}

#[test]
fn heartbeat_empty_input() {
    let bytes: [u8; 0] = [];
    let mut pb = ParseBuffer::new(&bytes);
    assert_eq!(Heartbeat::parse(&mut pb), Err(ParseError::InsufficientData));
}

#[test]
fn extension_type_codes_round_trip() {
    let codes: [u16; 19] = [0, 1, 5, 10, 13, 14, 15, 16, 19, 20, 21, 41, 43, 45, 47, 48, 49, 50, 51];
    for &code in codes.iter() {
        let t = ExtensionType::of(code).expect("known code must resolve");
        assert_eq!(t.code(), code);
    }
    assert_eq!(ExtensionType::of(2), None);
    assert_eq!(ExtensionType::of(0xfafa), None);
}

#[test]
fn extension_type_parse_unknown_is_invalid_data() {
    let bytes = [0xfau8, 0xfa];
    let mut pb = ParseBuffer::new(&bytes);
    assert_eq!(ExtensionType::parse(&mut pb), Err(ParseError::InvalidData));
}

#[test]
fn cipher_suite_table() {
    assert_eq!(CipherSuite::of(0x1301), Some(CipherSuite::TlsAes128GcmSha256));
    assert_eq!(CipherSuite::of(0x1302), Some(CipherSuite::TlsAes256GcmSha384));
    assert_eq!(CipherSuite::of(0x1303), Some(CipherSuite::TlsChacha20Poly1305Sha256));
    assert_eq!(CipherSuite::of(0x1304), Some(CipherSuite::TlsAes128CcmSha256));
    assert_eq!(CipherSuite::of(0x1305), Some(CipherSuite::TlsAes128Ccm8Sha256));
    assert_eq!(CipherSuite::of(0x1301).unwrap().code(), 0x1301);
    assert_eq!(CipherSuite::of(0x0000), None);
    assert_eq!(CipherSuite::of(0x1306), None);
}

#[test]
fn key_share_extension_round_trip() {
    let key = [0xaau8, 0xbb, 0xcc];
    let ext = ServerExtension::KeyShare(KeyShareEntry { group: 0x001d, opaque: &key });
    let mut buf = CryptoBuffer::new();
    ext.encode(&mut buf).unwrap();
    let bytes = buf.into_vec();
    assert_eq!(bytes, vec![0x00, 0x33, 0x00, 0x05, 0x00, 0x1d, 0xaa, 0xbb, 0xcc]);
    let mut pb = ParseBuffer::new(&bytes);
    match ServerExtension::parse(&mut pb).unwrap() {
        ServerExtension::KeyShare(entry) => {
            assert_eq!(entry.group, 0x001d);
            assert_eq!(entry.opaque, &key);
        },
        _ => panic!("expected a KeyShare extension"),
    }
    assert_eq!(pb.remaining_len(), 0);
}

#[test]
fn pre_shared_key_extension_round_trip() {
    let ext = ServerExtension::PreSharedKey(0x0102);
    let mut buf = CryptoBuffer::new();
    ext.encode(&mut buf).unwrap();
    let bytes = buf.into_vec();
    assert_eq!(bytes, vec![0x00, 0x29, 0x00, 0x02, 0x01, 0x02]);
    let mut pb = ParseBuffer::new(&bytes);
    assert!(matches!(ServerExtension::parse(&mut pb).unwrap(), ServerExtension::PreSharedKey(0x0102)));
}

#[test]
fn supported_versions_extension_round_trip() {
    let ext = ServerExtension::SupportedVersions(0x0304);
    let mut buf = CryptoBuffer::new();
    ext.encode(&mut buf).unwrap();
    let bytes = buf.into_vec();
    assert_eq!(bytes, vec![0x00, 0x2b, 0x00, 0x02, 0x03, 0x04]);
    let mut pb = ParseBuffer::new(&bytes);
    assert!(matches!(ServerExtension::parse(&mut pb).unwrap(), ServerExtension::SupportedVersions(0x0304)));
}

#[test]
fn post_handshake_auth_extension_round_trip() {
    let ext = ServerExtension::PostHandshakeAuth;
    let mut buf = CryptoBuffer::new();
    ext.encode(&mut buf).unwrap();
    let bytes = buf.into_vec();
    assert_eq!(bytes, vec![0x00, 0x31, 0x00, 0x00]);
    let mut pb = ParseBuffer::new(&bytes);
    assert!(matches!(ServerExtension::parse(&mut pb).unwrap(), ServerExtension::PostHandshakeAuth));
}

#[test]
fn unknown_extension_code_is_distinct_error() {
    let bytes = [0xfau8, 0xfa, 0x00, 0x00];
    let mut pb = ParseBuffer::new(&bytes);
    assert_eq!(
        ServerExtension::parse(&mut pb).unwrap_err(),
        TlsError::UnknownExtensionType
    );
}

#[test]
fn recognized_foreign_extension_aborts() {
    // ServerName (code 0) is a known type, but not legal in a ServerHello.
    let bytes = [0x00u8, 0x00, 0x00, 0x00];
    let mut pb = ParseBuffer::new(&bytes);
    assert_eq!(
        ServerExtension::parse(&mut pb).unwrap_err(),
        TlsError::AbortHandshake(AlertLevel::Fatal, AlertDescription::IllegalParameter)
    );
}

#[test]
fn key_share_payload_too_short_is_decode_error() {
    // KeyShare payload of one byte cannot hold a group identifier.
    let bytes = [0x00u8, 0x33, 0x00, 0x01, 0x1d];
    let mut pb = ParseBuffer::new(&bytes);
    assert_eq!(ServerExtension::parse(&mut pb).unwrap_err(), TlsError::DecodeError);
}

#[test]
fn post_handshake_auth_payload_must_be_empty() {
    let bytes = [0x00u8, 0x31, 0x00, 0x01, 0x00];
    let mut pb = ParseBuffer::new(&bytes);
    assert_eq!(ServerExtension::parse(&mut pb).unwrap_err(), TlsError::DecodeError);
}

#[test]
fn oversized_payload_cannot_be_encoded() {
    // A key-share payload longer than the two-byte length prefix can carry.
    let key = vec![0u8; 0x10000];
    let ext = ServerExtension::KeyShare(KeyShareEntry { group: 0x0017, opaque: &key });
    let mut buf = CryptoBuffer::new();
    assert_eq!(ext.encode(&mut buf), Err(TlsError::EncodeError));
}

#[test]
fn extension_length_prefix_truncation_is_decode_error() {
    // Length prefix claims four payload bytes, only two remain.
    let bytes = [0x00u8, 0x29, 0x00, 0x04, 0x01, 0x02];
    let mut pb = ParseBuffer::new(&bytes);
    assert_eq!(ServerExtension::parse(&mut pb).unwrap_err(), TlsError::DecodeError);
}
