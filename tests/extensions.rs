use custls::types::{BROTLI, ECDSA_NISTP256_SHA256, ED25519, RSA_PSS_SHA256, ZLIB, ZSTD};
use custls::{
    ApplicationSettingsExtension, CertificateCompressionAlgorithm, CompressCertificateExtension,
    DelegatedCredentialExtension, InvalidMessage, PaddingExtension, Reader, SignatureScheme,
    SignedCertificateTimestampExtension, StatusRequestExtension,
};

#[test]
fn test_application_settings_empty() {
    let ext = ApplicationSettingsExtension::empty();
    assert_eq!(ext.protocols.len(), 0);
    let mut bytes = Vec::new();
    ext.encode(&mut bytes);
    assert_eq!(bytes, vec![0, 0]);
    let mut reader = Reader::init(&bytes);
    let decoded = ApplicationSettingsExtension::read(&mut reader).unwrap();
    assert_eq!(ext, decoded);
}

#[test]
fn test_application_settings_single_protocol() {
    let ext = ApplicationSettingsExtension::new(vec![b"h2".to_vec()]);
    let mut bytes = Vec::new();
    ext.encode(&mut bytes);
    assert_eq!(bytes.len(), 2 + 1 + 2);
    let mut reader = Reader::init(&bytes);
    let decoded = ApplicationSettingsExtension::read(&mut reader).unwrap();
    assert_eq!(ext, decoded);
}

#[test]
fn test_application_settings_multiple_protocols() {
    let ext = ApplicationSettingsExtension::new(vec![b"h2".to_vec(), b"http/1.1".to_vec()]);
    let mut bytes = Vec::new();
    ext.encode(&mut bytes);
    let mut reader = Reader::init(&bytes);
    let decoded = ApplicationSettingsExtension::read(&mut reader).unwrap();
    assert_eq!(ext, decoded);
}

#[test]
fn test_delegated_credential_empty() {
    let ext = DelegatedCredentialExtension::empty();
    assert_eq!(ext.signature_algorithms.len(), 0);
    let mut bytes = Vec::new();
    ext.encode(&mut bytes);
    assert_eq!(bytes, vec![0, 0]);
    let mut reader = Reader::init(&bytes);
    let decoded = DelegatedCredentialExtension::read(&mut reader).unwrap();
    assert_eq!(ext, decoded);
}

#[test]
fn test_delegated_credential_single_algorithm() {
    let ext = DelegatedCredentialExtension::new(vec![SignatureScheme(ECDSA_NISTP256_SHA256)]);
    let mut bytes = Vec::new();
    ext.encode(&mut bytes);
    assert_eq!(bytes.len(), 2 + 2);
    let mut reader = Reader::init(&bytes);
    let decoded = DelegatedCredentialExtension::read(&mut reader).unwrap();
    assert_eq!(ext, decoded);
}

#[test]
fn test_delegated_credential_multiple_algorithms() {
    let ext = DelegatedCredentialExtension::new(vec![
        SignatureScheme(ECDSA_NISTP256_SHA256),
        SignatureScheme(RSA_PSS_SHA256),
        SignatureScheme(ED25519),
    ]);
    let mut bytes = Vec::new();
    ext.encode(&mut bytes);
    let mut reader = Reader::init(&bytes);
    let decoded = DelegatedCredentialExtension::read(&mut reader).unwrap();
    assert_eq!(ext, decoded);
}

#[test]
fn test_compress_certificate_empty() {
    let ext = CompressCertificateExtension::empty();
    assert_eq!(ext.algorithms.len(), 0);
    let mut bytes = Vec::new();
    ext.encode(&mut bytes);
    assert_eq!(bytes, vec![0]);
    let mut reader = Reader::init(&bytes);
    let decoded = CompressCertificateExtension::read(&mut reader).unwrap();
    assert_eq!(ext, decoded);
}

#[test]
fn test_compress_certificate_single_algorithm() {
    let ext = CompressCertificateExtension::new(vec![CertificateCompressionAlgorithm(BROTLI)]);
    let mut bytes = Vec::new();
    ext.encode(&mut bytes);
    assert_eq!(bytes.len(), 1 + 2);
    let mut reader = Reader::init(&bytes);
    let decoded = CompressCertificateExtension::read(&mut reader).unwrap();
    assert_eq!(ext, decoded);
}

#[test]
fn test_compress_certificate_multiple_algorithms() {
    let ext = CompressCertificateExtension::new(vec![
        CertificateCompressionAlgorithm(ZLIB),
        CertificateCompressionAlgorithm(BROTLI),
        CertificateCompressionAlgorithm(ZSTD),
    ]);
    let mut bytes = Vec::new();
    ext.encode(&mut bytes);
    let mut reader = Reader::init(&bytes);
    let decoded = CompressCertificateExtension::read(&mut reader).unwrap();
    assert_eq!(ext, decoded);
}

#[test]
fn test_padding_zero_length() {
    let ext = PaddingExtension::empty();
    assert_eq!(ext.length, 0);
    let mut bytes = Vec::new();
    ext.encode(&mut bytes);
    assert_eq!(bytes.len(), 0);
}

#[test]
fn test_padding_specific_length() {
    let ext = PaddingExtension::new(100);
    assert_eq!(ext.length, 100);
    let mut bytes = Vec::new();
    ext.encode(&mut bytes);
    assert_eq!(bytes.len(), 100);
    assert!(bytes.iter().all(|&b| b == 0));
}

#[test]
fn test_padding_maximum_length() {
    let ext = PaddingExtension::new(1500);
    let mut bytes = Vec::new();
    ext.encode(&mut bytes);
    assert_eq!(bytes.len(), 1500);
    assert!(bytes.iter().all(|&b| b == 0));
}

#[test]
fn test_padding_decode() {
    let padding_data = vec![0u8; 256];
    let mut reader = Reader::init(&padding_data);
    let decoded = PaddingExtension::read(&mut reader).unwrap();
    assert_eq!(decoded.length, 256);
}

#[test]
fn test_status_request_ocsp() {
    let ext = StatusRequestExtension::ocsp();
    assert_eq!(ext.status_type, 1);
    assert_eq!(ext.responder_id_list.len(), 0);
    assert_eq!(ext.request_extensions.len(), 0);
    let mut bytes = Vec::new();
    ext.encode(&mut bytes);
    assert_eq!(bytes, vec![1, 0, 0, 0, 0]);
    let mut reader = Reader::init(&bytes);
    let decoded = StatusRequestExtension::read(&mut reader).unwrap();
    assert_eq!(ext, decoded);
}

#[test]
fn test_status_request_with_responders() {
    let ext = StatusRequestExtension::new(1, vec![b"responder1".to_vec(), b"responder2".to_vec()], vec![]);
    let mut bytes = Vec::new();
    ext.encode(&mut bytes);
    let mut reader = Reader::init(&bytes);
    let decoded = StatusRequestExtension::read(&mut reader).unwrap();
    assert_eq!(ext, decoded);
}

#[test]
fn test_status_request_with_extensions() {
    let ext = StatusRequestExtension::new(1, vec![], vec![1, 2, 3, 4, 5]);
    let mut bytes = Vec::new();
    ext.encode(&mut bytes);
    let mut reader = Reader::init(&bytes);
    let decoded = StatusRequestExtension::read(&mut reader).unwrap();
    assert_eq!(ext, decoded);
}

#[test]
fn test_sct_extension() {
    let ext = SignedCertificateTimestampExtension::new();
    let mut bytes = Vec::new();
    ext.encode(&mut bytes);
    assert_eq!(bytes.len(), 0);
    let mut reader = Reader::init(&bytes);
    let decoded = SignedCertificateTimestampExtension::read(&mut reader).unwrap();
    assert_eq!(ext, decoded);
}

#[test]
fn test_sct_extension_default() {
    let ext = SignedCertificateTimestampExtension::default();
    let mut bytes = Vec::new();
    ext.encode(&mut bytes);
    assert_eq!(bytes.len(), 0);
}

#[test]
fn padding_round_trip_scenario() {
    let ext = PaddingExtension::new(100);
    let mut bytes = Vec::new();
    ext.encode(&mut bytes);
    assert_eq!(bytes, vec![0u8; 100]);
    let mut reader = Reader::init(&bytes);
    assert_eq!(PaddingExtension::read(&mut reader).unwrap().length, 100);
}

#[test]
fn status_request_exact_bytes_scenario() {
    let ext = StatusRequestExtension::new(1, vec![], vec![]);
    let mut bytes = Vec::new();
    ext.encode(&mut bytes);
    assert_eq!(bytes, vec![0x01, 0x00, 0x00, 0x00, 0x00]);
    let mut reader = Reader::init(&bytes);
    assert_eq!(StatusRequestExtension::read(&mut reader).unwrap(), ext);
}

#[test]
fn exact_wire_bytes_of_lists() {
    let mut bytes = Vec::new();
    ApplicationSettingsExtension::new(vec![b"h2".to_vec()]).encode(&mut bytes);
    assert_eq!(bytes, vec![0, 3, 2, b'h', b'2']);
    let mut bytes = Vec::new();
    DelegatedCredentialExtension::new(vec![SignatureScheme(0x0403), SignatureScheme(0x0804)]).encode(&mut bytes);
    assert_eq!(bytes, vec![0, 4, 0x04, 0x03, 0x08, 0x04]);
    let mut bytes = Vec::new();
    CompressCertificateExtension::new(vec![CertificateCompressionAlgorithm(2)]).encode(&mut bytes);
    assert_eq!(bytes, vec![2, 0, 2]);
    let mut bytes = Vec::new();
    StatusRequestExtension::new(1, vec![vec![7]], vec![9]).encode(&mut bytes);
    assert_eq!(bytes, vec![1, 0, 3, 0, 1, 7, 0, 1, 9]);
}

#[test]
fn decode_errors() {
    let odd = vec![0u8, 3, 1, 2, 3];
    let mut r = Reader::init(&odd);
    assert_eq!(DelegatedCredentialExtension::read(&mut r), Err(InvalidMessage::OddLength));
    let odd = vec![3u8, 1, 2, 3];
    let mut r = Reader::init(&odd);
    assert_eq!(CompressCertificateExtension::read(&mut r), Err(InvalidMessage::OddLength));
    let short = vec![0u8, 4, 1, 2];
    let mut r = Reader::init(&short);
    assert_eq!(DelegatedCredentialExtension::read(&mut r), Err(InvalidMessage::MissingData));
    let truncated = vec![0u8, 3, 5, b'h'];
    let mut r = Reader::init(&truncated);
    assert_eq!(ApplicationSettingsExtension::read(&mut r), Err(InvalidMessage::MissingData));
    let empty: Vec<u8> = vec![];
    let mut r = Reader::init(&empty);
    assert_eq!(StatusRequestExtension::read(&mut r), Err(InvalidMessage::MissingData));
}

#[test]
fn decode_leaves_following_bytes() {
    let mut bytes = Vec::new();
    ApplicationSettingsExtension::new(vec![b"h2".to_vec()]).encode(&mut bytes);
    bytes.extend_from_slice(&[0xAB, 0xCD]);
    let mut r = Reader::init(&bytes);
    let decoded = ApplicationSettingsExtension::read(&mut r).unwrap();
    assert_eq!(decoded.protocols, vec![b"h2".to_vec()]);
    assert_eq!(r.rest(), &[0xAB, 0xCD]);
}
