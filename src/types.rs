use vstd::prelude::*;

verus! {

/// A TLS protocol version.
#[derive(Debug, Clone, Copy, PartialEq, Eq, Structural)]
pub enum ProtocolVersion {
    SSLv3,
    TLSv1_0,
    TLSv1_1,
    TLSv1_2,
    TLSv1_3,
    Unknown(u16),
}

/// The type of a ClientHello extension.
#[derive(Debug, Clone, Copy, PartialEq, Eq, Structural)]
pub enum ExtensionType {
    ServerName,
    StatusRequest,
    EllipticCurves,
    ECPointFormats,
    SignatureAlgorithms,
    ALProtocolNegotiation,
    SCT,
    Padding,
    ExtendedMasterSecret,
    CompressCertificate,
    DelegatedCredential,
    SessionTicket,
    PreSharedKey,
    SupportedVersions,
    PSKKeyExchangeModes,
    KeyShare,
    ApplicationSettings,
    EncryptedClientHello,
    RenegotiationInfo,
    Unknown(u16),
}

impl ExtensionType {
    /// The codepoint of this extension type on the wire.
    pub open spec fn spec_code(self) -> u16 {
        match self {
            ExtensionType::ServerName => 0x0000,
            ExtensionType::StatusRequest => 0x0005,
            ExtensionType::EllipticCurves => 0x000a,
            ExtensionType::ECPointFormats => 0x000b,
            ExtensionType::SignatureAlgorithms => 0x000d,
            ExtensionType::ALProtocolNegotiation => 0x0010,
            ExtensionType::SCT => 0x0012,
            ExtensionType::Padding => 0x0015,
            ExtensionType::ExtendedMasterSecret => 0x0017,
            ExtensionType::CompressCertificate => 0x001b,
            ExtensionType::DelegatedCredential => 0x0022,
            ExtensionType::SessionTicket => 0x0023,
            ExtensionType::PreSharedKey => 0x0029,
            ExtensionType::SupportedVersions => 0x002b,
            ExtensionType::PSKKeyExchangeModes => 0x002d,
            ExtensionType::KeyShare => 0x0033,
            ExtensionType::ApplicationSettings => 0x4469,
            ExtensionType::EncryptedClientHello => 0xfe0d,
            ExtensionType::RenegotiationInfo => 0xff01,
            ExtensionType::Unknown(v) => v,
        }
    }

    /// The codepoint of this extension type on the wire.
    pub fn code(&self) -> (r: u16)
        ensures
            r == self.spec_code(),
    {
        match self {
            ExtensionType::ServerName => 0x0000,
            ExtensionType::StatusRequest => 0x0005,
            ExtensionType::EllipticCurves => 0x000a,
            ExtensionType::ECPointFormats => 0x000b,
            ExtensionType::SignatureAlgorithms => 0x000d,
            ExtensionType::ALProtocolNegotiation => 0x0010,
            ExtensionType::SCT => 0x0012,
            ExtensionType::Padding => 0x0015,
            ExtensionType::ExtendedMasterSecret => 0x0017,
            ExtensionType::CompressCertificate => 0x001b,
            ExtensionType::DelegatedCredential => 0x0022,
            ExtensionType::SessionTicket => 0x0023,
            ExtensionType::PreSharedKey => 0x0029,
            ExtensionType::SupportedVersions => 0x002b,
            ExtensionType::PSKKeyExchangeModes => 0x002d,
            ExtensionType::KeyShare => 0x0033,
            ExtensionType::ApplicationSettings => 0x4469,
            ExtensionType::EncryptedClientHello => 0xfe0d,
            ExtensionType::RenegotiationInfo => 0xff01,
            ExtensionType::Unknown(v) => *v,
        }
    }
}

impl From<ExtensionType> for u16 {
    fn from(t: ExtensionType) -> (r: u16)
        ensures
            r == t.spec_code(),
    {
        t.code()
    }
}

impl vstd::std_specs::convert::FromSpecImpl<ExtensionType> for u16 {
    open spec fn obeys_from_spec() -> bool {
        true
    }

    open spec fn from_spec(t: ExtensionType) -> u16 {
        t.spec_code()
    }
}

/// A cipher suite codepoint.
#[derive(Debug, Clone, Copy, PartialEq, Eq, Structural)]
pub struct CipherSuite(pub u16);

/// A key-exchange group codepoint.
#[derive(Debug, Clone, Copy, PartialEq, Eq, Structural)]
pub struct NamedGroup(pub u16);

/// A signature scheme codepoint.
#[derive(Debug, Clone, Copy, PartialEq, Eq, Structural)]
pub struct SignatureScheme(pub u16);

/// A certificate compression algorithm codepoint.
#[derive(Debug, Clone, Copy, PartialEq, Eq, Structural)]
pub struct CertificateCompressionAlgorithm(pub u16);

// Cipher suite codepoints.
pub const TLS13_AES_128_GCM_SHA256: u16 = 0x1301;
pub const TLS13_AES_256_GCM_SHA384: u16 = 0x1302;
pub const TLS13_CHACHA20_POLY1305_SHA256: u16 = 0x1303;
pub const TLS_ECDHE_ECDSA_WITH_AES_128_GCM_SHA256: u16 = 0xc02b;
pub const TLS_ECDHE_RSA_WITH_AES_128_GCM_SHA256: u16 = 0xc02f;
pub const TLS_ECDHE_ECDSA_WITH_AES_256_GCM_SHA384: u16 = 0xc02c;
pub const TLS_ECDHE_RSA_WITH_AES_256_GCM_SHA384: u16 = 0xc030;
pub const TLS_ECDHE_ECDSA_WITH_CHACHA20_POLY1305_SHA256: u16 = 0xcca9;
pub const TLS_ECDHE_RSA_WITH_CHACHA20_POLY1305_SHA256: u16 = 0xcca8;
pub const TLS_ECDHE_ECDSA_WITH_AES_128_CBC_SHA: u16 = 0xc009;
pub const TLS_ECDHE_ECDSA_WITH_AES_256_CBC_SHA: u16 = 0xc00a;
pub const TLS_ECDHE_RSA_WITH_AES_128_CBC_SHA: u16 = 0xc013;
pub const TLS_ECDHE_RSA_WITH_AES_256_CBC_SHA: u16 = 0xc014;
pub const TLS_RSA_WITH_AES_128_GCM_SHA256: u16 = 0x009c;
pub const TLS_RSA_WITH_AES_256_GCM_SHA384: u16 = 0x009d;
pub const TLS_RSA_WITH_AES_128_CBC_SHA: u16 = 0x002f;
pub const TLS_RSA_WITH_AES_256_CBC_SHA: u16 = 0x0035;
pub const TLS_PSK_WITH_AES_128_CCM: u16 = 0xc0a4;
pub const TLS_PSK_WITH_AES_256_CCM: u16 = 0xc0a5;

// Named group codepoints.
pub const SECP256R1: u16 = 0x0017;
pub const SECP384R1: u16 = 0x0018;
pub const SECP521R1: u16 = 0x0019;
pub const X25519: u16 = 0x001d;
pub const FFDHE2048: u16 = 0x0100;
pub const FFDHE3072: u16 = 0x0101;

// Signature scheme codepoints.
pub const RSA_PKCS1_SHA256: u16 = 0x0401;
pub const RSA_PKCS1_SHA384: u16 = 0x0501;
pub const RSA_PKCS1_SHA512: u16 = 0x0601;
pub const ECDSA_NISTP256_SHA256: u16 = 0x0403;
pub const ECDSA_NISTP384_SHA384: u16 = 0x0503;
pub const ECDSA_NISTP521_SHA512: u16 = 0x0603;
pub const RSA_PSS_SHA256: u16 = 0x0804;
pub const RSA_PSS_SHA384: u16 = 0x0805;
pub const RSA_PSS_SHA512: u16 = 0x0806;
pub const ED25519: u16 = 0x0807;
pub const ED448: u16 = 0x0808;

// Certificate compression algorithm codepoints.
pub const ZLIB: u16 = 1;
pub const BROTLI: u16 = 2;
pub const ZSTD: u16 = 3;

} // verus!
