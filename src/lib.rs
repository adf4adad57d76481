//! ClientHello fingerprint simulation: browser templates, extension codecs,
//! a randomization engine, a per-target fingerprint cache, a session tracker,
//! downgrade-canary validation and the four-phase customizer hooks.

pub mod error;
pub mod types;
pub mod codec;
pub mod wire;
pub mod assoc;
pub mod extensions;
pub mod rng;
pub mod config;
pub mod utils;
pub mod state;
pub mod security;
pub mod templates;
pub mod hooks;
pub mod randomizer;
pub mod orchestrator;

pub use codec::Reader;
pub use config::{
    BrowserTemplate, CustlsConfig, CustlsConfigBuilder, CustomTemplate, RandomizationLevel,
    TemplateRotationPolicy,
};
pub use error::{CustlsError, Error, InvalidMessage, PeerMisbehaved};
pub use extensions::{
    ApplicationSettingsExtension, CompressCertificateExtension, DelegatedCredentialExtension,
    PaddingExtension, SignedCertificateTimestampExtension, StatusRequestExtension,
};
pub use hooks::{ClientExtension, ClientHelloCustomizer, ClientHelloPayload, ConfigParams};
pub use orchestrator::DefaultCustomizer;
pub use randomizer::BrowserRandomizer;
pub use rng::SimpleRng;
pub use security::{
    validate_downgrade_protection, SessionId, SessionState, SessionStateTracker,
    TLS11_DOWNGRADE_CANARY, TLS12_DOWNGRADE_CANARY,
};
pub use state::{ClientHelloConfig, FingerprintEntry, FingerprintManager, TargetKey};
pub use templates::{
    chrome_130, edge_130, firefox_135, is_grease_value, safari_17, ExtensionSet, GreasePattern,
    NaturalnessFilter, PaddingDistribution, TemplateData,
};
pub use types::{
    CertificateCompressionAlgorithm, CipherSuite, ExtensionType, NamedGroup, ProtocolVersion,
    SignatureScheme,
};
pub use utils::{
    calculate_reputation_score, sample_from_pmf, sample_with_power_of_2_bias,
    validate_extension_order, Http2Settings, PrioritySpec, TimingJitterConfig,
};
