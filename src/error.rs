use vstd::prelude::*;
use vstd::string::StringExecFns;

verus! {

/// Why a message could not be decoded.
#[derive(Debug, Clone, Copy, PartialEq, Eq, Structural)]
pub enum InvalidMessage {
    /// The input ended before a field was complete.
    MissingData,
    /// A length field was odd where whole two-byte codepoints were expected.
    OddLength,
    /// Bytes were left over where none were expected.
    TrailingData,
}

/// The ways a peer can be found misbehaving.
#[derive(Debug, Clone, Copy, PartialEq, Eq, Structural)]
pub enum PeerMisbehaved {
    /// The server random does not have the length of 32 bytes.
    IllegalServerRandom,
    /// A downgrade canary was found while TLS 1.3 was expected.
    AttemptedDowngradeToTls12WhenTls13IsSupported,
}

/// The error that the TLS client sees.
#[derive(Debug, Clone)]
pub enum Error {
    /// A general failure carrying a readable message.
    General(String),
    /// The peer broke the protocol.
    PeerMisbehaved(PeerMisbehaved),
    /// A message could not be decoded.
    InvalidMessage(InvalidMessage),
}

/// Errors of the customization layer.
#[derive(Debug, Clone)]
pub enum CustlsError {
    /// A customizer callback failed.
    HookError(String),
    /// No valid sample could be drawn.
    RandomizationError(String),
    /// A wire-format encode or decode failed.
    ExtensionError(String),
    /// A template invariant was violated at use time.
    TemplateError(String),
    /// Reserved for cache failures.
    CacheError(String),
    /// A user-supplied argument failed a precondition.
    ValidationError(String),
}

/// `a` followed by `b`.
fn concat(a: &str, b: &str) -> (r: String)
    ensures
        r@ == a@ + b@,
{
    let mut s = a.to_owned();
    s.append(b);
    s
}

/// The prefix that names the kind of a `CustlsError` in its message.
pub open spec fn kind_prefix(e: CustlsError) -> Seq<char> {
    match e {
        CustlsError::HookError(_) => "Hook error: "@,
        CustlsError::RandomizationError(_) => "Randomization error: "@,
        CustlsError::ExtensionError(_) => "Extension error: "@,
        CustlsError::TemplateError(_) => "Template error: "@,
        CustlsError::CacheError(_) => "Cache error: "@,
        CustlsError::ValidationError(_) => "Validation error: "@,
    }
}

/// The detail text carried by a `CustlsError`.
pub open spec fn detail(e: CustlsError) -> Seq<char> {
    match e {
        CustlsError::HookError(m) => m@,
        CustlsError::RandomizationError(m) => m@,
        CustlsError::ExtensionError(m) => m@,
        CustlsError::TemplateError(m) => m@,
        CustlsError::CacheError(m) => m@,
        CustlsError::ValidationError(m) => m@,
    }
}

/// The readable text of a `CustlsError`.
pub open spec fn message_of(e: CustlsError) -> Seq<char> {
    kind_prefix(e) + detail(e)
}

/// The text that the TLS client carries for a `CustlsError`.
pub open spec fn wrapped_message(e: CustlsError) -> Seq<char> {
    "custls error: "@ + message_of(e)
}

impl CustlsError {
    /// The readable text: the kind, a colon, and the detail.
    pub fn message(&self) -> (r: String)
        ensures
            r@ == message_of(*self),
    {
        match self {
            CustlsError::HookError(m) => concat("Hook error: ", m.as_str()),
            CustlsError::RandomizationError(m) => concat("Randomization error: ", m.as_str()),
            CustlsError::ExtensionError(m) => concat("Extension error: ", m.as_str()),
            CustlsError::TemplateError(m) => concat("Template error: ", m.as_str()),
            CustlsError::CacheError(m) => concat("Cache error: ", m.as_str()),
            CustlsError::ValidationError(m) => concat("Validation error: ", m.as_str()),
        }
    }

    /// Converts to the error that the TLS client sees, keeping the kind in the text.
    pub fn to_tls_error(&self) -> (r: Error)
        ensures
            r matches Error::General(m) && m@ == wrapped_message(*self),
    {
        let m = self.message();
        Error::General(concat("custls error: ", m.as_str()))
    }
}

impl From<CustlsError> for Error {
    fn from(e: CustlsError) -> (r: Error)
        ensures
            r matches Error::General(m) && m@ == wrapped_message(e),
    {
        e.to_tls_error()
    }
}

impl vstd::std_specs::convert::FromSpecImpl<CustlsError> for Error {
    open spec fn obeys_from_spec() -> bool {
        false
    }

    open spec fn from_spec(e: CustlsError) -> Error {
        arbitrary()
    }
}

} // verus!
