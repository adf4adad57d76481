//! Browser templates and the naturalness filter.
use vstd::prelude::*;
use crate::types::{
    CipherSuite, ExtensionType, NamedGroup, ProtocolVersion, SignatureScheme, ECDSA_NISTP256_SHA256, ECDSA_NISTP384_SHA384, ECDSA_NISTP521_SHA512, FFDHE2048, FFDHE3072, RSA_PKCS1_SHA256, RSA_PKCS1_SHA384, RSA_PKCS1_SHA512, RSA_PSS_SHA256, RSA_PSS_SHA384, RSA_PSS_SHA512, SECP256R1, SECP384R1, SECP521R1, TLS13_AES_128_GCM_SHA256, TLS13_AES_256_GCM_SHA384, TLS13_CHACHA20_POLY1305_SHA256, TLS_ECDHE_ECDSA_WITH_AES_128_CBC_SHA, TLS_ECDHE_ECDSA_WITH_AES_128_GCM_SHA256, TLS_ECDHE_ECDSA_WITH_AES_256_CBC_SHA, TLS_ECDHE_ECDSA_WITH_AES_256_GCM_SHA384, TLS_ECDHE_ECDSA_WITH_CHACHA20_POLY1305_SHA256, TLS_ECDHE_RSA_WITH_AES_128_CBC_SHA, TLS_ECDHE_RSA_WITH_AES_128_GCM_SHA256, TLS_ECDHE_RSA_WITH_AES_256_CBC_SHA, TLS_ECDHE_RSA_WITH_AES_256_GCM_SHA384, TLS_ECDHE_RSA_WITH_CHACHA20_POLY1305_SHA256, TLS_RSA_WITH_AES_128_CBC_SHA, TLS_RSA_WITH_AES_128_GCM_SHA256, TLS_RSA_WITH_AES_256_CBC_SHA, TLS_RSA_WITH_AES_256_GCM_SHA384, X25519,
};

verus! {

/// Where and how often GREASE values appear. Probabilities and positions are in
/// parts per thousand; a position is a fraction of the list length.
#[derive(Debug, Clone)]
pub struct GreasePattern {
    pub cipher_suite_probability: u16,
    pub cipher_suite_positions: Vec<u16>,
    pub extension_probability: u16,
    pub extension_positions: Vec<u16>,
    pub grease_values: Vec<u16>,
}

/// A distribution of padding lengths: `(length, probability per mille)` pairs,
/// the allowed range, and the per-mille bias toward powers of two.
#[derive(Debug, Clone)]
pub struct PaddingDistribution {
    pub pmf: Vec<(u16, u16)>,
    pub min_length: u16,
    pub max_length: u16,
    pub power_of_2_bias: u16,
}

/// What one browser's ClientHello looks like.
#[derive(Debug, Clone)]
pub struct TemplateData {
    pub name: String,
    pub description: String,
    pub cipher_suites: Vec<CipherSuite>,
    pub extension_order: Vec<ExtensionType>,
    pub supported_groups: Vec<NamedGroup>,
    pub signature_algorithms: Vec<SignatureScheme>,
    pub grease_pattern: GreasePattern,
    pub padding_distribution: PaddingDistribution,
    pub alpn_protocols: Vec<Vec<u8>>,
    pub http2_pseudo_header_order: Vec<String>,
    pub supported_versions: Vec<ProtocolVersion>,
    pub key_share_groups: Vec<NamedGroup>,
}

/// A GREASE codepoint: both bytes have low nibble `A` and equal high nibbles.
pub open spec fn is_grease(v: u16) -> bool {
    &&& v % 16 == 10
    &&& (v / 256) % 16 == 10
    &&& v / 4096 == (v / 16) % 16
}

/// Whether `value` is a GREASE codepoint (`0x?A?A` with equal high nibbles).
pub fn is_grease_value(value: u16) -> (r: bool)
    ensures
        r == is_grease(value),
{
    value % 16 == 10 && (value / 256) % 16 == 10 && value / 4096 == (value / 16) % 16
}

/// The sum of the probabilities of a PMF.
pub open spec fn pmf_total(pmf: Seq<(u16, u16)>) -> int
    decreases pmf.len(),
{
    if pmf.len() == 0 {
        0
    } else {
        pmf_total(pmf.drop_last()) + pmf.last().1 as int
    }
}

pub proof fn lemma_pmf_total_push(s: Seq<(u16, u16)>, x: (u16, u16))
    ensures
        pmf_total(s.push(x)) == pmf_total(s) + x.1 as int,
{
    assert(s.push(x).drop_last() =~= s);
}

impl GreasePattern {
    /// Probabilities and positions lie in `[0, 1000]` and every value is GREASE.
    pub open spec fn valid(&self) -> bool {
        &&& self.cipher_suite_probability <= 1000
        &&& self.extension_probability <= 1000
        &&& forall|i: int| 0 <= i < self.cipher_suite_positions@.len() ==> #[trigger] self.cipher_suite_positions@[i] <= 1000
        &&& forall|i: int| 0 <= i < self.extension_positions@.len() ==> #[trigger] self.extension_positions@[i] <= 1000
        &&& forall|i: int| 0 <= i < self.grease_values@.len() ==> is_grease(#[trigger] self.grease_values@[i])
    }
}

impl PaddingDistribution {
    /// `min <= max`, every length in range, and the probabilities summing to 1 within 0.2.
    pub open spec fn valid(&self) -> bool {
        &&& self.min_length <= self.max_length
        &&& forall|i: int| 0 <= i < self.pmf@.len() ==> self.min_length <= (#[trigger] self.pmf@[i]).0 <= self.max_length
        &&& 800 < pmf_total(self.pmf@) < 1200
        &&& self.power_of_2_bias <= 1000
    }
}

/// The invariants every template must satisfy.
pub open spec fn template_valid(t: TemplateData) -> bool {
    &&& t.cipher_suites@.len() > 0
    &&& t.extension_order@.len() > 0
    &&& t.supported_groups@.len() > 0
    &&& t.signature_algorithms@.len() > 0
    &&& forall|i: int| 0 <= i < t.key_share_groups@.len() ==> t.supported_groups@.contains(#[trigger] t.key_share_groups@[i])
    &&& t.grease_pattern.valid()
    &&& t.padding_distribution.valid()
}

impl Default for GreasePattern {
    fn default() -> (r: Self)
        ensures
            r.valid(),
            r.grease_values@.len() == 16,
    {
        let r = GreasePattern {
            cipher_suite_probability: 1000,
            cipher_suite_positions: vec![0, 500],
            extension_probability: 1000,
            extension_positions: vec![0, 500],
            grease_values: standard_grease_values(),
        };
        assert(r.cipher_suite_positions@ =~= seq![0u16, 500u16]);
        assert(r.extension_positions@ =~= seq![0u16, 500u16]);
        r
    }
}

/// The sixteen GREASE codepoints of RFC 8701.
pub fn standard_grease_values() -> (r: Vec<u16>)
    ensures
        r@.len() == 16,
        forall|i: int| 0 <= i < r@.len() ==> is_grease(#[trigger] r@[i]),
        forall|i: int| 0 <= i < 16 ==> #[trigger] r@[i] == 0x0a0a + 0x1010 * i,
{
    let mut r: Vec<u16> = Vec::new();
    let mut i: u16 = 0;
    while i < 16
        invariant
            i <= 16,
            r@.len() == i,
            forall|j: int| 0 <= j < i ==> #[trigger] r@[j] == 0x0a0a + 0x1010 * j,
        decreases 16 - i,
    {
        r.push(0x0a0a + 0x1010 * i);
        i = i + 1;
    }
    assert forall|j: int| 0 <= j < r@.len() implies is_grease(#[trigger] r@[j]) by {
        assert(r@[j] == 0x0a0a + 0x1010 * j);
        assert(0 <= j < 16);
    }
    r
}

impl Default for PaddingDistribution {
    fn default() -> (r: Self)
        ensures
            r.valid(),
    {
        let r = PaddingDistribution {
            pmf: vec![(0, 500), (256, 300), (512, 200)],
            min_length: 0,
            max_length: 1500,
            power_of_2_bias: 700,
        };
        proof {
            let p = r.pmf@;
            assert(p =~= seq![(0u16, 500u16), (256u16, 300u16), (512u16, 200u16)]);
            assert(p.drop_last().drop_last().drop_last() =~= seq![]);
            reveal_with_fuel(pmf_total, 4);
        }
        r
    }
}

impl TemplateData {
    /// A named template with empty lists and default GREASE and padding patterns.
    pub fn new(name: String, description: String) -> (r: Self)
        ensures
            r.name == name,
            r.description == description,
            r.cipher_suites@.len() == 0,
            r.extension_order@.len() == 0,
            r.supported_groups@.len() == 0,
            r.signature_algorithms@.len() == 0,
            r.key_share_groups@.len() == 0,
            r.grease_pattern.valid(),
            r.padding_distribution.valid(),
    {
        TemplateData {
            name,
            description,
            cipher_suites: Vec::new(),
            extension_order: Vec::new(),
            supported_groups: Vec::new(),
            signature_algorithms: Vec::new(),
            grease_pattern: GreasePattern::default(),
            padding_distribution: PaddingDistribution::default(),
            alpn_protocols: Vec::new(),
            http2_pseudo_header_order: Vec::new(),
            supported_versions: Vec::new(),
            key_share_groups: Vec::new(),
        }
    }
}

/// Every member of `set` occurs in `exts`.
pub open spec fn all_in(set: Seq<ExtensionType>, exts: Seq<ExtensionType>) -> bool {
    forall|i: int| 0 <= i < set.len() ==> exts.contains(#[trigger] set[i])
}

/// Some member of `set` occurs in `exts`.
pub open spec fn any_in(set: Seq<ExtensionType>, exts: Seq<ExtensionType>) -> bool {
    exists|i: int| 0 <= i < set.len() && exts.contains(#[trigger] set[i])
}

fn contains_ext(exts: &[ExtensionType], e: ExtensionType) -> (r: bool)
    ensures
        r == exts@.contains(e),
{
    let mut i: usize = 0;
    while i < exts.len()
        invariant
            i <= exts@.len(),
            forall|j: int| 0 <= j < i ==> exts@[j] != e,
        decreases exts@.len() - i,
    {
        if exts[i] == e {
            return true;
        }
        i = i + 1;
    }
    false
}

fn all_in_exec(set: &[ExtensionType], exts: &[ExtensionType]) -> (r: bool)
    ensures
        r == all_in(set@, exts@),
{
    let mut i: usize = 0;
    while i < set.len()
        invariant
            i <= set@.len(),
            forall|j: int| 0 <= j < i ==> exts@.contains(#[trigger] set@[j]),
        decreases set@.len() - i,
    {
        if !contains_ext(exts, set[i]) {
            return false;
        }
        i = i + 1;
    }
    true
}

fn any_in_exec(set: &[ExtensionType], exts: &[ExtensionType]) -> (r: bool)
    ensures
        r == any_in(set@, exts@),
{
    let mut i: usize = 0;
    while i < set.len()
        invariant
            i <= set@.len(),
            forall|j: int| 0 <= j < i ==> !exts@.contains(#[trigger] set@[j]),
        decreases set@.len() - i,
    {
        if contains_ext(exts, set[i]) {
            return true;
        }
        i = i + 1;
    }
    false
}

/// A set of extension types.
#[derive(Debug, Clone, PartialEq, Eq)]
pub struct ExtensionSet {
    pub extensions: Vec<ExtensionType>,
}

impl ExtensionSet {
    pub fn new(extensions: Vec<ExtensionType>) -> (r: Self)
        ensures
            r.extensions == extensions,
    {
        ExtensionSet { extensions }
    }

    /// Whether every member of this set occurs in `extensions`.
    pub fn is_subset_of(&self, extensions: &[ExtensionType]) -> (r: bool)
        ensures
            r == all_in(self.extensions@, extensions@),
    {
        all_in_exec(self.extensions.as_slice(), extensions)
    }
}

/// Rules that reject extension combinations no real browser sends.
#[derive(Debug, Clone)]
pub struct NaturalnessFilter {
    /// Sets that must never all be present together.
    pub blacklist: Vec<ExtensionSet>,
    /// Sets that are present entirely or not at all.
    pub whitelist: Vec<ExtensionSet>,
    /// An extension and the extensions it needs.
    pub dependencies: Vec<(ExtensionType, Vec<ExtensionType>)>,
}

/// `exts` passes every rule of `f`.
pub open spec fn natural(f: NaturalnessFilter, exts: Seq<ExtensionType>) -> bool {
    &&& forall|i: int| 0 <= i < f.blacklist@.len() ==> !all_in((#[trigger] f.blacklist@[i]).extensions@, exts)
    &&& forall|i: int| 0 <= i < f.whitelist@.len() ==>
        (any_in((#[trigger] f.whitelist@[i]).extensions@, exts) ==> all_in(f.whitelist@[i].extensions@, exts))
    &&& forall|i: int| 0 <= i < f.dependencies@.len() ==>
        (exts.contains((#[trigger] f.dependencies@[i]).0) ==> all_in(f.dependencies@[i].1@, exts))
}

impl NaturalnessFilter {
    /// A filter with no rules.
    pub fn new() -> (r: Self)
        ensures
            r.blacklist@.len() == 0,
            r.whitelist@.len() == 0,
            r.dependencies@.len() == 0,
    {
        NaturalnessFilter { blacklist: Vec::new(), whitelist: Vec::new(), dependencies: Vec::new() }
    }

    /// Whether `extensions` passes every blacklist, whitelist and dependency rule.
    pub fn is_natural(&self, extensions: &[ExtensionType]) -> (r: bool)
        ensures
            r == natural(*self, extensions@),
    {
        let mut i: usize = 0;
        while i < self.blacklist.len()
            invariant
                i <= self.blacklist@.len(),
                forall|j: int| 0 <= j < i ==> !all_in((#[trigger] self.blacklist@[j]).extensions@, extensions@),
            decreases self.blacklist@.len() - i,
        {
            if self.blacklist[i].is_subset_of(extensions) {
                return false;
            }
            i = i + 1;
        }
        let mut i: usize = 0;
        while i < self.whitelist.len()
            invariant
                i <= self.whitelist@.len(),
                forall|j: int| 0 <= j < i ==> (any_in((#[trigger] self.whitelist@[j]).extensions@, extensions@)
                    ==> all_in(self.whitelist@[j].extensions@, extensions@)),
            decreases self.whitelist@.len() - i,
        {
            let w = &self.whitelist[i];
            if any_in_exec(w.extensions.as_slice(), extensions) && !w.is_subset_of(extensions) {
                return false;
            }
            i = i + 1;
        }
        let mut i: usize = 0;
        while i < self.dependencies.len()
            invariant
                i <= self.dependencies@.len(),
                forall|j: int| 0 <= j < i ==> (extensions@.contains((#[trigger] self.dependencies@[j]).0)
                    ==> all_in(self.dependencies@[j].1@, extensions@)),
            decreases self.dependencies@.len() - i,
        {
            let d = &self.dependencies[i];
            if contains_ext(extensions, d.0) && !all_in_exec(d.1.as_slice(), extensions) {
                return false;
            }
            i = i + 1;
        }
        true
    }
}

impl Default for NaturalnessFilter {
    fn default() -> (r: Self)
        ensures
            r.blacklist@.len() == 0,
            r.whitelist@.len() == 0,
            r.dependencies@.len() == 0,
    {
        NaturalnessFilter::new()
    }
}

/// A blacklisted combination is never natural.
pub proof fn lemma_blacklist_rejected(f: NaturalnessFilter, exts: Seq<ExtensionType>, i: int)
    requires
        0 <= i < f.blacklist@.len(),
        all_in(f.blacklist@[i].extensions@, exts),
    ensures
        !natural(f, exts),
{
}

/// Whether a list is natural depends only on which extensions it holds, not their order.
pub proof fn lemma_natural_same_members(f: NaturalnessFilter, a: Seq<ExtensionType>, b: Seq<ExtensionType>)
    requires
        forall|e: ExtensionType| a.contains(e) <==> b.contains(e),
    ensures
        natural(f, a) == natural(f, b),
{
    assert forall|s: Seq<ExtensionType>| all_in(s, a) == all_in(s, b) by {
        if all_in(s, a) {
            assert forall|i: int| 0 <= i < s.len() implies b.contains(#[trigger] s[i]) by {
                assert(a.contains(s[i]));
            }
        }
        if all_in(s, b) {
            assert forall|i: int| 0 <= i < s.len() implies a.contains(#[trigger] s[i]) by {
                assert(b.contains(s[i]));
            }
        }
    }
    assert forall|s: Seq<ExtensionType>| any_in(s, a) == any_in(s, b) by {
        if any_in(s, a) {
            let i = choose|i: int| 0 <= i < s.len() && a.contains(#[trigger] s[i]);
            assert(b.contains(s[i]));
        }
        if any_in(s, b) {
            let i = choose|i: int| 0 <= i < s.len() && b.contains(#[trigger] s[i]);
            assert(a.contains(s[i]));
        }
    }
}

/// Chrome 130 and later on Windows, macOS and Linux.
pub fn chrome_130() -> (r: TemplateData)
    ensures
        template_valid(r),
        r.name@ == "Chrome 130+"@,
        r.cipher_suites@ == chrome_130_suites(),
        r.extension_order@ == chrome_130_extensions(),
{
    let r = TemplateData {
        name: "Chrome 130+".to_string(),
        description: "Chrome 130+ on Windows/macOS/Linux".to_string(),
        
        // Cipher suites in Chrome order
        // Chrome typically includes GREASE at position 0
        cipher_suites: vec![
            CipherSuite(TLS13_AES_128_GCM_SHA256),
            CipherSuite(TLS13_AES_256_GCM_SHA384),
            CipherSuite(TLS13_CHACHA20_POLY1305_SHA256),
            CipherSuite(TLS_ECDHE_ECDSA_WITH_AES_128_GCM_SHA256),
            CipherSuite(TLS_ECDHE_RSA_WITH_AES_128_GCM_SHA256),
            CipherSuite(TLS_ECDHE_ECDSA_WITH_AES_256_GCM_SHA384),
            CipherSuite(TLS_ECDHE_RSA_WITH_AES_256_GCM_SHA384),
            CipherSuite(TLS_ECDHE_ECDSA_WITH_CHACHA20_POLY1305_SHA256),
            CipherSuite(TLS_ECDHE_RSA_WITH_CHACHA20_POLY1305_SHA256),
            CipherSuite(TLS_ECDHE_RSA_WITH_AES_128_CBC_SHA),
            CipherSuite(TLS_ECDHE_RSA_WITH_AES_256_CBC_SHA),
            CipherSuite(TLS_RSA_WITH_AES_128_GCM_SHA256),
            CipherSuite(TLS_RSA_WITH_AES_256_GCM_SHA384),
            CipherSuite(TLS_RSA_WITH_AES_128_CBC_SHA),
            CipherSuite(TLS_RSA_WITH_AES_256_CBC_SHA),
        ],
        
        // Extension order matching Chrome
        extension_order: vec![
            ExtensionType::ServerName,                    // 0x0000
            ExtensionType::ExtendedMasterSecret,          // 0x0017
            ExtensionType::RenegotiationInfo,             // 0xff01
            ExtensionType::SupportedVersions,             // 0x002b
            ExtensionType::EllipticCurves,                // 0x000a (supported_groups)
            ExtensionType::ECPointFormats,                // 0x000b
            ExtensionType::SessionTicket,                 // 0x0023
            ExtensionType::ALProtocolNegotiation,         // 0x0010 (ALPN)
            ExtensionType::StatusRequest,                 // 0x0005 (OCSP)
            ExtensionType::SignatureAlgorithms,           // 0x000d
            ExtensionType::SCT,                           // 0x0012 (signed_certificate_timestamp)
            ExtensionType::KeyShare,                      // 0x0033
            ExtensionType::PSKKeyExchangeModes,           // 0x002d
            ExtensionType::CompressCertificate,           // 0x001b
            ExtensionType::Padding,                       // 0x0015
        ],
        
        // Supported groups (curves) in Chrome order
        supported_groups: vec![
            NamedGroup(X25519),
            NamedGroup(SECP256R1),
            NamedGroup(SECP384R1),
        ],
        
        // Signature algorithms in Chrome order
        signature_algorithms: vec![
            SignatureScheme(ECDSA_NISTP256_SHA256),
            SignatureScheme(RSA_PSS_SHA256),
            SignatureScheme(RSA_PKCS1_SHA256),
            SignatureScheme(ECDSA_NISTP384_SHA384),
            SignatureScheme(RSA_PSS_SHA384),
            SignatureScheme(RSA_PKCS1_SHA384),
            SignatureScheme(RSA_PSS_SHA512),
            SignatureScheme(RSA_PKCS1_SHA512),
        ],
        
        // Chrome GREASE pattern
        grease_pattern: GreasePattern {
            cipher_suite_probability: 1000,
            // Chrome prefers GREASE in front third of cipher suite list
            cipher_suite_positions: vec![0, 100, 200, 300],
            extension_probability: 1000,
            // Chrome typically places GREASE extension first
            extension_positions: vec![0],
            grease_values: standard_grease_values(),
        },
        
        // Chrome padding distribution
        // Chrome typically uses 0-512 bytes, favoring powers of 2
        padding_distribution: PaddingDistribution {
            pmf: vec![
                (0, 150),
                (128, 200),
                (256, 300),
                (384, 200),
                (512, 150),
            ],
            min_length: 0,
            max_length: 512,
            power_of_2_bias: 800,
        },
        
        // ALPN protocols in Chrome order
        alpn_protocols: vec![
            vec![0x68u8, 0x32u8],           // HTTP/2
            vec![0x68u8, 0x74u8, 0x74u8, 0x70u8, 0x2fu8, 0x31u8, 0x2eu8, 0x31u8],     // HTTP/1.1
        ],
        
        // HTTP/2 pseudo-header order for Chrome
        http2_pseudo_header_order: vec![
            ":method".to_string(),
            ":authority".to_string(),
            ":scheme".to_string(),
            ":path".to_string(),
        ],
        
        // Supported TLS versions
        supported_versions: vec![
            ProtocolVersion::TLSv1_3,
            ProtocolVersion::TLSv1_2,
        ],
        
        // Key share groups (subset of supported_groups)
        key_share_groups: vec![
            NamedGroup(X25519),
        ],
    };
    proof {
        assert(r.cipher_suites@ =~= chrome_130_suites());
        assert(r.extension_order@ =~= chrome_130_extensions());
        assert(r.grease_pattern.cipher_suite_positions@ =~= seq![0u16, 100u16, 200u16, 300u16]);
        assert(r.grease_pattern.extension_positions@ =~= seq![0u16]);
        let prefix0 = Seq::<(u16, u16)>::empty();
        let prefix1 = prefix0.push((0u16, 150u16));
        lemma_pmf_total_push(prefix0, (0u16, 150u16));
        let prefix2 = prefix1.push((128u16, 200u16));
        lemma_pmf_total_push(prefix1, (128u16, 200u16));
        let prefix3 = prefix2.push((256u16, 300u16));
        lemma_pmf_total_push(prefix2, (256u16, 300u16));
        let prefix4 = prefix3.push((384u16, 200u16));
        lemma_pmf_total_push(prefix3, (384u16, 200u16));
        let prefix5 = prefix4.push((512u16, 150u16));
        lemma_pmf_total_push(prefix4, (512u16, 150u16));
        assert(r.padding_distribution.pmf@ =~= prefix5);
        assert(r.supported_groups@ =~= seq![NamedGroup(X25519), NamedGroup(SECP256R1), NamedGroup(SECP384R1)]);
        assert(r.key_share_groups@ =~= seq![NamedGroup(X25519)]);
        assert(r.supported_groups@[0] == r.key_share_groups@[0]);
    }
    r
}

/// Firefox 135 and later on Windows, macOS and Linux.
///
/// The extension order names `SupportedVersions` twice, as the template data has it. A list
/// with a repeated type fails `validate_extension_order`; whether a real Firefox capture
/// repeats it is an open question for the maintainers, so the data is left unchanged.
pub fn firefox_135() -> (r: TemplateData)
    ensures
        template_valid(r),
        r.name@ == "Firefox 135+"@,
        r.cipher_suites@ == firefox_135_suites(),
        r.extension_order@ == firefox_135_extensions(),
{
    let r = TemplateData {
        name: "Firefox 135+".to_string(),
        description: "Firefox 135+ on Windows/macOS/Linux".to_string(),
        
        // Cipher suites in Firefox order
        cipher_suites: vec![
            CipherSuite(TLS13_AES_128_GCM_SHA256),
            CipherSuite(TLS13_CHACHA20_POLY1305_SHA256),
            CipherSuite(TLS13_AES_256_GCM_SHA384),
            CipherSuite(TLS_ECDHE_ECDSA_WITH_AES_128_GCM_SHA256),
            CipherSuite(TLS_ECDHE_RSA_WITH_AES_128_GCM_SHA256),
            CipherSuite(TLS_ECDHE_ECDSA_WITH_CHACHA20_POLY1305_SHA256),
            CipherSuite(TLS_ECDHE_RSA_WITH_CHACHA20_POLY1305_SHA256),
            CipherSuite(TLS_ECDHE_ECDSA_WITH_AES_256_GCM_SHA384),
            CipherSuite(TLS_ECDHE_RSA_WITH_AES_256_GCM_SHA384),
            CipherSuite(TLS_ECDHE_ECDSA_WITH_AES_256_CBC_SHA),
            CipherSuite(TLS_ECDHE_ECDSA_WITH_AES_128_CBC_SHA),
            CipherSuite(TLS_ECDHE_RSA_WITH_AES_128_CBC_SHA),
            CipherSuite(TLS_ECDHE_RSA_WITH_AES_256_CBC_SHA),
            CipherSuite(TLS_RSA_WITH_AES_128_GCM_SHA256),
            CipherSuite(TLS_RSA_WITH_AES_256_GCM_SHA384),
            CipherSuite(TLS_RSA_WITH_AES_128_CBC_SHA),
            CipherSuite(TLS_RSA_WITH_AES_256_CBC_SHA),
        ],
        
        // Extension order matching Firefox
        extension_order: vec![
            ExtensionType::ServerName,                    // 0x0000
            ExtensionType::ExtendedMasterSecret,          // 0x0017
            ExtensionType::RenegotiationInfo,             // 0xff01
            ExtensionType::SupportedVersions,             // 0x002b
            ExtensionType::EllipticCurves,                // 0x000a (supported_groups)
            ExtensionType::SessionTicket,                 // 0x0023
            ExtensionType::ALProtocolNegotiation,         // 0x0010 (ALPN)
            ExtensionType::StatusRequest,                 // 0x0005 (OCSP)
            ExtensionType::KeyShare,                      // 0x0033
            ExtensionType::SupportedVersions,             // 0x002b (a second time; see the note above this template)
            ExtensionType::SignatureAlgorithms,           // 0x000d
            ExtensionType::PSKKeyExchangeModes,           // 0x002d
            ExtensionType::ECPointFormats,                // 0x000b
            ExtensionType::Padding,                       // 0x0015
        ],
        
        // Supported groups (curves) in Firefox order
        supported_groups: vec![
            NamedGroup(X25519),
            NamedGroup(SECP256R1),
            NamedGroup(SECP384R1),
            NamedGroup(SECP521R1),
            NamedGroup(FFDHE2048),
            NamedGroup(FFDHE3072),
        ],
        
        // Signature algorithms in Firefox order
        signature_algorithms: vec![
            SignatureScheme(ECDSA_NISTP256_SHA256),
            SignatureScheme(ECDSA_NISTP384_SHA384),
            SignatureScheme(ECDSA_NISTP521_SHA512),
            SignatureScheme(RSA_PSS_SHA256),
            SignatureScheme(RSA_PSS_SHA384),
            SignatureScheme(RSA_PSS_SHA512),
            SignatureScheme(RSA_PKCS1_SHA256),
            SignatureScheme(RSA_PKCS1_SHA384),
            SignatureScheme(RSA_PKCS1_SHA512),
        ],
        
        // Firefox GREASE pattern
        grease_pattern: GreasePattern {
            cipher_suite_probability: 1000,
            // Firefox distributes GREASE more evenly
            cipher_suite_positions: vec![0, 250, 500, 750],
            extension_probability: 1000,
            extension_positions: vec![0, 500],
            grease_values: standard_grease_values(),
        },
        
        // Firefox padding distribution
        // Firefox typically uses less padding than Chrome
        padding_distribution: PaddingDistribution {
            pmf: vec![
                (0, 400),
                (64, 250),
                (128, 200),
                (256, 150),
            ],
            min_length: 0,
            max_length: 256,
            power_of_2_bias: 700,
        },
        
        // ALPN protocols in Firefox order
        alpn_protocols: vec![
            vec![0x68u8, 0x32u8],           // HTTP/2
            vec![0x68u8, 0x74u8, 0x74u8, 0x70u8, 0x2fu8, 0x31u8, 0x2eu8, 0x31u8],     // HTTP/1.1
        ],
        
        // HTTP/2 pseudo-header order for Firefox
        http2_pseudo_header_order: vec![
            ":method".to_string(),
            ":path".to_string(),
            ":authority".to_string(),
            ":scheme".to_string(),
        ],
        
        // Supported TLS versions
        supported_versions: vec![
            ProtocolVersion::TLSv1_3,
            ProtocolVersion::TLSv1_2,
        ],
        
        // Key share groups (subset of supported_groups)
        key_share_groups: vec![
            NamedGroup(X25519),
            NamedGroup(SECP256R1),
        ],
    };
    proof {
        assert(r.cipher_suites@ =~= firefox_135_suites());
        assert(r.extension_order@ =~= firefox_135_extensions());
        assert(r.grease_pattern.cipher_suite_positions@ =~= seq![0u16, 250u16, 500u16, 750u16]);
        assert(r.grease_pattern.extension_positions@ =~= seq![0u16, 500u16]);
        let prefix0 = Seq::<(u16, u16)>::empty();
        let prefix1 = prefix0.push((0u16, 400u16));
        lemma_pmf_total_push(prefix0, (0u16, 400u16));
        let prefix2 = prefix1.push((64u16, 250u16));
        lemma_pmf_total_push(prefix1, (64u16, 250u16));
        let prefix3 = prefix2.push((128u16, 200u16));
        lemma_pmf_total_push(prefix2, (128u16, 200u16));
        let prefix4 = prefix3.push((256u16, 150u16));
        lemma_pmf_total_push(prefix3, (256u16, 150u16));
        assert(r.padding_distribution.pmf@ =~= prefix4);
        assert(r.supported_groups@ =~= seq![NamedGroup(X25519), NamedGroup(SECP256R1), NamedGroup(SECP384R1), NamedGroup(SECP521R1), NamedGroup(FFDHE2048), NamedGroup(FFDHE3072)]);
        assert(r.key_share_groups@ =~= seq![NamedGroup(X25519), NamedGroup(SECP256R1)]);
        assert(r.supported_groups@[0] == r.key_share_groups@[0]);
        assert(r.supported_groups@[1] == r.key_share_groups@[1]);
    }
    r
}

/// Safari 17 and later on macOS and iOS.
pub fn safari_17() -> (r: TemplateData)
    ensures
        template_valid(r),
        r.name@ == "Safari 17+"@,
        r.cipher_suites@ == safari_17_suites(),
        r.extension_order@ == safari_17_extensions(),
{
    let r = TemplateData {
        name: "Safari 17+".to_string(),
        description: "Safari 17+ on macOS/iOS".to_string(),
        
        // Cipher suites in Safari order
        cipher_suites: vec![
            CipherSuite(TLS13_AES_128_GCM_SHA256),
            CipherSuite(TLS13_AES_256_GCM_SHA384),
            CipherSuite(TLS13_CHACHA20_POLY1305_SHA256),
            CipherSuite(TLS_ECDHE_ECDSA_WITH_AES_256_GCM_SHA384),
            CipherSuite(TLS_ECDHE_ECDSA_WITH_AES_128_GCM_SHA256),
            CipherSuite(TLS_ECDHE_RSA_WITH_AES_256_GCM_SHA384),
            CipherSuite(TLS_ECDHE_RSA_WITH_AES_128_GCM_SHA256),
            CipherSuite(TLS_ECDHE_ECDSA_WITH_CHACHA20_POLY1305_SHA256),
            CipherSuite(TLS_ECDHE_RSA_WITH_CHACHA20_POLY1305_SHA256),
            CipherSuite(TLS_ECDHE_RSA_WITH_AES_256_CBC_SHA),
            CipherSuite(TLS_ECDHE_RSA_WITH_AES_128_CBC_SHA),
            CipherSuite(TLS_RSA_WITH_AES_256_GCM_SHA384),
            CipherSuite(TLS_RSA_WITH_AES_128_GCM_SHA256),
            CipherSuite(TLS_RSA_WITH_AES_256_CBC_SHA),
            CipherSuite(TLS_RSA_WITH_AES_128_CBC_SHA),
        ],
        
        // Extension order matching Safari
        extension_order: vec![
            ExtensionType::ServerName,                    // 0x0000
            ExtensionType::ExtendedMasterSecret,          // 0x0017
            ExtensionType::RenegotiationInfo,             // 0xff01
            ExtensionType::SupportedVersions,             // 0x002b
            ExtensionType::EllipticCurves,                // 0x000a (supported_groups)
            ExtensionType::ECPointFormats,                // 0x000b
            ExtensionType::ALProtocolNegotiation,         // 0x0010 (ALPN)
            ExtensionType::StatusRequest,                 // 0x0005 (OCSP)
            ExtensionType::SCT,                           // 0x0012 (signed_certificate_timestamp)
            ExtensionType::SignatureAlgorithms,           // 0x000d
            ExtensionType::KeyShare,                      // 0x0033
            ExtensionType::PSKKeyExchangeModes,           // 0x002d
            ExtensionType::SessionTicket,                 // 0x0023
        ],
        
        // Supported groups (curves) in Safari order
        supported_groups: vec![
            NamedGroup(SECP256R1),
            NamedGroup(X25519),
            NamedGroup(SECP384R1),
            NamedGroup(SECP521R1),
        ],
        
        // Signature algorithms in Safari order
        signature_algorithms: vec![
            SignatureScheme(ECDSA_NISTP256_SHA256),
            SignatureScheme(RSA_PSS_SHA256),
            SignatureScheme(RSA_PKCS1_SHA256),
            SignatureScheme(ECDSA_NISTP384_SHA384),
            SignatureScheme(ECDSA_NISTP521_SHA512),
            SignatureScheme(RSA_PSS_SHA384),
            SignatureScheme(RSA_PSS_SHA512),
            SignatureScheme(RSA_PKCS1_SHA384),
            SignatureScheme(RSA_PKCS1_SHA512),
        ],
        
        // Safari GREASE pattern
        grease_pattern: GreasePattern {
            cipher_suite_probability: 800,  // Safari uses GREASE less consistently
            cipher_suite_positions: vec![0, 500],
            extension_probability: 800,
            extension_positions: vec![0],
            grease_values: standard_grease_values(),
        },
        
        // Safari padding distribution
        // Safari typically uses minimal or no padding
        padding_distribution: PaddingDistribution {
            pmf: vec![
                (0, 900),
                (16, 50),
                (32, 50),
            ],
            min_length: 0,
            max_length: 64,
            power_of_2_bias: 900,
        },
        
        // ALPN protocols in Safari order
        alpn_protocols: vec![
            vec![0x68u8, 0x32u8],           // HTTP/2
            vec![0x68u8, 0x74u8, 0x74u8, 0x70u8, 0x2fu8, 0x31u8, 0x2eu8, 0x31u8],     // HTTP/1.1
        ],
        
        // HTTP/2 pseudo-header order for Safari
        http2_pseudo_header_order: vec![
            ":method".to_string(),
            ":scheme".to_string(),
            ":path".to_string(),
            ":authority".to_string(),
        ],
        
        // Supported TLS versions
        supported_versions: vec![
            ProtocolVersion::TLSv1_3,
            ProtocolVersion::TLSv1_2,
        ],
        
        // Key share groups (subset of supported_groups)
        key_share_groups: vec![
            NamedGroup(SECP256R1),
            NamedGroup(X25519),
        ],
    };
    proof {
        assert(r.cipher_suites@ =~= safari_17_suites());
        assert(r.extension_order@ =~= safari_17_extensions());
        assert(r.grease_pattern.cipher_suite_positions@ =~= seq![0u16, 500u16]);
        assert(r.grease_pattern.extension_positions@ =~= seq![0u16]);
        let prefix0 = Seq::<(u16, u16)>::empty();
        let prefix1 = prefix0.push((0u16, 900u16));
        lemma_pmf_total_push(prefix0, (0u16, 900u16));
        let prefix2 = prefix1.push((16u16, 50u16));
        lemma_pmf_total_push(prefix1, (16u16, 50u16));
        let prefix3 = prefix2.push((32u16, 50u16));
        lemma_pmf_total_push(prefix2, (32u16, 50u16));
        assert(r.padding_distribution.pmf@ =~= prefix3);
        assert(r.supported_groups@ =~= seq![NamedGroup(SECP256R1), NamedGroup(X25519), NamedGroup(SECP384R1), NamedGroup(SECP521R1)]);
        assert(r.key_share_groups@ =~= seq![NamedGroup(SECP256R1), NamedGroup(X25519)]);
        assert(r.supported_groups@[0] == r.key_share_groups@[0]);
        assert(r.supported_groups@[1] == r.key_share_groups@[1]);
    }
    r
}

/// Edge 130 and later; Chromium-based, so close to Chrome.
pub fn edge_130() -> (r: TemplateData)
    ensures
        template_valid(r),
        r.name@ == "Edge 130+"@,
        r.cipher_suites@ == edge_130_suites(),
        r.extension_order@ == edge_130_extensions(),
{
    let r = TemplateData {
        name: "Edge 130+".to_string(),
        description: "Edge 130+ on Windows".to_string(),
        
        // Cipher suites in Edge order (very similar to Chrome)
        cipher_suites: vec![
            CipherSuite(TLS13_AES_128_GCM_SHA256),
            CipherSuite(TLS13_AES_256_GCM_SHA384),
            CipherSuite(TLS13_CHACHA20_POLY1305_SHA256),
            CipherSuite(TLS_ECDHE_ECDSA_WITH_AES_128_GCM_SHA256),
            CipherSuite(TLS_ECDHE_RSA_WITH_AES_128_GCM_SHA256),
            CipherSuite(TLS_ECDHE_ECDSA_WITH_AES_256_GCM_SHA384),
            CipherSuite(TLS_ECDHE_RSA_WITH_AES_256_GCM_SHA384),
            CipherSuite(TLS_ECDHE_ECDSA_WITH_CHACHA20_POLY1305_SHA256),
            CipherSuite(TLS_ECDHE_RSA_WITH_CHACHA20_POLY1305_SHA256),
            CipherSuite(TLS_ECDHE_RSA_WITH_AES_128_CBC_SHA),
            CipherSuite(TLS_ECDHE_RSA_WITH_AES_256_CBC_SHA),
            CipherSuite(TLS_RSA_WITH_AES_128_GCM_SHA256),
            CipherSuite(TLS_RSA_WITH_AES_256_GCM_SHA384),
            CipherSuite(TLS_RSA_WITH_AES_128_CBC_SHA),
            CipherSuite(TLS_RSA_WITH_AES_256_CBC_SHA),
        ],
        
        // Extension order matching Edge (identical to Chrome)
        extension_order: vec![
            ExtensionType::ServerName,                    // 0x0000
            ExtensionType::ExtendedMasterSecret,          // 0x0017
            ExtensionType::RenegotiationInfo,             // 0xff01
            ExtensionType::SupportedVersions,             // 0x002b
            ExtensionType::EllipticCurves,                // 0x000a (supported_groups)
            ExtensionType::ECPointFormats,                // 0x000b
            ExtensionType::SessionTicket,                 // 0x0023
            ExtensionType::ALProtocolNegotiation,         // 0x0010 (ALPN)
            ExtensionType::StatusRequest,                 // 0x0005 (OCSP)
            ExtensionType::SignatureAlgorithms,           // 0x000d
            ExtensionType::SCT,                           // 0x0012 (signed_certificate_timestamp)
            ExtensionType::KeyShare,                      // 0x0033
            ExtensionType::PSKKeyExchangeModes,           // 0x002d
            ExtensionType::CompressCertificate,           // 0x001b
            ExtensionType::Padding,                       // 0x0015
        ],
        
        // Supported groups (curves) in Edge order
        supported_groups: vec![
            NamedGroup(X25519),
            NamedGroup(SECP256R1),
            NamedGroup(SECP384R1),
        ],
        
        // Signature algorithms in Edge order
        signature_algorithms: vec![
            SignatureScheme(ECDSA_NISTP256_SHA256),
            SignatureScheme(RSA_PSS_SHA256),
            SignatureScheme(RSA_PKCS1_SHA256),
            SignatureScheme(ECDSA_NISTP384_SHA384),
            SignatureScheme(RSA_PSS_SHA384),
            SignatureScheme(RSA_PKCS1_SHA384),
            SignatureScheme(RSA_PSS_SHA512),
            SignatureScheme(RSA_PKCS1_SHA512),
        ],
        
        // Edge GREASE pattern (identical to Chrome)
        grease_pattern: GreasePattern {
            cipher_suite_probability: 1000,
            cipher_suite_positions: vec![0, 100, 200, 300],
            extension_probability: 1000,
            extension_positions: vec![0],
            grease_values: standard_grease_values(),
        },
        
        // Edge padding distribution (similar to Chrome)
        padding_distribution: PaddingDistribution {
            pmf: vec![
                (0, 150),
                (128, 200),
                (256, 300),
                (384, 200),
                (512, 150),
            ],
            min_length: 0,
            max_length: 512,
            power_of_2_bias: 800,
        },
        
        // ALPN protocols in Edge order
        alpn_protocols: vec![
            vec![0x68u8, 0x32u8],           // HTTP/2
            vec![0x68u8, 0x74u8, 0x74u8, 0x70u8, 0x2fu8, 0x31u8, 0x2eu8, 0x31u8],     // HTTP/1.1
        ],
        
        // HTTP/2 pseudo-header order for Edge (identical to Chrome)
        http2_pseudo_header_order: vec![
            ":method".to_string(),
            ":authority".to_string(),
            ":scheme".to_string(),
            ":path".to_string(),
        ],
        
        // Supported TLS versions
        supported_versions: vec![
            ProtocolVersion::TLSv1_3,
            ProtocolVersion::TLSv1_2,
        ],
        
        // Key share groups (subset of supported_groups)
        key_share_groups: vec![
            NamedGroup(X25519),
        ],
    };
    proof {
        assert(r.cipher_suites@ =~= edge_130_suites());
        assert(r.extension_order@ =~= edge_130_extensions());
        assert(r.grease_pattern.cipher_suite_positions@ =~= seq![0u16, 100u16, 200u16, 300u16]);
        assert(r.grease_pattern.extension_positions@ =~= seq![0u16]);
        let prefix0 = Seq::<(u16, u16)>::empty();
        let prefix1 = prefix0.push((0u16, 150u16));
        lemma_pmf_total_push(prefix0, (0u16, 150u16));
        let prefix2 = prefix1.push((128u16, 200u16));
        lemma_pmf_total_push(prefix1, (128u16, 200u16));
        let prefix3 = prefix2.push((256u16, 300u16));
        lemma_pmf_total_push(prefix2, (256u16, 300u16));
        let prefix4 = prefix3.push((384u16, 200u16));
        lemma_pmf_total_push(prefix3, (384u16, 200u16));
        let prefix5 = prefix4.push((512u16, 150u16));
        lemma_pmf_total_push(prefix4, (512u16, 150u16));
        assert(r.padding_distribution.pmf@ =~= prefix5);
        assert(r.supported_groups@ =~= seq![NamedGroup(X25519), NamedGroup(SECP256R1), NamedGroup(SECP384R1)]);
        assert(r.key_share_groups@ =~= seq![NamedGroup(X25519)]);
        assert(r.supported_groups@[0] == r.key_share_groups@[0]);
    }
    r
}

/// The cipher suite order of `chrome_130`.
pub open spec fn chrome_130_suites() -> Seq<CipherSuite> {
    seq![CipherSuite(TLS13_AES_128_GCM_SHA256), CipherSuite(TLS13_AES_256_GCM_SHA384), CipherSuite(TLS13_CHACHA20_POLY1305_SHA256), CipherSuite(TLS_ECDHE_ECDSA_WITH_AES_128_GCM_SHA256), CipherSuite(TLS_ECDHE_RSA_WITH_AES_128_GCM_SHA256), CipherSuite(TLS_ECDHE_ECDSA_WITH_AES_256_GCM_SHA384), CipherSuite(TLS_ECDHE_RSA_WITH_AES_256_GCM_SHA384), CipherSuite(TLS_ECDHE_ECDSA_WITH_CHACHA20_POLY1305_SHA256), CipherSuite(TLS_ECDHE_RSA_WITH_CHACHA20_POLY1305_SHA256), CipherSuite(TLS_ECDHE_RSA_WITH_AES_128_CBC_SHA), CipherSuite(TLS_ECDHE_RSA_WITH_AES_256_CBC_SHA), CipherSuite(TLS_RSA_WITH_AES_128_GCM_SHA256), CipherSuite(TLS_RSA_WITH_AES_256_GCM_SHA384), CipherSuite(TLS_RSA_WITH_AES_128_CBC_SHA), CipherSuite(TLS_RSA_WITH_AES_256_CBC_SHA)]
}

/// The extension order of `chrome_130`.
pub open spec fn chrome_130_extensions() -> Seq<ExtensionType> {
    seq![ExtensionType::ServerName, ExtensionType::ExtendedMasterSecret, ExtensionType::RenegotiationInfo, ExtensionType::SupportedVersions, ExtensionType::EllipticCurves, ExtensionType::ECPointFormats, ExtensionType::SessionTicket, ExtensionType::ALProtocolNegotiation, ExtensionType::StatusRequest, ExtensionType::SignatureAlgorithms, ExtensionType::SCT, ExtensionType::KeyShare, ExtensionType::PSKKeyExchangeModes, ExtensionType::CompressCertificate, ExtensionType::Padding]
}

/// The cipher suite order of `firefox_135`.
pub open spec fn firefox_135_suites() -> Seq<CipherSuite> {
    seq![CipherSuite(TLS13_AES_128_GCM_SHA256), CipherSuite(TLS13_CHACHA20_POLY1305_SHA256), CipherSuite(TLS13_AES_256_GCM_SHA384), CipherSuite(TLS_ECDHE_ECDSA_WITH_AES_128_GCM_SHA256), CipherSuite(TLS_ECDHE_RSA_WITH_AES_128_GCM_SHA256), CipherSuite(TLS_ECDHE_ECDSA_WITH_CHACHA20_POLY1305_SHA256), CipherSuite(TLS_ECDHE_RSA_WITH_CHACHA20_POLY1305_SHA256), CipherSuite(TLS_ECDHE_ECDSA_WITH_AES_256_GCM_SHA384), CipherSuite(TLS_ECDHE_RSA_WITH_AES_256_GCM_SHA384), CipherSuite(TLS_ECDHE_ECDSA_WITH_AES_256_CBC_SHA), CipherSuite(TLS_ECDHE_ECDSA_WITH_AES_128_CBC_SHA), CipherSuite(TLS_ECDHE_RSA_WITH_AES_128_CBC_SHA), CipherSuite(TLS_ECDHE_RSA_WITH_AES_256_CBC_SHA), CipherSuite(TLS_RSA_WITH_AES_128_GCM_SHA256), CipherSuite(TLS_RSA_WITH_AES_256_GCM_SHA384), CipherSuite(TLS_RSA_WITH_AES_128_CBC_SHA), CipherSuite(TLS_RSA_WITH_AES_256_CBC_SHA)]
}

/// The extension order of `firefox_135`.
pub open spec fn firefox_135_extensions() -> Seq<ExtensionType> {
    seq![ExtensionType::ServerName, ExtensionType::ExtendedMasterSecret, ExtensionType::RenegotiationInfo, ExtensionType::SupportedVersions, ExtensionType::EllipticCurves, ExtensionType::SessionTicket, ExtensionType::ALProtocolNegotiation, ExtensionType::StatusRequest, ExtensionType::KeyShare, ExtensionType::SupportedVersions, ExtensionType::SignatureAlgorithms, ExtensionType::PSKKeyExchangeModes, ExtensionType::ECPointFormats, ExtensionType::Padding]
}

/// The cipher suite order of `safari_17`.
pub open spec fn safari_17_suites() -> Seq<CipherSuite> {
    seq![CipherSuite(TLS13_AES_128_GCM_SHA256), CipherSuite(TLS13_AES_256_GCM_SHA384), CipherSuite(TLS13_CHACHA20_POLY1305_SHA256), CipherSuite(TLS_ECDHE_ECDSA_WITH_AES_256_GCM_SHA384), CipherSuite(TLS_ECDHE_ECDSA_WITH_AES_128_GCM_SHA256), CipherSuite(TLS_ECDHE_RSA_WITH_AES_256_GCM_SHA384), CipherSuite(TLS_ECDHE_RSA_WITH_AES_128_GCM_SHA256), CipherSuite(TLS_ECDHE_ECDSA_WITH_CHACHA20_POLY1305_SHA256), CipherSuite(TLS_ECDHE_RSA_WITH_CHACHA20_POLY1305_SHA256), CipherSuite(TLS_ECDHE_RSA_WITH_AES_256_CBC_SHA), CipherSuite(TLS_ECDHE_RSA_WITH_AES_128_CBC_SHA), CipherSuite(TLS_RSA_WITH_AES_256_GCM_SHA384), CipherSuite(TLS_RSA_WITH_AES_128_GCM_SHA256), CipherSuite(TLS_RSA_WITH_AES_256_CBC_SHA), CipherSuite(TLS_RSA_WITH_AES_128_CBC_SHA)]
}

/// The extension order of `safari_17`.
pub open spec fn safari_17_extensions() -> Seq<ExtensionType> {
    seq![ExtensionType::ServerName, ExtensionType::ExtendedMasterSecret, ExtensionType::RenegotiationInfo, ExtensionType::SupportedVersions, ExtensionType::EllipticCurves, ExtensionType::ECPointFormats, ExtensionType::ALProtocolNegotiation, ExtensionType::StatusRequest, ExtensionType::SCT, ExtensionType::SignatureAlgorithms, ExtensionType::KeyShare, ExtensionType::PSKKeyExchangeModes, ExtensionType::SessionTicket]
}

/// The cipher suite order of `edge_130`.
pub open spec fn edge_130_suites() -> Seq<CipherSuite> {
    seq![CipherSuite(TLS13_AES_128_GCM_SHA256), CipherSuite(TLS13_AES_256_GCM_SHA384), CipherSuite(TLS13_CHACHA20_POLY1305_SHA256), CipherSuite(TLS_ECDHE_ECDSA_WITH_AES_128_GCM_SHA256), CipherSuite(TLS_ECDHE_RSA_WITH_AES_128_GCM_SHA256), CipherSuite(TLS_ECDHE_ECDSA_WITH_AES_256_GCM_SHA384), CipherSuite(TLS_ECDHE_RSA_WITH_AES_256_GCM_SHA384), CipherSuite(TLS_ECDHE_ECDSA_WITH_CHACHA20_POLY1305_SHA256), CipherSuite(TLS_ECDHE_RSA_WITH_CHACHA20_POLY1305_SHA256), CipherSuite(TLS_ECDHE_RSA_WITH_AES_128_CBC_SHA), CipherSuite(TLS_ECDHE_RSA_WITH_AES_256_CBC_SHA), CipherSuite(TLS_RSA_WITH_AES_128_GCM_SHA256), CipherSuite(TLS_RSA_WITH_AES_256_GCM_SHA384), CipherSuite(TLS_RSA_WITH_AES_128_CBC_SHA), CipherSuite(TLS_RSA_WITH_AES_256_CBC_SHA)]
}

/// The extension order of `edge_130`.
pub open spec fn edge_130_extensions() -> Seq<ExtensionType> {
    seq![ExtensionType::ServerName, ExtensionType::ExtendedMasterSecret, ExtensionType::RenegotiationInfo, ExtensionType::SupportedVersions, ExtensionType::EllipticCurves, ExtensionType::ECPointFormats, ExtensionType::SessionTicket, ExtensionType::ALProtocolNegotiation, ExtensionType::StatusRequest, ExtensionType::SignatureAlgorithms, ExtensionType::SCT, ExtensionType::KeyShare, ExtensionType::PSKKeyExchangeModes, ExtensionType::CompressCertificate, ExtensionType::Padding]
}

/// The name of a built-in template by tag: 0 Chrome, 1 Firefox, 2 Safari, 3 Edge.
pub open spec fn builtin_name(tag: int) -> Seq<char> {
    if tag == 1 { "Firefox 135+"@ } else if tag == 2 { "Safari 17+"@ } else if tag == 3 { "Edge 130+"@ } else { "Chrome 130+"@ }
}

/// The cipher suite order of a built-in template by tag.
pub open spec fn builtin_suites(tag: int) -> Seq<CipherSuite> {
    if tag == 1 { firefox_135_suites() } else if tag == 2 { safari_17_suites() } else if tag == 3 { edge_130_suites() } else { chrome_130_suites() }
}

/// The extension order of a built-in template by tag.
pub open spec fn builtin_extensions(tag: int) -> Seq<ExtensionType> {
    if tag == 1 { firefox_135_extensions() } else if tag == 2 { safari_17_extensions() } else if tag == 3 { edge_130_extensions() } else { chrome_130_extensions() }
}

/// `t` is the built-in template with this tag (any other tag means Chrome).
pub open spec fn is_builtin(t: TemplateData, tag: int) -> bool {
    &&& template_valid(t)
    &&& t.name@ == builtin_name(tag)
    &&& t.cipher_suites@ == builtin_suites(tag)
    &&& t.extension_order@ == builtin_extensions(tag)
}

} // verus!
