use custls::orchestrator::resolve_template;
use custls::{
    BrowserTemplate, ClientExtension, ClientHelloConfig, ClientHelloPayload, ConfigParams,
    CustlsConfig, DefaultCustomizer, ExtensionType, RandomizationLevel, SessionId, TargetKey,
    TemplateRotationPolicy,
};
use std::collections::HashSet;

fn hello_config(padding_length: u16, random_seed: u64) -> ClientHelloConfig {
    ClientHelloConfig {
        template: BrowserTemplate::Chrome130,
        cipher_suites: Vec::new(),
        extension_order: Vec::new(),
        extension_data: Vec::new(),
        grease_cipher_positions: Vec::new(),
        grease_extension_positions: Vec::new(),
        padding_length,
        random_seed,
        supported_groups: Vec::new(),
        signature_algorithms: Vec::new(),
    }
}

#[test]
fn test_default_customizer_creation() {
    let config = CustlsConfig::builder().with_template(BrowserTemplate::Chrome130).with_randomization_level(RandomizationLevel::Light).build();
    let customizer = DefaultCustomizer::new(config);
    assert!(customizer.template().is_some());
    assert_eq!(customizer.template().unwrap().name, "Chrome 130+");
}

#[test]
fn test_default_customizer_no_template() {
    let config = CustlsConfig::builder().with_randomization_level(RandomizationLevel::Disabled).build();
    let customizer = DefaultCustomizer::new(config);
    assert!(customizer.template().is_none());
}

#[test]
fn test_default_customizer_with_cache() {
    let config = CustlsConfig::builder().with_template(BrowserTemplate::Chrome130).with_cache(true).build();
    assert!(DefaultCustomizer::new(config).has_cache());
}

#[test]
fn test_default_customizer_without_cache() {
    let config = CustlsConfig::builder().with_template(BrowserTemplate::Chrome130).with_cache(false).build();
    assert!(!DefaultCustomizer::new(config).has_cache());
}

#[test]
fn test_resolve_template_chrome() {
    assert_eq!(resolve_template(&BrowserTemplate::Chrome130).name, "Chrome 130+");
}

#[test]
fn test_resolve_template_firefox() {
    assert_eq!(resolve_template(&BrowserTemplate::Firefox135).name, "Firefox 135+");
}

#[test]
fn test_resolve_template_safari() {
    assert_eq!(resolve_template(&BrowserTemplate::Safari17).name, "Safari 17+");
}

#[test]
fn test_resolve_template_edge() {
    assert_eq!(resolve_template(&BrowserTemplate::Edge130).name, "Edge 130+");
}

#[test]
fn test_default_customizer_arc() {
    let config = CustlsConfig::builder().with_template(BrowserTemplate::Chrome130).build();
    let customizer = DefaultCustomizer::new_arc(config);
    assert!(customizer.template().is_some());
}

#[test]
fn test_cache_operations() {
    let config = CustlsConfig::builder().with_template(BrowserTemplate::Chrome130).with_cache(true).build();
    let mut customizer = DefaultCustomizer::new(config);
    customizer.clear_cache();
    let target = TargetKey::new("example.com".to_string(), 443);
    assert!(!customizer.invalidate_target(&target));
}

#[test]
fn test_hook_on_config_resolve() {
    let config = CustlsConfig::builder().with_template(BrowserTemplate::Chrome130).build();
    let mut customizer = DefaultCustomizer::new(config);
    let mut config_params = ConfigParams::new();
    assert!(customizer.on_config_resolve(&mut config_params).is_ok());
}

#[test]
fn test_hook_on_components_ready() {
    let config = CustlsConfig::builder().with_template(BrowserTemplate::Chrome130).with_randomization_level(RandomizationLevel::Light).build();
    let mut customizer = DefaultCustomizer::new(config);
    let mut cipher_suites = Vec::new();
    let mut extensions = Vec::new();
    assert!(customizer.on_components_ready(&mut cipher_suites, &mut extensions).is_ok());
}

#[test]
fn test_hook_on_struct_ready() {
    let config = CustlsConfig::builder().with_template(BrowserTemplate::Chrome130).build();
    let customizer = DefaultCustomizer::new(config);
    assert!(customizer.template().is_some());
}

#[test]
fn test_hook_transform_wire_bytes() {
    let config = CustlsConfig::builder().with_template(BrowserTemplate::Chrome130).build();
    let customizer = DefaultCustomizer::new(config);
    let bytes = vec![1, 2, 3, 4, 5];
    let result = customizer.transform_wire_bytes(bytes.clone()).unwrap();
    assert_eq!(result, bytes);
}

#[test]
fn test_no_template_skips_customization() {
    let config = CustlsConfig::builder().with_randomization_level(RandomizationLevel::High).build();
    let mut customizer = DefaultCustomizer::new(config);
    let mut cipher_suites = Vec::new();
    let mut extensions = Vec::new();
    assert!(customizer.on_components_ready(&mut cipher_suites, &mut extensions).is_ok());
    assert!(cipher_suites.is_empty() && extensions.is_empty());
}

#[test]
fn test_randomization_none_skips_variation() {
    let config = CustlsConfig::builder().with_template(BrowserTemplate::Chrome130).with_randomization_level(RandomizationLevel::Disabled).build();
    let mut customizer = DefaultCustomizer::new(config);
    let mut cipher_suites = Vec::new();
    let mut extensions = Vec::new();
    assert!(customizer.on_components_ready(&mut cipher_suites, &mut extensions).is_ok());
    assert!(cipher_suites.is_empty() && extensions.is_empty());
}

#[test]
fn test_template_rotation_round_robin() {
    let config = CustlsConfig::builder()
        .with_rotation_policy(TemplateRotationPolicy::RoundRobin)
        .with_rotation_templates(vec![BrowserTemplate::Chrome130, BrowserTemplate::Firefox135])
        .build();
    let mut customizer = DefaultCustomizer::new(config);
    assert!(matches!(customizer.select_rotated_template(), Some(BrowserTemplate::Chrome130)));
    assert!(matches!(customizer.select_rotated_template(), Some(BrowserTemplate::Firefox135)));
    assert!(matches!(customizer.select_rotated_template(), Some(BrowserTemplate::Chrome130)));
}

#[test]
fn test_template_rotation_random() {
    let config = CustlsConfig::builder()
        .with_rotation_policy(TemplateRotationPolicy::Random)
        .with_rotation_templates(vec![BrowserTemplate::Chrome130, BrowserTemplate::Firefox135, BrowserTemplate::Safari17])
        .build();
    let mut customizer = DefaultCustomizer::new(config);
    let mut templates = Vec::new();
    for _ in 0..10 {
        templates.push(customizer.select_rotated_template());
    }
    let unique_count = templates.iter().filter_map(|t| t.as_ref()).collect::<HashSet<_>>().len();
    assert!(unique_count >= 2, "Expected at least 2 different templates, got {}", unique_count);
}

#[test]
fn test_template_rotation_weighted_random() {
    let config = CustlsConfig::builder().with_rotation_policy(TemplateRotationPolicy::WeightedRandom).build();
    let mut customizer = DefaultCustomizer::new(config);
    let (mut chrome, mut firefox, mut safari, mut edge) = (0, 0, 0, 0);
    for _ in 0..100 {
        match customizer.select_rotated_template() {
            Some(BrowserTemplate::Chrome130) => chrome += 1,
            Some(BrowserTemplate::Firefox135) => firefox += 1,
            Some(BrowserTemplate::Safari17) => safari += 1,
            Some(BrowserTemplate::Edge130) => edge += 1,
            _ => {}
        }
    }
    assert!(chrome > firefox);
    assert!(chrome > safari);
    assert!(chrome > edge);
    assert!(chrome > 0 && firefox > 0 && safari > 0 && edge > 0);
}

#[test]
fn test_template_rotation_none() {
    let config = CustlsConfig::builder().with_template(BrowserTemplate::Chrome130).with_rotation_policy(TemplateRotationPolicy::Disabled).build();
    let mut customizer = DefaultCustomizer::new(config);
    for _ in 0..10 {
        assert!(matches!(customizer.select_rotated_template(), Some(BrowserTemplate::Chrome130)));
    }
}

#[test]
fn test_template_rotation_with_empty_list() {
    let config = CustlsConfig::builder().with_rotation_policy(TemplateRotationPolicy::RoundRobin).with_rotation_templates(Vec::new()).build();
    let mut customizer = DefaultCustomizer::new(config);
    assert!(customizer.select_rotated_template().is_some());
}

#[test]
fn test_rotation_increments_counter() {
    let config = CustlsConfig::builder()
        .with_rotation_policy(TemplateRotationPolicy::RoundRobin)
        .with_rotation_templates(vec![BrowserTemplate::Chrome130, BrowserTemplate::Firefox135])
        .build();
    let mut customizer = DefaultCustomizer::new(config);
    let mut config_params = ConfigParams::new();
    for _ in 0..5 {
        assert!(customizer.on_config_resolve(&mut config_params).is_ok());
    }
    let template = customizer.select_rotated_template();
    assert!(template.is_some());
    assert!(matches!(template, Some(BrowserTemplate::Firefox135)));
}

#[test]
fn test_session_management() {
    let config = CustlsConfig::builder().with_template(BrowserTemplate::Chrome130).with_cache(true).build();
    let mut customizer = DefaultCustomizer::new(config);
    let session_id = SessionId::new(vec![1, 2, 3, 4]);
    customizer.record_session(&session_id, hello_config(256, 12345));
    let retrieved = customizer.get_session_config(&session_id);
    assert!(retrieved.is_some());
    assert_eq!(retrieved.unwrap().padding_length, 256);
    customizer.mark_session_established(&session_id);
    customizer.record_session_ticket(&session_id, vec![10, 20, 30, 40]);
    customizer.record_session_resumption(&session_id);
}

#[test]
fn test_session_management_without_cache() {
    let config = CustlsConfig::builder().with_template(BrowserTemplate::Chrome130).with_cache(false).build();
    let mut customizer = DefaultCustomizer::new(config);
    let session_id = SessionId::new(vec![1, 2, 3, 4]);
    customizer.record_session(&session_id, hello_config(256, 12345));
    assert!(customizer.get_session_config(&session_id).is_none());
}

#[test]
fn test_session_consistency_during_resumption() {
    let config = CustlsConfig::builder().with_template(BrowserTemplate::Chrome130).with_cache(true).build();
    let mut customizer = DefaultCustomizer::new(config);
    let session_id = SessionId::new(vec![5, 6, 7, 8]);
    customizer.record_session(&session_id, hello_config(512, 99999));
    let config1 = customizer.get_session_config(&session_id).unwrap();
    customizer.record_session_resumption(&session_id);
    let config2 = customizer.get_session_config(&session_id).unwrap();
    assert_eq!(config1.padding_length, config2.padding_length);
    assert_eq!(config1.random_seed, config2.random_seed);
}

#[test]
fn round_robin_phase_one_scenario() {
    let config = CustlsConfig::builder()
        .with_rotation_policy(TemplateRotationPolicy::RoundRobin)
        .with_rotation_templates(vec![BrowserTemplate::Chrome130, BrowserTemplate::Firefox135])
        .build();
    let mut customizer = DefaultCustomizer::new(config);
    let mut picked = Vec::new();
    for _ in 0..4 {
        let mut params = ConfigParams::new();
        customizer.on_config_resolve(&mut params).unwrap();
        picked.push(params.template.unwrap());
    }
    assert_eq!(picked, vec![BrowserTemplate::Chrome130, BrowserTemplate::Firefox135, BrowserTemplate::Chrome130, BrowserTemplate::Firefox135]);
}

#[test]
fn round_robin_is_exactly_uniform() {
    let config = CustlsConfig::builder().with_rotation_policy(TemplateRotationPolicy::RoundRobin).build();
    let mut customizer = DefaultCustomizer::new(config);
    let mut counts = [0u32; 4];
    for _ in 0..(5 * 4) {
        match customizer.select_rotated_template().unwrap() {
            BrowserTemplate::Chrome130 => counts[0] += 1,
            BrowserTemplate::Firefox135 => counts[1] += 1,
            BrowserTemplate::Safari17 => counts[2] += 1,
            BrowserTemplate::Edge130 => counts[3] += 1,
            _ => panic!("unexpected template"),
        }
    }
    assert_eq!(counts, [5, 5, 5, 5]);
}

#[test]
fn random_policy_varies_over_many_connections() {
    for policy in [TemplateRotationPolicy::Random, TemplateRotationPolicy::WeightedRandom] {
        let config = CustlsConfig::builder().with_rotation_policy(policy).build();
        let mut customizer = DefaultCustomizer::new(config);
        let mut seen = HashSet::new();
        for _ in 0..120 {
            seen.insert(customizer.select_rotated_template().unwrap());
        }
        assert!(seen.len() >= 2);
    }
}

fn full_handshake(customizer: &mut DefaultCustomizer, target: &TargetKey) -> (Vec<u8>, Option<BrowserTemplate>, Vec<u16>) {
    let mut params = ConfigParams::new();
    params.target = Some(target.clone());
    customizer.on_config_resolve(&mut params).unwrap();
    let mut suites = vec![custls::CipherSuite(0x1301), custls::CipherSuite(0x1302)];
    let mut exts = vec![
        ClientExtension::new(ExtensionType::ServerName, vec![0, 1]),
        ClientExtension::new(ExtensionType::SupportedVersions, vec![2]),
        ClientExtension::new(ExtensionType::KeyShare, vec![3]),
        ClientExtension::new(ExtensionType::PreSharedKey, vec![4]),
    ];
    customizer.on_components_ready(&mut suites, &mut exts).unwrap();
    let grease: Vec<u16> = suites.iter().map(|c| c.0).filter(|v| custls::is_grease_value(*v)).collect();
    assert_eq!(exts.last().unwrap().ext_type, ExtensionType::PreSharedKey);
    let mut payload = ClientHelloPayload { cipher_suites: suites, extensions: exts };
    customizer.on_struct_ready(&mut payload).unwrap();
    assert_eq!(payload.extensions.last().unwrap().ext_type, ExtensionType::PreSharedKey);
    assert!(payload.extensions.iter().any(|e| e.ext_type == ExtensionType::Padding && e.data.iter().all(|b| *b == 0)));
    let bytes = customizer.transform_wire_bytes(payload.encode()).unwrap();
    assert_eq!(bytes, payload.encode());
    (bytes, params.template, grease)
}

#[test]
fn connections_vary_but_keep_template() {
    let config = CustlsConfig::builder().with_template(BrowserTemplate::Chrome130).with_randomization_level(RandomizationLevel::Medium).build();
    let mut customizer = DefaultCustomizer::new(config);
    let target = TargetKey::new("example.com".to_string(), 443);
    customizer.record_handshake_result(&target, hello_config(0, 0), true);
    let (b1, t1, g1) = full_handshake(&mut customizer, &target);
    let (b2, t2, g2) = full_handshake(&mut customizer, &target);
    assert_ne!(b1, b2);
    assert_eq!(t1, Some(BrowserTemplate::Chrome130));
    assert_eq!(t1, t2);
    assert_eq!(g1.len(), 1);
    assert_eq!(g2.len(), 1);
    assert_ne!(g1[0], g2[0]);
    assert!(customizer.realized_config().is_some());
}

#[test]
fn phase_two_changes_reach_the_wire() {
    let config = CustlsConfig::builder().with_template(BrowserTemplate::Safari17).with_randomization_level(RandomizationLevel::Disabled).build();
    let mut customizer = DefaultCustomizer::new(config);
    let mut params = ConfigParams::new();
    customizer.on_config_resolve(&mut params).unwrap();
    let mut payload = ClientHelloPayload::new();
    payload.cipher_suites.push(custls::CipherSuite(0x1301));
    customizer.on_struct_ready(&mut payload).unwrap();
    let bytes = customizer.transform_wire_bytes(payload.encode()).unwrap();
    assert_eq!(&bytes[0..4], &[0, 2, 0x13, 0x01]);
    assert_eq!(payload.extensions.len(), 1);
    assert_eq!(payload.extensions[0].data.len(), 0);
}

#[test]
fn build_client_hello_marshals_final_payload() {
    let config = CustlsConfig::builder().with_template(BrowserTemplate::Firefox135).with_randomization_level(RandomizationLevel::High).build();
    let mut customizer = DefaultCustomizer::new(config);
    let mut params = ConfigParams::new();
    let exts = vec![
        ClientExtension::new(ExtensionType::KeyShare, vec![1]),
        ClientExtension::new(ExtensionType::ServerName, vec![2]),
        ClientExtension::new(ExtensionType::PreSharedKey, vec![3]),
    ];
    let (payload, bytes) = customizer.build_client_hello(&mut params, vec![custls::CipherSuite(0x1301)], exts).unwrap();
    assert_eq!(bytes, payload.encode());
    assert_eq!(payload.extensions.last().unwrap().ext_type, ExtensionType::PreSharedKey);
    assert!(payload.extensions.iter().any(|e| e.ext_type == ExtensionType::Padding));
    assert_eq!(params.template, Some(BrowserTemplate::Firefox135));
}

#[test]
fn phase_one_finds_working_fingerprint() {
    let config = CustlsConfig::builder().with_template(BrowserTemplate::Chrome130).build();
    let mut customizer = DefaultCustomizer::new(config);
    let target = TargetKey::new("example.com".to_string(), 443);
    let mut params = ConfigParams::new();
    params.target = Some(target.clone());
    customizer.on_config_resolve(&mut params).unwrap();
    assert!(customizer.working_fingerprint().is_none());
    customizer.record_handshake_result(&target, hello_config(384, 5), true);
    customizer.on_config_resolve(&mut params).unwrap();
    assert_eq!(customizer.working_fingerprint().unwrap().padding_length, 384);
}

#[test]
fn realized_config_records_what_was_sent() {
    let config = CustlsConfig::builder().with_template(BrowserTemplate::Chrome130).with_randomization_level(RandomizationLevel::Light).build();
    let mut customizer = DefaultCustomizer::new(config);
    let mut params = ConfigParams::new();
    let exts = vec![
        ClientExtension::new(ExtensionType::ServerName, vec![1]),
        ClientExtension::new(ExtensionType::KeyShare, vec![2]),
    ];
    let (payload, _) = customizer.build_client_hello(&mut params, vec![custls::CipherSuite(0x1302), custls::CipherSuite(0x1301)], exts).unwrap();
    let realized = customizer.realized_config().unwrap();
    assert_eq!(realized.cipher_suites, payload.cipher_suites);
    assert_eq!(realized.extension_data.len(), payload.extensions.len());
    assert_eq!(realized.grease_cipher_positions.len(), 1);
    assert_eq!(realized.grease_extension_positions.len(), 1);
    let padding = payload.extensions.iter().find(|e| e.ext_type == ExtensionType::Padding).unwrap();
    assert_eq!(padding.data.len(), realized.padding_length as usize);
    assert!(realized.padding_length <= 512);
    let suites: Vec<u16> = payload.cipher_suites.iter().map(|c| c.0).filter(|v| !custls::is_grease_value(*v)).collect();
    assert_eq!(suites, vec![0x1301, 0x1302]);
}

#[test]
fn disabled_level_applies_template_order_only() {
    let config = CustlsConfig::builder().with_template(BrowserTemplate::Chrome130).with_randomization_level(RandomizationLevel::Disabled).build();
    let mut customizer = DefaultCustomizer::new(config);
    let mut suites = vec![custls::CipherSuite(0x1303), custls::CipherSuite(0x1301)];
    let mut exts = vec![
        ClientExtension::new(ExtensionType::KeyShare, vec![]),
        ClientExtension::new(ExtensionType::PreSharedKey, vec![]),
        ClientExtension::new(ExtensionType::ServerName, vec![]),
    ];
    customizer.on_components_ready(&mut suites, &mut exts).unwrap();
    assert_eq!(suites, vec![custls::CipherSuite(0x1301), custls::CipherSuite(0x1303)]);
    let types: Vec<ExtensionType> = exts.iter().map(|e| e.ext_type).collect();
    assert_eq!(types, vec![ExtensionType::ServerName, ExtensionType::KeyShare, ExtensionType::PreSharedKey]);
}
