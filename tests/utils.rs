use custls::utils::pick_from_pmf;
use custls::{
    sample_from_pmf, sample_with_power_of_2_bias, validate_extension_order, CustlsError,
    ExtensionType, Http2Settings, PrioritySpec, SimpleRng,
};

#[test]
fn test_http2_settings_encode() {
    let settings = Http2Settings::default();
    let encoded = settings.encode();
    assert_eq!(encoded.len(), 36);
    assert_eq!(&encoded[0..2], &[0x00, 0x01]);
    assert_eq!(u32::from_be_bytes([encoded[2], encoded[3], encoded[4], encoded[5]]), 65536);
}

#[test]
fn test_http2_settings_chrome() {
    let settings = Http2Settings::chrome_default();
    assert_eq!(settings.enable_push, false);
    assert_eq!(settings.initial_window_size, 6291456);
    assert!(settings.priority_spec.is_some());
}

#[test]
fn test_http2_settings_firefox() {
    let settings = Http2Settings::firefox_default();
    assert_eq!(settings.enable_push, true);
    assert_eq!(settings.initial_window_size, 131072);
    assert_eq!(settings.pseudo_header_order, vec![":method", ":path", ":authority", ":scheme"]);
}

#[test]
fn test_priority_spec_encode() {
    let spec = PrioritySpec { stream_dependency: 0, weight: 256, exclusive: true };
    let encoded = spec.encode();
    assert_eq!(encoded.len(), 5);
    assert_eq!(encoded[0] & 0x80, 0x80);
    assert_eq!(encoded[4], 255);
}

#[test]
fn priority_spec_non_exclusive() {
    let spec = PrioritySpec { stream_dependency: 0x8000_0003, weight: 16, exclusive: false };
    assert_eq!(spec.encode(), vec![0, 0, 0, 3, 15]);
    let spec = PrioritySpec { stream_dependency: 5, weight: 0, exclusive: true };
    assert_eq!(spec.encode(), vec![0x80, 0, 0, 5, 0]);
}

#[test]
fn test_sample_from_pmf() {
    let pmf = vec![(1u16, 500u16), (2, 300), (3, 200)];
    let mut rng = SimpleRng::new();
    for _ in 0..100 {
        let sample = sample_from_pmf(&pmf, &mut rng);
        assert!(sample.is_some());
        let value = sample.unwrap();
        assert!(value >= 1 && value <= 3);
    }
}

#[test]
fn test_sample_from_pmf_empty() {
    let pmf: Vec<(u16, u16)> = vec![];
    let mut rng = SimpleRng::new();
    assert!(sample_from_pmf(&pmf, &mut rng).is_none());
}

#[test]
fn pmf_inversion_exact() {
    let pmf = vec![(1u16, 500u16), (2, 300), (3, 200)];
    assert_eq!(pick_from_pmf(&pmf, 0), Some(1));
    assert_eq!(pick_from_pmf(&pmf, 499), Some(1));
    assert_eq!(pick_from_pmf(&pmf, 500), Some(2));
    assert_eq!(pick_from_pmf(&pmf, 799), Some(2));
    assert_eq!(pick_from_pmf(&pmf, 800), Some(3));
    assert_eq!(pick_from_pmf(&pmf, 1000), None);
}

#[test]
fn test_sample_with_power_of_2_bias() {
    let mut rng = SimpleRng::new();
    for _ in 0..100 {
        let value = sample_with_power_of_2_bias(0, 1500, 700, &mut rng);
        assert!(value <= 1500);
    }
    for _ in 0..20 {
        let value = sample_with_power_of_2_bias(3, 5, 1000, &mut rng);
        assert_eq!(value, 4);
    }
}

#[test]
fn test_validate_extension_order_psk_last() {
    let extensions = vec![ExtensionType::ServerName, ExtensionType::SupportedVersions, ExtensionType::PreSharedKey];
    assert!(validate_extension_order(&extensions).is_ok());
    let extensions = vec![ExtensionType::PreSharedKey, ExtensionType::ServerName, ExtensionType::SupportedVersions];
    assert!(validate_extension_order(&extensions).is_err());
}

#[test]
fn test_validate_extension_order_duplicates() {
    let extensions = vec![ExtensionType::ServerName, ExtensionType::ServerName];
    assert!(validate_extension_order(&extensions).is_err());
    assert!(matches!(validate_extension_order(&extensions), Err(CustlsError::ValidationError(_))));
    assert!(validate_extension_order(&[]).is_ok());
}
