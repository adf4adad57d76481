use custls::{
    calculate_reputation_score, BrowserTemplate, ClientHelloConfig, FingerprintEntry,
    FingerprintManager, TargetKey,
};

fn create_test_config() -> ClientHelloConfig {
    ClientHelloConfig {
        template: BrowserTemplate::Chrome130,
        cipher_suites: Vec::new(),
        extension_order: Vec::new(),
        extension_data: Vec::new(),
        grease_cipher_positions: Vec::new(),
        grease_extension_positions: Vec::new(),
        padding_length: 0,
        random_seed: 0,
        supported_groups: Vec::new(),
        signature_algorithms: Vec::new(),
    }
}

fn rep(ppm: u32) -> f64 {
    ppm as f64 / 1_000_000.0
}

#[test]
fn test_target_key_creation() {
    let key = TargetKey::new("example.com".to_string(), 443);
    assert_eq!(key.host, "example.com");
    assert_eq!(key.port, 443);
}

#[test]
fn test_fingerprint_entry_reputation() {
    let mut entry = FingerprintEntry::new(create_test_config(), 0);
    assert_eq!(rep(entry.reputation_ppm()), 0.5);
    entry.success_count = 10;
    entry.failure_count = 0;
    assert_eq!(rep(entry.reputation_ppm()), 1.0);
    entry.success_count = 5;
    entry.failure_count = 5;
    assert_eq!(rep(entry.reputation_ppm()), 0.5);
    entry.success_count = 2;
    entry.failure_count = 8;
    assert_eq!(rep(entry.reputation_ppm()), 0.2);
}

#[test]
fn test_fingerprint_manager_creation() {
    let manager = FingerprintManager::new(100);
    assert_eq!(manager.max_size(), 100);
    assert_eq!(manager.size(), 0);
    assert!(manager.is_empty());
}

#[test]
fn test_cache_clear() {
    let mut manager = FingerprintManager::new(100);
    let target = TargetKey::new("example.com".to_string(), 443);
    manager.record_result(&target, create_test_config(), true);
    assert_eq!(manager.size(), 1);
    manager.clear_cache();
    assert_eq!(manager.size(), 0);
    assert!(manager.is_empty());
}

#[test]
fn test_cache_invalidate_target() {
    let mut manager = FingerprintManager::new(100);
    let target1 = TargetKey::new("example.com".to_string(), 443);
    let target2 = TargetKey::new("test.com".to_string(), 443);
    let config = create_test_config();
    manager.record_result(&target1, config.clone(), true);
    manager.record_result(&target2, config, true);
    assert_eq!(manager.size(), 2);
    assert!(manager.invalidate_target(&target1));
    assert_eq!(manager.size(), 1);
    assert!(!manager.invalidate_target(&target1));
    assert_eq!(manager.size(), 1);
}

#[test]
fn test_cache_insertion_and_lookup() {
    let mut manager = FingerprintManager::new(100);
    let target = TargetKey::new("example.com".to_string(), 443);
    let mut config = create_test_config();
    config.padding_length = 256;
    manager.record_result(&target, config.clone(), true);
    let retrieved = manager.get_working_fingerprint(&target);
    assert!(retrieved.is_some());
    assert_eq!(retrieved.unwrap().padding_length, 256);
}

#[test]
fn test_reputation_score_calculation() {
    let mut manager = FingerprintManager::new(100);
    let target = TargetKey::new("example.com".to_string(), 443);
    let config = create_test_config();
    for _ in 0..10 {
        manager.record_result(&target, config.clone(), true);
    }
    let stats = manager.get_stats(&target).unwrap();
    assert_eq!(stats.0, 10);
    assert_eq!(stats.1, 0);
    assert_eq!(rep(stats.2), 1.0);
    for _ in 0..5 {
        manager.record_result(&target, config.clone(), false);
    }
    let stats = manager.get_stats(&target).unwrap();
    assert_eq!(stats.0, 10);
    assert_eq!(stats.1, 5);
    assert!((rep(stats.2) - 0.666).abs() < 0.01);
}

#[test]
fn test_cache_eviction_policy() {
    let mut manager = FingerprintManager::new(3);
    let config = create_test_config();
    let target1 = TargetKey::new("high-rep.com".to_string(), 443);
    let target2 = TargetKey::new("medium-rep.com".to_string(), 443);
    let target3 = TargetKey::new("low-rep.com".to_string(), 443);
    for _ in 0..10 {
        manager.record_result(&target1, config.clone(), true);
    }
    for _ in 0..5 {
        manager.record_result(&target2, config.clone(), true);
    }
    for _ in 0..5 {
        manager.record_result(&target2, config.clone(), false);
    }
    for _ in 0..10 {
        manager.record_result(&target3, config.clone(), false);
    }
    assert_eq!(manager.size(), 3);
    let target4 = TargetKey::new("new.com".to_string(), 443);
    manager.record_result(&target4, config.clone(), true);
    assert_eq!(manager.size(), 3);
    assert!(manager.get_stats(&target1).is_some());
    assert!(manager.get_stats(&target2).is_some());
    assert!(manager.get_stats(&target3).is_none());
    assert!(manager.get_stats(&target4).is_some());
}

#[test]
fn test_manual_invalidation() {
    let mut manager = FingerprintManager::new(100);
    let target1 = TargetKey::new("example.com".to_string(), 443);
    let target2 = TargetKey::new("test.com".to_string(), 443);
    let config = create_test_config();
    manager.record_result(&target1, config.clone(), true);
    manager.record_result(&target2, config, true);
    assert_eq!(manager.size(), 2);
    assert!(manager.invalidate_target(&target1));
    assert_eq!(manager.size(), 1);
    assert!(manager.get_stats(&target1).is_none());
    assert!(manager.get_stats(&target2).is_some());
    manager.clear_cache();
    assert_eq!(manager.size(), 0);
    assert!(manager.get_stats(&target2).is_none());
}

#[test]
fn test_get_all_targets() {
    let mut manager = FingerprintManager::new(100);
    let config = create_test_config();
    let target1 = TargetKey::new("example.com".to_string(), 443);
    let target2 = TargetKey::new("test.com".to_string(), 443);
    let target3 = TargetKey::new("demo.com".to_string(), 443);
    manager.record_result(&target1, config.clone(), true);
    manager.record_result(&target2, config.clone(), true);
    manager.record_result(&target3, config, true);
    let targets = manager.get_all_targets();
    assert_eq!(targets.len(), 3);
    assert!(targets.contains(&target1));
    assert!(targets.contains(&target2));
    assert!(targets.contains(&target3));
}

#[test]
fn test_cache_updates_existing_entry() {
    let mut manager = FingerprintManager::new(100);
    let target = TargetKey::new("example.com".to_string(), 443);
    let mut config1 = create_test_config();
    config1.padding_length = 100;
    manager.record_result(&target, config1, true);
    assert_eq!(manager.size(), 1);
    let mut config2 = create_test_config();
    config2.padding_length = 200;
    manager.record_result(&target, config2, true);
    assert_eq!(manager.size(), 1);
    let retrieved = manager.get_working_fingerprint(&target).unwrap();
    assert_eq!(retrieved.padding_length, 200);
    let stats = manager.get_stats(&target).unwrap();
    assert_eq!(stats.0, 2);
}

#[test]
fn test_empty_cache_operations() {
    let mut manager = FingerprintManager::new(100);
    assert!(manager.is_empty());
    assert_eq!(manager.size(), 0);
    let target = TargetKey::new("example.com".to_string(), 443);
    assert!(manager.get_working_fingerprint(&target).is_none());
    assert!(manager.get_stats(&target).is_none());
    assert!(!manager.invalidate_target(&target));
    assert!(manager.get_all_targets().is_empty());
}

#[test]
fn grease_history_in_order() {
    let mut manager = FingerprintManager::new(100);
    let target = TargetKey::new("example.com".to_string(), 443);
    manager.record_result(&target, create_test_config(), true);
    manager.track_grease_value(&target, 0x0a0a);
    manager.track_grease_value(&target, 0x1a1a);
    assert_eq!(manager.get_previous_grease_values(&target), vec![0x0a0a, 0x1a1a]);
}

#[test]
fn grease_history_drops_oldest() {
    let mut manager = FingerprintManager::new(100);
    let target = TargetKey::new("example.com".to_string(), 443);
    manager.record_result(&target, create_test_config(), true);
    for i in 0..15u16 {
        manager.track_grease_value(&target, 0x0a0a + i * 0x1010);
    }
    let values = manager.get_previous_grease_values(&target);
    assert_eq!(values.len(), 10);
    assert_eq!(values[0], 0x0a0a + 5 * 0x1010);
    assert_eq!(values[9], 0x0a0a + 14 * 0x1010);
}

#[test]
fn padding_history_in_order() {
    let mut manager = FingerprintManager::new(100);
    let target = TargetKey::new("example.com".to_string(), 443);
    manager.record_result(&target, create_test_config(), true);
    manager.track_padding_length(&target, 128);
    manager.track_padding_length(&target, 256);
    assert_eq!(manager.get_previous_padding_lengths(&target), vec![128, 256]);
}

#[test]
fn padding_history_drops_oldest() {
    let mut manager = FingerprintManager::new(100);
    let target = TargetKey::new("example.com".to_string(), 443);
    manager.record_result(&target, create_test_config(), true);
    for i in 0..15u16 {
        manager.track_padding_length(&target, i * 10);
    }
    let values = manager.get_previous_padding_lengths(&target);
    assert_eq!(values.len(), 10);
    assert_eq!(values[0], 50);
}

#[test]
fn tracking_unknown_target_is_ignored() {
    let mut manager = FingerprintManager::new(100);
    let target = TargetKey::new("nowhere.example".to_string(), 1);
    manager.track_grease_value(&target, 0x0a0a);
    assert!(manager.get_previous_grease_values(&target).is_empty());
    assert!(manager.is_empty());
}

#[test]
fn cache_eviction_by_reputation_scenario() {
    let mut cache = FingerprintManager::new(3);
    let config = create_test_config();
    let a = TargetKey::new("a".to_string(), 1);
    let b = TargetKey::new("b".to_string(), 1);
    let c = TargetKey::new("c".to_string(), 1);
    let d = TargetKey::new("d".to_string(), 1);
    for _ in 0..10 {
        cache.record_result(&a, config.clone(), true);
    }
    for _ in 0..5 {
        cache.record_result(&b, config.clone(), true);
        cache.record_result(&b, config.clone(), false);
    }
    for _ in 0..10 {
        cache.record_result(&c, config.clone(), false);
    }
    cache.record_result(&d, config.clone(), true);
    assert!(cache.get_stats(&a).is_some() && cache.get_stats(&b).is_some());
    assert!(cache.get_stats(&c).is_none() && cache.get_stats(&d).is_some());
}

#[test]
fn reputation_recomputation_scenario() {
    let mut cache = FingerprintManager::new(10);
    let t = TargetKey::new("example.com".to_string(), 443);
    for _ in 0..10 {
        cache.record_result(&t, create_test_config(), true);
    }
    for _ in 0..5 {
        cache.record_result(&t, create_test_config(), false);
    }
    let (s, f, r) = cache.get_stats(&t).unwrap();
    assert_eq!((s, f), (10, 5));
    assert!((rep(r) - 10.0 / 15.0).abs() < 1e-3);
    assert_eq!(r, 666_666);
}

#[test]
fn eviction_tie_goes_to_oldest() {
    let mut cache = FingerprintManager::new(2);
    let config = create_test_config();
    let a = TargetKey::new("a".to_string(), 1);
    let b = TargetKey::new("b".to_string(), 1);
    let c = TargetKey::new("c".to_string(), 1);
    cache.record_result(&a, config.clone(), true);
    cache.record_result(&b, config.clone(), true);
    cache.record_result(&c, config.clone(), true);
    assert!(cache.get_stats(&a).is_none());
    assert!(cache.get_stats(&b).is_some());
    assert!(cache.get_stats(&c).is_some());
}

#[test]
fn size_never_exceeds_bound() {
    let mut cache = FingerprintManager::new(4);
    for i in 0..20u16 {
        let t = TargetKey::new(format!("host{}", i), i);
        cache.record_result(&t, create_test_config(), i % 3 == 0);
        assert!(cache.size() <= 4);
    }
    let mut empty = FingerprintManager::new(0);
    empty.record_result(&TargetKey::new("x".to_string(), 1), create_test_config(), true);
    assert_eq!(empty.size(), 0);
}

#[test]
fn working_fingerprint_copies_are_independent() {
    let mut cache = FingerprintManager::new(4);
    let t = TargetKey::new("example.com".to_string(), 443);
    let mut config = create_test_config();
    config.padding_length = 384;
    config.random_seed = 7;
    cache.record_result(&t, config, true);
    let mut first = cache.get_working_fingerprint(&t).unwrap();
    let second = cache.get_working_fingerprint(&t).unwrap();
    assert_eq!(first.padding_length, second.padding_length);
    assert_eq!(first.random_seed, second.random_seed);
    first.padding_length = 1;
    let third = cache.get_working_fingerprint(&t).unwrap();
    assert_eq!(third.padding_length, 384);
}

#[test]
fn test_calculate_reputation_score() {
    assert_eq!(rep(calculate_reputation_score(0, 0)), 0.5);
    assert!(rep(calculate_reputation_score(10, 0)) > 0.7);
    assert!(rep(calculate_reputation_score(0, 10)) < 0.3);
    let score = rep(calculate_reputation_score(5, 5));
    assert!(score > 0.4 && score < 0.6);
    assert_eq!(calculate_reputation_score(10, 0), 750_000);
}
