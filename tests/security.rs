use custls::{
    validate_downgrade_protection, BrowserTemplate, ClientHelloConfig, Error, PeerMisbehaved,
    ProtocolVersion, SessionId, SessionState, SessionStateTracker, TLS11_DOWNGRADE_CANARY,
    TLS12_DOWNGRADE_CANARY,
};

fn create_test_config() -> ClientHelloConfig {
    ClientHelloConfig {
        template: BrowserTemplate::Chrome130,
        cipher_suites: Vec::new(),
        extension_order: Vec::new(),
        extension_data: Vec::new(),
        grease_cipher_positions: Vec::new(),
        grease_extension_positions: Vec::new(),
        padding_length: 0,
        random_seed: 0,
        supported_groups: Vec::new(),
        signature_algorithms: Vec::new(),
    }
}

#[test]
fn test_downgrade_canary_constants() {
    assert_eq!(TLS12_DOWNGRADE_CANARY, [0x44, 0x4F, 0x57, 0x4E, 0x47, 0x52, 0x44, 0x01]);
    assert_eq!(TLS11_DOWNGRADE_CANARY, [0x44, 0x4F, 0x57, 0x4E, 0x47, 0x52, 0x44, 0x00]);
    assert_eq!(&TLS12_DOWNGRADE_CANARY[0..7], b"DOWNGRD");
    assert_eq!(&TLS11_DOWNGRADE_CANARY[0..7], b"DOWNGRD");
}

#[test]
fn test_validate_downgrade_protection_no_downgrade() {
    let server_random = [0u8; 32];
    let result = validate_downgrade_protection(&server_random, ProtocolVersion::TLSv1_3, ProtocolVersion::TLSv1_3);
    assert!(result.is_ok());
}

#[test]
fn test_validate_downgrade_protection_tls12_canary_detected() {
    let mut server_random = [0u8; 32];
    server_random[24..32].copy_from_slice(&TLS12_DOWNGRADE_CANARY);
    let result = validate_downgrade_protection(&server_random, ProtocolVersion::TLSv1_3, ProtocolVersion::TLSv1_2);
    assert!(result.is_err());
    match result {
        Err(Error::PeerMisbehaved(PeerMisbehaved::AttemptedDowngradeToTls12WhenTls13IsSupported)) => {}
        _ => panic!("Expected AttemptedDowngradeToTls12WhenTls13IsSupported error"),
    }
}

#[test]
fn test_validate_downgrade_protection_tls11_canary_detected() {
    let mut server_random = [0u8; 32];
    server_random[24..32].copy_from_slice(&TLS11_DOWNGRADE_CANARY);
    let result = validate_downgrade_protection(&server_random, ProtocolVersion::TLSv1_3, ProtocolVersion::TLSv1_1);
    assert!(result.is_err());
    match result {
        Err(Error::PeerMisbehaved(PeerMisbehaved::AttemptedDowngradeToTls12WhenTls13IsSupported)) => {}
        _ => panic!("Expected AttemptedDowngradeToTls12WhenTls13IsSupported error"),
    }
}

#[test]
fn test_validate_downgrade_protection_not_expecting_tls13() {
    let mut server_random = [0u8; 32];
    server_random[24..32].copy_from_slice(&TLS12_DOWNGRADE_CANARY);
    let result = validate_downgrade_protection(&server_random, ProtocolVersion::TLSv1_2, ProtocolVersion::TLSv1_2);
    assert!(result.is_ok());
}

#[test]
fn test_validate_downgrade_protection_invalid_random_length() {
    let server_random = [0u8; 16];
    let result = validate_downgrade_protection(&server_random, ProtocolVersion::TLSv1_3, ProtocolVersion::TLSv1_2);
    assert!(result.is_err());
}

#[test]
fn test_session_id_creation() {
    let id = SessionId::new(vec![1, 2, 3, 4]);
    assert_eq!(id.as_bytes(), &[1, 2, 3, 4]);
    assert!(!id.is_empty());
}

#[test]
fn test_session_id_empty() {
    let id = SessionId::empty();
    assert!(id.is_empty());
    assert_eq!(id.as_bytes().len(), 0);
}

#[test]
fn test_session_state_creation() {
    let state = SessionState::new(create_test_config());
    assert!(!state.established);
    assert_eq!(state.resume_count, 0);
    assert!(state.ticket.is_none());
}

#[test]
fn test_session_state_mark_established() {
    let mut state = SessionState::new(create_test_config());
    state.mark_established();
    assert!(state.established);
}

#[test]
fn test_session_state_set_ticket() {
    let mut state = SessionState::new(create_test_config());
    let ticket = vec![1, 2, 3, 4, 5];
    state.set_ticket(ticket.clone());
    assert_eq!(state.ticket, Some(ticket));
}

#[test]
fn test_session_state_increment_resume_count() {
    let mut state = SessionState::new(create_test_config());
    assert_eq!(state.resume_count, 0);
    state.increment_resume_count();
    assert_eq!(state.resume_count, 1);
    state.increment_resume_count();
    assert_eq!(state.resume_count, 2);
}

#[test]
fn test_session_state_tracker_creation() {
    let tracker = SessionStateTracker::new(100);
    assert_eq!(tracker.size(), 0);
    assert!(tracker.is_empty());
}

#[test]
fn test_session_state_tracker_record_session() {
    let mut tracker = SessionStateTracker::new(100);
    let session_id = SessionId::new(vec![1, 2, 3]);
    tracker.record_session(&session_id, create_test_config());
    assert_eq!(tracker.size(), 1);
    assert!(!tracker.is_empty());
    assert!(tracker.get_session_config(&session_id).is_some());
}

#[test]
fn test_session_state_tracker_get_session_config() {
    let mut tracker = SessionStateTracker::new(100);
    let session_id = SessionId::new(vec![1, 2, 3]);
    let mut config = create_test_config();
    config.padding_length = 256;
    tracker.record_session(&session_id, config);
    let retrieved = tracker.get_session_config(&session_id).unwrap();
    assert_eq!(retrieved.padding_length, 256);
}

#[test]
fn test_session_state_tracker_mark_established() {
    let mut tracker = SessionStateTracker::new(100);
    let session_id = SessionId::new(vec![1, 2, 3]);
    tracker.record_session(&session_id, create_test_config());
    tracker.mark_established(&session_id);
    let stats = tracker.get_session_stats(&session_id).unwrap();
    assert!(stats.0);
}

#[test]
fn test_session_state_tracker_record_ticket() {
    let mut tracker = SessionStateTracker::new(100);
    let session_id = SessionId::new(vec![1, 2, 3]);
    tracker.record_session(&session_id, create_test_config());
    tracker.record_ticket(&session_id, vec![10, 20, 30]);
    let stats = tracker.get_session_stats(&session_id).unwrap();
    assert!(stats.2);
}

#[test]
fn test_session_state_tracker_record_resumption() {
    let mut tracker = SessionStateTracker::new(100);
    let session_id = SessionId::new(vec![1, 2, 3]);
    tracker.record_session(&session_id, create_test_config());
    tracker.record_resumption(&session_id);
    tracker.record_resumption(&session_id);
    let stats = tracker.get_session_stats(&session_id).unwrap();
    assert_eq!(stats.1, 2);
}

#[test]
fn test_session_state_tracker_eviction() {
    let mut tracker = SessionStateTracker::new(3);
    let config = create_test_config();
    let session1 = SessionId::new(vec![1]);
    let session2 = SessionId::new(vec![2]);
    let session3 = SessionId::new(vec![3]);
    let session4 = SessionId::new(vec![4]);
    tracker.record_session(&session1, config.clone());
    tracker.record_session(&session2, config.clone());
    tracker.record_session(&session3, config.clone());
    assert_eq!(tracker.size(), 3);
    tracker.record_session(&session4, config);
    assert_eq!(tracker.size(), 3);
    assert!(tracker.get_session_config(&session1).is_none());
    assert!(tracker.get_session_config(&session2).is_some());
    assert!(tracker.get_session_config(&session3).is_some());
    assert!(tracker.get_session_config(&session4).is_some());
}

#[test]
fn test_session_state_tracker_clear() {
    let mut tracker = SessionStateTracker::new(100);
    let config = create_test_config();
    tracker.record_session(&SessionId::new(vec![1]), config.clone());
    tracker.record_session(&SessionId::new(vec![2]), config);
    assert_eq!(tracker.size(), 2);
    tracker.clear();
    assert_eq!(tracker.size(), 0);
    assert!(tracker.is_empty());
}

#[test]
fn test_session_state_tracker_remove_session() {
    let mut tracker = SessionStateTracker::new(100);
    let session_id = SessionId::new(vec![1, 2, 3]);
    tracker.record_session(&session_id, create_test_config());
    assert_eq!(tracker.size(), 1);
    assert!(tracker.remove_session(&session_id));
    assert_eq!(tracker.size(), 0);
    assert!(!tracker.remove_session(&session_id));
}

#[test]
fn test_session_state_tracker_get_all_sessions() {
    let mut tracker = SessionStateTracker::new(100);
    let config = create_test_config();
    let session1 = SessionId::new(vec![1]);
    let session2 = SessionId::new(vec![2]);
    let session3 = SessionId::new(vec![3]);
    tracker.record_session(&session1, config.clone());
    tracker.record_session(&session2, config.clone());
    tracker.record_session(&session3, config);
    let sessions = tracker.get_all_sessions();
    assert_eq!(sessions.len(), 3);
    assert!(sessions.contains(&session1));
    assert!(sessions.contains(&session2));
    assert!(sessions.contains(&session3));
}

#[test]
fn test_session_state_consistency() {
    let mut tracker = SessionStateTracker::new(100);
    let session_id = SessionId::new(vec![1, 2, 3]);
    let mut config = create_test_config();
    config.padding_length = 512;
    tracker.record_session(&session_id, config);
    let config1 = tracker.get_session_config(&session_id).unwrap();
    let config2 = tracker.get_session_config(&session_id).unwrap();
    assert_eq!(config1.padding_length, config2.padding_length);
    assert_eq!(config1.padding_length, 512);
}

// Scenario: a downgrade canary with TLS 1.3 expected and TLS 1.2 negotiated.
#[test]
fn downgrade_canary_scenario() {
    let mut server_random = vec![0u8; 24];
    server_random.extend_from_slice(&[0x44, 0x4F, 0x57, 0x4E, 0x47, 0x52, 0x44, 0x01]);
    let r = validate_downgrade_protection(&server_random, ProtocolVersion::TLSv1_3, ProtocolVersion::TLSv1_2);
    assert!(matches!(r, Err(Error::PeerMisbehaved(PeerMisbehaved::AttemptedDowngradeToTls12WhenTls13IsSupported))));
    let r = validate_downgrade_protection(&server_random, ProtocolVersion::TLSv1_3, ProtocolVersion::TLSv1_3);
    assert!(r.is_ok());
    let short = [0u8; 31];
    let r = validate_downgrade_protection(&short, ProtocolVersion::TLSv1_3, ProtocolVersion::TLSv1_2);
    assert!(matches!(r, Err(Error::PeerMisbehaved(PeerMisbehaved::IllegalServerRandom))));
}

#[test]
fn session_ticket_and_resumption_counts() {
    let mut tracker = SessionStateTracker::new(10);
    let id = SessionId::new(vec![9]);
    tracker.record_session(&id, create_test_config());
    assert_eq!(tracker.get_session_stats(&id), Some((false, 0, false)));
    tracker.record_ticket(&id, vec![1]);
    tracker.record_resumption(&id);
    tracker.record_resumption(&id);
    tracker.record_resumption(&id);
    assert_eq!(tracker.get_session_stats(&id), Some((false, 3, true)));
    let unknown = SessionId::new(vec![8]);
    tracker.record_ticket(&unknown, vec![1]);
    assert_eq!(tracker.get_session_stats(&unknown), None);
}

#[test]
fn session_config_pinned_across_resumption() {
    let mut tracker = SessionStateTracker::new(10);
    let id = SessionId::new(vec![5, 6, 7, 8]);
    let mut config = create_test_config();
    config.padding_length = 512;
    config.random_seed = 99999;
    tracker.record_session(&id, config);
    tracker.mark_established(&id);
    tracker.record_resumption(&id);
    tracker.record_ticket(&id, vec![1, 2]);
    let c = tracker.get_session_config(&id).unwrap();
    assert_eq!(c.padding_length, 512);
    assert_eq!(c.random_seed, 99999);
    assert_eq!(c.template, BrowserTemplate::Chrome130);
}

#[test]
fn tracker_of_size_zero_stores_nothing() {
    let mut tracker = SessionStateTracker::new(0);
    tracker.record_session(&SessionId::new(vec![1]), create_test_config());
    assert_eq!(tracker.size(), 0);
}

#[test]
fn re_recorded_session_keeps_its_age() {
    let mut tracker = SessionStateTracker::new(3);
    let ids: Vec<SessionId> = (1..=4u8).map(|i| SessionId::new(vec![i])).collect();
    tracker.record_session(&ids[0], create_test_config());
    tracker.record_session(&ids[1], create_test_config());
    tracker.record_session(&ids[2], create_test_config());
    tracker.record_session(&ids[0], create_test_config());
    tracker.record_session(&ids[3], create_test_config());
    assert!(tracker.get_session_config(&ids[0]).is_none());
    assert!(tracker.get_session_config(&ids[1]).is_some());
    assert_eq!(tracker.get_all_sessions(), vec![ids[1].clone(), ids[2].clone(), ids[3].clone()]);
}
