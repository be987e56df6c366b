use asenix::session::{Capabilities, ClientInfo, ResourcesCapability, SessionStore, ToolsCapability};

#[test]
fn test_session_lifecycle() {
    let mut store = SessionStore::new();

    // Create session
    let client_info = ClientInfo { name: "test-client".to_string(), version: "1.0.0".to_string() };

    let capabilities = Capabilities {
        tools: Some(ToolsCapability { list_changed: None }),
        resources: Some(ResourcesCapability { list_changed: None }),
    };

    let session_id = "test-session-123".to_string();
    store.create_session(session_id.clone(), client_info, capabilities, "2025-03-26".to_string());

    // Check session exists
    assert!(store.get_session(&session_id).is_some());

    // Update activity
    assert!(store.update_activity(&session_id));

    // Mark initialized
    assert!(store.mark_initialized(&session_id));
    assert!(store.get_session(&session_id).unwrap().initialized);

    // Remove session
    assert!(store.remove_session(&session_id));
    assert!(store.get_session(&session_id).is_none());
}

#[test]
fn test_session_cleanup() {
    let mut store = SessionStore::new();

    // Create an old session
    let old_session_id = "old-session".to_string();
    let client_info = ClientInfo { name: "test-client".to_string(), version: "1.0.0".to_string() };

    let capabilities = Capabilities {
        tools: Some(ToolsCapability { list_changed: None }),
        resources: Some(ResourcesCapability { list_changed: None }),
    };

    store.create_session(old_session_id.clone(), client_info, capabilities, "2025-03-26".to_string());

    // Create a recent session
    let recent_session_id = "recent-session".to_string();
    let client_info = ClientInfo { name: "test-client".to_string(), version: "1.0.0".to_string() };

    store.create_session(
        recent_session_id.clone(),
        client_info.clone(),
        Capabilities::default(),
        "2025-03-26".to_string(),
    );

    // Time passes: 7200 seconds later the recent session is active again,
    // the old one was last active two hours ago.
    let two_hours: u64 = 7200 * 1_000_000_000;
    let now = two_hours + 1_000_000_000;
    assert!(store.update_activity_at(&recent_session_id, now));

    // Cleanup should remove old session but keep recent one
    store.cleanup_expired_sessions_at(now);

    assert!(store.get_session(&old_session_id).is_none());
    assert!(store.get_session(&recent_session_id).is_some());
}

#[test]
fn session_ttl_boundary_and_replacement() {
    let mut store = SessionStore::with_ttl_seconds(10);
    let info = ClientInfo { name: "c".to_string(), version: "1".to_string() };
    store.create_session_at("a".to_string(), info.clone(), Capabilities::default(), "v1".to_string(), 0);
    // exactly the time-to-live idle: still alive
    store.cleanup_expired_sessions_at(10_000_000_000);
    assert!(store.get_session("a").is_some());
    // one nanosecond more: expired
    store.cleanup_expired_sessions_at(10_000_000_001);
    assert!(store.get_session("a").is_none());

    // creating a session with an existing id replaces it
    store.create_session_at("b".to_string(), info.clone(), Capabilities::default(), "v1".to_string(), 5);
    store.create_session_at("b".to_string(), info, Capabilities::default(), "v2".to_string(), 7);
    assert_eq!(store.sessions.len(), 1);
    let s = store.get_session("b").unwrap();
    assert_eq!(s.protocol_version, "v2");
    assert_eq!(s.created_at, 7);
    assert!(!store.update_activity("missing"));
    assert!(!store.mark_initialized("missing"));
    assert!(!store.remove_session("missing"));
}
