use localhost::session::SessionManager;

#[test]
fn test_session_creation() {
    let mut manager = SessionManager::new(3600);
    let session_id = manager.create_session();
    assert!(!session_id.is_empty());
    let session = manager.get_session(&session_id);
    assert!(session.is_some());
    assert!(!session.unwrap().is_expired());
}

#[test]
fn test_session_data() {
    let mut manager = SessionManager::new(3600);
    let session_id = manager.create_session();
    manager.update_session(&session_id, "user".to_string(), "john".to_string()).unwrap();
    let session = manager.get_session(&session_id).unwrap();
    assert_eq!(session.get("user"), Some(&"john".to_string()));
}

#[test]
fn test_get_or_create_session() {
    let mut manager = SessionManager::new(3600);
    let session_id1 = manager.get_or_create_session(None).unwrap();
    assert!(!session_id1.is_empty());
    let session_id2 = manager.get_or_create_session(Some(&session_id1)).unwrap();
    assert_eq!(session_id1, session_id2);
}

#[test]
fn test_session_expiration() {
    let mut manager = SessionManager::new(1);
    let session_id = manager.create_session_at(1000);
    assert!(manager.get_session_at(&session_id, 1000).is_some());
    assert_eq!(manager.cleanup_expired_at(1003), 1);
    assert!(manager.get_session_at(&session_id, 1003).is_none());
}

#[test]
fn session_live_cookie_keeps_its_id() {
    let mut manager = SessionManager::new(3600);
    let id = manager.create_session_at(100);
    let again = manager.get_or_create_session_at(Some(&id), 200);
    assert_eq!(again, id);
}

#[test]
fn session_expired_cookie_gets_fresh_id() {
    let mut manager = SessionManager::new(10);
    let id = manager.create_session_at(100);
    let other = manager.get_or_create_session_at(Some(&id), 200);
    assert_ne!(other, id);
    let third = manager.get_or_create_session_at(Some("no-such-id"), 200);
    assert_ne!(third, id);
    assert_ne!(third, other);
}

#[test]
fn session_ids_are_never_reused_after_delete() {
    let mut manager = SessionManager::new(10);
    let a = manager.create_session_at(5);
    manager.delete_session(&a);
    let b = manager.create_session_at(5);
    assert_ne!(a, b);
    assert_eq!(a, "5_0");
    assert_eq!(b, "5_1");
}

#[test]
fn session_remove_and_update_on_missing() {
    let mut manager = SessionManager::new(10);
    let id = manager.create_session_at(0);
    manager.update_session_at(&id, "k".to_string(), "v".to_string(), 1).unwrap();
    assert_eq!(manager.remove_from_session_at(&id, "k", 2).unwrap(), Some("v".to_string()));
    assert_eq!(manager.remove_from_session_at(&id, "k", 2).unwrap(), None);
    assert!(manager.update_session_at("nope", "k".to_string(), "v".to_string(), 1).is_err());
    assert!(manager.update_session_at(&id, "k".to_string(), "v".to_string(), 100).is_err());
    assert_eq!(manager.cookie_name(), "session_id");
    assert_eq!(manager.timeout_secs(), 10);
}
