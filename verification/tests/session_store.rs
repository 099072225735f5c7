use taxonia::kv::ExpiringKv;
use taxonia::random::generate_random_id;
use taxonia::session::SessionStore;
use taxonia::session::OAUTH_STATE_TTL_SECONDS;
use taxonia::session::SESSION_TTL_SECONDS;

const NOW: i64 = 1_700_000_000;

#[test]
fn random_ids_are_32_alphanumeric_characters() {
    let id = generate_random_id();
    assert_eq!(id.chars().count(), 32);
    assert!(id.chars().all(|c| c.is_ascii_alphanumeric()));
    let other = generate_random_id();
    assert_ne!(id, other);
}

#[test]
fn session_roundtrip_keeps_user_and_creation_time() {
    let mut store = SessionStore::new();
    let sid = store.create_session(42, NOW);
    assert_eq!(sid.len(), 32);
    let data = store.get_session(&sid, NOW + 5).expect("session should be live");
    assert_eq!(data.user_id, 42);
    assert_eq!(data.created_at, NOW);
}

#[test]
fn session_expires_exactly_after_seven_days() {
    let mut store = SessionStore::new();
    let sid = store.create_session(7, NOW);
    assert_eq!(SESSION_TTL_SECONDS, 604800);
    assert!(store.get_session(&sid, NOW + SESSION_TTL_SECONDS - 1).is_some());
    assert!(store.get_session(&sid, NOW + SESSION_TTL_SECONDS).is_none());
    assert!(store.get_session(&sid, NOW + SESSION_TTL_SECONDS + 10).is_none());
}

#[test]
fn unknown_session_is_absent() {
    let store = SessionStore::new();
    assert!(store.get_session("nosuchsession", NOW).is_none());
}

#[test]
fn oauth_state_consumed_true_exactly_once() {
    let mut store = SessionStore::new();
    store.store_oauth_state("state-token", NOW);
    assert!(store.consume_oauth_state("state-token", NOW + 1));
    assert!(!store.consume_oauth_state("state-token", NOW + 2));
    assert!(!store.consume_oauth_state("state-token", NOW + 3));
}

#[test]
fn oauth_state_expires_after_ten_minutes() {
    let mut store = SessionStore::new();
    store.store_oauth_state("short-lived", NOW);
    assert_eq!(OAUTH_STATE_TTL_SECONDS, 600);
    assert!(!store.consume_oauth_state("short-lived", NOW + 600));
}

#[test]
fn unknown_oauth_state_is_rejected() {
    let mut store = SessionStore::new();
    assert!(!store.consume_oauth_state("never-stored", NOW));
}

#[test]
fn store_keys_follow_external_layout() {
    assert_eq!(SessionStore::session_key("abc"), "session:abc");
    assert_eq!(SessionStore::oauth_state_key("xyz"), "oauth_state:xyz");
}

#[test]
fn expiring_kv_overwrites_and_removes() {
    let mut kv: ExpiringKv<i64> = ExpiringKv::new();
    kv.put("k".to_string(), 1, NOW + 100);
    assert_eq!(kv.get("k", NOW), Some(1));
    kv.put("k".to_string(), 2, NOW + 100);
    assert_eq!(kv.get("k", NOW), Some(2));
    assert_eq!(kv.get("k", NOW + 100), None);
    assert!(kv.remove("k"));
    assert!(!kv.remove("k"));
    assert_eq!(kv.get("k", NOW), None);
}
