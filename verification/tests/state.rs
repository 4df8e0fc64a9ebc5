use gateway_proxy::state::{shard_position, Inner, Ready, Session, Sessions};

#[test]
fn created_session_is_found() {
    let mut sessions = Sessions::new();
    let session = Session { shard_id: 3, compress: Some(true) };
    let id = sessions.create_session(session);
    assert_eq!(id.len(), 32);
    assert!(id.chars().all(|c| c.is_ascii_alphanumeric()));
    assert_eq!(sessions.get_session(&id), Some(session));
    assert_eq!(sessions.get_session("not a session"), None);
}

#[test]
fn sessions_are_kept_apart() {
    let mut sessions = Sessions::new();
    let a = Session { shard_id: 0, compress: None };
    let b = Session { shard_id: 1, compress: Some(false) };
    let id_a = sessions.create_session(a);
    let id_b = sessions.create_session(b);
    assert_ne!(id_a, id_b);
    assert_eq!(sessions.get_session(&id_a), Some(a));
    assert_eq!(sessions.get_session(&id_b), Some(b));
}

#[test]
fn inner_delegates_to_sessions() {
    let mut inner: Inner<u8> = Inner { shards: Vec::new(), shard_count: 4, sessions: Sessions::new() };
    let session = Session { shard_id: 2, compress: None };
    let id = inner.create_session(session);
    assert_eq!(inner.get_session(&id), Some(session));
    assert_eq!(inner.shard_count, 4);
}

#[test]
fn ready_state() {
    let mut ready: Ready<String> = Ready::new();
    assert!(!ready.is_ready());
    assert_eq!(ready.ready_payload(), None);
    ready.set_ready(String::from("{}"));
    assert!(ready.is_ready());
    assert_eq!(ready.ready_payload(), Some(&String::from("{}")));
    ready.set_not_ready();
    assert!(!ready.is_ready());
}

#[test]
fn shard_found_by_id() {
    let ids = [4u64, 5, 6, 7];
    assert_eq!(shard_position(&ids, 6), Some(2));
    assert_eq!(shard_position(&ids, 4), Some(0));
    assert_eq!(shard_position(&ids, 2), None);
    assert_eq!(shard_position(&[], 0), None);
}
