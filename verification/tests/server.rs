use gateway_proxy::model::{Identify, IdentifyInfo, Resume, ResumeInfo};
use gateway_proxy::server::{
    after_compress_call, client_step, compression_after_identify, ends_with_trailer, message_kind,
    next_compress_call, route, ClientAction, ClientEvent, ClientState, CompressCall, CompressState,
    FlateStatus, MessageKind, Route,
};
use gateway_proxy::state::{Inner, Session, Sessions};

fn proxy(shard_count: u64) -> Inner<()> {
    Inner { shards: Vec::new(), shard_count, sessions: Sessions::new() }
}

fn identify(shard: [u32; 2], token: &str, compress: Option<bool>) -> ClientEvent {
    ClientEvent::Identify(Identify { d: IdentifyInfo { compress, shard, token: token.to_string() } })
}

fn resume(session_id: &str, seq: usize, token: &str) -> ClientEvent {
    ClientEvent::Resume(Resume {
        d: ResumeInfo { session_id: session_id.to_string(), seq, token: token.to_string() },
    })
}

#[test]
fn payload_kinds() {
    assert_eq!(message_kind(r#"{"op":1,"d":null}"#), MessageKind::Heartbeat);
    assert_eq!(message_kind(r#"{"op":2,"d":{}}"#), MessageKind::Identify);
    assert_eq!(message_kind(r#"{"op":6,"d":{}}"#), MessageKind::Resume);
    assert_eq!(message_kind(r#"{"op":8,"d":{}}"#), MessageKind::Other);
    assert_eq!(message_kind("not json"), MessageKind::Unreadable);
}

#[test]
fn heartbeat_is_acknowledged() {
    let mut state = ClientState::new();
    let mut p = proxy(1);
    assert!(matches!(client_step(&mut state, ClientEvent::Heartbeat, &mut p, "t"), ClientAction::SendHeartbeatAck));
    assert_eq!(state, ClientState::new());
}

#[test]
fn identify_creates_session_and_starts_forwarding() {
    let mut state = ClientState::new();
    let mut p = proxy(4);
    let action = client_step(&mut state, identify([2, 4], "Bot secret", Some(true)), &mut p, "secret");
    match action {
        ClientAction::Identified { session_id, shard_id, forward: Some(f) } => {
            assert_eq!(shard_id, 2);
            assert_eq!(f.session_id, session_id);
            assert_eq!(f.shard_id, 2);
            assert!(f.send_guilds);
            assert_eq!(f.seq, 0);
            assert_eq!(f.compress, Some(true));
            assert_eq!(p.get_session(&session_id), Some(Session { shard_id: 2, compress: Some(true) }));
        }
        _ => panic!("identify was not accepted"),
    }
    assert_eq!(state, ClientState { shard: Some(2), forwarding: true });
    // A second IDENTIFY makes a session but does not forward again.
    let action = client_step(&mut state, identify([1, 4], "secret", None), &mut p, "secret");
    assert!(matches!(action, ClientAction::Identified { shard_id: 1, forward: None, .. }));
    assert_eq!(state.shard, Some(1));
}

#[test]
fn identify_is_checked() {
    let mut state = ClientState::new();
    let mut p = proxy(4);
    assert!(matches!(client_step(&mut state, identify([0, 3], "t", None), &mut p, "t"), ClientAction::Disconnect));
    assert!(matches!(client_step(&mut state, identify([4, 4], "t", None), &mut p, "t"), ClientAction::Disconnect));
    assert!(matches!(client_step(&mut state, identify([0, 4], "Bot u", None), &mut p, "t"), ClientAction::Disconnect));
    assert!(matches!(client_step(&mut state, identify([0, 4], "", None), &mut p, "t"), ClientAction::Disconnect));
    assert_eq!(state, ClientState::new());
}

#[test]
fn token_may_have_trailing_space() {
    let mut state = ClientState::new();
    let mut p = proxy(1);
    let action = client_step(&mut state, identify([0, 1], "  Bot   abc\t ", None), &mut p, "abc");
    assert!(matches!(action, ClientAction::Identified { .. }));
}

#[test]
fn resume_takes_up_session() {
    let mut p = proxy(2);
    let mut first = ClientState::new();
    let session_id = match client_step(&mut first, identify([1, 2], "tok", Some(false)), &mut p, "tok") {
        ClientAction::Identified { session_id, .. } => session_id,
        _ => panic!("identify was not accepted"),
    };
    let mut second = ClientState::new();
    match client_step(&mut second, resume(&session_id, 17, "Bot tok"), &mut p, "tok") {
        ClientAction::Resumed(f) => {
            assert_eq!(f.session_id, session_id);
            assert_eq!(f.shard_id, 1);
            assert!(!f.send_guilds);
            assert_eq!(f.seq, 17);
            assert_eq!(f.compress, Some(false));
        }
        _ => panic!("resume was refused"),
    }
    assert_eq!(second, ClientState { shard: None, forwarding: true });
    // The connection forwards already: a second RESUME is refused.
    assert!(matches!(client_step(&mut second, resume(&session_id, 1, "tok"), &mut p, "tok"), ClientAction::SendInvalidSession));
}

#[test]
fn resume_of_unknown_session_is_invalid() {
    let mut p = proxy(1);
    let mut state = ClientState::new();
    assert!(matches!(client_step(&mut state, resume("nope", 0, "tok"), &mut p, "tok"), ClientAction::SendInvalidSession));
    assert!(matches!(client_step(&mut state, resume("nope", 0, "bad"), &mut p, "tok"), ClientAction::Disconnect));
    assert!(!state.forwarding);
}

#[test]
fn other_payloads_go_to_identified_shard() {
    let mut p = proxy(3);
    let mut state = ClientState::new();
    assert!(matches!(client_step(&mut state, ClientEvent::Other, &mut p, "t"), ClientAction::DropBeforeIdentify));
    client_step(&mut state, identify([2, 3], "t", None), &mut p, "t");
    assert!(matches!(client_step(&mut state, ClientEvent::Other, &mut p, "t"), ClientAction::ForwardToShard(2)));
    assert!(matches!(client_step(&mut state, ClientEvent::Malformed, &mut p, "t"), ClientAction::Ignore));
}

#[test]
fn routes() {
    assert_eq!(route(true, "/metrics"), Route::Metrics);
    assert_eq!(route(true, "/shard-count"), Route::ShardCount);
    assert_eq!(route(false, "/metrics"), Route::Upgrade);
    assert_eq!(route(true, "/"), Route::Upgrade);
}

#[test]
fn compression_choice() {
    assert!(compression_after_identify(true, None));
    assert!(compression_after_identify(false, Some(Some(true))));
    assert!(!compression_after_identify(false, Some(Some(false))));
    assert!(!compression_after_identify(false, Some(None)));
    assert!(compression_after_identify(true, Some(Some(false))));
}

#[test]
fn trailer() {
    assert!(ends_with_trailer(&[1, 2, 0, 0, 0xff, 0xff]));
    assert!(!ends_with_trailer(&[0, 0, 0xff]));
    assert!(!ends_with_trailer(&[0, 0, 0xff, 0xfe]));
}

#[test]
fn compression_feeds_then_flushes() {
    let done = [1u8, 2, 0, 0, 0xff, 0xff];
    assert_eq!(
        next_compress_call(CompressState::Feeding, 3, 10, &[]),
        (CompressState::Feeding, CompressCall::Feed { offset: 3 })
    );
    assert_eq!(
        next_compress_call(CompressState::Feeding, 10, 10, &[1, 2]),
        (CompressState::Flushing, CompressCall::Flush { reserve: 5 })
    );
    assert_eq!(
        next_compress_call(CompressState::Flushing, 10, 10, &done),
        (CompressState::Done, CompressCall::Stop)
    );
    assert_eq!(
        next_compress_call(CompressState::Done, 0, 10, &[]),
        (CompressState::Done, CompressCall::Stop)
    );
    assert_eq!(
        after_compress_call(CompressState::Feeding, FlateStatus::BufError),
        (CompressState::Feeding, 4096)
    );
    assert_eq!(
        after_compress_call(CompressState::Feeding, FlateStatus::StreamEnd),
        (CompressState::Flushing, 0)
    );
    assert_eq!(
        after_compress_call(CompressState::Flushing, FlateStatus::BufError),
        (CompressState::Flushing, 0)
    );
    assert_eq!(
        after_compress_call(CompressState::Flushing, FlateStatus::StreamEnd),
        (CompressState::Done, 0)
    );
}
