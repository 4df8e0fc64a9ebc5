use gateway_proxy::deserializer::{GatewayEvent, SequenceInfo};
use gateway_proxy::relay::{decimal_string, relay_event, rewrite_sequence};

#[test]
fn sequence_is_replaced_in_place() {
    let payload = r#"{"t":"MESSAGE_CREATE","s":42,"op":0,"d":{}}"#.to_string();
    let (_, sequence, _) = GatewayEvent::from_json(&payload).unwrap().into_parts();
    let (relayed, seq) = relay_event(payload.clone(), sequence, 6);
    assert_eq!(seq, 7);
    assert_eq!(relayed, r#"{"t":"MESSAGE_CREATE","s":7,"op":0,"d":{}}"#);
}

#[test]
fn rewritten_sequence_reads_back() {
    let payload = r#"{"t":"X","s":5,"op":0}"#;
    let (_, sequence, _) = GatewayEvent::from_json(payload).unwrap().into_parts();
    let SequenceInfo(_, range) = sequence.unwrap();
    let rewritten = rewrite_sequence(payload, &range, 123456);
    let (_, sequence, _) = GatewayEvent::from_json(&rewritten).unwrap().into_parts();
    assert_eq!(sequence, Some(SequenceInfo(123456, range.start..range.start + 6)));
}

#[test]
fn payload_without_sequence_is_unchanged() {
    let payload = r#"{"t":null,"s":null,"op":11,"d":null}"#.to_string();
    let (_, sequence, _) = GatewayEvent::from_json(&payload).unwrap().into_parts();
    let (relayed, seq) = relay_event(payload.clone(), sequence, 3);
    assert_eq!(seq, 3);
    assert_eq!(relayed, payload);
}

#[test]
fn consecutive_events_get_consecutive_numbers() {
    let mut seq = 0;
    let mut out = Vec::new();
    for s in [100, 250, 251] {
        let payload = format!(r#"{{"t":"TYPING_START","s":{s},"op":0,"d":{{}}}}"#);
        let (_, sequence, _) = GatewayEvent::from_json(&payload).unwrap().into_parts();
        let (relayed, next) = relay_event(payload, sequence, seq);
        seq = next;
        out.push(relayed);
    }
    assert_eq!(seq, 3);
    assert_eq!(out[2], r#"{"t":"TYPING_START","s":3,"op":0,"d":{}}"#);
}

#[test]
fn decimal_text() {
    assert_eq!(decimal_string(0), "0");
    assert_eq!(decimal_string(7878), "7878");
    assert_eq!(decimal_string(u64::MAX), "18446744073709551615");
}

#[test]
fn unicode_before_the_number_is_kept() {
    let payload = "{\"t\":\"Ä\",\"s\":9,\"op\":0}".to_string();
    let (_, sequence, _) = GatewayEvent::from_json(&payload).unwrap().into_parts();
    let (relayed, _) = relay_event(payload, sequence, 41);
    assert_eq!(relayed, "{\"t\":\"Ä\",\"s\":42,\"op\":0}");
}

#[test]
fn rewritten_payload_keeps_op_and_name() {
    for payload in [
        r#"{"t":"GUILD_CREATE","s":99,"op":0,"d":{}}"#,
        r#"{"op":0,"s":99,"t":"READY","d":{}}"#,
        r#"{"s":99,"op":0,"t": "MESSAGE_UPDATE"}"#,
    ] {
        let (op, sequence, name) = GatewayEvent::from_json(payload).unwrap().into_parts();
        let SequenceInfo(_, range) = sequence.unwrap();
        let rewritten = rewrite_sequence(payload, &range, 1234567);
        let (op2, sequence2, name2) = GatewayEvent::from_json(&rewritten).unwrap().into_parts();
        assert_eq!(op2.0, op.0);
        assert_eq!(name2.map(|n| n.0), name.map(|n| n.0));
        assert_eq!(sequence2.map(|s| s.0), Some(1234567));
    }
}
