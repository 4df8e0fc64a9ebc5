use gateway_proxy::deserializer::{EventTypeInfo, GatewayEvent, OpInfo, SequenceInfo};

#[test]
fn hello_has_opcode_only() {
    let payload = r#"{"t":null,"s":null,"op":10,"d":{"heartbeat_interval":41250}}"#;
    let event = GatewayEvent::from_json(payload).unwrap();
    assert_eq!(event.op(), 10);
    let (op, sequence, event_type) = event.into_parts();
    assert_eq!(op, OpInfo(10, 24..26));
    assert_eq!(&payload[op.1.clone()], "10");
    assert_eq!(sequence, None);
    assert_eq!(event_type, None);
}

#[test]
fn dispatch_has_all_parts() {
    let payload = r#"{"t":"MESSAGE_CREATE","s":42,"op":0,"d":{}}"#;
    let (op, sequence, event_type) = GatewayEvent::from_json(payload).unwrap().into_parts();
    assert_eq!(op.0, 0);
    assert_eq!(&payload[op.1.clone()], "0");
    let SequenceInfo(seq, range) = sequence.unwrap();
    assert_eq!(seq, 42);
    assert_eq!(&payload[range], "42");
    let EventTypeInfo(name, range) = event_type.unwrap();
    assert_eq!(name, "MESSAGE_CREATE");
    assert_eq!(range, 6..20);
}

#[test]
fn missing_opcode_is_refused() {
    assert_eq!(GatewayEvent::from_json(r#"{"t":"READY","s":1,"d":{}}"#), None);
    assert_eq!(GatewayEvent::from_json(""), None);
}

#[test]
fn opcode_must_fit_in_a_byte() {
    assert_eq!(GatewayEvent::from_json(r#"{"op":256}"#), None);
    assert_eq!(GatewayEvent::from_json(r#"{"op":255}"#).unwrap().op(), 255);
}

#[test]
fn opcode_with_plus_sign_is_read() {
    assert_eq!(GatewayEvent::from_json(r#"{"op":+6}"#).unwrap().op(), 6);
    assert_eq!(GatewayEvent::from_json(r#"{"op":+}"#), None);
    assert_eq!(GatewayEvent::from_json(r#"{"op":-1}"#), None);
}

#[test]
fn white_space_around_numbers_is_refused() {
    assert_eq!(GatewayEvent::from_json(r#"{"op": 2, "d": {}}"#), None);
    let (_, sequence, _) = GatewayEvent::from_json(r#"{"s": 5,"op":0}"#).unwrap().into_parts();
    assert_eq!(sequence, None);
}

#[test]
fn white_space_before_event_name_is_skipped() {
    let payload = "{\"t\": \u{a0}\t\"READY\",\"op\":0}";
    let (_, _, event_type) = GatewayEvent::from_json(payload).unwrap().into_parts();
    let EventTypeInfo(name, range) = event_type.unwrap();
    assert_eq!(name, "READY");
    assert_eq!(&payload[range], "READY");
}

#[test]
fn event_name_must_be_a_string() {
    let (_, _, event_type) = GatewayEvent::from_json(r#"{"t":5,"op":0}"#).unwrap().into_parts();
    assert_eq!(event_type, None);
    let (_, _, event_type) = GatewayEvent::from_json(r#"{"op":0,"t":"OPEN"#).unwrap().into_parts();
    assert_eq!(event_type, None);
}

#[test]
fn first_key_counts() {
    let payload = r#"{"op":1,"d":{"op":7},"s":3}"#;
    let (op, sequence, _) = GatewayEvent::from_json(payload).unwrap().into_parts();
    assert_eq!(op, OpInfo(1, 6..7));
    assert_eq!(sequence, Some(SequenceInfo(3, 25..26)));
}

#[test]
fn sequence_up_to_u64_max() {
    let payload = r#"{"s":18446744073709551615,"op":0}"#;
    let (_, sequence, _) = GatewayEvent::from_json(payload).unwrap().into_parts();
    assert_eq!(sequence.unwrap().0, u64::MAX);
    let payload = r#"{"s":18446744073709551616,"op":0}"#;
    let (_, sequence, _) = GatewayEvent::from_json(payload).unwrap().into_parts();
    assert_eq!(sequence, None);
}

#[test]
fn clone_keeps_everything() {
    let payload = r#"{"t":"GUILD_CREATE","s":9,"op":0}"#;
    let event = GatewayEvent::from_json(payload).unwrap();
    assert_eq!(event.clone(), event);
}

#[test]
fn event_type_is_the_first_quoted_value() {
    let payload = r#"{"t":  "GUILD_CREATE","op":0,"x":{"t":"OTHER"}}"#;
    let EventTypeInfo(name, range) = GatewayEvent::find_event_type(payload).unwrap();
    assert_eq!(name, "GUILD_CREATE");
    assert_eq!(range, 8..20);
    assert_eq!(GatewayEvent::find_event_type(r#"{"t":null,"op":11}"#), None);
    assert_eq!(GatewayEvent::find_event_type(r#"{"t":5,"op":11}"#), None);
    assert_eq!(GatewayEvent::find_event_type(r#"{"op":11}"#), None);
}

#[test]
fn integer_is_read_untrimmed_after_the_first_key() {
    assert_eq!(GatewayEvent::find_integer(r#"{"s":12,"s":13}"#, b"\"s\":"), Some((12, 5..7)));
    assert_eq!(GatewayEvent::find_integer(r#"{"s": 12}"#, b"\"s\":"), None);
    assert_eq!(GatewayEvent::find_integer(r#"{"s":+7}"#, b"\"s\":"), Some((7, 5..7)));
    assert_eq!(GatewayEvent::find_integer(r#"{"s":null}"#, b"\"s\":"), None);
    assert_eq!(GatewayEvent::find_integer(r#"{"op":1}"#, b"\"s\":"), None);
}
