use gateway_proxy::dispatch::{dispatch_step, DispatchAction, ShardEvent};

#[test]
fn ready_is_stored() {
    let e = ShardEvent::Payload { op: 0, event_name: Some("READY") };
    assert_eq!(dispatch_step(false, &e), (true, DispatchAction::StoreReady));
}

#[test]
fn resumed_makes_ready() {
    let e = ShardEvent::Payload { op: 0, event_name: Some("RESUMED") };
    assert_eq!(dispatch_step(false, &e), (true, DispatchAction::Skip));
}

#[test]
fn dispatch_only_while_ready() {
    let e = ShardEvent::Payload { op: 0, event_name: Some("MESSAGE_CREATE") };
    assert_eq!(dispatch_step(true, &e), (true, DispatchAction::Broadcast));
    assert_eq!(dispatch_step(false, &e), (false, DispatchAction::Skip));
    let e = ShardEvent::Payload { op: 11, event_name: None };
    assert_eq!(dispatch_step(true, &e), (true, DispatchAction::Skip));
}

#[test]
fn reconnect_and_other_events() {
    assert_eq!(dispatch_step(true, &ShardEvent::Reconnecting), (false, DispatchAction::MarkNotReady));
    assert_eq!(dispatch_step(true, &ShardEvent::Other), (true, DispatchAction::UpdateCache));
    assert_eq!(dispatch_step(false, &ShardEvent::Other), (false, DispatchAction::UpdateCache));
}
