//! What the proxy does with each event of a shard: it relays dispatch
//! payloads to clients only while the shard is READY, keeps the READY payload
//! for clients that connect later, and feeds everything else to the cache.
use vstd::prelude::*;

use crate::text::str_eq;

verus! {

/// An event that a shard delivers, read as far as the proxy needs it.
pub enum ShardEvent<'a> {
    /// A raw gateway payload, with its opcode and, if it has one, its event
    /// name.
    Payload { op: u8, event_name: Option<&'a str> },
    /// The shard lost its connection and is reconnecting.
    Reconnecting,
    /// Any other event, for the cache.
    Other,
}

/// What the proxy does with a shard event.
#[derive(Clone, Copy, Debug, PartialEq, Eq)]
pub enum DispatchAction {
    /// Keep the payload (a READY, its guilds cleared) as the shard's READY.
    StoreReady,
    /// Send the payload to the shard's clients.
    Broadcast,
    /// Nothing.
    Skip,
    /// Forget the shard's READY.
    MarkNotReady,
    /// Update the guild cache with the event.
    UpdateCache,
}

/// What the proxy does with a shard event, given whether the shard is in a
/// READY state: that state afterwards, and the action.
pub open spec fn dispatch_spec(is_ready: bool, event: ShardEvent) -> (bool, DispatchAction) {
    match event {
        ShardEvent::Payload { op, event_name } => if event_name matches Some(n) && n@ == "READY"@ {
            (true, DispatchAction::StoreReady)
        } else if event_name matches Some(n) && n@ == "RESUMED"@ {
            (true, DispatchAction::Skip)
        } else if op == 0 && is_ready {
            (true, DispatchAction::Broadcast)
        } else {
            (is_ready, DispatchAction::Skip)
        },
        ShardEvent::Reconnecting => (false, DispatchAction::MarkNotReady),
        ShardEvent::Other => (is_ready, DispatchAction::UpdateCache),
    }
}

/// Handles one shard event, given whether the shard is in a READY state, and
/// returns that state afterwards with the action. A READY or RESUMED payload
/// makes the shard ready and is not relayed (clients get a READY made by the
/// proxy); a dispatch payload (opcode 0) is relayed only while ready.
pub fn dispatch_step(is_ready: bool, event: &ShardEvent) -> (r: (bool, DispatchAction))
    ensures
        r == dispatch_spec(is_ready, *event),
        (r.1 == DispatchAction::StoreReady) == (*event matches ShardEvent::Payload {
            event_name: Some(n),
            ..
        } && n@ == "READY"@),
        (r.1 == DispatchAction::Broadcast) == (*event matches ShardEvent::Payload { op, .. } && op
            == 0 && is_ready && !makes_ready(*event)),
        (r.1 == DispatchAction::MarkNotReady) == (*event is Reconnecting),
        (r.1 == DispatchAction::UpdateCache) == (*event is Other),
        makes_ready(*event) ==> r.0,
        *event is Reconnecting ==> !r.0,
        !makes_ready(*event) && !(*event is Reconnecting) ==> r.0 == is_ready,
{
    proof {
        lemma_dispatch_actions(is_ready, *event);
    }
    match event {
        ShardEvent::Payload { op, event_name } => {
            if let Some(name) = event_name {
                if str_eq(name, "READY") {
                    return (true, DispatchAction::StoreReady);
                } else if str_eq(name, "RESUMED") {
                    return (true, DispatchAction::Skip);
                }
            }
            // Only dispatchable events are relayed, not RESUMEs and not
            // READY, because the proxy fakes a READY.
            if *op == 0 && is_ready {
                (true, DispatchAction::Broadcast)
            } else {
                (is_ready, DispatchAction::Skip)
            }
        },
        ShardEvent::Reconnecting => (false, DispatchAction::MarkNotReady),
        ShardEvent::Other => (is_ready, DispatchAction::UpdateCache),
    }
}

/// A READY or RESUMED payload.
pub open spec fn makes_ready(event: ShardEvent) -> bool {
    event matches ShardEvent::Payload { event_name: Some(n), .. } && (n@ == "READY"@ || n@
        == "RESUMED"@)
}

/// Whether the shard is ready after the events `events`, from a start in
/// which it is not.
pub open spec fn ready_after(events: Seq<ShardEvent>) -> bool
    decreases events.len(),
{
    if events.len() == 0 {
        false
    } else {
        dispatch_spec(ready_after(events.drop_last()), events.last()).0
    }
}

/// A READY or RESUMED payload came among `events`, and no reconnection
/// after it.
pub open spec fn ready_since(events: Seq<ShardEvent>) -> bool {
    exists|j: int|
        0 <= j < events.len() && #[trigger] makes_ready(events[j]) && forall|k: int|
            j < k < events.len() ==> !(#[trigger] events[k] is Reconnecting)
}

/// Over a whole stream of shard events, the shard is ready exactly when a
/// READY or RESUMED payload came since the last reconnection (or the start).
pub proof fn lemma_ready_after(events: Seq<ShardEvent>)
    ensures
        ready_after(events) == ready_since(events),
    decreases events.len(),
{
    if events.len() > 0 {
        let before = events.drop_last();
        let last = events.last();
        let i = events.len() - 1;
        lemma_ready_after(before);
        assert forall|k: int| 0 <= k < before.len() implies before[k] == events[k] by {}
        if makes_ready(last) {
            assert(dispatch_spec(ready_after(before), last).0);
            assert(makes_ready(events[i]));
        } else if last is Reconnecting {
            if ready_since(events) {
                let j = choose|j: int|
                    0 <= j < events.len() && #[trigger] makes_ready(events[j]) && forall|k: int|
                        j < k < events.len() ==> !(#[trigger] events[k] is Reconnecting);
                assert(j != i);
                assert(events[i] is Reconnecting);
            }
        } else {
            assert(dispatch_spec(ready_after(before), last).0 == ready_after(before));
            if ready_since(before) {
                let j = choose|j: int|
                    0 <= j < before.len() && #[trigger] makes_ready(before[j]) && forall|k: int|
                        j < k < before.len() ==> !(#[trigger] before[k] is Reconnecting);
                assert(makes_ready(events[j]));
                assert forall|k: int| j < k < events.len() implies !(#[trigger] events[k] is Reconnecting) by {
                    if k < i {
                        assert(!(before[k] is Reconnecting));
                    }
                }
            }
            if ready_since(events) {
                let j = choose|j: int|
                    0 <= j < events.len() && #[trigger] makes_ready(events[j]) && forall|k: int|
                        j < k < events.len() ==> !(#[trigger] events[k] is Reconnecting);
                assert(j != i);
                assert(makes_ready(before[j]));
                assert forall|k: int| j < k < before.len() implies !(#[trigger] before[k] is Reconnecting) by {
                    assert(!(events[k] is Reconnecting));
                }
            }
        }
    }
}

/// Over a whole stream of shard events, a payload that is neither READY nor
/// RESUMED is relayed to the clients exactly when its opcode is 0 and a
/// READY or RESUMED payload came since the last reconnection (or the
/// start); no other event is relayed.
pub proof fn lemma_relayed_exactly(events: Seq<ShardEvent>, i: int)
    requires
        0 <= i < events.len(),
    ensures
        (dispatch_spec(ready_after(events.take(i)), events[i]).1 == DispatchAction::Broadcast)
            == (events[i] matches ShardEvent::Payload { op, .. } && op == 0 && !makes_ready(
            events[i],
        ) && ready_since(events.take(i))),
{
    lemma_ready_after(events.take(i));
}

/// What each shard event does, over all events and READY states: the READY
/// is stored exactly for a payload named READY; a payload is relayed exactly
/// when its opcode is 0, the shard is ready and it is neither READY nor
/// RESUMED; the READY is forgotten exactly on a reconnection, which leaves
/// the shard not ready; the cache gets exactly the other events; READY and
/// RESUMED make the shard ready, and nothing else changes whether it is.
pub proof fn lemma_dispatch_actions(is_ready: bool, event: ShardEvent)
    ensures
        ({
            let (next, action) = dispatch_spec(is_ready, event);
            &&& (action == DispatchAction::StoreReady) == (event matches ShardEvent::Payload {
                event_name: Some(n),
                ..
            } && n@ == "READY"@)
            &&& (action == DispatchAction::Broadcast) == (event matches ShardEvent::Payload {
                op,
                ..
            } && op == 0 && is_ready && !makes_ready(event))
            &&& (action == DispatchAction::MarkNotReady) == (event is Reconnecting)
            &&& (action == DispatchAction::UpdateCache) == (event is Other)
            &&& (event is Reconnecting ==> !next)
            &&& (makes_ready(event) ==> next)
            &&& (!makes_ready(event) && !(event is Reconnecting) ==> next == is_ready)
        }),
{
    reveal_strlit("READY");
    reveal_strlit("RESUMED");
    if let ShardEvent::Payload { event_name: Some(n), .. } = event {
        if n@ == "READY"@ {
            assert(n@ != "RESUMED"@) by {
                assert(n@.len() != "RESUMED"@.len());
            }
        }
    }
}

} // verus!
