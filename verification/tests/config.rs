use gateway_proxy::config::{
    default_backpressure, default_log_level, default_port, default_validate_token,
    event_type_flags, resource_types, Cache,
};
use twilight_cache_inmemory::ResourceType;
use twilight_gateway::EventTypeFlags;

fn nothing() -> Cache {
    Cache {
        channels: false,
        presences: false,
        emojis: false,
        current_member: false,
        members: false,
        roles: false,
        scheduled_events: false,
        stage_instances: false,
        stickers: false,
        users: false,
        voice_states: false,
    }
}

#[test]
fn defaults() {
    assert_eq!(default_log_level(), "info");
    assert_eq!(default_port(), 7878);
    assert_eq!(default_backpressure(), 100);
    assert!(default_validate_token());
    let cache = Cache::default();
    assert!(cache.channels && cache.roles && cache.current_member);
    assert!(!cache.members && !cache.presences && !cache.users);
}

#[test]
fn events_for_default_cache() {
    let expected = EventTypeFlags::GUILD_CREATE
        | EventTypeFlags::GUILD_DELETE
        | EventTypeFlags::GUILD_UPDATE
        | EventTypeFlags::READY
        | EventTypeFlags::GATEWAY_INVALIDATE_SESSION
        | EventTypeFlags::MEMBER_ADD
        | EventTypeFlags::MEMBER_REMOVE
        | EventTypeFlags::MEMBER_UPDATE
        | EventTypeFlags::ROLE_CREATE
        | EventTypeFlags::ROLE_DELETE
        | EventTypeFlags::ROLE_UPDATE
        | EventTypeFlags::CHANNEL_CREATE
        | EventTypeFlags::CHANNEL_DELETE
        | EventTypeFlags::CHANNEL_UPDATE
        | EventTypeFlags::THREAD_CREATE
        | EventTypeFlags::THREAD_DELETE
        | EventTypeFlags::THREAD_LIST_SYNC
        | EventTypeFlags::THREAD_UPDATE;
    assert_eq!(event_type_flags(Cache::default()), expected);
}

#[test]
fn events_for_empty_cache() {
    let expected = EventTypeFlags::GUILD_CREATE
        | EventTypeFlags::GUILD_DELETE
        | EventTypeFlags::GUILD_UPDATE
        | EventTypeFlags::READY
        | EventTypeFlags::GATEWAY_INVALIDATE_SESSION;
    assert_eq!(event_type_flags(nothing()), expected);
}

#[test]
fn events_for_voice_and_scheduled_events() {
    let cache = Cache { voice_states: true, scheduled_events: true, ..nothing() };
    let expected = EventTypeFlags::GUILD_CREATE
        | EventTypeFlags::GUILD_DELETE
        | EventTypeFlags::GUILD_UPDATE
        | EventTypeFlags::READY
        | EventTypeFlags::GATEWAY_INVALIDATE_SESSION
        | EventTypeFlags::GUILD_SCHEDULED_EVENTS
        | EventTypeFlags::VOICE_STATE_UPDATE
        | EventTypeFlags::VOICE_SERVER_UPDATE;
    assert_eq!(event_type_flags(cache), expected);
}

#[test]
fn resources_for_default_cache() {
    let expected = ResourceType::GUILD
        | ResourceType::USER_CURRENT
        | ResourceType::CHANNEL
        | ResourceType::MEMBER
        | ResourceType::ROLE;
    assert_eq!(resource_types(Cache::default()), expected);
}

#[test]
fn resources_for_current_member_only() {
    let cache = Cache { current_member: true, ..nothing() };
    let expected = ResourceType::GUILD | ResourceType::USER_CURRENT | ResourceType::MEMBER;
    assert_eq!(resource_types(cache), expected);
    assert_eq!(resource_types(nothing()), ResourceType::GUILD | ResourceType::USER_CURRENT);
}

#[test]
fn resources_for_full_cache() {
    let cache = Cache {
        channels: true,
        presences: true,
        emojis: true,
        current_member: true,
        members: true,
        roles: true,
        scheduled_events: true,
        stage_instances: true,
        stickers: true,
        users: true,
        voice_states: true,
    };
    let expected = ResourceType::GUILD
        | ResourceType::USER_CURRENT
        | ResourceType::CHANNEL
        | ResourceType::EMOJI
        | ResourceType::MEMBER
        | ResourceType::PRESENCE
        | ResourceType::ROLE
        | ResourceType::GUILD_SCHEDULED_EVENT
        | ResourceType::STAGE_INSTANCE
        | ResourceType::STICKER
        | ResourceType::USER
        | ResourceType::VOICE_STATE;
    assert_eq!(resource_types(cache), expected);
}
