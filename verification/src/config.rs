//! The proxy's cache configuration, and what it implies for the shards: the
//! gateway events that they must receive and the resources that their
//! in-memory cache keeps.
use twilight_cache_inmemory::ResourceType;
use twilight_gateway::EventTypeFlags;
use vstd::prelude::*;
use vstd::string::StringExecFns;

verus! {

/// Which resources the proxy caches, and so sends to clients in the guilds
/// that it makes up for them.
#[derive(Clone, Copy, Debug, PartialEq, Eq)]
pub struct Cache {
    pub channels: bool,
    pub presences: bool,
    pub emojis: bool,
    pub current_member: bool,
    pub members: bool,
    pub roles: bool,
    pub scheduled_events: bool,
    pub stage_instances: bool,
    pub stickers: bool,
    pub users: bool,
    pub voice_states: bool,
}

impl Default for Cache {
    /// Channels, roles and the current member are cached; nothing else is.
    fn default() -> (r: Self)
        ensures
            r == (Cache {
                channels: true,
                presences: false,
                current_member: true,
                emojis: false,
                members: false,
                roles: true,
                scheduled_events: false,
                stage_instances: false,
                stickers: false,
                users: false,
                voice_states: false,
            }),
    {
        Self {
            channels: true,
            presences: false,
            current_member: true,
            emojis: false,
            members: false,
            roles: true,
            scheduled_events: false,
            stage_instances: false,
            stickers: false,
            users: false,
            voice_states: false,
        }
    }
}

/// The log level when the configuration names none.
pub fn default_log_level() -> (r: String)
    ensures
        r@ == "info"@,
{
    String::from_str("info")
}

/// The port that the proxy listens on when the configuration names none.
pub fn default_port() -> (r: u16)
    ensures
        r == 7878,
{
    7878
}

/// How many events a client may fall behind before it misses some, when the
/// configuration names no number.
pub fn default_backpressure() -> (r: usize)
    ensures
        r == 100,
{
    100
}

/// Whether the token is checked at startup when the configuration does not
/// say.
pub fn default_validate_token() -> (r: bool)
    ensures
        r,
{
    true
}

/// The gateway event types that the proxy asks for, each one named after its
/// `EventTypeFlags` constant.
#[derive(Clone, Copy, Debug, PartialEq, Eq)]
pub enum EventFlag {
    GuildCreate,
    GuildDelete,
    GuildUpdate,
    Ready,
    GatewayInvalidateSession,
    MemberAdd,
    MemberRemove,
    MemberUpdate,
    RoleCreate,
    RoleDelete,
    RoleUpdate,
    ChannelCreate,
    ChannelDelete,
    ChannelUpdate,
    ThreadCreate,
    ThreadDelete,
    ThreadListSync,
    ThreadUpdate,
    PresenceUpdate,
    GuildEmojisUpdate,
    GuildScheduledEvents,
    StageInstanceCreate,
    StageInstanceDelete,
    StageInstanceUpdate,
    VoiceStateUpdate,
    VoiceServerUpdate,
    UserUpdate,
}

#[verifier::external_type_specification]
#[verifier::external_body]
pub struct ExEventTypeFlags(EventTypeFlags);

/// The bits that a set of `EventTypeFlags` holds.
pub uninterp spec fn event_type_flags_bits(flags: EventTypeFlags) -> Set<nat>;

/// The bits of the `EventTypeFlags` constant that `flag` names.
pub open spec fn event_flag_bits(flag: EventFlag) -> Set<nat> {
    match flag {
        EventFlag::GuildCreate => set![10nat],
        EventFlag::GuildDelete => set![11nat],
        EventFlag::GuildUpdate => set![14nat],
        EventFlag::Ready => set![28nat],
        EventFlag::GatewayInvalidateSession => set![69nat],
        EventFlag::MemberAdd => set![15nat],
        EventFlag::MemberRemove => set![16nat],
        EventFlag::MemberUpdate => set![17nat],
        EventFlag::RoleCreate => set![30nat],
        EventFlag::RoleDelete => set![31nat],
        EventFlag::RoleUpdate => set![32nat],
        EventFlag::ChannelCreate => set![2nat],
        EventFlag::ChannelDelete => set![3nat],
        EventFlag::ChannelUpdate => set![5nat],
        EventFlag::ThreadCreate => set![50nat],
        EventFlag::ThreadDelete => set![52nat],
        EventFlag::ThreadListSync => set![53nat],
        EventFlag::ThreadUpdate => set![51nat],
        EventFlag::PresenceUpdate => set![23nat],
        EventFlag::GuildEmojisUpdate => set![12nat],
        EventFlag::GuildScheduledEvents => set![64nat, 65nat, 66nat, 67nat, 68nat],
        EventFlag::StageInstanceCreate => set![57nat],
        EventFlag::StageInstanceDelete => set![58nat],
        EventFlag::StageInstanceUpdate => set![59nat],
        EventFlag::VoiceStateUpdate => set![43nat],
        EventFlag::VoiceServerUpdate => set![42nat],
        EventFlag::UserUpdate => set![41nat],
    }
}

/// `EventTypeFlags::GUILD_CREATE`: the bit `1 << 10`.
#[verifier::external_body]
fn event_guild_create() -> (r: EventTypeFlags)
    ensures
        event_type_flags_bits(r) == set![10nat],
{
    EventTypeFlags::GUILD_CREATE
}

/// `EventTypeFlags::GUILD_DELETE`: the bit `1 << 11`.
#[verifier::external_body]
fn event_guild_delete() -> (r: EventTypeFlags)
    ensures
        event_type_flags_bits(r) == set![11nat],
{
    EventTypeFlags::GUILD_DELETE
}

/// `EventTypeFlags::GUILD_UPDATE`: the bit `1 << 14`.
#[verifier::external_body]
fn event_guild_update() -> (r: EventTypeFlags)
    ensures
        event_type_flags_bits(r) == set![14nat],
{
    EventTypeFlags::GUILD_UPDATE
}

/// `EventTypeFlags::READY`: the bit `1 << 28`.
#[verifier::external_body]
fn event_ready() -> (r: EventTypeFlags)
    ensures
        event_type_flags_bits(r) == set![28nat],
{
    EventTypeFlags::READY
}

/// `EventTypeFlags::GATEWAY_INVALIDATE_SESSION`: the bit `1 << 69`.
#[verifier::external_body]
fn event_gateway_invalidate_session() -> (r: EventTypeFlags)
    ensures
        event_type_flags_bits(r) == set![69nat],
{
    EventTypeFlags::GATEWAY_INVALIDATE_SESSION
}

/// `EventTypeFlags::MEMBER_ADD`: the bit `1 << 15`.
#[verifier::external_body]
fn event_member_add() -> (r: EventTypeFlags)
    ensures
        event_type_flags_bits(r) == set![15nat],
{
    EventTypeFlags::MEMBER_ADD
}

/// `EventTypeFlags::MEMBER_REMOVE`: the bit `1 << 16`.
#[verifier::external_body]
fn event_member_remove() -> (r: EventTypeFlags)
    ensures
        event_type_flags_bits(r) == set![16nat],
{
    EventTypeFlags::MEMBER_REMOVE
}

/// `EventTypeFlags::MEMBER_UPDATE`: the bit `1 << 17`.
#[verifier::external_body]
fn event_member_update() -> (r: EventTypeFlags)
    ensures
        event_type_flags_bits(r) == set![17nat],
{
    EventTypeFlags::MEMBER_UPDATE
}

/// `EventTypeFlags::ROLE_CREATE`: the bit `1 << 30`.
#[verifier::external_body]
fn event_role_create() -> (r: EventTypeFlags)
    ensures
        event_type_flags_bits(r) == set![30nat],
{
    EventTypeFlags::ROLE_CREATE
}

/// `EventTypeFlags::ROLE_DELETE`: the bit `1 << 31`.
#[verifier::external_body]
fn event_role_delete() -> (r: EventTypeFlags)
    ensures
        event_type_flags_bits(r) == set![31nat],
{
    EventTypeFlags::ROLE_DELETE
}

/// `EventTypeFlags::ROLE_UPDATE`: the bit `1 << 32`.
#[verifier::external_body]
fn event_role_update() -> (r: EventTypeFlags)
    ensures
        event_type_flags_bits(r) == set![32nat],
{
    EventTypeFlags::ROLE_UPDATE
}

/// `EventTypeFlags::CHANNEL_CREATE`: the bit `1 << 2`.
#[verifier::external_body]
fn event_channel_create() -> (r: EventTypeFlags)
    ensures
        event_type_flags_bits(r) == set![2nat],
{
    EventTypeFlags::CHANNEL_CREATE
}

/// `EventTypeFlags::CHANNEL_DELETE`: the bit `1 << 3`.
#[verifier::external_body]
fn event_channel_delete() -> (r: EventTypeFlags)
    ensures
        event_type_flags_bits(r) == set![3nat],
{
    EventTypeFlags::CHANNEL_DELETE
}

/// `EventTypeFlags::CHANNEL_UPDATE`: the bit `1 << 5`.
#[verifier::external_body]
fn event_channel_update() -> (r: EventTypeFlags)
    ensures
        event_type_flags_bits(r) == set![5nat],
{
    EventTypeFlags::CHANNEL_UPDATE
}

/// `EventTypeFlags::THREAD_CREATE`: the bit `1 << 50`.
#[verifier::external_body]
fn event_thread_create() -> (r: EventTypeFlags)
    ensures
        event_type_flags_bits(r) == set![50nat],
{
    EventTypeFlags::THREAD_CREATE
}

/// `EventTypeFlags::THREAD_DELETE`: the bit `1 << 52`.
#[verifier::external_body]
fn event_thread_delete() -> (r: EventTypeFlags)
    ensures
        event_type_flags_bits(r) == set![52nat],
{
    EventTypeFlags::THREAD_DELETE
}

/// `EventTypeFlags::THREAD_LIST_SYNC`: the bit `1 << 53`.
#[verifier::external_body]
fn event_thread_list_sync() -> (r: EventTypeFlags)
    ensures
        event_type_flags_bits(r) == set![53nat],
{
    EventTypeFlags::THREAD_LIST_SYNC
}

/// `EventTypeFlags::THREAD_UPDATE`: the bit `1 << 51`.
#[verifier::external_body]
fn event_thread_update() -> (r: EventTypeFlags)
    ensures
        event_type_flags_bits(r) == set![51nat],
{
    EventTypeFlags::THREAD_UPDATE
}

/// `EventTypeFlags::PRESENCE_UPDATE`: the bit `1 << 23`.
#[verifier::external_body]
fn event_presence_update() -> (r: EventTypeFlags)
    ensures
        event_type_flags_bits(r) == set![23nat],
{
    EventTypeFlags::PRESENCE_UPDATE
}

/// `EventTypeFlags::GUILD_EMOJIS_UPDATE`: the bit `1 << 12`.
#[verifier::external_body]
fn event_guild_emojis_update() -> (r: EventTypeFlags)
    ensures
        event_type_flags_bits(r) == set![12nat],
{
    EventTypeFlags::GUILD_EMOJIS_UPDATE
}

/// `EventTypeFlags::GUILD_SCHEDULED_EVENTS`: the bits `1 << 64`, `1 << 65`, `1 << 66`, `1 << 67`, `1 << 68`.
#[verifier::external_body]
fn event_guild_scheduled_events() -> (r: EventTypeFlags)
    ensures
        event_type_flags_bits(r) == set![64nat, 65nat, 66nat, 67nat, 68nat],
{
    EventTypeFlags::GUILD_SCHEDULED_EVENTS
}

/// `EventTypeFlags::STAGE_INSTANCE_CREATE`: the bit `1 << 57`.
#[verifier::external_body]
fn event_stage_instance_create() -> (r: EventTypeFlags)
    ensures
        event_type_flags_bits(r) == set![57nat],
{
    EventTypeFlags::STAGE_INSTANCE_CREATE
}

/// `EventTypeFlags::STAGE_INSTANCE_DELETE`: the bit `1 << 58`.
#[verifier::external_body]
fn event_stage_instance_delete() -> (r: EventTypeFlags)
    ensures
        event_type_flags_bits(r) == set![58nat],
{
    EventTypeFlags::STAGE_INSTANCE_DELETE
}

/// `EventTypeFlags::STAGE_INSTANCE_UPDATE`: the bit `1 << 59`.
#[verifier::external_body]
fn event_stage_instance_update() -> (r: EventTypeFlags)
    ensures
        event_type_flags_bits(r) == set![59nat],
{
    EventTypeFlags::STAGE_INSTANCE_UPDATE
}

/// `EventTypeFlags::VOICE_STATE_UPDATE`: the bit `1 << 43`.
#[verifier::external_body]
fn event_voice_state_update() -> (r: EventTypeFlags)
    ensures
        event_type_flags_bits(r) == set![43nat],
{
    EventTypeFlags::VOICE_STATE_UPDATE
}

/// `EventTypeFlags::VOICE_SERVER_UPDATE`: the bit `1 << 42`.
#[verifier::external_body]
fn event_voice_server_update() -> (r: EventTypeFlags)
    ensures
        event_type_flags_bits(r) == set![42nat],
{
    EventTypeFlags::VOICE_SERVER_UPDATE
}

/// `EventTypeFlags::USER_UPDATE`: the bit `1 << 41`.
#[verifier::external_body]
fn event_user_update() -> (r: EventTypeFlags)
    ensures
        event_type_flags_bits(r) == set![41nat],
{
    EventTypeFlags::USER_UPDATE
}

/// `EventTypeFlags::union`, which `|` calls: the flags of both.
#[verifier::external_body]
fn event_flags_union(a: EventTypeFlags, b: EventTypeFlags) -> (r: EventTypeFlags)
    ensures
        event_type_flags_bits(r) == event_type_flags_bits(a).union(event_type_flags_bits(b)),
{
    a.union(b)
}

/// The event types that a cache configuration needs: the guild events, READY
/// and invalid sessions always, and for each cached resource the events that
/// create, update and delete it.
pub open spec fn event_flags_for(cache: Cache) -> Set<EventFlag> {
    set![
        EventFlag::GuildCreate,
        EventFlag::GuildDelete,
        EventFlag::GuildUpdate,
        EventFlag::Ready,
        EventFlag::GatewayInvalidateSession,
    ].union(
        if cache.members || cache.current_member {
            set![EventFlag::MemberAdd, EventFlag::MemberRemove, EventFlag::MemberUpdate]
        } else {
            Set::empty()
        },
    ).union(
        if cache.roles {
            set![EventFlag::RoleCreate, EventFlag::RoleDelete, EventFlag::RoleUpdate]
        } else {
            Set::empty()
        },
    ).union(
        if cache.channels {
            set![
                EventFlag::ChannelCreate,
                EventFlag::ChannelDelete,
                EventFlag::ChannelUpdate,
                EventFlag::ThreadCreate,
                EventFlag::ThreadDelete,
                EventFlag::ThreadListSync,
                EventFlag::ThreadUpdate,
            ]
        } else {
            Set::empty()
        },
    ).union(
        if cache.presences {
            set![EventFlag::PresenceUpdate]
        } else {
            Set::empty()
        },
    ).union(
        if cache.emojis {
            set![EventFlag::GuildEmojisUpdate]
        } else {
            Set::empty()
        },
    ).union(
        if cache.scheduled_events {
            set![EventFlag::GuildScheduledEvents]
        } else {
            Set::empty()
        },
    ).union(
        if cache.stage_instances {
            set![
                EventFlag::StageInstanceCreate,
                EventFlag::StageInstanceDelete,
                EventFlag::StageInstanceUpdate,
            ]
        } else {
            Set::empty()
        },
    ).union(
        if cache.voice_states {
            set![EventFlag::VoiceStateUpdate, EventFlag::VoiceServerUpdate]
        } else {
            Set::empty()
        },
    ).union(
        if cache.users {
            set![EventFlag::UserUpdate]
        } else {
            Set::empty()
        },
    )
}

/// The bits of all the event type constants in `flags`.
pub open spec fn event_bits_of(flags: Set<EventFlag>) -> Set<nat> {
    Set::new(|b: nat| exists|f: EventFlag| flags.contains(f) && event_flag_bits(f).contains(b))
}

/// Adds `value`, the constant of `flag`, to `acc`.
fn add_event_flag(
    acc: EventTypeFlags,
    value: EventTypeFlags,
    Ghost(flag): Ghost<EventFlag>,
    Ghost(names): Ghost<Set<EventFlag>>,
) -> (r: EventTypeFlags)
    requires
        event_type_flags_bits(acc) == event_bits_of(names),
        event_type_flags_bits(value) == event_flag_bits(flag),
    ensures
        event_type_flags_bits(r) == event_bits_of(names.insert(flag)),
{
    let r = event_flags_union(acc, value);
    let ghost all = names.insert(flag);
    assert forall|b: nat| event_type_flags_bits(r).contains(b) <==> #[trigger] event_bits_of(
        all,
    ).contains(b) by {
        if event_flag_bits(flag).contains(b) {
            assert(all.contains(flag));
        }
        if event_bits_of(names).contains(b) {
            let f = choose|f: EventFlag| names.contains(f) && event_flag_bits(f).contains(b);
            assert(all.contains(f));
        }
        if event_bits_of(all).contains(b) {
            let f = choose|f: EventFlag| all.contains(f) && event_flag_bits(f).contains(b);
            if f != flag {
                assert(names.contains(f));
            }
        }
    }
    assert(event_type_flags_bits(r) =~= event_bits_of(all));
    r
}

/// The gateway event types that a shard must receive for the cache
/// configuration.
pub fn event_type_flags(cache: Cache) -> (r: EventTypeFlags)
    ensures
        event_type_flags_bits(r) == event_bits_of(event_flags_for(cache)),
        event_type_flags_bits(r).contains(15) == (cache.members || cache.current_member),
        event_type_flags_bits(r).contains(30) == cache.roles,
        event_type_flags_bits(r).contains(2) == cache.channels,
        event_type_flags_bits(r).contains(23) == cache.presences,
        event_type_flags_bits(r).contains(12) == cache.emojis,
        event_type_flags_bits(r).contains(64) == cache.scheduled_events,
        event_type_flags_bits(r).contains(57) == cache.stage_instances,
        event_type_flags_bits(r).contains(43) == cache.voice_states,
        event_type_flags_bits(r).contains(41) == cache.users,
{
    proof {
        lemma_event_flags_follow_cache(cache);
    }
    let ghost mut names = set![EventFlag::GuildCreate];
    let mut flags = event_guild_create();
    assert forall|b: nat| event_type_flags_bits(flags).contains(b) <==> #[trigger] event_bits_of(
        names,
    ).contains(b) by {
        if event_flag_bits(EventFlag::GuildCreate).contains(b) {
            assert(names.contains(EventFlag::GuildCreate));
        }
    }
    assert(event_type_flags_bits(flags) =~= event_bits_of(names));
    flags = add_event_flag(flags, event_guild_delete(), Ghost(EventFlag::GuildDelete), Ghost(names));
    proof { names = names.insert(EventFlag::GuildDelete); }
    flags = add_event_flag(flags, event_guild_update(), Ghost(EventFlag::GuildUpdate), Ghost(names));
    proof { names = names.insert(EventFlag::GuildUpdate); }
    flags = add_event_flag(flags, event_ready(), Ghost(EventFlag::Ready), Ghost(names));
    proof { names = names.insert(EventFlag::Ready); }
    flags = add_event_flag(flags, event_gateway_invalidate_session(), Ghost(EventFlag::GatewayInvalidateSession), Ghost(names));
    proof { names = names.insert(EventFlag::GatewayInvalidateSession); }

    if cache.members || cache.current_member {
        flags = add_event_flag(flags, event_member_add(), Ghost(EventFlag::MemberAdd), Ghost(names));
        proof { names = names.insert(EventFlag::MemberAdd); }
        flags = add_event_flag(flags, event_member_remove(), Ghost(EventFlag::MemberRemove), Ghost(names));
        proof { names = names.insert(EventFlag::MemberRemove); }
        flags = add_event_flag(flags, event_member_update(), Ghost(EventFlag::MemberUpdate), Ghost(names));
        proof { names = names.insert(EventFlag::MemberUpdate); }
    }
    if cache.roles {
        flags = add_event_flag(flags, event_role_create(), Ghost(EventFlag::RoleCreate), Ghost(names));
        proof { names = names.insert(EventFlag::RoleCreate); }
        flags = add_event_flag(flags, event_role_delete(), Ghost(EventFlag::RoleDelete), Ghost(names));
        proof { names = names.insert(EventFlag::RoleDelete); }
        flags = add_event_flag(flags, event_role_update(), Ghost(EventFlag::RoleUpdate), Ghost(names));
        proof { names = names.insert(EventFlag::RoleUpdate); }
    }
    if cache.channels {
        flags = add_event_flag(flags, event_channel_create(), Ghost(EventFlag::ChannelCreate), Ghost(names));
        proof { names = names.insert(EventFlag::ChannelCreate); }
        flags = add_event_flag(flags, event_channel_delete(), Ghost(EventFlag::ChannelDelete), Ghost(names));
        proof { names = names.insert(EventFlag::ChannelDelete); }
        flags = add_event_flag(flags, event_channel_update(), Ghost(EventFlag::ChannelUpdate), Ghost(names));
        proof { names = names.insert(EventFlag::ChannelUpdate); }
        flags = add_event_flag(flags, event_thread_create(), Ghost(EventFlag::ThreadCreate), Ghost(names));
        proof { names = names.insert(EventFlag::ThreadCreate); }
        flags = add_event_flag(flags, event_thread_delete(), Ghost(EventFlag::ThreadDelete), Ghost(names));
        proof { names = names.insert(EventFlag::ThreadDelete); }
        flags = add_event_flag(flags, event_thread_list_sync(), Ghost(EventFlag::ThreadListSync), Ghost(names));
        proof { names = names.insert(EventFlag::ThreadListSync); }
        flags = add_event_flag(flags, event_thread_update(), Ghost(EventFlag::ThreadUpdate), Ghost(names));
        proof { names = names.insert(EventFlag::ThreadUpdate); }
    }
    if cache.presences {
        flags = add_event_flag(flags, event_presence_update(), Ghost(EventFlag::PresenceUpdate), Ghost(names));
        proof { names = names.insert(EventFlag::PresenceUpdate); }
    }
    if cache.emojis {
        flags = add_event_flag(flags, event_guild_emojis_update(), Ghost(EventFlag::GuildEmojisUpdate), Ghost(names));
        proof { names = names.insert(EventFlag::GuildEmojisUpdate); }
    }
    if cache.scheduled_events {
        flags = add_event_flag(flags, event_guild_scheduled_events(), Ghost(EventFlag::GuildScheduledEvents), Ghost(names));
        proof { names = names.insert(EventFlag::GuildScheduledEvents); }
    }
    if cache.stage_instances {
        flags = add_event_flag(flags, event_stage_instance_create(), Ghost(EventFlag::StageInstanceCreate), Ghost(names));
        proof { names = names.insert(EventFlag::StageInstanceCreate); }
        flags = add_event_flag(flags, event_stage_instance_delete(), Ghost(EventFlag::StageInstanceDelete), Ghost(names));
        proof { names = names.insert(EventFlag::StageInstanceDelete); }
        flags = add_event_flag(flags, event_stage_instance_update(), Ghost(EventFlag::StageInstanceUpdate), Ghost(names));
        proof { names = names.insert(EventFlag::StageInstanceUpdate); }
    }
    if cache.voice_states {
        flags = add_event_flag(flags, event_voice_state_update(), Ghost(EventFlag::VoiceStateUpdate), Ghost(names));
        proof { names = names.insert(EventFlag::VoiceStateUpdate); }
        flags = add_event_flag(flags, event_voice_server_update(), Ghost(EventFlag::VoiceServerUpdate), Ghost(names));
        proof { names = names.insert(EventFlag::VoiceServerUpdate); }
    }
    if cache.users {
        flags = add_event_flag(flags, event_user_update(), Ghost(EventFlag::UserUpdate), Ghost(names));
        proof { names = names.insert(EventFlag::UserUpdate); }
    }
    assert(names =~= event_flags_for(cache));
    flags
}

/// The resources that the in-memory cache can keep, each one named by its
/// `ResourceType` constant.
#[derive(Clone, Copy, Debug, PartialEq, Eq)]
pub enum ResourceFlag {
    Guild,
    UserCurrent,
    Channel,
    Emoji,
    Member,
    Presence,
    Role,
    GuildScheduledEvent,
    StageInstance,
    Sticker,
    User,
    VoiceState,
}

#[verifier::external_type_specification]
#[verifier::external_body]
pub struct ExResourceType(ResourceType);

/// The bits that a set of `ResourceType` flags holds.
pub uninterp spec fn resource_type_bits(types: ResourceType) -> Set<nat>;

/// The bits of the `ResourceType` constant that `flag` names.
pub open spec fn resource_flag_bits(flag: ResourceFlag) -> Set<nat> {
    match flag {
        ResourceFlag::Guild => set![2nat],
        ResourceFlag::UserCurrent => set![8nat],
        ResourceFlag::Channel => set![0nat],
        ResourceFlag::Emoji => set![1nat],
        ResourceFlag::Member => set![3nat],
        ResourceFlag::Presence => set![5nat],
        ResourceFlag::Role => set![7nat],
        ResourceFlag::GuildScheduledEvent => set![14nat],
        ResourceFlag::StageInstance => set![11nat],
        ResourceFlag::Sticker => set![13nat],
        ResourceFlag::User => set![9nat],
        ResourceFlag::VoiceState => set![10nat],
    }
}

/// `ResourceType::GUILD`: the bit `1 << 2`.
#[verifier::external_body]
fn resource_guild() -> (r: ResourceType)
    ensures
        resource_type_bits(r) == set![2nat],
{
    ResourceType::GUILD
}

/// `ResourceType::USER_CURRENT`: the bit `1 << 8`.
#[verifier::external_body]
fn resource_user_current() -> (r: ResourceType)
    ensures
        resource_type_bits(r) == set![8nat],
{
    ResourceType::USER_CURRENT
}

/// `ResourceType::CHANNEL`: the bit `1 << 0`.
#[verifier::external_body]
fn resource_channel() -> (r: ResourceType)
    ensures
        resource_type_bits(r) == set![0nat],
{
    ResourceType::CHANNEL
}

/// `ResourceType::EMOJI`: the bit `1 << 1`.
#[verifier::external_body]
fn resource_emoji() -> (r: ResourceType)
    ensures
        resource_type_bits(r) == set![1nat],
{
    ResourceType::EMOJI
}

/// `ResourceType::MEMBER`: the bit `1 << 3`.
#[verifier::external_body]
fn resource_member() -> (r: ResourceType)
    ensures
        resource_type_bits(r) == set![3nat],
{
    ResourceType::MEMBER
}

/// `ResourceType::PRESENCE`: the bit `1 << 5`.
#[verifier::external_body]
fn resource_presence() -> (r: ResourceType)
    ensures
        resource_type_bits(r) == set![5nat],
{
    ResourceType::PRESENCE
}

/// `ResourceType::ROLE`: the bit `1 << 7`.
#[verifier::external_body]
fn resource_role() -> (r: ResourceType)
    ensures
        resource_type_bits(r) == set![7nat],
{
    ResourceType::ROLE
}

/// `ResourceType::GUILD_SCHEDULED_EVENT`: the bit `1 << 14`.
#[verifier::external_body]
fn resource_guild_scheduled_event() -> (r: ResourceType)
    ensures
        resource_type_bits(r) == set![14nat],
{
    ResourceType::GUILD_SCHEDULED_EVENT
}

/// `ResourceType::STAGE_INSTANCE`: the bit `1 << 11`.
#[verifier::external_body]
fn resource_stage_instance() -> (r: ResourceType)
    ensures
        resource_type_bits(r) == set![11nat],
{
    ResourceType::STAGE_INSTANCE
}

/// `ResourceType::STICKER`: the bit `1 << 13`.
#[verifier::external_body]
fn resource_sticker() -> (r: ResourceType)
    ensures
        resource_type_bits(r) == set![13nat],
{
    ResourceType::STICKER
}

/// `ResourceType::USER`: the bit `1 << 9`.
#[verifier::external_body]
fn resource_user() -> (r: ResourceType)
    ensures
        resource_type_bits(r) == set![9nat],
{
    ResourceType::USER
}

/// `ResourceType::VOICE_STATE`: the bit `1 << 10`.
#[verifier::external_body]
fn resource_voice_state() -> (r: ResourceType)
    ensures
        resource_type_bits(r) == set![10nat],
{
    ResourceType::VOICE_STATE
}

/// `ResourceType::union`, which `|` calls: the flags of both.
#[verifier::external_body]
fn resource_types_union(a: ResourceType, b: ResourceType) -> (r: ResourceType)
    ensures
        resource_type_bits(r) == resource_type_bits(a).union(resource_type_bits(b)),
{
    a.union(b)
}

/// The resources that a cache configuration keeps: guilds and the current
/// user always, and each resource that the configuration names. The cache
/// crate has no resource type for the current member alone, so
/// `current_member` keeps members, and the guild payloads then hold only the
/// current user's member (see `crate::cache::members_to_send`).
pub open spec fn resource_flags_for(cache: Cache) -> Set<ResourceFlag> {
    set![ResourceFlag::Guild, ResourceFlag::UserCurrent].union(
        if cache.channels {
            set![ResourceFlag::Channel]
        } else {
            Set::empty()
        },
    ).union(
        if cache.emojis {
            set![ResourceFlag::Emoji]
        } else {
            Set::empty()
        },
    ).union(
        if cache.members || cache.current_member {
            set![ResourceFlag::Member]
        } else {
            Set::empty()
        },
    ).union(
        if cache.presences {
            set![ResourceFlag::Presence]
        } else {
            Set::empty()
        },
    ).union(
        if cache.roles {
            set![ResourceFlag::Role]
        } else {
            Set::empty()
        },
    ).union(
        if cache.scheduled_events {
            set![ResourceFlag::GuildScheduledEvent]
        } else {
            Set::empty()
        },
    ).union(
        if cache.stage_instances {
            set![ResourceFlag::StageInstance]
        } else {
            Set::empty()
        },
    ).union(
        if cache.stickers {
            set![ResourceFlag::Sticker]
        } else {
            Set::empty()
        },
    ).union(
        if cache.users {
            set![ResourceFlag::User]
        } else {
            Set::empty()
        },
    ).union(
        if cache.voice_states {
            set![ResourceFlag::VoiceState]
        } else {
            Set::empty()
        },
    )
}

/// The bits of all the resource type constants in `flags`.
pub open spec fn resource_bits_of(flags: Set<ResourceFlag>) -> Set<nat> {
    Set::new(|b: nat| exists|f: ResourceFlag| flags.contains(f) && resource_flag_bits(f).contains(b))
}

/// Adds `value`, the constant of `flag`, to `acc`.
fn add_resource_flag(
    acc: ResourceType,
    value: ResourceType,
    Ghost(flag): Ghost<ResourceFlag>,
    Ghost(names): Ghost<Set<ResourceFlag>>,
) -> (r: ResourceType)
    requires
        resource_type_bits(acc) == resource_bits_of(names),
        resource_type_bits(value) == resource_flag_bits(flag),
    ensures
        resource_type_bits(r) == resource_bits_of(names.insert(flag)),
{
    let r = resource_types_union(acc, value);
    let ghost all = names.insert(flag);
    assert forall|b: nat| resource_type_bits(r).contains(b) <==> #[trigger] resource_bits_of(
        all,
    ).contains(b) by {
        if resource_flag_bits(flag).contains(b) {
            assert(all.contains(flag));
        }
        if resource_bits_of(names).contains(b) {
            let f = choose|f: ResourceFlag| names.contains(f) && resource_flag_bits(f).contains(b);
            assert(all.contains(f));
        }
        if resource_bits_of(all).contains(b) {
            let f = choose|f: ResourceFlag| all.contains(f) && resource_flag_bits(f).contains(b);
            if f != flag {
                assert(names.contains(f));
            }
        }
    }
    assert(resource_type_bits(r) =~= resource_bits_of(all));
    r
}

/// The resources that a shard's in-memory cache keeps for the cache
/// configuration.
pub fn resource_types(cache: Cache) -> (r: ResourceType)
    ensures
        resource_type_bits(r) == resource_bits_of(resource_flags_for(cache)),
        resource_type_bits(r).contains(3) == (cache.members || cache.current_member),
        resource_type_bits(r).contains(0) == cache.channels,
        resource_type_bits(r).contains(1) == cache.emojis,
        resource_type_bits(r).contains(5) == cache.presences,
        resource_type_bits(r).contains(7) == cache.roles,
        resource_type_bits(r).contains(14) == cache.scheduled_events,
        resource_type_bits(r).contains(11) == cache.stage_instances,
        resource_type_bits(r).contains(13) == cache.stickers,
        resource_type_bits(r).contains(9) == cache.users,
        resource_type_bits(r).contains(10) == cache.voice_states,
{
    proof {
        lemma_resource_types_follow_cache(cache);
    }
    let ghost mut names = set![ResourceFlag::Guild];
    let mut types = resource_guild();
    assert forall|b: nat| resource_type_bits(types).contains(b) <==> #[trigger] resource_bits_of(
        names,
    ).contains(b) by {
        if resource_flag_bits(ResourceFlag::Guild).contains(b) {
            assert(names.contains(ResourceFlag::Guild));
        }
    }
    assert(resource_type_bits(types) =~= resource_bits_of(names));
    types = add_resource_flag(types, resource_user_current(), Ghost(ResourceFlag::UserCurrent), Ghost(names));
    proof { names = names.insert(ResourceFlag::UserCurrent); }
    if cache.channels {
        types = add_resource_flag(types, resource_channel(), Ghost(ResourceFlag::Channel), Ghost(names));
        proof { names = names.insert(ResourceFlag::Channel); }
    }
    if cache.emojis {
        types = add_resource_flag(types, resource_emoji(), Ghost(ResourceFlag::Emoji), Ghost(names));
        proof { names = names.insert(ResourceFlag::Emoji); }
    }
    if cache.members || cache.current_member {
        types = add_resource_flag(types, resource_member(), Ghost(ResourceFlag::Member), Ghost(names));
        proof { names = names.insert(ResourceFlag::Member); }
    }
    if cache.presences {
        types = add_resource_flag(types, resource_presence(), Ghost(ResourceFlag::Presence), Ghost(names));
        proof { names = names.insert(ResourceFlag::Presence); }
    }
    if cache.roles {
        types = add_resource_flag(types, resource_role(), Ghost(ResourceFlag::Role), Ghost(names));
        proof { names = names.insert(ResourceFlag::Role); }
    }
    if cache.scheduled_events {
        types = add_resource_flag(types, resource_guild_scheduled_event(), Ghost(ResourceFlag::GuildScheduledEvent), Ghost(names));
        proof { names = names.insert(ResourceFlag::GuildScheduledEvent); }
    }
    if cache.stage_instances {
        types = add_resource_flag(types, resource_stage_instance(), Ghost(ResourceFlag::StageInstance), Ghost(names));
        proof { names = names.insert(ResourceFlag::StageInstance); }
    }
    if cache.stickers {
        types = add_resource_flag(types, resource_sticker(), Ghost(ResourceFlag::Sticker), Ghost(names));
        proof { names = names.insert(ResourceFlag::Sticker); }
    }
    if cache.users {
        types = add_resource_flag(types, resource_user(), Ghost(ResourceFlag::User), Ghost(names));
        proof { names = names.insert(ResourceFlag::User); }
    }
    if cache.voice_states {
        types = add_resource_flag(types, resource_voice_state(), Ghost(ResourceFlag::VoiceState), Ghost(names));
        proof { names = names.insert(ResourceFlag::VoiceState); }
    }
    assert(names =~= resource_flags_for(cache));
    types
}

/// Membership of a bit that only `f` of all the event flags holds.
proof fn lemma_event_bit(flags: Set<EventFlag>, f: EventFlag, b: nat)
    requires
        event_flag_bits(f).contains(b),
        forall|g: EventFlag| g != f ==> !#[trigger] event_flag_bits(g).contains(b),
    ensures
        event_bits_of(flags).contains(b) == flags.contains(f),
{
    if event_bits_of(flags).contains(b) {
        let g = choose|g: EventFlag| flags.contains(g) && event_flag_bits(g).contains(b);
        assert(g == f);
    }
    if flags.contains(f) {
        assert(flags.contains(f) && event_flag_bits(f).contains(b));
    }
}

/// The gateway events that a shard receives for a cache configuration, by
/// their bits in `EventTypeFlags`: GUILD_CREATE (10), GUILD_DELETE (11),
/// GUILD_UPDATE (14), READY (28) and GATEWAY_INVALIDATE_SESSION (69)
/// always; the member events (15-17) exactly when members or the current
/// member are cached; the role events (30-32) exactly with roles; the
/// channel and thread events (2, 3, 5, 50-53) exactly with channels;
/// PRESENCE_UPDATE (23) exactly with presences; GUILD_EMOJIS_UPDATE (12)
/// exactly with emojis; the scheduled event events (64) exactly with
/// scheduled events; the stage instance events (57-59) exactly with stage
/// instances; VOICE_STATE_UPDATE and VOICE_SERVER_UPDATE (43, 42) exactly
/// with voice states; USER_UPDATE (41) exactly with users.
pub proof fn lemma_event_flags_follow_cache(cache: Cache)
    ensures
        ({
            let bits = event_bits_of(event_flags_for(cache));
            &&& bits.contains(10) && bits.contains(11) && bits.contains(14) && bits.contains(28)
                && bits.contains(69)
            &&& bits.contains(15) == (cache.members || cache.current_member)
            &&& bits.contains(16) == (cache.members || cache.current_member)
            &&& bits.contains(17) == (cache.members || cache.current_member)
            &&& bits.contains(30) == cache.roles
            &&& bits.contains(31) == cache.roles
            &&& bits.contains(32) == cache.roles
            &&& bits.contains(2) == cache.channels
            &&& bits.contains(3) == cache.channels
            &&& bits.contains(5) == cache.channels
            &&& bits.contains(50) == cache.channels
            &&& bits.contains(51) == cache.channels
            &&& bits.contains(52) == cache.channels
            &&& bits.contains(53) == cache.channels
            &&& bits.contains(23) == cache.presences
            &&& bits.contains(12) == cache.emojis
            &&& bits.contains(64) == cache.scheduled_events
            &&& bits.contains(57) == cache.stage_instances
            &&& bits.contains(58) == cache.stage_instances
            &&& bits.contains(59) == cache.stage_instances
            &&& bits.contains(43) == cache.voice_states
            &&& bits.contains(42) == cache.voice_states
            &&& bits.contains(41) == cache.users
        }),
{
    let flags = event_flags_for(cache);
    lemma_event_bit(flags, EventFlag::GuildCreate, 10);
    lemma_event_bit(flags, EventFlag::GuildDelete, 11);
    lemma_event_bit(flags, EventFlag::GuildUpdate, 14);
    lemma_event_bit(flags, EventFlag::Ready, 28);
    lemma_event_bit(flags, EventFlag::GatewayInvalidateSession, 69);
    lemma_event_bit(flags, EventFlag::MemberAdd, 15);
    lemma_event_bit(flags, EventFlag::MemberRemove, 16);
    lemma_event_bit(flags, EventFlag::MemberUpdate, 17);
    lemma_event_bit(flags, EventFlag::RoleCreate, 30);
    lemma_event_bit(flags, EventFlag::RoleDelete, 31);
    lemma_event_bit(flags, EventFlag::RoleUpdate, 32);
    lemma_event_bit(flags, EventFlag::ChannelCreate, 2);
    lemma_event_bit(flags, EventFlag::ChannelDelete, 3);
    lemma_event_bit(flags, EventFlag::ChannelUpdate, 5);
    lemma_event_bit(flags, EventFlag::ThreadCreate, 50);
    lemma_event_bit(flags, EventFlag::ThreadUpdate, 51);
    lemma_event_bit(flags, EventFlag::ThreadDelete, 52);
    lemma_event_bit(flags, EventFlag::ThreadListSync, 53);
    lemma_event_bit(flags, EventFlag::PresenceUpdate, 23);
    lemma_event_bit(flags, EventFlag::GuildEmojisUpdate, 12);
    lemma_event_bit(flags, EventFlag::GuildScheduledEvents, 64);
    lemma_event_bit(flags, EventFlag::StageInstanceCreate, 57);
    lemma_event_bit(flags, EventFlag::StageInstanceDelete, 58);
    lemma_event_bit(flags, EventFlag::StageInstanceUpdate, 59);
    lemma_event_bit(flags, EventFlag::VoiceStateUpdate, 43);
    lemma_event_bit(flags, EventFlag::VoiceServerUpdate, 42);
    lemma_event_bit(flags, EventFlag::UserUpdate, 41);
}

/// Membership of a bit that only `f` of all the resource flags holds.
proof fn lemma_resource_bit(flags: Set<ResourceFlag>, f: ResourceFlag, b: nat)
    requires
        resource_flag_bits(f).contains(b),
        forall|g: ResourceFlag| g != f ==> !#[trigger] resource_flag_bits(g).contains(b),
    ensures
        resource_bits_of(flags).contains(b) == flags.contains(f),
{
    if resource_bits_of(flags).contains(b) {
        let g = choose|g: ResourceFlag| flags.contains(g) && resource_flag_bits(g).contains(b);
        assert(g == f);
    }
    if flags.contains(f) {
        assert(flags.contains(f) && resource_flag_bits(f).contains(b));
    }
}

/// The resources that the cache keeps for a cache configuration, by their
/// bits in `ResourceType`: GUILD (2) and USER_CURRENT (8) always; MEMBER (3)
/// exactly when members or the current member are cached; CHANNEL (0),
/// EMOJI (1), PRESENCE (5), ROLE (7), GUILD_SCHEDULED_EVENT (14),
/// STAGE_INSTANCE (11), STICKER (13), USER (9) and VOICE_STATE (10) exactly
/// when the configuration names them; and no other bit.
pub proof fn lemma_resource_types_follow_cache(cache: Cache)
    ensures
        ({
            let bits = resource_bits_of(resource_flags_for(cache));
            &&& bits.contains(2) && bits.contains(8)
            &&& bits.contains(3) == (cache.members || cache.current_member)
            &&& bits.contains(0) == cache.channels
            &&& bits.contains(1) == cache.emojis
            &&& bits.contains(5) == cache.presences
            &&& bits.contains(7) == cache.roles
            &&& bits.contains(14) == cache.scheduled_events
            &&& bits.contains(11) == cache.stage_instances
            &&& bits.contains(13) == cache.stickers
            &&& bits.contains(9) == cache.users
            &&& bits.contains(10) == cache.voice_states
            &&& forall|b: nat| #[trigger] bits.contains(b) ==> b <= 14 && b != 4 && b != 6 && b != 12
        }),
{
    let flags = resource_flags_for(cache);
    lemma_resource_bit(flags, ResourceFlag::Guild, 2);
    lemma_resource_bit(flags, ResourceFlag::UserCurrent, 8);
    lemma_resource_bit(flags, ResourceFlag::Member, 3);
    lemma_resource_bit(flags, ResourceFlag::Channel, 0);
    lemma_resource_bit(flags, ResourceFlag::Emoji, 1);
    lemma_resource_bit(flags, ResourceFlag::Presence, 5);
    lemma_resource_bit(flags, ResourceFlag::Role, 7);
    lemma_resource_bit(flags, ResourceFlag::GuildScheduledEvent, 14);
    lemma_resource_bit(flags, ResourceFlag::StageInstance, 11);
    lemma_resource_bit(flags, ResourceFlag::Sticker, 13);
    lemma_resource_bit(flags, ResourceFlag::User, 9);
    lemma_resource_bit(flags, ResourceFlag::VoiceState, 10);
    let bits = resource_bits_of(flags);
    assert forall|b: nat| #[trigger] bits.contains(b) implies b <= 14 && b != 4 && b != 6 && b != 12 by {
        let g = choose|g: ResourceFlag| flags.contains(g) && resource_flag_bits(g).contains(b);
    }
}

} // verus!
