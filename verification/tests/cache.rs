use gateway_proxy::cache::{
    guild_payloads_plan, members_to_send, ready_plan, split_threads, GuildPayloadKind,
    GuildEvent, UnavailableGuilds,
};
use gateway_proxy::config::Cache;

#[test]
fn ready_lists_guilds() {
    let guilds = vec![(1, None), (2, Some(true)), (3, Some(false))];
    let (ids, seq) = ready_plan(&guilds, &vec![9, 8], 0);
    assert_eq!(ids, vec![1, 3, 9, 8]);
    assert_eq!(seq, 1);
}

#[test]
fn guild_payloads_are_numbered() {
    let (plan, seq) = guild_payloads_plan(&vec![None, Some(true), Some(false)], 1);
    assert_eq!(
        plan,
        vec![
            (GuildPayloadKind::GuildCreate, 2),
            (GuildPayloadKind::GuildDelete, 3),
            (GuildPayloadKind::GuildCreate, 4),
        ]
    );
    assert_eq!(seq, 4);
}

#[test]
fn threads_apart() {
    let (channels, threads) = split_threads(&vec![false, true, false, true]);
    assert_eq!(channels, vec![0, 2]);
    assert_eq!(threads, vec![1, 3]);
}

#[test]
fn members_sent_follow_the_configuration() {
    let ids = vec![10u64, 20, 30];
    let only_me = Cache { members: false, current_member: true, ..Cache::default() };
    assert_eq!(members_to_send(only_me, &ids, Some(20)), vec![20]);
    assert_eq!(members_to_send(only_me, &ids, None), Vec::<u64>::new());
    let all = Cache { members: true, current_member: false, ..Cache::default() };
    assert_eq!(members_to_send(all, &ids, Some(20)), ids);
    let none = Cache { members: false, current_member: false, ..Cache::default() };
    assert_eq!(members_to_send(none, &ids, Some(20)), Vec::<u64>::new());
}

#[test]
fn unavailable_guilds_are_followed() {
    let mut guilds = UnavailableGuilds::new();
    guilds.mark_unavailable(1);
    guilds.mark_unavailable(2);
    guilds.mark_unavailable(1);
    assert_eq!(guilds.ids(), vec![1, 2]);
    guilds.mark_available(1);
    guilds.mark_available(3);
    assert_eq!(guilds.ids(), vec![2]);
}

#[test]
fn guild_events_move_unavailable_guilds() {
    let mut guilds = UnavailableGuilds::new();
    guilds.apply(&GuildEvent::Ready { guilds: vec![1, 2, 3] });
    assert_eq!(guilds.ids(), vec![1, 2, 3]);
    guilds.apply(&GuildEvent::Available(2));
    guilds.apply(&GuildEvent::Other);
    guilds.apply(&GuildEvent::Unavailable(9));
    assert_eq!(guilds.ids(), vec![1, 3, 9]);
}
