use gateway_proxy::startup::{activity_name, shard_plan, ShardPlan};

#[test]
fn plan_defaults_to_recommendation() {
    assert_eq!(shard_plan(None, 16, None, None), ShardPlan { count: 16, start: 0, end: 16 });
    assert_eq!(shard_plan(Some(8), 16, Some(2), None), ShardPlan { count: 8, start: 2, end: 8 });
    assert_eq!(shard_plan(None, 16, Some(4), Some(6)), ShardPlan { count: 16, start: 4, end: 6 });
}

#[test]
fn activity_names_its_shard() {
    assert_eq!(activity_name("on shard {{shard}} with kubernetes", 3), "on shard 3 with kubernetes");
    assert_eq!(activity_name("{{shard}}/{{shard}}", 12), "12/12");
    assert_eq!(activity_name("{{{shard}}}", 1), "{1}");
    assert_eq!(activity_name("no placeholder", 1), "no placeholder");
    assert_eq!(activity_name("ä {{shard}}", 0), "ä 0");
}
