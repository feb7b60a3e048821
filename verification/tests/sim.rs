use project_blaze::sim::{
    bench_heartbeat_limit, demo_heartbeat_limit, keepalive_robots, keeps_heartbeat,
    offline_wait_over, resolve_bench_config, resolve_stress_plan, specific_offline_step,
    summary_padding, total_tasks, zone_for_task, BenchConfig, TaskLedger, ConfigError, WaitStep, DEMO_OFFLINE_TARGET_ROBOT,
};

#[test]
fn tasks_cycle_through_zones() {
    assert_eq!(zone_for_task(0, 2), 1);
    assert_eq!(zone_for_task(1, 2), 2);
    assert_eq!(zone_for_task(2, 2), 1);
    assert_eq!(zone_for_task(7, 4), 4);
    assert_eq!(zone_for_task(u64::MAX, 1), 1);
}

#[test]
fn heartbeat_limits() {
    assert_eq!(bench_heartbeat_limit(true, 4, 0, 25), 12);
    assert_eq!(bench_heartbeat_limit(true, 4, 1, 25), usize::MAX);
    assert_eq!(bench_heartbeat_limit(true, 1, 0, 25), usize::MAX);
    assert_eq!(bench_heartbeat_limit(false, 4, 0, 25), usize::MAX);
    assert_eq!(demo_heartbeat_limit(1, DEMO_OFFLINE_TARGET_ROBOT), 2);
    assert_eq!(demo_heartbeat_limit(0, DEMO_OFFLINE_TARGET_ROBOT), usize::MAX);
    assert!(keeps_heartbeat(2, 2));
    assert!(!keeps_heartbeat(3, 2));
}

#[test]
fn keepalive_skips_target() {
    assert_eq!(keepalive_robots(3, 1), vec![0, 2]);
    assert_eq!(keepalive_robots(3, 5), vec![0, 1, 2]);
    assert!(keepalive_robots(0, 0).is_empty());
}

#[test]
fn totals_and_waits() {
    assert_eq!(total_tasks(3, 3), 9);
    assert!(offline_wait_over(true, 0, 1000));
    assert!(offline_wait_over(false, 1000, 1000));
    assert!(!offline_wait_over(false, 999, 1000));
    assert_eq!(specific_offline_step(true, 5000, 1000), WaitStep::Detected);
    assert_eq!(specific_offline_step(false, 1000, 1000), WaitStep::TimedOut);
    assert_eq!(specific_offline_step(false, 50, 1000), WaitStep::Poll);
}

#[test]
fn bench_config_defaults_and_errors() {
    assert_eq!(
        resolve_bench_config(None, None, None, None),
        Ok(BenchConfig { robots: 4, tasks_per_robot: 25, zones_total: 2, work_ms: 5 })
    );
    assert_eq!(
        resolve_bench_config(Some(2), Some(3), Some(1), Some(0)),
        Ok(BenchConfig { robots: 2, tasks_per_robot: 3, zones_total: 1, work_ms: 0 })
    );
    assert_eq!(resolve_bench_config(Some(0), None, None, None), Err(ConfigError::RobotsNotPositive));
    assert_eq!(resolve_bench_config(None, Some(0), None, None), Err(ConfigError::TasksNotPositive));
    assert_eq!(resolve_bench_config(None, None, Some(0), None), Err(ConfigError::ZonesNotPositive));
}

#[test]
fn stress_plan_defaults() {
    let plan = resolve_stress_plan(None, None, None, None).ok().unwrap();
    assert_eq!(plan.robot_sets, vec![1, 2, 4, 8, 12]);
    assert_eq!(plan.task_sets, vec![10, 25, 50]);
    assert_eq!(plan.zone_sets, vec![1, 2, 4]);
    assert_eq!(plan.work_ms, 5);
    assert_eq!(plan.dropped_zone_sets, 0);
}

#[test]
fn stress_plan_drops_zero_zones() {
    let plan = resolve_stress_plan(Some(vec![2]), None, Some(vec![0, 3, 0]), Some(1)).ok().unwrap();
    assert_eq!(plan.robot_sets, vec![2]);
    assert_eq!(plan.zone_sets, vec![3]);
    assert_eq!(plan.dropped_zone_sets, 2);
    assert_eq!(plan.work_ms, 1);
}

#[test]
fn stress_plan_errors() {
    assert_eq!(resolve_stress_plan(Some(vec![1, 0]), None, None, None).err(), Some(ConfigError::RobotsNotPositive));
    assert_eq!(resolve_stress_plan(None, Some(vec![0]), None, None).err(), Some(ConfigError::TasksNotPositive));
    assert_eq!(
        resolve_stress_plan(None, None, Some(vec![0, 0]), None).err(),
        Some(ConfigError::NoZoneSetsLeft { dropped: 2 })
    );
}

#[test]
fn stress_plan_without_zero_keeps_zone_list() {
    let plan = resolve_stress_plan(None, None, Some(vec![]), None).ok().unwrap();
    assert!(plan.zone_sets.is_empty());
    assert_eq!(plan.dropped_zone_sets, 0);
    let plan = resolve_stress_plan(None, None, Some(vec![4, 1]), None).ok().unwrap();
    assert_eq!(plan.zone_sets, vec![4, 1]);
    assert_eq!(plan.dropped_zone_sets, 0);
}

#[test]
fn summary_rows_fill_the_box() {
    // "robots" is padded to 16; value "3": 60 - (2 + 16 + 1).
    assert_eq!(summary_padding(6, 1), 41);
    assert_eq!(summary_padding(16, 10), 32);
    assert_eq!(summary_padding(20, 10), 28);
    assert_eq!(summary_padding(16, 42), 0);
    assert_eq!(summary_padding(16, 100), 0);
    assert_eq!(summary_padding(usize::MAX, usize::MAX), 0);
}

#[test]
fn ledger_flags_duplicates() {
    let mut ledger = TaskLedger::new();
    assert!(ledger.record(3));
    assert!(ledger.record(4));
    assert!(!ledger.record(3));
    assert_eq!(ledger.len(), 2);
}
