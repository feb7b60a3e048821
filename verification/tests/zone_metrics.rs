use project_blaze::zone_metrics::{init_zone_counters, ZoneMetrics};

#[test]
fn counters_start_at_zero() {
    assert_eq!(init_zone_counters(2), vec![0, 0, 0]);
    let metrics = ZoneMetrics::new(2);
    assert_eq!(metrics.occupancy(), 0);
    assert_eq!(metrics.max_occupancy(), 0);
    assert!(!metrics.has_violation());
}

#[test]
fn exclusive_use_has_no_violation() {
    let mut metrics = ZoneMetrics::new(2);
    metrics.enter(1, 2);
    metrics.enter(2, 2);
    assert_eq!(metrics.occupancy(), 2);
    assert_eq!(metrics.max_occupancy(), 2);
    metrics.pre_release(1, 2);
    metrics.pre_release(2, 2);
    assert_eq!(metrics.occupancy(), 0);
    assert_eq!(metrics.max_occupancy(), 2);
    assert!(!metrics.has_violation());
}

#[test]
fn shared_zone_is_a_violation() {
    let mut metrics = ZoneMetrics::new(2);
    metrics.enter(1, 2);
    metrics.enter(1, 2);
    assert!(metrics.has_violation());
    // The flag stays set after the robots leave.
    metrics.pre_release(1, 2);
    metrics.pre_release(1, 2);
    assert!(metrics.has_violation());
}

#[test]
fn more_robots_than_zones_is_a_violation() {
    let mut metrics = ZoneMetrics::new(1);
    metrics.enter(1, 1);
    metrics.pre_release(1, 1);
    metrics.enter(1, 1);
    assert!(!metrics.has_violation());
    metrics.enter(0, 1);
    assert!(metrics.has_violation());
}

#[test]
fn revert_undoes_pre_release() {
    let mut metrics = ZoneMetrics::new(2);
    metrics.enter(2, 2);
    metrics.pre_release(2, 2);
    metrics.revert_pre_release(2, 2);
    assert_eq!(metrics.occupancy(), 1);
    metrics.pre_release(2, 2);
    assert_eq!(metrics.occupancy(), 0);
    assert!(!metrics.has_violation());
}
