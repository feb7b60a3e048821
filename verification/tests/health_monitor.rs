use std::time::Duration;

use project_blaze::health_monitor::HealthMonitor;

fn nanos(d: Duration) -> u64 {
    d.as_nanos() as u64
}

// A fixed point of the monitor's clock, far enough from its start to look back from.
const NOW: u64 = 10_000_000_000;

#[test]
fn detects_offline_after_timeout() {
    let mut monitor = HealthMonitor::new();
    let robot = 7;
    let past = NOW - nanos(Duration::from_millis(50));
    monitor.set_last_seen_for_test(robot, past);
    // Timeout shorter than elapsed time should mark offline.
    let offline = monitor.detect_offline_at(nanos(Duration::from_millis(10)), NOW);
    assert!(offline.contains(&robot));
}

#[test]
fn marks_never_heartbeat_after_timeout() {
    let mut monitor = HealthMonitor::new();
    let robot = 11;
    let past = NOW - nanos(Duration::from_millis(30));
    monitor.set_last_seen_for_test(robot, past);
    let offline = monitor.detect_offline_at(nanos(Duration::from_millis(5)), NOW);
    assert!(offline.contains(&robot));
}

#[test]
fn heartbeat_clears_offline() {
    let mut monitor = HealthMonitor::new();
    let robot = 21;
    let past = NOW - nanos(Duration::from_millis(30));
    monitor.set_last_seen_for_test(robot, past);
    monitor.detect_offline_at(nanos(Duration::from_millis(5)), NOW);
    assert!(monitor.offline_robots().contains(&robot));
    // Heartbeat should clear the offline status.
    monitor.heartbeat(robot);
    assert!(!monitor.offline_robots().contains(&robot));
}

#[test]
fn deterministic_offline_without_sleep() {
    let mut monitor = HealthMonitor::new();
    let robot = 42;
    let past = NOW - nanos(Duration::from_secs(5));
    monitor.set_last_seen_for_test(robot, past);
    let offline = monitor.detect_offline_at(nanos(Duration::from_secs(1)), NOW);
    assert!(offline.contains(&robot));
}

#[test]
fn robot_within_timeout_stays_online() {
    let mut monitor = HealthMonitor::new();
    monitor.heartbeat_at(3, NOW);
    let offline = monitor.detect_offline_at(nanos(Duration::from_millis(10)), NOW + nanos(Duration::from_millis(10)));
    assert!(offline.is_empty());
    assert!(!monitor.detect_offline_any_at(nanos(Duration::from_millis(10)), NOW + nanos(Duration::from_millis(10))));
    // One nanosecond more than the timeout marks it.
    assert!(monitor.detect_offline_any_at(nanos(Duration::from_millis(10)), NOW + nanos(Duration::from_millis(10)) + 1));
    assert!(monitor.offline_robots().contains(&3));
}

#[test]
fn last_seen_after_now_is_not_overdue() {
    let mut monitor = HealthMonitor::new();
    monitor.set_last_seen_for_test(5, NOW + 1_000);
    let offline = monitor.detect_offline_at(0, NOW);
    assert!(!offline.contains(&5));
}

#[test]
fn register_is_idempotent() {
    let mut monitor = HealthMonitor::new();
    monitor.register_robot_at(1, 100);
    monitor.register_robot_at(1, 500);
    assert_eq!(monitor.last_seen(1), Some(100));
    assert_eq!(monitor.last_seen(2), None);
    monitor.heartbeat_at(1, 900);
    assert_eq!(monitor.last_seen(1), Some(900));
}

#[test]
fn offline_mark_persists_until_heartbeat() {
    let mut monitor = HealthMonitor::new();
    monitor.register_robot_at(8, 0);
    monitor.register_robot_at(9, 0);
    let offline = monitor.detect_offline_at(10, 100);
    assert_eq!(offline.len(), 2);
    // A later heartbeat of robot 9 only clears robot 9.
    monitor.heartbeat_at(9, 200);
    let offline = monitor.detect_offline_at(1_000, 300);
    assert!(offline.contains(&8));
    assert!(!offline.contains(&9));
    monitor.register_robot_at(8, 300);
    assert!(monitor.offline_robots().contains(&8));
}

#[test]
fn detect_with_real_clock_marks_silent_robot() {
    let mut monitor = HealthMonitor::new();
    monitor.register_robot(4);
    let start = monitor.now();
    // Let the clock run past the timeout.
    while monitor.now() < start + nanos(Duration::from_millis(20)) {}
    let offline = monitor.detect_offline(nanos(Duration::from_millis(5)));
    assert!(offline.contains(&4));
    assert!(monitor.detect_offline_any(nanos(Duration::from_millis(5))));
}

#[test]
fn detect_with_real_clock_keeps_fresh_robot() {
    let mut monitor = HealthMonitor::new();
    monitor.heartbeat(4);
    assert!(!monitor.detect_offline_any(nanos(Duration::from_secs(60))));
    assert!(monitor.detect_offline(nanos(Duration::from_secs(60))).is_empty());
}

#[test]
fn clock_readings_never_go_back() {
    let mut monitor = HealthMonitor::new();
    let first = monitor.now();
    let second = monitor.now();
    assert!(second >= first);
    monitor.heartbeat(6);
    let seen = monitor.last_seen(6).unwrap();
    assert!(seen >= second);
    monitor.register_robot(7);
    assert!(monitor.last_seen(7).unwrap() >= seen);
    assert!(monitor.now() >= seen);
}

#[test]
fn advancing_the_clock_caps_and_never_goes_back() {
    let mut monitor = HealthMonitor::new();
    assert_eq!(monitor.advance_clock(500), 500);
    assert_eq!(monitor.advance_clock(200), 500);
    assert_eq!(monitor.advance_clock(900), 900);
    assert_eq!(monitor.advance_clock(u128::MAX), u64::MAX);
    assert_eq!(monitor.advance_clock(0), u64::MAX);
}
