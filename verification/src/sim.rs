//! Decisions of the demo, benchmark and stress runners: run parameters and
//! their defaults, which zone a task needs, which robots keep sending
//! heartbeats, and when waiting for offline detection ends. The runners
//! themselves spawn threads, sleep and print, and stay with the program.
use vstd::prelude::*;
use std::collections::HashSet;
use crate::task::{RobotId, TaskId, ZoneId};

verus! {

broadcast use vstd::std_specs::hash::group_hash_axioms;

/// Offline timeout of the demo, in milliseconds.
pub const DEMO_OFFLINE_TIMEOUT_MS: u64 = 200;
/// Longest wait of the demo for its offline robot, in milliseconds.
pub const DEMO_OFFLINE_MAX_WAIT_MS: u64 = 1000;
/// The robot that stops sending heartbeats in the demo.
pub const DEMO_OFFLINE_TARGET_ROBOT: u64 = 1;
/// Robots in the demo.
pub const DEMO_ROBOTS: usize = 3;
/// Tasks per robot in the demo.
pub const DEMO_TASKS_PER_ROBOT: usize = 3;
/// Zones in the demo.
pub const DEMO_ZONES: usize = 2;
/// Heartbeats a demo robot sends before its target stops.
pub const DEMO_HEARTBEATS_BEFORE_SILENCE: usize = 2;
/// Offline timeout of a benchmark, in milliseconds.
pub const BENCH_OFFLINE_TIMEOUT_MS: u64 = 500;
/// Longest wait of a benchmark for an offline robot, in milliseconds.
pub const BENCH_OFFLINE_MAX_WAIT_MS: u64 = 1000;
/// Interval between offline checks while waiting, in milliseconds.
pub const OFFLINE_POLL_MS: u64 = 50;
/// Default number of robots of a benchmark.
pub const DEFAULT_BENCH_ROBOTS: usize = 4;
/// Default number of tasks per robot of a benchmark.
pub const DEFAULT_BENCH_TASKS_PER_ROBOT: usize = 25;
/// Default number of zones of a benchmark.
pub const DEFAULT_BENCH_ZONES: u64 = 2;
/// Default simulated work per task, in milliseconds.
pub const DEFAULT_WORK_MS: u64 = 5;

/// The zone that task `task_id` is carried out in: zones `1..=zones_total` in turn.
pub fn zone_for_task(task_id: TaskId, zones_total: u64) -> (zone: ZoneId)
    requires
        zones_total > 0,
    ensures
        zone == task_id % zones_total + 1,
        1 <= zone <= zones_total,
{
    task_id % zones_total + 1
}

/// After how many completed tasks robot `robot_id` of a benchmark stops
/// sending heartbeats: robot 0 stops halfway when offline simulation is on
/// and there is more than one robot; the others never stop.
pub fn bench_heartbeat_limit(simulate_offline: bool, robots: usize, robot_id: usize, tasks_per_robot: usize) -> (limit: usize)
    ensures
        limit == (if simulate_offline && robots > 1 && robot_id == 0 { tasks_per_robot / 2 } else { usize::MAX }),
{
    if simulate_offline && robots > 1 && robot_id == 0 {
        tasks_per_robot / 2
    } else {
        usize::MAX
    }
}

/// After how many completed tasks robot `robot_id` of the demo stops sending
/// heartbeats: the offline target after two, the others never.
pub fn demo_heartbeat_limit(robot_id: RobotId, offline_target: RobotId) -> (limit: usize)
    ensures
        limit == (if robot_id == offline_target { DEMO_HEARTBEATS_BEFORE_SILENCE } else { usize::MAX }),
{
    if robot_id == offline_target {
        DEMO_HEARTBEATS_BEFORE_SILENCE
    } else {
        usize::MAX
    }
}

/// Whether a robot that has completed `completed` tasks still sends a heartbeat.
pub fn keeps_heartbeat(completed: usize, limit: usize) -> (b: bool)
    ensures
        b == (completed <= limit),
{
    completed <= limit
}

/// Robots `0..robots` other than `target`, in order: those the demo keeps alive.
pub fn keepalive_robots(robots: u64, target: RobotId) -> (v: Vec<RobotId>)
    ensures
        v@ == Seq::new(robots as nat, |i: int| i as u64).filter(|r: u64| r != target),
{
    let ghost all = Seq::new(robots as nat, |i: int| i as u64);
    let mut v: Vec<RobotId> = Vec::new();
    let mut r: u64 = 0;
    while r < robots
        invariant
            r <= robots,
            all == Seq::new(robots as nat, |i: int| i as u64),
            v@ == all.take(r as int).filter(|x: u64| x != target),
        decreases robots - r,
    {
        proof {
            assert(all.take(r + 1) =~= all.take(r as int).push(r));
            all.take(r as int).lemma_filter_push(r, |x: u64| x != target);
        }
        if r != target {
            v.push(r);
        }
        r = r + 1;
    }
    assert(all.take(r as int) =~= all);
    v
}

/// Number of tasks of a run: `robots` robots with `tasks_per_robot` each.
pub fn total_tasks(robots: usize, tasks_per_robot: usize) -> (n: usize)
    requires
        robots * tasks_per_robot <= usize::MAX,
    ensures
        n == robots * tasks_per_robot,
{
    robots * tasks_per_robot
}

/// Whether the wait for any offline robot ends: one is offline, or the
/// longest wait has passed.
pub fn offline_wait_over(any_offline: bool, elapsed_ms: u64, max_wait_ms: u64) -> (over: bool)
    ensures
        over == (any_offline || elapsed_ms >= max_wait_ms),
{
    any_offline || elapsed_ms >= max_wait_ms
}

/// What one poll of the wait for a specific robot decides.
#[derive(PartialEq, Eq, Structural, Debug, Clone, Copy)]
pub enum WaitStep {
    /// The robot is offline: the wait succeeds.
    Detected,
    /// The longest wait has passed: the wait fails.
    TimedOut,
    /// Sleep one poll interval, keep the others alive, and check again.
    Poll,
}

/// One poll of the wait for a specific robot to be marked offline: detection
/// wins over the deadline.
pub fn specific_offline_step(target_offline: bool, elapsed_ms: u64, max_wait_ms: u64) -> (step: WaitStep)
    ensures
        step == (if target_offline {
            WaitStep::Detected
        } else if elapsed_ms >= max_wait_ms {
            WaitStep::TimedOut
        } else {
            WaitStep::Poll
        }),
{
    if target_offline {
        WaitStep::Detected
    } else if elapsed_ms >= max_wait_ms {
        WaitStep::TimedOut
    } else {
        WaitStep::Poll
    }
}

/// Width of the demo summary box between its borders.
pub const SUMMARY_WIDTH: usize = 60;
/// Width of the label column of the demo summary.
pub const SUMMARY_LABEL_WIDTH: usize = 16;

/// Spaces that close a summary row whose label has `label_chars` characters
/// and whose value has `value_chars`: the row is indented by two, the label
/// padded to its column, and the rest filled up to the box width (none when
/// the row is already wider).
pub open spec fn summary_padding_spec(label_chars: nat, value_chars: nat) -> nat {
    let label = if label_chars > SUMMARY_LABEL_WIDTH { label_chars } else { SUMMARY_LABEL_WIDTH as nat };
    let used = 2 + label + value_chars;
    if used < SUMMARY_WIDTH {
        (SUMMARY_WIDTH - used) as nat
    } else {
        0
    }
}

/// Spaces that close a row of the demo summary.
pub fn summary_padding(label_chars: usize, value_chars: usize) -> (n: usize)
    ensures
        n == summary_padding_spec(label_chars as nat, value_chars as nat),
{
    let label = if label_chars > SUMMARY_LABEL_WIDTH { label_chars } else { SUMMARY_LABEL_WIDTH };
    if label >= SUMMARY_WIDTH || value_chars >= SUMMARY_WIDTH - label || 2 >= SUMMARY_WIDTH - label - value_chars {
        0
    } else {
        SUMMARY_WIDTH - label - value_chars - 2
    }
}

/// The task ids seen so far in a validated run.
pub struct TaskLedger {
    seen: HashSet<TaskId>,
}

impl View for TaskLedger {
    type V = Set<TaskId>;

    closed spec fn view(&self) -> Set<TaskId> {
        self.seen@
    }
}

impl TaskLedger {
    /// A ledger with no task seen.
    pub fn new() -> (l: TaskLedger)
        ensures
            l@ == Set::<TaskId>::empty(),
    {
        TaskLedger { seen: HashSet::new() }
    }

    /// Note that task `id` was handed out; returns false if it had been
    /// handed out before, which is a duplicate.
    pub fn record(&mut self, id: TaskId) -> (first: bool)
        ensures
            first == !old(self)@.contains(id),
            final(self)@ == old(self)@.insert(id),
    {
        self.seen.insert(id)
    }

    /// Number of distinct tasks seen.
    pub fn len(&self) -> (n: usize)
        ensures
            n == self@.len(),
    {
        self.seen.len()
    }
}

/// Why run parameters were refused.
#[derive(PartialEq, Eq, Structural, Debug, Clone, Copy)]
pub enum ConfigError {
    /// The number of robots, or one of the robot counts, is zero.
    RobotsNotPositive,
    /// The number of tasks per robot, or one of those counts, is zero.
    TasksNotPositive,
    /// The number of zones is zero.
    ZonesNotPositive,
    /// Every zone count of a sweep is zero; `dropped` of them were dropped.
    NoZoneSetsLeft { dropped: usize },
}

/// Parameters of one benchmark run.
#[derive(PartialEq, Eq, Structural, Debug, Clone, Copy)]
pub struct BenchConfig {
    pub robots: usize,
    pub tasks_per_robot: usize,
    pub zones_total: u64,
    pub work_ms: u64,
}

/// The parameters of a benchmark run, defaults filled in, or why they are refused.
pub open spec fn bench_config_spec(
    robots: Option<usize>,
    tasks_per_robot: Option<usize>,
    zones_total: Option<u64>,
    work_ms: Option<u64>,
) -> Result<BenchConfig, ConfigError> {
    let robots = robots.unwrap_or(DEFAULT_BENCH_ROBOTS);
    let tasks_per_robot = tasks_per_robot.unwrap_or(DEFAULT_BENCH_TASKS_PER_ROBOT);
    let zones_total = zones_total.unwrap_or(DEFAULT_BENCH_ZONES);
    let work_ms = work_ms.unwrap_or(DEFAULT_WORK_MS);
    if robots == 0 {
        Err(ConfigError::RobotsNotPositive)
    } else if tasks_per_robot == 0 {
        Err(ConfigError::TasksNotPositive)
    } else if zones_total == 0 {
        Err(ConfigError::ZonesNotPositive)
    } else {
        Ok(BenchConfig { robots, tasks_per_robot, zones_total, work_ms })
    }
}

/// Fill in the defaults of a benchmark run (4 robots, 25 tasks each, 2 zones,
/// 5 ms of work) and refuse a zero count.
pub fn resolve_bench_config(
    robots: Option<usize>,
    tasks_per_robot: Option<usize>,
    zones_total: Option<u64>,
    work_ms: Option<u64>,
) -> (r: Result<BenchConfig, ConfigError>)
    ensures
        r == bench_config_spec(robots, tasks_per_robot, zones_total, work_ms),
{
    let robots = robots.unwrap_or(DEFAULT_BENCH_ROBOTS);
    let tasks_per_robot = tasks_per_robot.unwrap_or(DEFAULT_BENCH_TASKS_PER_ROBOT);
    let zones_total = zones_total.unwrap_or(DEFAULT_BENCH_ZONES);
    let work_ms = work_ms.unwrap_or(DEFAULT_WORK_MS);
    if robots == 0 {
        Err(ConfigError::RobotsNotPositive)
    } else if tasks_per_robot == 0 {
        Err(ConfigError::TasksNotPositive)
    } else if zones_total == 0 {
        Err(ConfigError::ZonesNotPositive)
    } else {
        Ok(BenchConfig { robots, tasks_per_robot, zones_total, work_ms })
    }
}

/// Parameters of a stress sweep: every combination of the three lists.
#[derive(Debug)]
pub struct StressPlan {
    pub robot_sets: Vec<usize>,
    pub task_sets: Vec<usize>,
    pub zone_sets: Vec<u64>,
    pub work_ms: u64,
    /// How many zero zone counts were dropped.
    pub dropped_zone_sets: usize,
}

/// Default robot counts of a stress sweep.
pub open spec fn default_robot_sets() -> Seq<usize> {
    seq![1usize, 2, 4, 8, 12]
}

/// Default task counts of a stress sweep.
pub open spec fn default_task_sets() -> Seq<usize> {
    seq![10usize, 25, 50]
}

/// Default zone counts of a stress sweep.
pub open spec fn default_zone_sets() -> Seq<u64> {
    seq![1u64, 2, 4]
}

/// Whether some zone count is zero.
pub open spec fn contains_zero_zone(v: Seq<u64>) -> bool {
    exists|i: int| 0 <= i < v.len() && v[i] == 0
}

/// Whether some entry of `v` is zero.
pub open spec fn contains_zero_usize(v: Seq<usize>) -> bool {
    exists|i: int| 0 <= i < v.len() && v[i] == 0
}

/// The nonzero entries of `v`, in order.
pub open spec fn nonzero_zones(v: Seq<u64>) -> Seq<u64> {
    v.filter(|z: u64| z > 0)
}

/// The robot, task and zone lists of a stress sweep and the number of zero
/// zone counts dropped, defaults filled in, or why the lists are refused.
/// Zone counts are filtered only when one of them is zero; a sweep is refused
/// when that leaves none.
pub open spec fn stress_plan_spec(
    robot_sets: Option<Seq<usize>>,
    task_sets: Option<Seq<usize>>,
    zone_sets: Option<Seq<u64>>,
) -> Result<(Seq<usize>, Seq<usize>, Seq<u64>, nat), ConfigError> {
    let robots = robot_sets.unwrap_or(default_robot_sets());
    let tasks = task_sets.unwrap_or(default_task_sets());
    let zones = zone_sets.unwrap_or(default_zone_sets());
    if contains_zero_usize(robots) {
        Err(ConfigError::RobotsNotPositive)
    } else if contains_zero_usize(tasks) {
        Err(ConfigError::TasksNotPositive)
    } else if contains_zero_zone(zones) {
        let kept = nonzero_zones(zones);
        if kept.len() == 0 {
            Err(ConfigError::NoZoneSetsLeft { dropped: zones.len() as usize })
        } else {
            Ok((robots, tasks, kept, (zones.len() - kept.len()) as nat))
        }
    } else {
        Ok((robots, tasks, zones, 0))
    }
}

/// Whether a list of zone counts holds a zero.
fn has_zero_zone(v: &Vec<u64>) -> (b: bool)
    ensures
        b == contains_zero_zone(v@),
{
    let mut i: usize = 0;
    while i < v.len()
        invariant
            i <= v@.len(),
            forall|k: int| 0 <= k < i ==> v@[k] != 0,
        decreases v@.len() - i,
    {
        if v[i] == 0 {
            return true;
        }
        i = i + 1;
    }
    false
}

/// Whether a list of `usize` holds a zero.
fn has_zero_entry(v: &Vec<usize>) -> (b: bool)
    ensures
        b == contains_zero_usize(v@),
{
    let mut i: usize = 0;
    while i < v.len()
        invariant
            i <= v@.len(),
            forall|k: int| 0 <= k < i ==> v@[k] != 0,
        decreases v@.len() - i,
    {
        if v[i] == 0 {
            return true;
        }
        i = i + 1;
    }
    false
}

/// The nonzero entries of `zones`, in order.
fn drop_zero_zones(zones: &Vec<u64>) -> (kept: Vec<u64>)
    ensures
        kept@ == nonzero_zones(zones@),
        kept@.len() <= zones@.len(),
{
    let mut kept: Vec<u64> = Vec::new();
    let mut i: usize = 0;
    while i < zones.len()
        invariant
            i <= zones@.len(),
            kept@ == nonzero_zones(zones@.take(i as int)),
            kept@.len() <= i,
        decreases zones@.len() - i,
    {
        proof {
            assert(zones@.take(i + 1) =~= zones@.take(i as int).push(zones@[i as int]));
            zones@.take(i as int).lemma_filter_push(zones@[i as int], |z: u64| z > 0);
        }
        if zones[i] > 0 {
            kept.push(zones[i]);
        }
        i = i + 1;
    }
    assert(zones@.take(i as int) =~= zones@);
    kept
}

/// Fill in the defaults of a stress sweep (robots 1,2,4,8,12; tasks 10,25,50;
/// zones 1,2,4; 5 ms of work), refuse a zero robot or task count, and drop
/// zero zone counts, refusing the sweep if none is left; the refusal and the
/// plan both tell how many zone counts were dropped.
pub fn resolve_stress_plan(
    robot_sets: Option<Vec<usize>>,
    task_sets: Option<Vec<usize>>,
    zone_sets: Option<Vec<u64>>,
    work_ms: Option<u64>,
) -> (r: Result<StressPlan, ConfigError>)
    ensures
        match stress_plan_spec(
            match robot_sets { Some(v) => Some(v@), None => None },
            match task_sets { Some(v) => Some(v@), None => None },
            match zone_sets { Some(v) => Some(v@), None => None },
        ) {
            Ok((robots, tasks, zones, dropped)) => r matches Ok(p) && p.robot_sets@ == robots
                && p.task_sets@ == tasks && p.zone_sets@ == zones && p.work_ms == work_ms.unwrap_or(
                DEFAULT_WORK_MS,
            ) && p.dropped_zone_sets == dropped,
            Err(e) => r matches Err(f) && f == e,
        },
{
    let work_ms = work_ms.unwrap_or(DEFAULT_WORK_MS);
    let robot_sets = match robot_sets {
        Some(v) => v,
        None => vec![1usize, 2, 4, 8, 12],
    };
    let task_sets = match task_sets {
        Some(v) => v,
        None => vec![10usize, 25, 50],
    };
    let zone_sets = match zone_sets {
        Some(v) => v,
        None => vec![1u64, 2, 4],
    };
    if has_zero_entry(&robot_sets) {
        return Err(ConfigError::RobotsNotPositive);
    }
    if has_zero_entry(&task_sets) {
        return Err(ConfigError::TasksNotPositive);
    }
    if has_zero_zone(&zone_sets) {
        let kept = drop_zero_zones(&zone_sets);
        if kept.len() == 0 {
            return Err(ConfigError::NoZoneSetsLeft { dropped: zone_sets.len() });
        }
        let dropped = zone_sets.len() - kept.len();
        Ok(StressPlan { robot_sets, task_sets, zone_sets: kept, work_ms, dropped_zone_sets: dropped })
    } else {
        Ok(StressPlan { robot_sets, task_sets, zone_sets, work_ms, dropped_zone_sets: 0 })
    }
}

} // verus!
