//! Heartbeat tracking and offline detection for robots.
//!
//! Time is a `u64` count of nanoseconds on the monitor's own monotonic clock,
//! which starts when the monitor is created. The monitor keeps its latest
//! reading and never reports a smaller one; every operation without `_at`
//! takes one new reading through `now` and uses it. Every operation that reads the
//! clock has a twin ending in `_at` that takes the reading as an argument;
//! the contracts are stated there, for every possible reading.
use vstd::prelude::*;
use std::collections::{HashMap, HashSet};
use std::time::{Duration, Instant};
use crate::task::RobotId;

verus! {

broadcast use vstd::std_specs::hash::group_hash_axioms;

/// A point in time of the operating system's monotonic clock.
#[verifier::external_type_specification]
#[verifier::external_body]
pub struct ExInstant(Instant);

/// Reads the monotonic clock through `std::time::Instant::now`.
/// Nothing is claimed of the reading.
#[verifier::external_body]
fn instant_now() -> Instant {
    Instant::now()
}

/// Calls `std::time::Instant::elapsed`: the time since `origin`, which
/// depends on when it is called, so nothing is claimed of it.
#[verifier::external_body]
fn instant_elapsed(origin: &Instant) -> Duration {
    origin.elapsed()
}

/// Calls `std::time::Duration::as_nanos`. A `Duration` is opaque here, so
/// the contract cannot tie the count to it; nothing is claimed of the result.
#[verifier::external_body]
fn duration_as_nanos(d: &Duration) -> u128 {
    d.as_nanos()
}

/// A count of nanoseconds as a `u64`, capped at the largest `u64`.
pub open spec fn capped_nanos(nanos: u128) -> u64 {
    if nanos > u64::MAX {
        u64::MAX
    } else {
        nanos as u64
    }
}

/// The reading that `nanos` gives after the latest reading `latest`: the
/// capped count, or `latest` if that is larger.
pub open spec fn advance_spec(latest: u64, nanos: u128) -> u64 {
    if capped_nanos(nanos) > latest {
        capped_nanos(nanos)
    } else {
        latest
    }
}

/// Abstract state of a health monitor.
pub ghost struct MonitorState {
    /// Last heartbeat (or registration) time of each tracked robot.
    pub last_seen: Map<RobotId, u64>,
    /// Robots currently marked offline.
    pub offline: Set<RobotId>,
}

/// Time from `last` to `now`, zero when `last` lies after `now`.
pub open spec fn elapsed_since(now: u64, last: u64) -> nat {
    if now >= last {
        (now - last) as nat
    } else {
        0
    }
}

/// Whether `robot` is tracked and has been silent for longer than `timeout` at `now`.
pub open spec fn is_overdue(last_seen: Map<RobotId, u64>, robot: RobotId, now: u64, timeout: u64) -> bool {
    last_seen.contains_key(robot) && elapsed_since(now, last_seen[robot]) > timeout
}

/// The tracked robots that are overdue at `now`.
pub open spec fn overdue_robots(last_seen: Map<RobotId, u64>, now: u64, timeout: u64) -> Set<RobotId> {
    Set::new(|robot: RobotId| is_overdue(last_seen, robot, now, timeout))
}

/// State after registering `robot` at `now`: unchanged if already tracked.
pub open spec fn register_spec(s: MonitorState, robot: RobotId, now: u64) -> MonitorState {
    if s.last_seen.contains_key(robot) {
        s
    } else {
        MonitorState { last_seen: s.last_seen.insert(robot, now), ..s }
    }
}

/// State after a heartbeat of `robot` at `now`: last seen now, not offline.
pub open spec fn heartbeat_spec(s: MonitorState, robot: RobotId, now: u64) -> MonitorState {
    MonitorState { last_seen: s.last_seen.insert(robot, now), offline: s.offline.remove(robot) }
}

/// State after offline detection at `now`: overdue robots join the offline set.
pub open spec fn detect_spec(s: MonitorState, now: u64, timeout: u64) -> MonitorState {
    MonitorState { offline: s.offline.union(overdue_robots(s.last_seen, now, timeout)), ..s }
}

/// Tracks robot heartbeats and reports robots silent for longer than a timeout.
pub struct HealthMonitor {
    heartbeats: HashMap<RobotId, u64>,
    offline: HashSet<RobotId>,
    origin: Instant,
    latest: u64,
    reads: Ghost<nat>,
}

impl HealthMonitor {
    /// The latest reading of the monitor's clock; 0 before the first.
    pub closed spec fn latest_reading(&self) -> u64 {
        self.latest
    }

    /// How many times the monitor has read its clock.
    pub closed spec fn clock_reads(&self) -> nat {
        self.reads@
    }
}

impl View for HealthMonitor {
    type V = MonitorState;

    closed spec fn view(&self) -> MonitorState {
        MonitorState { last_seen: self.heartbeats@, offline: self.offline@ }
    }
}

/// A copy of a set of robot ids.
fn copy_robot_set(s: &HashSet<RobotId>) -> (r: HashSet<RobotId>)
    ensures
        r@ == s@,
{
    let mut r: HashSet<RobotId> = HashSet::new();
    for robot in it: s.iter()
        invariant
            it.seq().unref().to_set() == s@,
            forall|j: int| 0 <= j < it.index() ==> r@.contains(*it.seq()[j]),
            forall|x: RobotId| r@.contains(x) ==> s@.contains(x),
        ensures
            r@ == s@,
    {
        assert(it.seq().unref()[it.index()] == *robot);
        assert(it.seq().unref().to_set().contains(*robot));
        r.insert(*robot);
    }
    r
}

impl HealthMonitor {
    /// Create an empty health monitor whose clock starts now.
    pub fn new() -> (m: HealthMonitor)
        ensures
            m@.last_seen == Map::<RobotId, u64>::empty(),
            m@.offline == Set::<RobotId>::empty(),
            m.latest_reading() == 0,
            m.clock_reads() == 0,
    {
        HealthMonitor {
            heartbeats: HashMap::new(),
            offline: HashSet::new(),
            origin: instant_now(),
            latest: 0,
            reads: Ghost(0),
        }
    }

    /// Take a clock reading of `nanos` nanoseconds since the monitor was
    /// created: capped at the largest `u64`, and never below the latest
    /// reading, which it becomes.
    pub fn advance_clock(&mut self, nanos: u128) -> (t: u64)
        ensures
            t == advance_spec(old(self).latest_reading(), nanos),
            final(self).latest_reading() == t,
            final(self).clock_reads() == old(self).clock_reads(),
            final(self)@ == old(self)@,
    {
        let reading = if nanos > 0xffff_ffff_ffff_ffffu128 {
            0xffff_ffff_ffff_ffffu64
        } else {
            nanos as u64
        };
        if reading > self.latest {
            self.latest = reading;
        }
        self.latest
    }

    /// Current reading of the monitor's clock, in nanoseconds since it was
    /// created (the largest `u64` once that no longer fits), never below an
    /// earlier reading; it becomes the latest reading.
    pub fn now(&mut self) -> (t: u64)
        ensures
            exists|nanos: u128| t == advance_spec(old(self).latest_reading(), nanos),
            t >= old(self).latest_reading(),
            final(self).latest_reading() == t,
            final(self).clock_reads() == old(self).clock_reads() + 1,
            final(self)@ == old(self)@,
    {
        let elapsed = instant_elapsed(&self.origin);
        let nanos = duration_as_nanos(&elapsed);
        let t = self.advance_clock(nanos);
        self.reads = Ghost(self.reads@ + 1);
        t
    }

    /// Ensure a robot is tracked, as seen at `now`; no-op if already registered.
    pub fn register_robot_at(&mut self, robot: RobotId, now: u64)
        ensures
            final(self)@ == register_spec(old(self)@, robot, now),
            final(self).latest_reading() == old(self).latest_reading(),
            final(self).clock_reads() == old(self).clock_reads(),
    {
        if !self.heartbeats.contains_key(&robot) {
            self.heartbeats.insert(robot, now);
        }
    }

    /// Ensure a robot is tracked, as seen now; no-op if already registered.
    pub fn register_robot(&mut self, robot: RobotId)
        ensures
            exists|now: u64|
                now >= old(self).latest_reading() && final(self).latest_reading() == now
                    && final(self).clock_reads() == old(self).clock_reads() + 1
                    && final(self)@ == register_spec(old(self)@, robot, now),
    {
        let now = self.now();
        self.register_robot_at(robot, now);
    }

    /// Record a heartbeat of `robot` at `now`; clears any offline mark.
    pub fn heartbeat_at(&mut self, robot: RobotId, now: u64)
        ensures
            final(self)@ == heartbeat_spec(old(self)@, robot, now),
            final(self).latest_reading() == old(self).latest_reading(),
            final(self).clock_reads() == old(self).clock_reads(),
    {
        self.heartbeats.insert(robot, now);
        self.offline.remove(&robot);
    }

    /// Record a heartbeat of `robot` now; clears any offline mark.
    pub fn heartbeat(&mut self, robot: RobotId)
        ensures
            exists|now: u64|
                now >= old(self).latest_reading() && final(self).latest_reading() == now
                    && final(self).clock_reads() == old(self).clock_reads() + 1
                    && final(self)@ == heartbeat_spec(old(self)@, robot, now),
    {
        let now = self.now();
        self.heartbeat_at(robot, now);
    }

    /// The tracked robots overdue at `now`, in no particular order.
    fn overdue_at(&self, timeout: u64, now: u64) -> (v: Vec<RobotId>)
        ensures
            v@.to_set() == overdue_robots(self@.last_seen, now, timeout),
    {
        let ghost m = self.heartbeats@;
        let mut overdue: Vec<RobotId> = Vec::new();
        for (robot, last) in it: self.heartbeats.iter()
            invariant
                m == self.heartbeats@,
                forall|i: int| 0 <= i < it.seq().len() ==> m.contains_key(*it.seq()[i].0) && m[*it.seq()[i].0] == *it.seq()[i].1,
                forall|k: RobotId| m.contains_key(k) ==> it.seq().contains((&k, &m[k])),
                forall|j: int| 0 <= j < it.index() && is_overdue(m, *it.seq()[j].0, now, timeout) ==> overdue@.contains(*it.seq()[j].0),
                forall|x: RobotId| overdue@.contains(x) ==> is_overdue(m, x, now, timeout),
            ensures
                forall|x: RobotId| overdue@.contains(x) <==> is_overdue(m, x, now, timeout),
        {
            assert(*it.seq()[it.index()].0 == *robot && *it.seq()[it.index()].1 == *last);
            let since: u64 = if now >= *last { now - *last } else { 0 };
            assert(since == elapsed_since(now, m[*robot]));
            let ghost before = overdue@;
            if since > timeout {
                overdue.push(*robot);
            }
            proof {
                assert forall|x: RobotId| before.contains(x) implies overdue@.contains(x) by {
                    let k = choose|k: int| 0 <= k < before.len() && before[k] == x;
                    assert(overdue@[k] == x);
                }
                assert forall|x: RobotId| overdue@.contains(x) implies is_overdue(m, x, now, timeout) by {
                    let k = choose|k: int| 0 <= k < overdue@.len() && overdue@[k] == x;
                    if k < before.len() {
                        assert(before[k] == x);
                        assert(before.contains(x));
                    } else {
                        assert(x == *robot);
                        assert(m.contains_key(*robot));
                    }
                }
                if since > timeout {
                    assert(overdue@[overdue@.len() - 1] == *robot);
                }
            }
        }
        assert(overdue@.to_set() =~= overdue_robots(self@.last_seen, now, timeout));
        overdue
    }

    /// Mark as offline every robot silent for longer than `timeout` at `now`.
    fn mark_overdue_at(&mut self, timeout: u64, now: u64)
        ensures
            final(self)@ == detect_spec(old(self)@, now, timeout),
            final(self).latest == old(self).latest,
            final(self).reads == old(self).reads,
    {
        let overdue = self.overdue_at(timeout, now);
        let ghost old_offline = self.offline@;
        for i in 0..overdue.len()
            invariant
                self.heartbeats@ == old(self).heartbeats@,
                self.latest == old(self).latest,
                self.reads == old(self).reads,
                self.offline@ == old_offline.union(overdue@.take(i as int).to_set()),
        {
            assert(overdue@.take(i + 1) =~= overdue@.take(i as int).push(overdue[i as int]));
            proof {
                overdue@.take(i as int).lemma_push_to_set_commute(overdue[i as int]);
            }
            self.offline.insert(overdue[i]);
        }
        assert(overdue@.take(overdue.len() as int) =~= overdue@);
        assert(self.offline@ =~= old(self)@.offline.union(overdue_robots(old(self)@.last_seen, now, timeout)));
    }

    /// Detect robots whose last heartbeat lies more than `timeout` before `now`;
    /// returns every robot marked offline.
    pub fn detect_offline_at(&mut self, timeout: u64, now: u64) -> (offline: HashSet<RobotId>)
        ensures
            final(self)@ == detect_spec(old(self)@, now, timeout),
            offline@ == final(self)@.offline,
            final(self).latest_reading() == old(self).latest_reading(),
            final(self).clock_reads() == old(self).clock_reads(),
    {
        self.mark_overdue_at(timeout, now);
        copy_robot_set(&self.offline)
    }

    /// Detect robots whose last heartbeat lies more than `timeout` in the past;
    /// returns every robot marked offline.
    pub fn detect_offline(&mut self, timeout: u64) -> (offline: HashSet<RobotId>)
        ensures
            exists|now: u64|
                now >= old(self).latest_reading() && final(self).latest_reading() == now
                    && final(self).clock_reads() == old(self).clock_reads() + 1
                    && final(self)@ == detect_spec(old(self)@, now, timeout),
            offline@ == final(self)@.offline,
    {
        let now = self.now();
        self.detect_offline_at(timeout, now)
    }

    /// Detect offline robots at `now` and report whether any robot is offline.
    pub fn detect_offline_any_at(&mut self, timeout: u64, now: u64) -> (any: bool)
        ensures
            final(self)@ == detect_spec(old(self)@, now, timeout),
            any == !final(self)@.offline.is_empty(),
            final(self).latest_reading() == old(self).latest_reading(),
            final(self).clock_reads() == old(self).clock_reads(),
    {
        self.mark_overdue_at(timeout, now);
        !self.offline.is_empty()
    }

    /// Detect offline robots now and report whether any robot is offline.
    pub fn detect_offline_any(&mut self, timeout: u64) -> (any: bool)
        ensures
            exists|now: u64|
                now >= old(self).latest_reading() && final(self).latest_reading() == now
                    && final(self).clock_reads() == old(self).clock_reads() + 1
                    && final(self)@ == detect_spec(old(self)@, now, timeout),
            any == !final(self)@.offline.is_empty(),
    {
        let now = self.now();
        self.detect_offline_any_at(timeout, now)
    }

    /// Snapshot of the robots currently marked offline.
    pub fn offline_robots(&self) -> (offline: HashSet<RobotId>)
        ensures
            offline@ == self@.offline,
    {
        copy_robot_set(&self.offline)
    }

    /// Set the last-seen time of `robot` directly, tracking it if needed.
    pub fn set_last_seen_for_test(&mut self, robot: RobotId, last_seen: u64)
        ensures
            final(self)@ == (MonitorState { last_seen: old(self)@.last_seen.insert(robot, last_seen), ..old(self)@ }),
            final(self).latest_reading() == old(self).latest_reading(),
            final(self).clock_reads() == old(self).clock_reads(),
    {
        self.heartbeats.insert(robot, last_seen);
    }

    /// Last-seen time of `robot`, if tracked.
    pub fn last_seen(&self, robot: RobotId) -> (t: Option<u64>)
        ensures
            t == (if self@.last_seen.contains_key(robot) { Some(self@.last_seen[robot]) } else { None::<u64> }),
    {
        match self.heartbeats.get(&robot) {
            Some(t) => Some(*t),
            None => None,
        }
    }
}

/// A heartbeat clears the robot's offline mark and makes it tracked.
pub proof fn law_heartbeat_clears_offline(s: MonitorState, robot: RobotId, now: u64)
    ensures
        !heartbeat_spec(s, robot, now).offline.contains(robot),
        heartbeat_spec(s, robot, now).last_seen.contains_key(robot),
{
}

/// Offline marks are only ever added by detection; registering a robot keeps
/// them, and only a heartbeat of the robot itself removes one.
pub proof fn law_offline_is_sticky(s: MonitorState, robot: RobotId, other: RobotId, now: u64, timeout: u64)
    requires
        s.offline.contains(robot),
        other != robot,
    ensures
        detect_spec(s, now, timeout).offline.contains(robot),
        register_spec(s, other, now).offline.contains(robot),
        register_spec(s, robot, now).offline.contains(robot),
        heartbeat_spec(s, other, now).offline.contains(robot),
{
}

/// A robot that sent a heartbeat at `beat` is marked offline by a detection at
/// `now` exactly when more than `timeout` has passed since then.
pub proof fn law_detection_follows_timeout(s: MonitorState, robot: RobotId, beat: u64, now: u64, timeout: u64)
    ensures
        detect_spec(heartbeat_spec(s, robot, beat), now, timeout).offline.contains(robot)
            <==> elapsed_since(now, beat) > timeout,
{
    let h = heartbeat_spec(s, robot, beat);
    assert(h.last_seen[robot] == beat);
    if elapsed_since(now, beat) > timeout {
        assert(overdue_robots(h.last_seen, now, timeout).contains(robot));
    }
}

/// Registering an already tracked robot changes nothing, and detection at the
/// same time twice marks no more than once.
pub proof fn law_idempotent(s: MonitorState, robot: RobotId, first: u64, second: u64, now: u64, timeout: u64)
    ensures
        register_spec(register_spec(s, robot, first), robot, second) == register_spec(s, robot, first),
        detect_spec(detect_spec(s, now, timeout), now, timeout) == detect_spec(s, now, timeout),
{
    let d = detect_spec(s, now, timeout);
    assert(d.offline.union(overdue_robots(d.last_seen, now, timeout)) =~= d.offline);
}

} // verus!
