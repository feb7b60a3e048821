//! Occupancy metrics of a simulation run: how many robots are inside zones,
//! the peak of that number, per-zone counts, and whether a zone was ever
//! shared or more robots were inside zones than there are zones.
//!
//! Zone ids are 1-based; counter 0 is allocated but unused. The counters are
//! plain fields; threads that share them hold the whole value behind a lock.
use vstd::prelude::*;

verus! {

/// Abstract state of the metrics.
pub ghost struct MetricsState {
    pub occupancy: int,
    pub max_occupancy: int,
    pub zone_violation: bool,
    pub per_zone: Seq<int>,
}

/// `x + 1` as a `usize` counter computes it, wrapping to 0 past the maximum.
pub open spec fn wrapping_inc(x: int) -> int {
    if x == usize::MAX {
        0
    } else {
        x + 1
    }
}

/// State after a robot enters `zone`, with `zones_total` zones in all.
pub open spec fn enter_spec(s: MetricsState, zone: int, zones_total: int) -> MetricsState {
    let current = s.occupancy + 1;
    let zone_count = s.per_zone[zone] + 1;
    MetricsState {
        occupancy: current,
        max_occupancy: if current > s.max_occupancy { current } else { s.max_occupancy },
        zone_violation: s.zone_violation || zone_count > 1 || current > zones_total,
        per_zone: s.per_zone.update(zone, zone_count),
    }
}

/// State after a robot is counted out of `zone` before releasing it.
pub open spec fn pre_release_spec(s: MetricsState, zone: int) -> MetricsState {
    MetricsState {
        occupancy: s.occupancy - 1,
        per_zone: s.per_zone.update(zone, s.per_zone[zone] - 1),
        ..s
    }
}

/// State after a robot whose release failed is counted back into `zone`.
pub open spec fn revert_spec(s: MetricsState, zone: int) -> MetricsState {
    MetricsState {
        occupancy: wrapping_inc(s.occupancy),
        per_zone: s.per_zone.update(zone, wrapping_inc(s.per_zone[zone])),
        ..s
    }
}

/// Counters for zones `1..=zones_total`, all zero (index 0 unused).
pub fn init_zone_counters(zones_total: usize) -> (counters: Vec<usize>)
    requires
        zones_total < usize::MAX,
    ensures
        counters@ == Seq::new((zones_total + 1) as nat, |i: int| 0usize),
{
    let mut counters: Vec<usize> = Vec::new();
    let mut i: usize = 0;
    while i <= zones_total
        invariant
            i <= zones_total + 1,
            zones_total < usize::MAX,
            counters@ == Seq::new(i as nat, |k: int| 0usize),
        decreases zones_total + 1 - i,
    {
        counters.push(0);
        i = i + 1;
    }
    counters
}

/// Aggregate and per-zone occupancy counters and the violation flag.
pub struct ZoneMetrics {
    occupancy: usize,
    max_occupancy: usize,
    zone_violation: bool,
    per_zone_occupancy: Vec<usize>,
}

impl View for ZoneMetrics {
    type V = MetricsState;

    closed spec fn view(&self) -> MetricsState {
        MetricsState {
            occupancy: self.occupancy as int,
            max_occupancy: self.max_occupancy as int,
            zone_violation: self.zone_violation,
            per_zone: Seq::new(self.per_zone_occupancy@.len(), |i: int| self.per_zone_occupancy@[i] as int),
        }
    }
}

impl ZoneMetrics {
    /// Metrics for zones `1..=zones_total`, all counters zero, no violation.
    pub fn new(zones_total: usize) -> (m: ZoneMetrics)
        requires
            zones_total < usize::MAX,
        ensures
            m@.occupancy == 0,
            m@.max_occupancy == 0,
            !m@.zone_violation,
            m@.per_zone == Seq::new((zones_total + 1) as nat, |i: int| 0int),
    {
        let m = ZoneMetrics {
            occupancy: 0,
            max_occupancy: 0,
            zone_violation: false,
            per_zone_occupancy: init_zone_counters(zones_total),
        };
        assert(m@.per_zone =~= Seq::new((zones_total + 1) as nat, |i: int| 0int));
        m
    }

    /// Count a robot into `zone`; flags a violation if the zone already had a
    /// robot or more robots are inside zones than there are zones.
    pub fn enter(&mut self, zone: u64, zones_total: usize)
        requires
            zone <= zones_total,
            zone < old(self)@.per_zone.len(),
            old(self)@.occupancy < usize::MAX,
            old(self)@.per_zone[zone as int] < usize::MAX,
        ensures
            final(self)@ == enter_spec(old(self)@, zone as int, zones_total as int),
    {
        let current = self.occupancy + 1;
        self.occupancy = current;
        let zone_index = zone as usize;
        let zone_count = self.per_zone_occupancy[zone_index] + 1;
        self.per_zone_occupancy.set(zone_index, zone_count);
        if zone_count > 1 {
            self.zone_violation = true;
        }
        if current > self.max_occupancy {
            self.max_occupancy = current;
        }
        if current > zones_total {
            self.zone_violation = true;
        }
        assert(self@.per_zone =~= old(self)@.per_zone.update(zone as int, zone_count as int));
    }

    /// Count a robot out of `zone` just before it releases the zone.
    pub fn pre_release(&mut self, zone: u64, zones_total: usize)
        requires
            zone <= zones_total,
            zone < old(self)@.per_zone.len(),
            old(self)@.per_zone[zone as int] > 0,
            old(self)@.occupancy > 0,
        ensures
            final(self)@ == pre_release_spec(old(self)@, zone as int),
    {
        let zone_index = zone as usize;
        let zone_count = self.per_zone_occupancy[zone_index] - 1;
        self.per_zone_occupancy.set(zone_index, zone_count);
        self.occupancy = self.occupancy - 1;
        assert(self@.per_zone =~= old(self)@.per_zone.update(zone as int, zone_count as int));
    }

    /// Count a robot back into `zone` after its release failed.
    pub fn revert_pre_release(&mut self, zone: u64, zones_total: usize)
        requires
            zone <= zones_total,
            zone < old(self)@.per_zone.len(),
        ensures
            final(self)@ == revert_spec(old(self)@, zone as int),
    {
        let zone_index = zone as usize;
        let zone_count = self.per_zone_occupancy[zone_index].wrapping_add(1);
        self.per_zone_occupancy.set(zone_index, zone_count);
        self.occupancy = self.occupancy.wrapping_add(1);
        assert(self@.per_zone =~= old(self)@.per_zone.update(zone as int, zone_count as int));
    }

    /// Peak number of robots inside zones at once.
    pub fn max_occupancy(&self) -> (n: usize)
        ensures
            n == self@.max_occupancy,
    {
        self.max_occupancy
    }

    /// Whether a violation was ever flagged.
    pub fn has_violation(&self) -> (b: bool)
        ensures
            b == self@.zone_violation,
    {
        self.zone_violation
    }

    /// Number of robots currently inside `zone`.
    pub fn zone_occupancy(&self, zone: u64) -> (n: usize)
        requires
            zone < self@.per_zone.len(),
        ensures
            n == self@.per_zone[zone as int],
    {
        let len = self.per_zone_occupancy.len();
        assert(zone < len);
        self.per_zone_occupancy[zone as usize]
    }

    /// Number of zone counters (one more than the number of zones).
    pub fn counter_count(&self) -> (n: usize)
        ensures
            n == self@.per_zone.len(),
    {
        self.per_zone_occupancy.len()
    }

    /// Number of robots currently inside zones.
    pub fn occupancy(&self) -> (n: usize)
        ensures
            n == self@.occupancy,
    {
        self.occupancy
    }
}

/// Whether `s` is the state of real counters: every count fits a `usize`.
pub open spec fn counters_fit(s: MetricsState) -> bool {
    &&& 0 <= s.occupancy <= usize::MAX
    &&& 0 <= s.max_occupancy <= usize::MAX
    &&& forall|i: int| 0 <= i < s.per_zone.len() ==> 0 <= #[trigger] s.per_zone[i] <= usize::MAX
}

/// Once flagged, a violation stays flagged whatever is counted afterwards.
pub proof fn law_violation_is_sticky(s: MetricsState, zone: int, zones_total: int)
    requires
        s.zone_violation,
    ensures
        enter_spec(s, zone, zones_total).zone_violation,
        pre_release_spec(s, zone).zone_violation,
        revert_spec(s, zone).zone_violation,
{
}

/// Entering a zone that already holds a robot, or entering when every zone
/// is already in use, flags a violation; entering a free zone while fewer
/// robots than zones are inside flags nothing new.
pub proof fn law_enter_flags_sharing(s: MetricsState, zone: int, zones_total: int)
    requires
        0 <= zone < s.per_zone.len(),
    ensures
        s.per_zone[zone] >= 1 ==> enter_spec(s, zone, zones_total).zone_violation,
        s.occupancy >= zones_total ==> enter_spec(s, zone, zones_total).zone_violation,
        s.per_zone[zone] == 0 && s.occupancy < zones_total
            ==> enter_spec(s, zone, zones_total).zone_violation == s.zone_violation,
        enter_spec(s, zone, zones_total).max_occupancy >= enter_spec(s, zone, zones_total).occupancy,
{
}

/// The peak never drops: entering makes it the larger of the previous peak
/// and the new occupancy, and counting robots out or back in leaves it as
/// it was.
pub proof fn law_peak_never_drops(s: MetricsState, zone: int, zones_total: int)
    ensures
        enter_spec(s, zone, zones_total).occupancy == s.occupancy + 1,
        enter_spec(s, zone, zones_total).max_occupancy >= s.max_occupancy,
        enter_spec(s, zone, zones_total).max_occupancy >= enter_spec(s, zone, zones_total).occupancy,
        enter_spec(s, zone, zones_total).max_occupancy == s.max_occupancy
            || enter_spec(s, zone, zones_total).max_occupancy == enter_spec(s, zone, zones_total).occupancy,
        pre_release_spec(s, zone).max_occupancy == s.max_occupancy,
        revert_spec(s, zone).max_occupancy == s.max_occupancy,
{
}

/// Counting a robot out after it entered restores the counts, and counting it
/// back in after a failed release undoes the count-out.
pub proof fn law_counts_roundtrip(s: MetricsState, zone: int, zones_total: int)
    requires
        counters_fit(s),
        0 <= zone < s.per_zone.len(),
    ensures
        pre_release_spec(enter_spec(s, zone, zones_total), zone).occupancy == s.occupancy,
        pre_release_spec(enter_spec(s, zone, zones_total), zone).per_zone == s.per_zone,
        s.occupancy > 0 && s.per_zone[zone] > 0 ==> revert_spec(pre_release_spec(s, zone), zone) == s,
{
    let e = enter_spec(s, zone, zones_total);
    assert(pre_release_spec(e, zone).per_zone =~= s.per_zone);
    if s.occupancy > 0 && s.per_zone[zone] > 0 {
        let p = pre_release_spec(s, zone);
        assert(revert_spec(p, zone).per_zone =~= s.per_zone);
    }
}

} // verus!
