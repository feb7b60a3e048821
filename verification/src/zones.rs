//! Zone access control: each zone is occupied by at most one robot.
//!
//! The table holds one entry per zone, indexed by zone id; zones are numbered
//! from 1 and entry 0 is allocated but unused. Threads share the table behind
//! a mutex and each method is one critical section: `acquire` reports whether
//! it took the zone, and a caller that did not get it waits for a release and
//! retries.
use vstd::prelude::*;
use std::collections::HashSet;
use crate::task::{RobotId, ZoneId};

verus! {

broadcast use vstd::std_specs::hash::group_hash_axioms;

/// Number of zones of a controller built with `ZoneAccess::new`.
pub const DEFAULT_ZONE_COUNT: usize = 256;

/// Whether `zone` names an entry of a table of `len` entries other than entry 0.
pub open spec fn valid_zone(len: nat, zone: ZoneId) -> bool {
    1 <= zone < len
}

/// Table after `robot` tries to take `zone`: taken only if free.
pub open spec fn acquire_spec(table: Seq<Option<RobotId>>, zone: ZoneId, robot: RobotId) -> Seq<Option<RobotId>> {
    if table[zone as int] is None {
        table.update(zone as int, Some(robot))
    } else {
        table
    }
}

/// Table after `robot` releases `zone`: freed only if `robot` owns it.
pub open spec fn release_spec(table: Seq<Option<RobotId>>, zone: ZoneId, robot: RobotId) -> Seq<Option<RobotId>> {
    if table[zone as int] == Some(robot) {
        table.update(zone as int, None)
    } else {
        table
    }
}

/// The zones that have an owner.
pub open spec fn occupied_spec(table: Seq<Option<RobotId>>) -> Set<ZoneId> {
    Set::new(|zone: ZoneId| valid_zone(table.len(), zone) && table[zone as int] is Some)
}

/// Exclusive ownership of numbered zones by robots.
pub struct ZoneAccess {
    occupied: Vec<Option<RobotId>>,
}

impl View for ZoneAccess {
    type V = Seq<Option<RobotId>>;

    closed spec fn view(&self) -> Seq<Option<RobotId>> {
        self.occupied@
    }
}

impl ZoneAccess {
    /// Create a controller for zones `1..=n`, all free.
    pub fn new_with_zones(n: usize) -> (z: ZoneAccess)
        requires
            n < usize::MAX,
        ensures
            z@ == Seq::new((n + 1) as nat, |i: int| None::<RobotId>),
    {
        let mut occupied: Vec<Option<RobotId>> = Vec::new();
        let mut i: usize = 0;
        while i <= n
            invariant
                i <= n + 1,
                n < usize::MAX,
                occupied@ == Seq::new(i as nat, |k: int| None::<RobotId>),
            decreases n + 1 - i,
        {
            occupied.push(None);
            i = i + 1;
        }
        ZoneAccess { occupied }
    }

    /// Create a controller for zones `1..=256`, all free.
    pub fn new() -> (z: ZoneAccess)
        ensures
            z@ == Seq::new((DEFAULT_ZONE_COUNT + 1) as nat, |i: int| None::<RobotId>),
    {
        Self::new_with_zones(DEFAULT_ZONE_COUNT)
    }

    /// Number of zones (the highest zone id); the table of every controller
    /// has entry 0, and 0 stands for a table without it.
    pub fn zone_count(&self) -> (n: usize)
        ensures
            n == (if self@.len() >= 1 { self@.len() - 1 } else { 0 }),
    {
        let len = self.occupied.len();
        if len >= 1 {
            len - 1
        } else {
            0
        }
    }

    /// Position of `zone` in the table.
    fn zone_index(&self, zone: ZoneId) -> (idx: usize)
        requires
            valid_zone(self@.len(), zone),
        ensures
            idx == zone,
            idx < self@.len(),
    {
        let len = self.occupied.len();
        assert(zone < len);
        zone as usize
    }

    /// Try to take `zone` for `robot`: takes it and returns true if it is
    /// free; otherwise changes nothing and returns false, and the caller
    /// waits for a release before trying again.
    pub fn acquire(&mut self, zone: ZoneId, robot: RobotId) -> (acquired: bool)
        requires
            valid_zone(old(self)@.len(), zone),
        ensures
            acquired == (old(self)@[zone as int] is None),
            final(self)@ == acquire_spec(old(self)@, zone, robot),
    {
        let idx = self.zone_index(zone);
        if self.occupied[idx].is_none() {
            self.occupied.set(idx, Some(robot));
            true
        } else {
            false
        }
    }

    /// Release `zone`; returns false, changing nothing, if `robot` does not own it.
    pub fn release(&mut self, zone: ZoneId, robot: RobotId) -> (released: bool)
        requires
            valid_zone(old(self)@.len(), zone),
        ensures
            released == (old(self)@[zone as int] == Some(robot)),
            final(self)@ == release_spec(old(self)@, zone, robot),
    {
        let idx = self.zone_index(zone);
        match self.occupied[idx] {
            Some(owner) => {
                if owner == robot {
                    self.occupied.set(idx, None);
                    true
                } else {
                    false
                }
            },
            None => false,
        }
    }

    /// Owner of `zone`, if any.
    pub fn owner(&self, zone: ZoneId) -> (o: Option<RobotId>)
        requires
            valid_zone(self@.len(), zone),
        ensures
            o == self@[zone as int],
    {
        let idx = self.zone_index(zone);
        self.occupied[idx]
    }

    /// Snapshot of the zones that are currently occupied.
    pub fn occupied_zones(&self) -> (zones: HashSet<ZoneId>)
        ensures
            zones@ == occupied_spec(self@),
    {
        let mut zones: HashSet<ZoneId> = HashSet::new();
        let mut i: usize = 1;
        while i < self.occupied.len()
            invariant
                1 <= i <= self.occupied.len() || self.occupied.len() == 0,
                forall|z: ZoneId| zones@.contains(z) <==> (1 <= z < i && z < self@.len() && self@[z as int] is Some),
            decreases self.occupied.len() - i,
        {
            if self.occupied[i].is_some() {
                zones.insert(i as ZoneId);
            }
            i = i + 1;
        }
        assert(zones@ =~= occupied_spec(self@));
        zones
    }
}

/// A zone is occupied by at most one robot: while `owner` holds `zone`,
/// another robot's attempt to take it changes nothing, and so does its
/// attempt to release it.
pub proof fn law_zone_exclusive(table: Seq<Option<RobotId>>, zone: ZoneId, owner: RobotId, other: RobotId)
    requires
        valid_zone(table.len(), zone),
        table[zone as int] == Some(owner),
        other != owner,
    ensures
        acquire_spec(table, zone, other) == table,
        release_spec(table, zone, other) == table,
{
}

/// Taking a free zone and releasing it again restores the table, and while it
/// is held the zone counts as occupied.
pub proof fn law_acquire_release_roundtrip(table: Seq<Option<RobotId>>, zone: ZoneId, robot: RobotId)
    requires
        valid_zone(table.len(), zone),
        table[zone as int] is None,
    ensures
        acquire_spec(table, zone, robot)[zone as int] == Some(robot),
        release_spec(acquire_spec(table, zone, robot), zone, robot) == table,
        occupied_spec(acquire_spec(table, zone, robot)) == occupied_spec(table).insert(zone),
{
    assert(table.update(zone as int, Some(robot)).update(zone as int, None) =~= table);
    assert(occupied_spec(acquire_spec(table, zone, robot)) =~= occupied_spec(table).insert(zone));
}

/// Releasing frees the zone only for its owner; other zones are untouched.
pub proof fn law_release(table: Seq<Option<RobotId>>, zone: ZoneId, robot: RobotId)
    requires
        valid_zone(table.len(), zone),
    ensures
        table[zone as int] == Some(robot) ==> occupied_spec(release_spec(table, zone, robot)) == occupied_spec(table).remove(zone),
        table[zone as int] != Some(robot) ==> release_spec(table, zone, robot) == table,
        forall|z: int| 0 <= z < table.len() && z != zone ==> #[trigger] release_spec(table, zone, robot)[z] == table[z],
{
    if table[zone as int] == Some(robot) {
        assert(occupied_spec(release_spec(table, zone, robot)) =~= occupied_spec(table).remove(zone));
    }
}

} // verus!
