//! How intersections are controlled: which lanes may pass a stop sign
//! without stopping.

use crate::map_model::{IntersectionID, LaneID};
use std::collections::HashMap;
use vstd::prelude::*;

verus! {

/// The stop signs of one intersection: the lanes listed have priority and
/// need not stop; every other lane that ends there must.
#[derive(Debug)]
pub struct ControlStopSign {
    pub priority_lanes: Vec<LaneID>,
}

impl ControlStopSign {
    /// The lane is listed as having priority.
    pub open spec fn spec_is_priority_lane(&self, lane: LaneID) -> bool {
        self.priority_lanes@.contains(lane)
    }

    /// Stop signs under which no lane has priority.
    pub fn new() -> (s: ControlStopSign)
        ensures
            s.priority_lanes@ == Seq::<LaneID>::empty(),
            forall|lane: LaneID| !s.spec_is_priority_lane(lane),
    {
        ControlStopSign { priority_lanes: Vec::new() }
    }

    /// Gives `lane` priority.
    pub fn set_priority(&mut self, lane: LaneID)
        ensures
            final(self).priority_lanes@ == old(self).priority_lanes@.push(lane),
            forall|l: LaneID|
                final(self).spec_is_priority_lane(l) <==> l == lane || old(
                    self,
                ).spec_is_priority_lane(l),
    {
        self.priority_lanes.push(lane);
        proof {
            let before = old(self).priority_lanes@;
            let after = self.priority_lanes@;
            assert forall|l: LaneID| after.contains(l) <==> l == lane || before.contains(l) by {
                if after.contains(l) {
                    let i = choose|i: int| 0 <= i < after.len() && after[i] == l;
                    if i < before.len() {
                        assert(before[i] == l);
                    }
                }
                if before.contains(l) {
                    let i = choose|i: int| 0 <= i < before.len() && before[i] == l;
                    assert(after[i] == l);
                }
                if l == lane {
                    assert(after[before.len() as int] == l);
                }
            }
        }
    }

    /// Whether the lane may pass without stopping.
    pub fn is_priority_lane(&self, lane: LaneID) -> (r: bool)
        ensures
            r == self.spec_is_priority_lane(lane),
    {
        let mut i: usize = 0;
        while i < self.priority_lanes.len()
            invariant
                i <= self.priority_lanes.len(),
                forall|j: int| 0 <= j < i ==> self.priority_lanes@[j] != lane,
            decreases self.priority_lanes.len() - i,
        {
            if self.priority_lanes[i].0 == lane.0 {
                return true;
            }
            i += 1;
        }
        false
    }
}

/// The control of every intersection that has stop signs, found by the
/// intersection's index.
pub struct ControlMap {
    pub stop_signs: HashMap<usize, ControlStopSign>,
}

impl ControlMap {
    /// The intersection has stop signs on record.
    pub open spec fn has_stop_sign(&self, i: IntersectionID) -> bool {
        self.stop_signs@.contains_key(i.0)
    }

    /// The lane has priority at the stop signs of the intersection.
    pub open spec fn spec_is_priority_lane(&self, i: IntersectionID, lane: LaneID) -> bool {
        self.stop_signs@[i.0].spec_is_priority_lane(lane)
    }

    /// A record of no stop signs at all.
    pub fn new() -> (c: ControlMap)
        ensures
            forall|i: IntersectionID| !c.has_stop_sign(i),
    {
        ControlMap { stop_signs: HashMap::new() }
    }

    /// Records the stop signs of an intersection, in place of any recorded
    /// for it before.
    pub fn add_stop_sign(&mut self, i: IntersectionID, sign: ControlStopSign)
        ensures
            final(self).stop_signs@ == old(self).stop_signs@.insert(i.0, sign),
    {
        broadcast use vstd::std_specs::hash::group_hash_axioms;

        self.stop_signs.insert(i.0, sign);
    }

    /// The stop signs of an intersection, if it has any on record.
    pub fn stop_sign(&self, i: IntersectionID) -> (r: Option<&ControlStopSign>)
        ensures
            r is Some <==> self.has_stop_sign(i),
            r matches Some(s) ==> *s == self.stop_signs@[i.0],
    {
        broadcast use vstd::std_specs::hash::group_hash_axioms;

        self.stop_signs.get(&i.0)
    }

    /// Whether the lane may pass the stop signs of the intersection without
    /// stopping.
    pub fn is_priority_lane(&self, i: IntersectionID, lane: LaneID) -> (r: bool)
        requires
            self.has_stop_sign(i),
        ensures
            r == self.spec_is_priority_lane(i, lane),
    {
        match self.stop_sign(i) {
            Some(s) => s.is_priority_lane(lane),
            None => false,
        }
    }
}

} // verus!
