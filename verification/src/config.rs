//! The measures by which lanes are drawn.

use crate::geom::pt::MAX_DISTANCE;
use vstd::prelude::*;

verus! {

/// The measures by which lanes are drawn: distances are in millimetres, the
/// zoom in thousandths.
#[derive(Clone, Copy, Debug, PartialEq, Eq, Structural)]
pub struct RenderConfig {
    /// The width of a lane; also the length of the lines that cross it and
    /// the spacing of the ticks on a sidewalk.
    pub lane_thickness: i64,
    /// The thickness of the line that shows a road's orientation.
    pub orientation_thickness: i64,
    /// The thickness of sidewalk ticks, parking marks and lane dashes.
    pub marking_thickness: i64,
    /// The thickness of a stop line.
    pub stop_line_thickness: i64,
    /// The length of one dash between driving lanes.
    pub dash_len: i64,
    /// The gap between two dashes, and between a lane's end and its first
    /// and last dash.
    pub dash_separation: i64,
    /// The length of one parking spot.
    pub parking_spot_length: i64,
    /// The length of each of the three legs of a parking mark.
    pub parking_leg_length: i64,
    /// The thickness of the lines of the debug overlay.
    pub debug_line_thickness: i64,
    /// The radius of the circle that the debug overlay draws at the first
    /// point of each segment.
    pub debug_first_radius: i64,
    /// The radius of the circle that the debug overlay draws at the second
    /// point of each segment.
    pub debug_second_radius: i64,
    /// The least zoom at which markings are drawn.
    pub min_zoom_for_markings: u32,
}

impl RenderConfig {
    /// Every measure is usable: the lane has a width, the dashes and the
    /// parking spots have a length, nothing is negative, and nothing is
    /// longer than [`MAX_DISTANCE`].
    pub open spec fn wf(&self) -> bool {
        &&& 1 <= self.lane_thickness <= MAX_DISTANCE
        &&& 0 <= self.orientation_thickness <= MAX_DISTANCE
        &&& 0 <= self.marking_thickness <= MAX_DISTANCE
        &&& 0 <= self.stop_line_thickness <= MAX_DISTANCE
        &&& 1 <= self.dash_len <= MAX_DISTANCE
        &&& 0 <= self.dash_separation <= MAX_DISTANCE
        &&& 1 <= self.parking_spot_length <= MAX_DISTANCE
        &&& 0 <= self.parking_leg_length <= MAX_DISTANCE
        &&& 0 <= self.debug_line_thickness <= MAX_DISTANCE
        &&& 0 <= self.debug_first_radius <= MAX_DISTANCE
        &&& 0 <= self.debug_second_radius <= MAX_DISTANCE
    }

    /// How far a parking mark stands in from the middle of its lane: two
    /// fifths of the lane's width.
    pub open spec fn spec_parking_inset(&self) -> int {
        self.lane_thickness * 2 / 5
    }

    /// The usual measures: lanes 2.5 m wide, dashes of 1 m every 3 m, parking
    /// spots of 8 m, markings from a zoom of 5.
    pub fn standard() -> (c: RenderConfig)
        ensures
            c.wf(),
            c == (RenderConfig {
                lane_thickness: 2500,
                orientation_thickness: 500,
                marking_thickness: 250,
                stop_line_thickness: 450,
                dash_len: 1000,
                dash_separation: 2000,
                parking_spot_length: 8000,
                parking_leg_length: 1000,
                debug_line_thickness: 250,
                debug_first_radius: 400,
                debug_second_radius: 800,
                min_zoom_for_markings: 5000,
            }),
    {
        RenderConfig {
            lane_thickness: 2500,
            orientation_thickness: 500,
            marking_thickness: 250,
            stop_line_thickness: 450,
            dash_len: 1000,
            dash_separation: 2000,
            parking_spot_length: 8000,
            parking_leg_length: 1000,
            debug_line_thickness: 250,
            debug_first_radius: 400,
            debug_second_radius: 800,
            min_zoom_for_markings: 5000,
        }
    }

    /// Whether every measure is usable.
    pub fn check(&self) -> (r: bool)
        ensures
            r == self.wf(),
    {
        1 <= self.lane_thickness && self.lane_thickness <= MAX_DISTANCE && 0
            <= self.orientation_thickness && self.orientation_thickness <= MAX_DISTANCE && 0
            <= self.marking_thickness && self.marking_thickness <= MAX_DISTANCE && 0
            <= self.stop_line_thickness && self.stop_line_thickness <= MAX_DISTANCE && 1
            <= self.dash_len && self.dash_len <= MAX_DISTANCE && 0 <= self.dash_separation
            && self.dash_separation <= MAX_DISTANCE && 1 <= self.parking_spot_length
            && self.parking_spot_length <= MAX_DISTANCE && 0 <= self.parking_leg_length
            && self.parking_leg_length <= MAX_DISTANCE && 0 <= self.debug_line_thickness
            && self.debug_line_thickness <= MAX_DISTANCE && 0 <= self.debug_first_radius
            && self.debug_first_radius <= MAX_DISTANCE && 0 <= self.debug_second_radius
            && self.debug_second_radius <= MAX_DISTANCE
    }

    /// How far a parking mark stands in from the middle of its lane.
    pub fn parking_inset(&self) -> (d: i64)
        requires
            self.wf(),
        ensures
            d == self.spec_parking_inset(),
            0 <= d <= self.lane_thickness,
    {
        self.lane_thickness * 2 / 5
    }
}

} // verus!
