//! Lane geometry and road markings for a street-map renderer.
//!
//! From a lane's record in the map (its kind, its centre line, its road and
//! the control at the intersection it leads to) the crate builds what a
//! renderer needs to show the lane: a footprint polygon, the two lines that
//! cross the lane at its ends, the painted markings, and the anchors of its
//! label. Everything is a pure function of the map records.
//!
//! Coordinates and distances are whole millimetres on an integer grid. The
//! length of a segment is rounded down to a whole millimetre, and the length
//! of a path is the sum of the lengths of its segments; a point at a distance
//! along a direction is rounded toward its starting point in each coordinate.
//! Directions are held as vectors, so that they turn by quarter turns without
//! any rounding.
//!
//! - [`geom`] has the points, segments, polylines and polygons.
//! - [`map_model`] and [`control`] have the records that a lane is drawn from.
//! - [`render`] makes a lane ready to draw, lists what to draw for it, and
//!   states what holds of every lane made ready.
//! - [`edits`] steers the dialogue that saves and loads a map's edits.

pub mod config;
pub mod control;
pub mod edits;
pub mod geom;
pub mod map_model;
pub mod num;
pub mod render;
pub mod text;
