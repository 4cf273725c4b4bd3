//! Points, directions, segments, polylines and polygons on the integer grid.

pub mod line;
pub mod polygon;
pub mod polyline;
pub mod pt;
pub mod thicken;

pub use line::Line;
pub use polygon::{Bounds, Polygon, Quad};
pub use polyline::PolyLine;
pub use pt::{Angle, Pt2D, MAP_LIMIT, MAX_DISTANCE, WORLD_LIMIT};
