//! What is drawn for a lane: its markings, and the lane as a whole.

pub mod draw;
pub mod lane;
pub mod laws;
pub mod marking;
pub mod tooltip;

pub use draw::{Color, DrawCommand, DrawCommandView, Paint, RenderOptions};
pub use lane::{DrawLane, DrawLaneView};
pub use marking::{Colors, Marking, MarkingView};
