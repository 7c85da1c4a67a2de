//! The logic of a one-window terminal front end on a Wayland compositor:
//! the lifecycle of its drawing surface, the decision when to draw, the
//! glyph atlas, and the reading of the graphics layer's status codes.
//!
//! The library decides and computes; it neither talks to the compositor
//! nor to the GPU. A program hands it events and plain values and carries
//! out the actions that it hands back.

pub mod atlas;
pub mod dispatch;
pub mod error;
pub mod font;
pub mod glcheck;
pub mod gradient;
pub mod grid;
pub mod surface;
pub mod vec2;
