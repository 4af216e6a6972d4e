//! A tiny deterministic motion simulation: named bodies that drift along a
//! constant velocity, advanced once per frame and reported as text lines.
//!
//! All quantities are exact integers, so that a frame split in two moves a body
//! exactly as far as the unsplit frame does:
//!
//! * time is counted in nanoseconds,
//! * velocity in micrometres per second,
//! * position in femtometres, the product of the two.
//!
//! The time that a frame took is measured once by the caller and is the same
//! for every body; a body keeps no clock of its own. A frame first moves the
//! bodies and then reports them, so a report always shows the moved state.
pub mod motion;
pub mod text;
pub mod reading;
pub mod body;
pub mod world;
pub mod laws;
