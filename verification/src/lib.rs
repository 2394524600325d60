//! Core simulation of a small arcade game: colored paint buckets scroll
//! across the screen and a final score is accumulated from the color
//! distance between each bucket's paint and its target label when the
//! bucket leaves the play area.
//!
//! Everything here works on fixed-point integers so that the whole
//! simulation can be stated and proved exactly: times are microseconds,
//! positions are micropixels, and color channels are thousandths of the
//! unit interval. Rendering, windowing, input polling and random number
//! generation live outside this crate and hand plain values in.

pub mod color;
pub mod machine;
pub mod motion;
pub mod round;
pub mod text;
