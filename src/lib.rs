//! A fixed-point simulation of self-driving race cars on a closed track.
//!
//! Units: lengths are thousandths of a pixel, angles are micro-radians,
//! durations are microseconds, speeds are thousandths of a pixel per second.
pub mod angle;
pub mod bounding_box;
pub mod car;
pub mod controller;
pub mod frame;
pub mod geometry;
mod ids;
pub mod score;
pub mod sensor;
pub mod stage;
pub mod track;
