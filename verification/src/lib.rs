//! Perception pipeline of a camera-guided robot, in fixed-point arithmetic.
//!
//! A detector's raw output rows are decoded into bounding boxes, overlapping
//! duplicates are suppressed, and the distance to each remaining object is
//! estimated from its apparent height. Every number is an integer in a stated
//! unit, so each result is exact and each contract says which value comes out.

pub mod camera;
pub mod config;
pub mod decode;
pub mod detect;
pub mod detection;
pub mod estimation;
pub mod frame;
pub mod geometry;
pub mod labels;
pub mod nms;
pub mod orchestrator;
pub mod preview;
pub mod report;
pub mod rounding;
pub mod text;
