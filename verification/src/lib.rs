//! Userspace capture for the Sunplus SPCA561A (Rev072A) USB webcam, without the I/O: which
//! endpoint to stream from, what to write to the bridge and the sensor, how packets become frames
//! and frames become pictures, and when to draw.

pub mod assembly;
pub mod bayer;
pub mod camera;
pub mod control;
pub mod endpoint;
pub mod frame;
pub mod iso;
pub mod pacing;
pub mod ppm;
pub mod registers;
pub mod sequencer;
pub mod tables;
pub mod text;
