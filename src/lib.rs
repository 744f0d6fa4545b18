//! Verified core of a vision coprocessor link: the fixed-layout pose packet,
//! the sync-marker stream framing, and the per-frame record selection.

pub mod buffer;
pub mod framing;
pub mod wire;
pub mod detection;
pub mod config;
pub mod errors;
pub mod calibration;
