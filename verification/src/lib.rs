//! Verified emulation cores for two small fixed instruction-set virtual
//! machines, driven by a host-supplied wall-clock delta each frame.
//!
//! Time is measured in whole microseconds throughout, so that the timing
//! cadences can be stated and proved exactly.

pub mod errors;
pub mod maths;
mod rng;
pub mod timers;
pub mod bytepusher;
pub mod chip8;
