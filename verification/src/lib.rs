//! A motion-sensor simulator: fixed-size buffers of timestamped three-axis
//! samples, a deterministic fill step whose pacing and entropy are supplied by
//! the caller, and a verified JSON codec for the whole recording.

pub mod bytes;
pub mod digits;
pub mod json;
pub mod recording;
pub mod sample;
