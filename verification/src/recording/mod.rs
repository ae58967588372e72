//! Video recording: H.264 encoding of RGB frames.
pub mod encoder;
