//! The operations behind the plugin's commands: session registries and RTP framing.
pub mod streaming;
pub mod webrtc;
