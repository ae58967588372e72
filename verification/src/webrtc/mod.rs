//! WebRTC streaming: RTP packetization, stream state and peer bookkeeping.
pub mod packetizer;
pub mod packetizer_laws;
pub mod peer;
pub mod streaming;
