//! WebRTC streaming: stream configuration, the streamer's state and its per-frame decisions.
use vstd::prelude::*;

pub use crate::webrtc::packetizer::{H264RTPPacketizer, OpusRTPPacketizer, RtpPayload};

use tokio::sync::broadcast;
use tokio::sync::mpsc::UnboundedSender;

use openh264::encoder::Encoder;

use crate::backends::{
    broadcast_channel, broadcast_receiver_count, broadcast_send, broadcast_subscribe,
    h264_encode, h264_encoder_new, EncodedPictureType, h264_force_intra_frame, is_keyframe_picture, new_frame_id,
    now_millis, resize_rgb_lanczos3, unbounded_send, frames_offered, payloads_offered,
    pictures_encoded,
};
use crate::bytes::copy_bytes;
use crate::errors::CameraError;
use crate::platform::{is_device_frame, is_mock_frame, parsed_device_index, MockCaptureMode, PlatformCamera};
use crate::text::{decimal, decimal_string};
use crate::types::{CameraControls, CameraFormat, CameraFrame, CameraInitParams, Platform};
use crate::yuv::{convert_rgb_to_yuv420, is_yuv420_of, yuv420_len};
use crate::webrtc::packetizer_laws::lemma_packetize_payloads_fit_and_mark_last;

use crate::webrtc::packetizer::{
    annex_b_nal_units, packetize_safe, payload_views, seq_after, stamp, au_bodies, RtpPayloadView,
};

verus! {

/// Supported video codecs for WebRTC streaming
#[derive(Debug, Clone, Copy, PartialEq, Eq, Structural)]
pub enum VideoCodec {
    H264,
    VP8,
    VP9,
    AV1,
}

/// Streaming mode for WebRTC
#[derive(Debug, Clone, Copy, PartialEq, Eq, Structural)]
pub enum StreamMode {
    /// Use the physical camera
    RealCamera,
    /// Generate synthetic frames for testing
    SyntheticTest,
}

/// Camera availability status
#[derive(Debug, Clone)]
pub enum CameraStatus {
    Available,
    /// Reason for unavailability
    Unavailable(String),
    /// Runtime failure reason
    Failed(String),
}

impl CameraStatus {
    /// A copy of this status.
    pub fn duplicate(&self) -> (s: Self)
        ensures
            s == *self,
    {
        match self {
            CameraStatus::Available => CameraStatus::Available,
            CameraStatus::Unavailable(r) => CameraStatus::Unavailable(r.clone()),
            CameraStatus::Failed(r) => CameraStatus::Failed(r.clone()),
        }
    }
}

/// Individual simulcast layer configuration
#[derive(Debug, Clone)]
pub struct SimulcastLayer {
    /// RTP Stream ID (f, h, q, etc.)
    pub rid: String,
    pub width: u32,
    pub height: u32,
    /// Layer bitrate in bps
    pub bitrate: u32,
    pub fps: u32,
}

impl SimulcastLayer {
    /// A copy of this layer.
    pub fn duplicate(&self) -> (l: Self)
        ensures
            l == *self,
    {
        SimulcastLayer {
            rid: self.rid.clone(),
            width: self.width,
            height: self.height,
            bitrate: self.bitrate,
            fps: self.fps,
        }
    }
}

/// Simulcast configuration for multiple video layers
#[derive(Debug, Clone)]
pub struct SimulcastConfig {
    pub layers: Vec<SimulcastLayer>,
}

impl SimulcastConfig {
    /// A copy of this configuration.
    pub fn duplicate(&self) -> (c: Self)
        ensures
            c.layers@ == self.layers@,
    {
        let mut layers: Vec<SimulcastLayer> = Vec::new();
        let mut i: usize = 0;
        while i < self.layers.len()
            invariant
                i <= self.layers@.len(),
                layers@ == self.layers@.subrange(0, i as int),
            decreases self.layers@.len() - i,
        {
            layers.push(self.layers[i].duplicate());
            i = i + 1;
            assert(layers@ =~= self.layers@.subrange(0, i as int));
        }
        assert(self.layers@.subrange(0, i as int) =~= self.layers@);
        SimulcastConfig { layers }
    }
}

fn layer(rid: &str, width: u32, height: u32, bitrate: u32, fps: u32) -> (l: SimulcastLayer)
    ensures
        l.rid@ == rid@,
        l.width == width,
        l.height == height,
        l.bitrate == bitrate,
        l.fps == fps,
{
    SimulcastLayer { rid: String::from_str(rid), width, height, bitrate, fps }
}

impl Default for SimulcastConfig {
    /// Three layers: full (`f`, 1280x720, 2 Mbps, 30 fps), half (`h`, 640x360, 500 kbps,
    /// 15 fps) and quarter (`q`, 320x180, 150 kbps, 10 fps) resolution.
    fn default() -> (c: Self)
        ensures
            c.layers@.len() == 3,
            c.layers@[0].rid@ == "f"@ && c.layers@[0].width == 1280 && c.layers@[0].height == 720
                && c.layers@[0].bitrate == 2_000_000 && c.layers@[0].fps == 30,
            c.layers@[1].rid@ == "h"@ && c.layers@[1].width == 640 && c.layers@[1].height == 360
                && c.layers@[1].bitrate == 500_000 && c.layers@[1].fps == 15,
            c.layers@[2].rid@ == "q"@ && c.layers@[2].width == 320 && c.layers@[2].height == 180
                && c.layers@[2].bitrate == 150_000 && c.layers@[2].fps == 10,
    {
        let mut layers: Vec<SimulcastLayer> = Vec::new();
        layers.push(layer("f", 1280, 720, 2_000_000, 30));
        layers.push(layer("h", 640, 360, 500_000, 15));
        layers.push(layer("q", 320, 180, 150_000, 10));
        SimulcastConfig { layers }
    }
}

/// WebRTC streaming configuration
#[derive(Debug, Clone)]
pub struct StreamConfig {
    /// Target bitrate in bps
    pub bitrate: u32,
    /// Maximum frames per second
    pub max_fps: u32,
    pub width: u32,
    pub height: u32,
    pub codec: VideoCodec,
    /// Optional simulcast configuration
    pub simulcast: Option<SimulcastConfig>,
}

/// The mathematical value of a [`StreamConfig`].
pub struct StreamConfigView {
    pub bitrate: u32,
    pub max_fps: u32,
    pub width: u32,
    pub height: u32,
    pub codec: VideoCodec,
    pub simulcast: Option<Seq<SimulcastLayer>>,
}

impl View for StreamConfig {
    type V = StreamConfigView;

    open spec fn view(&self) -> StreamConfigView {
        StreamConfigView {
            bitrate: self.bitrate,
            max_fps: self.max_fps,
            width: self.width,
            height: self.height,
            codec: self.codec,
            simulcast: match self.simulcast {
                Some(s) => Some(s.layers@),
                None => None,
            },
        }
    }
}

impl StreamConfig {
    /// The default configuration: 2 Mbps, 30 fps, 1280x720, H.264, no simulcast.
    pub open spec fn spec_default() -> StreamConfigView {
        StreamConfigView {
            bitrate: 2_000_000,
            max_fps: 30,
            width: 1280,
            height: 720,
            codec: VideoCodec::H264,
            simulcast: None,
        }
    }

    /// A copy of this configuration.
    pub fn duplicate(&self) -> (c: Self)
        ensures
            c@ == self@,
    {
        StreamConfig {
            bitrate: self.bitrate,
            max_fps: self.max_fps,
            width: self.width,
            height: self.height,
            codec: self.codec,
            simulcast: match &self.simulcast {
                Some(s) => Some(s.duplicate()),
                None => None,
            },
        }
    }
}

impl Default for StreamConfig {
    fn default() -> (c: Self)
        ensures
            c@ == StreamConfig::spec_default(),
    {
        StreamConfig {
            bitrate: 2_000_000,
            max_fps: 30,
            width: 1280,
            height: 720,
            codec: VideoCodec::H264,
            simulcast: None,
        }
    }
}

/// Frame type for WebRTC streaming
#[derive(Debug, Clone, Copy, PartialEq, Eq, Structural)]
pub enum WebRTCFrameType {
    /// I-frame
    Keyframe,
    /// P-frame
    Delta,
}

/// Encoded frame for WebRTC transmission
#[derive(Clone)]
pub struct EncodedFrame {
    pub data: Vec<u8>,
    pub timestamp: u64,
    pub frame_type: WebRTCFrameType,
    pub width: u32,
    pub height: u32,
    /// Whether the encoder that made the frame had been asked for an intra (IDR) frame.
    pub intra_requested: Ghost<bool>,
    /// The YUV 4:2:0 picture that was handed to the encoder.
    pub picture: Ghost<Seq<u8>>,
}

/// The mathematical value of an [`EncodedFrame`].
pub struct EncodedFrameView {
    pub data: Seq<u8>,
    pub timestamp: u64,
    pub frame_type: WebRTCFrameType,
    pub width: u32,
    pub height: u32,
    pub intra_requested: bool,
    pub picture: Seq<u8>,
}

impl View for EncodedFrame {
    type V = EncodedFrameView;

    open spec fn view(&self) -> EncodedFrameView {
        EncodedFrameView {
            data: self.data@,
            timestamp: self.timestamp,
            frame_type: self.frame_type,
            width: self.width,
            height: self.height,
            intra_requested: self.intra_requested@,
            picture: self.picture@,
        }
    }
}

impl EncodedFrame {
    /// A copy of this frame.
    pub fn duplicate(&self) -> (f: Self)
        ensures
            f@ == self@,
    {
        EncodedFrame {
            data: crate::bytes::copy_bytes(self.data.as_slice()),
            timestamp: self.timestamp,
            frame_type: self.frame_type,
            width: self.width,
            height: self.height,
            intra_requested: Ghost(self.intra_requested@),
            picture: Ghost(self.picture@),
        }
    }
}

/// Encoded audio packet for WebRTC transmission
#[derive(Debug, Clone)]
pub struct WebRTCAudioPacket {
    pub data: Vec<u8>,
    pub timestamp: u64,
    pub sample_rate: i32,
    pub channels: i32,
}

/// Stream statistics
#[derive(Debug)]
pub struct StreamStats {
    pub stream_id: String,
    pub is_active: bool,
    pub target_bitrate: u32,
    pub current_fps: u32,
    pub resolution: (u32, u32),
    pub codec: VideoCodec,
    pub subscribers: usize,
    pub mode: StreamMode,
    pub camera_status: CameraStatus,
}

/// Consecutive failures after which a stream stops itself.
pub const MAX_FAILURES: u32 = 10;

/// Frames between forced keyframes.
pub const KEYFRAME_INTERVAL: u64 = 30;

/// Encoded frames that the frame channel buffers for slow subscribers.
pub const FRAME_BUFFER: usize = 100;

/// MTU budget given to the H.264 packetizer of a new stream.
pub const DEFAULT_MTU: usize = 1200;

/// WebRTC streaming manager: the state of one stream.
pub struct WebRTCStreamer {
    config: StreamConfig,
    frame_sender: broadcast::Sender<EncodedFrame>,
    rtp_sender: Option<UnboundedSender<RtpPayload>>,
    is_streaming: bool,
    stream_id: String,
    h264_packetizer: Option<H264RTPPacketizer>,
    opus_packetizer: Option<OpusRTPPacketizer>,
    device_id: String,
    paused: bool,
    failure_count: u32,
    max_failures: u32,
    mode: StreamMode,
    camera_status: CameraStatus,
    /// The frame that the stream last captured (or made up), if any.
    last_capture: Ghost<Option<CameraFrame>>,
    /// How many frames the H.264 encoder has refused (failed to encode).
    encoder_refusals: Ghost<nat>,
}

/// The state of a stream as contracts see it.
pub struct StreamerView {
    pub stream_id: Seq<char>,
    pub device_id: Seq<char>,
    pub is_streaming: bool,
    pub config: StreamConfigView,
    pub h264_packetizer: Option<H264RTPPacketizer>,
    pub opus_packetizer: Option<OpusRTPPacketizer>,
    pub paused: bool,
    pub failure_count: u32,
    pub max_failures: u32,
    pub mode: StreamMode,
    pub camera_status: CameraStatus,
    pub has_rtp_sender: bool,
    pub frames_sent: Seq<EncodedFrameView>,
    pub payloads_sent: Seq<RtpPayloadView>,
}

impl View for WebRTCStreamer {
    type V = StreamerView;

    open spec fn view(&self) -> StreamerView {
        StreamerView {
            stream_id: self.spec_stream_id(),
            device_id: self.spec_device_id(),
            is_streaming: self.spec_is_streaming(),
            config: self.spec_config(),
            h264_packetizer: self.spec_h264_packetizer(),
            opus_packetizer: self.spec_opus_packetizer(),
            paused: self.spec_paused(),
            failure_count: self.spec_failure_count(),
            max_failures: self.spec_max_failures(),
            mode: self.spec_mode(),
            camera_status: self.spec_camera_status(),
            has_rtp_sender: self.spec_has_rtp_sender(),
            frames_sent: self.spec_frames_sent(),
            payloads_sent: self.spec_payloads_sent(),
        }
    }
}

impl WebRTCStreamer {
    pub closed spec fn spec_config(&self) -> StreamConfigView {
        self.config@
    }

    /// The frame that the stream last captured from its camera, or made up in its place.
    pub closed spec fn spec_last_capture(&self) -> Option<CameraFrame> {
        self.last_capture@
    }

    /// How many frames the H.264 encoder has refused to encode.
    pub closed spec fn spec_encoder_refusals(&self) -> nat {
        self.encoder_refusals@
    }

    /// Whether an RTP sender is attached.
    pub closed spec fn spec_has_rtp_sender(&self) -> bool {
        self.rtp_sender is Some
    }

    pub closed spec fn spec_is_streaming(&self) -> bool {
        self.is_streaming
    }

    pub closed spec fn spec_stream_id(&self) -> Seq<char> {
        self.stream_id@
    }

    pub closed spec fn spec_device_id(&self) -> Seq<char> {
        self.device_id@
    }

    pub closed spec fn spec_h264_packetizer(&self) -> Option<H264RTPPacketizer> {
        self.h264_packetizer
    }

    pub closed spec fn spec_opus_packetizer(&self) -> Option<OpusRTPPacketizer> {
        self.opus_packetizer
    }

    pub closed spec fn spec_paused(&self) -> bool {
        self.paused
    }

    pub closed spec fn spec_failure_count(&self) -> u32 {
        self.failure_count
    }

    pub closed spec fn spec_max_failures(&self) -> u32 {
        self.max_failures
    }

    pub closed spec fn spec_mode(&self) -> StreamMode {
        self.mode
    }

    pub closed spec fn spec_camera_status(&self) -> CameraStatus {
        self.camera_status
    }

    /// The encoded frames handed to the frame channel so far, in order.
    pub closed spec fn spec_frames_sent(&self) -> Seq<EncodedFrameView> {
        frames_offered(self.frame_sender)
    }

    /// The RTP payloads handed to the attached RTP sender so far, in order (none without a
    /// sender).
    pub closed spec fn spec_payloads_sent(&self) -> Seq<RtpPayloadView> {
        match self.rtp_sender {
            Some(sender) => payloads_offered(sender),
            None => Seq::empty(),
        }
    }

    /// Everything but the stream's running flag and device is as in `other`.
    pub open spec fn same_settings(&self, other: &Self) -> bool {
        &&& self.spec_config() == other.spec_config()
        &&& self.spec_stream_id() == other.spec_stream_id()
        &&& self.spec_h264_packetizer() == other.spec_h264_packetizer()
        &&& self.spec_opus_packetizer() == other.spec_opus_packetizer()
        &&& self.spec_paused() == other.spec_paused()
        &&& self.spec_failure_count() == other.spec_failure_count()
        &&& self.spec_max_failures() == other.spec_max_failures()
        &&& self.spec_mode() == other.spec_mode()
        &&& self.spec_camera_status() == other.spec_camera_status()
        &&& self.spec_has_rtp_sender() == other.spec_has_rtp_sender()
        &&& self.spec_frames_sent() == other.spec_frames_sent()
        &&& self.spec_payloads_sent() == other.spec_payloads_sent()
    }

    /// Create a new WebRTC streamer
    pub fn new(stream_id: String, config: StreamConfig) -> (s: Self)
        ensures
            s.spec_config() == config@,
            !s.spec_is_streaming(),
            s.spec_stream_id() == stream_id@,
            s.spec_device_id() == Seq::<char>::empty(),
            s.spec_h264_packetizer() is None,
            s.spec_opus_packetizer() is None,
            !s.spec_paused(),
            s.spec_failure_count() == 0,
            s.spec_max_failures() == MAX_FAILURES,
            s.spec_mode() == StreamMode::RealCamera,
            s.spec_camera_status() == CameraStatus::Available,
            !s.spec_has_rtp_sender(),
            s.spec_frames_sent().len() == 0,
            s.spec_payloads_sent().len() == 0,
    {
        WebRTCStreamer {
            config,
            frame_sender: broadcast_channel(FRAME_BUFFER),
            rtp_sender: None,
            is_streaming: false,
            stream_id,
            h264_packetizer: None,
            opus_packetizer: None,
            device_id: String::new(),
            paused: false,
            failure_count: 0,
            max_failures: MAX_FAILURES,
            mode: StreamMode::RealCamera,
            camera_status: CameraStatus::Available,
            last_capture: Ghost(None),
            encoder_refusals: Ghost(0),
        }
    }

    /// The stream's identifier.
    pub fn stream_id(&self) -> (id: &String)
        ensures
            id@ == self.spec_stream_id(),
    {
        &self.stream_id
    }

    /// The device that the stream reads from while it runs (empty when stopped).
    pub fn device_id(&self) -> (id: &String)
        ensures
            id@ == self.spec_device_id(),
    {
        &self.device_id
    }

    /// Start streaming camera frames; a stream that already runs is refused.
    pub fn start_streaming(&mut self, device_id: String) -> (res: Result<(), String>)
        ensures
            old(self).spec_is_streaming() ==> {
                &&& res is Err
                &&& res->Err_0@ == "Stream already active"@
                &&& *final(self) == *old(self)
            },
            !old(self).spec_is_streaming() ==> {
                &&& res is Ok
                &&& final(self).spec_is_streaming()
                &&& final(self).spec_device_id() == device_id@
                &&& final(self).same_settings(old(self))
            },
    {
        if self.is_streaming {
            return Err(String::from_str("Stream already active"));
        }
        self.is_streaming = true;
        self.device_id = device_id;
        Ok(())
    }

    /// Stop streaming; stopping a stream that does not run changes nothing.
    pub fn stop_streaming(&mut self) -> (res: Result<(), String>)
        ensures
            res is Ok,
            !final(self).spec_is_streaming(),
            old(self).spec_is_streaming() ==> final(self).spec_device_id() == Seq::<char>::empty(),
            !old(self).spec_is_streaming() ==> final(self).spec_device_id()
                == old(self).spec_device_id(),
            final(self).same_settings(old(self)),
    {
        if !self.is_streaming {
            return Ok(());
        }
        self.is_streaming = false;
        self.device_id = String::new();
        Ok(())
    }

    /// Check if currently streaming
    pub fn is_streaming(&self) -> (b: bool)
        ensures
            b == self.spec_is_streaming(),
    {
        self.is_streaming
    }

    /// Get current stream configuration
    pub fn get_config(&self) -> (c: StreamConfig)
        ensures
            c@ == self.spec_config(),
    {
        self.config.duplicate()
    }

    /// Update stream configuration
    pub fn update_config(&mut self, config: StreamConfig) -> (res: Result<(), String>)
        ensures
            final(self).spec_frames_sent() == old(self).spec_frames_sent(),
            final(self).spec_payloads_sent() == old(self).spec_payloads_sent(),
            res is Ok,
            final(self).spec_config() == config@,
            final(self).spec_is_streaming() == old(self).spec_is_streaming(),
            final(self).spec_device_id() == old(self).spec_device_id(),
            final(self).spec_stream_id() == old(self).spec_stream_id(),
            final(self).spec_h264_packetizer() == old(self).spec_h264_packetizer(),
            final(self).spec_opus_packetizer() == old(self).spec_opus_packetizer(),
            final(self).spec_paused() == old(self).spec_paused(),
            final(self).spec_failure_count() == old(self).spec_failure_count(),
            final(self).spec_max_failures() == old(self).spec_max_failures(),
            final(self).spec_mode() == old(self).spec_mode(),
            final(self).spec_camera_status() == old(self).spec_camera_status(),
            final(self).spec_has_rtp_sender() == old(self).spec_has_rtp_sender(),
    {
        self.config = config;
        Ok(())
    }

    /// Initialize H.264 RTP packetizer
    pub fn init_h264_packetizer(&mut self, mtu: usize)
        ensures
            final(self).spec_frames_sent() == old(self).spec_frames_sent(),
            final(self).spec_payloads_sent() == old(self).spec_payloads_sent(),
            final(self).spec_h264_packetizer() matches Some(p) && p.spec_mtu() == (if mtu
                < crate::webrtc::packetizer::MAX_MTU {
                mtu
            } else {
                crate::webrtc::packetizer::MAX_MTU
            }) && p.spec_sequence_number() == 0,
            final(self).spec_config() == old(self).spec_config(),
            final(self).spec_is_streaming() == old(self).spec_is_streaming(),
            final(self).spec_device_id() == old(self).spec_device_id(),
            final(self).spec_stream_id() == old(self).spec_stream_id(),
            final(self).spec_opus_packetizer() == old(self).spec_opus_packetizer(),
            final(self).spec_paused() == old(self).spec_paused(),
            final(self).spec_failure_count() == old(self).spec_failure_count(),
            final(self).spec_max_failures() == old(self).spec_max_failures(),
            final(self).spec_mode() == old(self).spec_mode(),
            final(self).spec_camera_status() == old(self).spec_camera_status(),
            final(self).spec_has_rtp_sender() == old(self).spec_has_rtp_sender(),
    {
        self.h264_packetizer = Some(H264RTPPacketizer::new(mtu));
    }

    /// Initialize Opus RTP packetizer
    pub fn init_opus_packetizer(&mut self)
        ensures
            final(self).spec_frames_sent() == old(self).spec_frames_sent(),
            final(self).spec_payloads_sent() == old(self).spec_payloads_sent(),
            final(self).spec_opus_packetizer() matches Some(p) && p.spec_sequence_number() == 0
                && p.spec_timestamp() == 0,
            final(self).spec_config() == old(self).spec_config(),
            final(self).spec_is_streaming() == old(self).spec_is_streaming(),
            final(self).spec_device_id() == old(self).spec_device_id(),
            final(self).spec_stream_id() == old(self).spec_stream_id(),
            final(self).spec_h264_packetizer() == old(self).spec_h264_packetizer(),
            final(self).spec_paused() == old(self).spec_paused(),
            final(self).spec_failure_count() == old(self).spec_failure_count(),
            final(self).spec_max_failures() == old(self).spec_max_failures(),
            final(self).spec_mode() == old(self).spec_mode(),
            final(self).spec_camera_status() == old(self).spec_camera_status(),
            final(self).spec_has_rtp_sender() == old(self).spec_has_rtp_sender(),
    {
        self.opus_packetizer = Some(OpusRTPPacketizer::new());
    }

    /// Pause streaming (stop sending RTP packets)
    pub fn pause_stream(&mut self)
        ensures
            final(self).spec_frames_sent() == old(self).spec_frames_sent(),
            final(self).spec_payloads_sent() == old(self).spec_payloads_sent(),
            final(self).spec_paused(),
            final(self).spec_is_streaming() == old(self).spec_is_streaming(),
            final(self).spec_device_id() == old(self).spec_device_id(),
            final(self).spec_config() == old(self).spec_config(),
            final(self).spec_failure_count() == old(self).spec_failure_count(),
            final(self).spec_mode() == old(self).spec_mode(),
            final(self).spec_h264_packetizer() == old(self).spec_h264_packetizer(),
            final(self).spec_has_rtp_sender() == old(self).spec_has_rtp_sender(),
            final(self).spec_stream_id() == old(self).spec_stream_id(),
            final(self).spec_opus_packetizer() == old(self).spec_opus_packetizer(),
            final(self).spec_max_failures() == old(self).spec_max_failures(),
            final(self).spec_camera_status() == old(self).spec_camera_status(),
    {
        self.paused = true;
    }

    /// Resume streaming
    pub fn resume_stream(&mut self)
        ensures
            final(self).spec_frames_sent() == old(self).spec_frames_sent(),
            final(self).spec_payloads_sent() == old(self).spec_payloads_sent(),
            !final(self).spec_paused(),
            final(self).spec_is_streaming() == old(self).spec_is_streaming(),
            final(self).spec_device_id() == old(self).spec_device_id(),
            final(self).spec_config() == old(self).spec_config(),
            final(self).spec_failure_count() == old(self).spec_failure_count(),
            final(self).spec_mode() == old(self).spec_mode(),
            final(self).spec_h264_packetizer() == old(self).spec_h264_packetizer(),
            final(self).spec_has_rtp_sender() == old(self).spec_has_rtp_sender(),
            final(self).spec_stream_id() == old(self).spec_stream_id(),
            final(self).spec_opus_packetizer() == old(self).spec_opus_packetizer(),
            final(self).spec_max_failures() == old(self).spec_max_failures(),
            final(self).spec_camera_status() == old(self).spec_camera_status(),
    {
        self.paused = false;
    }

    /// Whether RTP sending is paused.
    pub fn is_paused(&self) -> (b: bool)
        ensures
            b == self.spec_paused(),
    {
        self.paused
    }

    /// Set streaming mode
    pub fn set_mode(&mut self, mode: StreamMode)
        ensures
            final(self).spec_frames_sent() == old(self).spec_frames_sent(),
            final(self).spec_payloads_sent() == old(self).spec_payloads_sent(),
            final(self).spec_mode() == mode,
            final(self).spec_is_streaming() == old(self).spec_is_streaming(),
            final(self).spec_device_id() == old(self).spec_device_id(),
            final(self).spec_config() == old(self).spec_config(),
            final(self).spec_paused() == old(self).spec_paused(),
            final(self).spec_failure_count() == old(self).spec_failure_count(),
            final(self).spec_h264_packetizer() == old(self).spec_h264_packetizer(),
            final(self).spec_stream_id() == old(self).spec_stream_id(),
            final(self).spec_camera_status() == old(self).spec_camera_status(),
            final(self).spec_has_rtp_sender() == old(self).spec_has_rtp_sender(),
            final(self).spec_opus_packetizer() == old(self).spec_opus_packetizer(),
            final(self).spec_max_failures() == old(self).spec_max_failures(),
    {
        self.mode = mode;
    }

    /// Get current streaming mode
    pub fn get_mode(&self) -> (m: StreamMode)
        ensures
            m == self.spec_mode(),
    {
        self.mode
    }

    /// Get camera status
    pub fn get_camera_status(&self) -> (s: CameraStatus)
        ensures
            s == self.spec_camera_status(),
    {
        self.camera_status.duplicate()
    }

    /// Records the camera's status.
    pub fn set_camera_status(&mut self, status: CameraStatus)
        ensures
            final(self).spec_frames_sent() == old(self).spec_frames_sent(),
            final(self).spec_payloads_sent() == old(self).spec_payloads_sent(),
            final(self).spec_camera_status() == status,
            final(self).spec_is_streaming() == old(self).spec_is_streaming(),
            final(self).spec_config() == old(self).spec_config(),
            final(self).spec_paused() == old(self).spec_paused(),
            final(self).spec_failure_count() == old(self).spec_failure_count(),
            final(self).spec_mode() == old(self).spec_mode(),
            final(self).spec_h264_packetizer() == old(self).spec_h264_packetizer(),
            final(self).spec_has_rtp_sender() == old(self).spec_has_rtp_sender(),
    {
        self.camera_status = status;
    }

    /// Set target bitrate
    pub fn set_bitrate(&mut self, bitrate: u32)
        ensures
            final(self).spec_frames_sent() == old(self).spec_frames_sent(),
            final(self).spec_payloads_sent() == old(self).spec_payloads_sent(),
            final(self).spec_config() == (StreamConfigView { bitrate, ..old(self).spec_config() }),
            final(self).spec_is_streaming() == old(self).spec_is_streaming(),
            final(self).spec_device_id() == old(self).spec_device_id(),
            final(self).spec_paused() == old(self).spec_paused(),
            final(self).spec_failure_count() == old(self).spec_failure_count(),
            final(self).spec_mode() == old(self).spec_mode(),
            final(self).spec_h264_packetizer() == old(self).spec_h264_packetizer(),
            final(self).spec_stream_id() == old(self).spec_stream_id(),
            final(self).spec_camera_status() == old(self).spec_camera_status(),
            final(self).spec_has_rtp_sender() == old(self).spec_has_rtp_sender(),
            final(self).spec_opus_packetizer() == old(self).spec_opus_packetizer(),
            final(self).spec_max_failures() == old(self).spec_max_failures(),
    {
        self.config.bitrate = bitrate;
    }

    /// Counts a streaming failure; once more than the allowed number of failures have
    /// happened in a row, the stream stops.
    pub fn handle_failure(&mut self)
        requires
            old(self).spec_failure_count() < u32::MAX,
        ensures
            final(self).spec_encoder_refusals() == old(self).spec_encoder_refusals(),
            final(self).spec_last_capture() == old(self).spec_last_capture(),
            final(self).spec_opus_packetizer() == old(self).spec_opus_packetizer(),
            final(self).spec_frames_sent() == old(self).spec_frames_sent(),
            final(self).spec_payloads_sent() == old(self).spec_payloads_sent(),
            final(self).spec_failure_count() == old(self).spec_failure_count() + 1,
            final(self).spec_is_streaming() == (old(self).spec_is_streaming()
                && final(self).spec_failure_count() <= old(self).spec_max_failures()),
            final(self).spec_device_id() == old(self).spec_device_id(),
            final(self).spec_config() == old(self).spec_config(),
            final(self).spec_paused() == old(self).spec_paused(),
            final(self).spec_max_failures() == old(self).spec_max_failures(),
            final(self).spec_mode() == old(self).spec_mode(),
            final(self).spec_h264_packetizer() == old(self).spec_h264_packetizer(),
            final(self).spec_stream_id() == old(self).spec_stream_id(),
            final(self).spec_camera_status() == old(self).spec_camera_status(),
            final(self).spec_has_rtp_sender() == old(self).spec_has_rtp_sender(),
    {
        self.failure_count = self.failure_count + 1;
        if self.failure_count > self.max_failures {
            self.is_streaming = false;
        }
    }

    /// Reset failure count
    pub fn reset_failures(&mut self)
        ensures
            final(self).spec_encoder_refusals() == old(self).spec_encoder_refusals(),
            final(self).spec_last_capture() == old(self).spec_last_capture(),
            final(self).spec_opus_packetizer() == old(self).spec_opus_packetizer(),
            final(self).spec_frames_sent() == old(self).spec_frames_sent(),
            final(self).spec_payloads_sent() == old(self).spec_payloads_sent(),
            final(self).spec_failure_count() == 0,
            final(self).spec_is_streaming() == old(self).spec_is_streaming(),
            final(self).spec_device_id() == old(self).spec_device_id(),
            final(self).spec_config() == old(self).spec_config(),
            final(self).spec_paused() == old(self).spec_paused(),
            final(self).spec_max_failures() == old(self).spec_max_failures(),
            final(self).spec_mode() == old(self).spec_mode(),
            final(self).spec_h264_packetizer() == old(self).spec_h264_packetizer(),
            final(self).spec_stream_id() == old(self).spec_stream_id(),
            final(self).spec_camera_status() == old(self).spec_camera_status(),
            final(self).spec_has_rtp_sender() == old(self).spec_has_rtp_sender(),
    {
        self.failure_count = 0;
    }

    /// Packetize H.264 frame into RTP payloads
    pub fn packetize_h264_frame(&mut self, frame: &EncodedFrame) -> (res: Result<
        Vec<RtpPayload>,
        String,
    >)
        requires
            old(self).spec_h264_packetizer() matches Some(p) ==> packetize_safe(
                p.spec_mtu() as int,
                frame.data@,
            ),
        ensures
            final(self).spec_encoder_refusals() == old(self).spec_encoder_refusals(),
            final(self).spec_last_capture() == old(self).spec_last_capture(),
            final(self).spec_frames_sent() == old(self).spec_frames_sent(),
            final(self).spec_payloads_sent() == old(self).spec_payloads_sent(),
            old(self).spec_h264_packetizer() is None ==> {
                &&& res is Err
                &&& res->Err_0@ == "H.264 packetizer not initialized"@
                &&& final(self).spec_h264_packetizer() is None
            },
            old(self).spec_h264_packetizer() matches Some(p) ==> ({
                let nals = annex_b_nal_units(frame.data@);
                let bodies = au_bodies(nals, p.spec_mtu() as int, nals.len() as int);
                &&& final(self).spec_h264_packetizer() matches Some(q) && q.spec_mtu()
                    == p.spec_mtu()
                &&& nals.len() == 0 ==> res is Err && res->Err_0@
                    == "No valid NAL units found in access unit"@
                    && final(self).spec_h264_packetizer()->0.spec_sequence_number()
                    == p.spec_sequence_number()
                &&& nals.len() > 0 ==> res is Ok && payload_views(res->Ok_0@) == stamp(
                    bodies,
                    frame.timestamp,
                    p.spec_sequence_number(),
                ) && final(self).spec_h264_packetizer()->0.spec_sequence_number() == seq_after(
                    p.spec_sequence_number(),
                    bodies.len() as int,
                )
            }),
            final(self).spec_opus_packetizer() == old(self).spec_opus_packetizer(),
            final(self).spec_is_streaming() == old(self).spec_is_streaming(),
            final(self).spec_device_id() == old(self).spec_device_id(),
            final(self).spec_config() == old(self).spec_config(),
            final(self).spec_paused() == old(self).spec_paused(),
            final(self).spec_failure_count() == old(self).spec_failure_count(),
            final(self).spec_max_failures() == old(self).spec_max_failures(),
            final(self).spec_mode() == old(self).spec_mode(),
            final(self).spec_stream_id() == old(self).spec_stream_id(),
            final(self).spec_camera_status() == old(self).spec_camera_status(),
            final(self).spec_has_rtp_sender() == old(self).spec_has_rtp_sender(),
    {
        match &mut self.h264_packetizer {
            Some(p) => p.packetize(frame.data.as_slice(), frame.timestamp),
            None => Err(String::from_str("H.264 packetizer not initialized")),
        }
    }

    /// Consecutive failures counted so far.
    pub fn failure_count(&self) -> (n: u32)
        ensures
            n == self.spec_failure_count(),
    {
        self.failure_count
    }

    /// Subscribe to encoded frames
    pub fn subscribe_frames(&self) -> broadcast::Receiver<EncodedFrame> {
        broadcast_subscribe(&self.frame_sender)
    }

    /// Set RTP sender for forwarding packets to peer connection
    pub fn set_rtp_sender(&mut self, sender: UnboundedSender<RtpPayload>)
        ensures
            final(self).spec_frames_sent() == old(self).spec_frames_sent(),
            final(self).spec_payloads_sent() == payloads_offered(sender),
            final(self).spec_has_rtp_sender(),
            final(self).spec_is_streaming() == old(self).spec_is_streaming(),
            final(self).spec_device_id() == old(self).spec_device_id(),
            final(self).spec_config() == old(self).spec_config(),
            final(self).spec_paused() == old(self).spec_paused(),
            final(self).spec_failure_count() == old(self).spec_failure_count(),
            final(self).spec_mode() == old(self).spec_mode(),
            final(self).spec_h264_packetizer() == old(self).spec_h264_packetizer(),
            final(self).spec_stream_id() == old(self).spec_stream_id(),
            final(self).spec_opus_packetizer() == old(self).spec_opus_packetizer(),
            final(self).spec_max_failures() == old(self).spec_max_failures(),
            final(self).spec_camera_status() == old(self).spec_camera_status(),
    {
        self.rtp_sender = Some(sender);
    }

    /// Clear RTP sender
    pub fn clear_rtp_sender(&mut self)
        ensures
            final(self).spec_frames_sent() == old(self).spec_frames_sent(),
            final(self).spec_payloads_sent() == Seq::<RtpPayloadView>::empty(),
            !final(self).spec_has_rtp_sender(),
            final(self).spec_is_streaming() == old(self).spec_is_streaming(),
            final(self).spec_device_id() == old(self).spec_device_id(),
            final(self).spec_config() == old(self).spec_config(),
            final(self).spec_paused() == old(self).spec_paused(),
            final(self).spec_failure_count() == old(self).spec_failure_count(),
            final(self).spec_mode() == old(self).spec_mode(),
            final(self).spec_h264_packetizer() == old(self).spec_h264_packetizer(),
            final(self).spec_stream_id() == old(self).spec_stream_id(),
    {
        self.rtp_sender = None;
    }

    /// Get stream statistics. The subscriber count is the frame channel's receiver count.
    pub fn get_stats(&self) -> (st: StreamStats)
        ensures
            st.stream_id@ == self.spec_stream_id(),
            st.is_active == self.spec_is_streaming(),
            st.target_bitrate == self.spec_config().bitrate,
            st.current_fps == (if self.spec_is_streaming() { self.spec_config().max_fps } else { 0 }),
            st.resolution == (self.spec_config().width, self.spec_config().height),
            st.codec == self.spec_config().codec,
            st.mode == self.spec_mode(),
            st.camera_status == self.spec_camera_status(),
    {
        let is_active = self.is_streaming;
        StreamStats {
            stream_id: self.stream_id.clone(),
            is_active,
            target_bitrate: self.config.bitrate,
            current_fps: if is_active {
                self.config.max_fps
            } else {
                0
            },
            resolution: (self.config.width, self.config.height),
            codec: self.config.codec,
            subscribers: broadcast_receiver_count(&self.frame_sender),
            mode: self.mode,
            camera_status: self.camera_status.duplicate(),
        }
    }

    /// Sends an encoded frame to the frame subscribers.
    fn publish_frame(&mut self, frame: EncodedFrame)
        ensures
            final(self).spec_encoder_refusals() == old(self).spec_encoder_refusals(),
            final(self).spec_last_capture() == old(self).spec_last_capture(),
            final(self)@ == (StreamerView {
                frames_sent: old(self)@.frames_sent.push(frame@),
                ..old(self)@
            }),
    {
        let _delivered = broadcast_send(&mut self.frame_sender, frame);
    }

    /// Sends an RTP payload to the attached RTP sender. Returns whether the send went through.
    fn send_payload(&mut self, payload: RtpPayload) -> (sent: bool)
        requires
            old(self).spec_has_rtp_sender(),
        ensures
            final(self).spec_encoder_refusals() == old(self).spec_encoder_refusals(),
            final(self).spec_last_capture() == old(self).spec_last_capture(),
            final(self)@ == (StreamerView {
                payloads_sent: old(self)@.payloads_sent.push(payload@),
                ..old(self)@
            }),
    {
        match &mut self.rtp_sender {
            Some(sender) => unbounded_send(sender, payload),
            None => true,
        }
    }

    /// Hands an encoded frame on: to the frame subscribers, and, unless the stream is paused,
    /// as H.264 RTP packets to the RTP sender if one is attached. Returns `false` when the
    /// frame could not be packetized (a failure is counted and the frame is dropped); else the
    /// failure count starts again from zero (a failed RTP send is counted first and stops
    /// sending the rest of the frame's packets).
    pub fn deliver_encoded_frame(&mut self, frame: EncodedFrame) -> (done: bool)
        requires
            old(self).spec_failure_count() < u32::MAX,
            old(self).spec_h264_packetizer() matches Some(p) ==> p.spec_mtu() >= 15,
        ensures
            final(self).spec_encoder_refusals() == old(self).spec_encoder_refusals(),
            final(self).spec_last_capture() == old(self).spec_last_capture(),
            done == !(!old(self).spec_paused() && old(self).spec_has_rtp_sender() && (
            old(self).spec_h264_packetizer() is None || annex_b_nal_units(frame.data@).len()
                == 0)),
            final(self).spec_frames_sent() == old(self).spec_frames_sent().push(frame@),
            (old(self).spec_paused() || !old(self).spec_has_rtp_sender() || !done) ==> final(self).spec_payloads_sent() == old(self).spec_payloads_sent(),
            done && !old(self).spec_paused() && old(self).spec_has_rtp_sender() ==> (old(self).spec_h264_packetizer() matches Some(p) && exists|k: int|
                1 <= k <= rtp_payloads_of(p, frame@).len() && #[trigger] final(self).spec_payloads_sent()
                    == old(self).spec_payloads_sent() + rtp_payloads_of(p, frame@).take(k)),
            !done ==> final(self).spec_failure_count() == old(self).spec_failure_count() + 1
                && final(self).spec_is_streaming() == (old(self).spec_is_streaming()
                && old(self).spec_failure_count() + 1 <= old(self).spec_max_failures()),
            done ==> final(self).spec_failure_count() == 0,
            done ==> (final(self).spec_is_streaming() ==> old(self).spec_is_streaming()),
            done && (old(self).spec_paused() || !old(self).spec_has_rtp_sender()
                || old(self).spec_failure_count() + 1 <= old(self).spec_max_failures())
                ==> final(self).spec_is_streaming() == old(self).spec_is_streaming(),
            (old(self).spec_paused() || !old(self).spec_has_rtp_sender()) ==> final(self).spec_h264_packetizer() == old(self).spec_h264_packetizer(),
            final(self).spec_device_id() == old(self).spec_device_id(),
            final(self).spec_config() == old(self).spec_config(),
            final(self).spec_paused() == old(self).spec_paused(),
            final(self).spec_max_failures() == old(self).spec_max_failures(),
            final(self).spec_mode() == old(self).spec_mode(),
            final(self).spec_stream_id() == old(self).spec_stream_id(),
            final(self).spec_camera_status() == old(self).spec_camera_status(),
            final(self).spec_has_rtp_sender() == old(self).spec_has_rtp_sender(),
            final(self).spec_opus_packetizer() == old(self).spec_opus_packetizer(),
            old(self).spec_h264_packetizer() is None ==> final(self).spec_h264_packetizer() is None,
            final(self).spec_h264_packetizer() matches Some(q) ==> (old(self).spec_h264_packetizer() matches Some(p) && q.spec_mtu() == p.spec_mtu()),
    {
        self.publish_frame(frame.duplicate());
        if !self.paused && self.rtp_sender.is_some() {
            let ghost start = *self;
            let packets = match self.packetize_h264_frame(&frame) {
                Ok(p) => p,
                Err(_) => {
                    self.handle_failure();
                    return false;
                },
            };
            let ghost pv = payload_views(packets@);
            proof {
                let p = start.spec_h264_packetizer()->0;
                assert(pv == rtp_payloads_of(p, frame@));
                lemma_packetize_payloads_fit_and_mark_last(frame.data@, p.spec_mtu() as int);
            }
            let ghost before_sending = *self;
            let mut i: usize = 0;
            let mut failed = false;
            while i < packets.len() && !failed
                invariant
                    i <= packets@.len(),
                    pv == payload_views(packets@),
                    self.spec_payloads_sent() == before_sending.spec_payloads_sent() + pv.take(
                        i + (if failed {
                            1int
                        } else {
                            0int
                        }),
                    ),
                    failed ==> i < packets@.len(),
                    self.spec_failure_count() == before_sending.spec_failure_count() + (if failed {
                        1int
                    } else {
                        0int
                    }),
                    before_sending.spec_failure_count() < u32::MAX,
                    !failed ==> self.spec_is_streaming() == before_sending.spec_is_streaming(),
                    failed ==> self.spec_is_streaming() == (before_sending.spec_is_streaming()
                        && before_sending.spec_failure_count() + 1
                        <= before_sending.spec_max_failures()),
                    self.spec_device_id() == before_sending.spec_device_id(),
                    self.spec_config() == before_sending.spec_config(),
                    self.spec_paused() == before_sending.spec_paused(),
                    self.spec_max_failures() == before_sending.spec_max_failures(),
                    self.spec_mode() == before_sending.spec_mode(),
                    self.spec_stream_id() == before_sending.spec_stream_id(),
                    self.spec_camera_status() == before_sending.spec_camera_status(),
                    self.spec_has_rtp_sender() == before_sending.spec_has_rtp_sender(),
                    self.spec_has_rtp_sender(),
                    self.spec_h264_packetizer() == before_sending.spec_h264_packetizer(),
                    self.spec_opus_packetizer() == before_sending.spec_opus_packetizer(),
                    self.spec_frames_sent() == before_sending.spec_frames_sent(),
                    self.spec_last_capture() == before_sending.spec_last_capture(),
                    self.spec_encoder_refusals() == before_sending.spec_encoder_refusals(),
                decreases packets@.len() - i + (if failed {
                    0int
                } else {
                    1int
                }),
            {
                let sent = self.send_payload(packets[i].duplicate());
                proof {
                    assert(pv.take(i + 1) =~= pv.take(i as int).push(packets@[i as int]@));
                }
                if !sent {
                    self.handle_failure();
                    failed = true;
                } else {
                    i = i + 1;
                }
            }
            proof {
                let k = i + (if failed { 1int } else { 0int });
                assert(1 <= k <= pv.len());
                assert(self.spec_payloads_sent() == start.spec_payloads_sent() + pv.take(k));
            }
        }
        self.reset_failures();
        true
    }

    /// Generate a synthetic test frame for fallback when camera is unavailable: the size of
    /// the configured stream, filled with [`synthetic_pixel`].
    pub fn generate_synthetic_frame(&self, frame_counter: u64) -> (f: CameraFrame)
        requires
            self.spec_config().width as int * self.spec_config().height as int * 3 <= u32::MAX,
        ensures
            is_synthetic_frame(f, self.spec_config().width, self.spec_config().height, frame_counter),
    {
        let width = self.config.width;
        let height = self.config.height;
        let data = synthetic_frame_data(width, height, frame_counter);
        let size_bytes = data.len();
        CameraFrame {
            id: new_frame_id(),
            data,
            width,
            height,
            format: String::from_str("RGB8"),
            timestamp_ms: now_millis(),
            device_id: String::from_str("synthetic"),
            size_bytes,
        }
    }

    /// Opens the camera that a stream in real-camera mode reads from (the mock camera when
    /// `use_mock`, else the device, which the capture backend answered `device_opened` for),
    /// starts its stream and records the camera's status. Returns the camera, if one was
    /// opened, and whether frames can be captured from it.
    pub fn open_stream_camera(
        &mut self,
        device_id: &String,
        use_mock: bool,
        platform: Platform,
        device_opened: Result<(), CameraError>,
        stream_opened: Result<(), CameraError>,
    ) -> (r: (
        Option<PlatformCamera>,
        bool,
    ))
        ensures
            final(self).spec_opus_packetizer() == old(self).spec_opus_packetizer(),
            final(self).spec_frames_sent() == old(self).spec_frames_sent(),
            final(self).spec_payloads_sent() == old(self).spec_payloads_sent(),
            old(self).spec_mode() == StreamMode::SyntheticTest ==> r.0 is None && !r.1 && (
            final(self).spec_camera_status() matches CameraStatus::Unavailable(m) && m@
                == "Synthetic test mode"@),
            old(self).spec_mode() == StreamMode::RealCamera && use_mock ==> r.1 && (r.0 matches Some(
                PlatformCamera::Mock(c),
            ) && c.spec_device_id() == device_id@ && c.spec_is_streaming()
                && c.spec_capture_mode() == MockCaptureMode::Success)
                && final(self).spec_camera_status() == CameraStatus::Available,
            old(self).spec_mode() == StreamMode::RealCamera && !use_mock && platform
                == Platform::Unknown ==> r.0 is None && !r.1 && (final(self).spec_camera_status() matches CameraStatus::Unavailable(m)
                && m@ == "Init failed: Camera initialization error: Unsupported platform"@),
            old(self).spec_mode() == StreamMode::RealCamera && !use_mock && platform
                != Platform::Unknown && parsed_device_index(device_id@) is None ==> r.0 is None
                && !r.1 && (final(self).spec_camera_status() matches CameraStatus::Unavailable(m)
                && m@ == "Init failed: Camera initialization error: Invalid device ID"@),
            old(self).spec_mode() == StreamMode::RealCamera && !use_mock && platform
                != Platform::Unknown && parsed_device_index(device_id@) is Some ==> match device_opened {
                Err(e) => r.0 is None && !r.1 && (final(self).spec_camera_status() matches CameraStatus::Unavailable(m)
                    && m@ == "Init failed: "@ + e.spec_message()),
                Ok(()) => (r.0 matches Some(PlatformCamera::Device(d)) && d.spec_device_id()
                    == device_id@ && d.spec_latest() is None && d.spec_stream_open() == r.1)
                    && match stream_opened {
                    Ok(()) => r.1 && final(self).spec_camera_status() == CameraStatus::Available,
                    Err(e) => !r.1 && (final(self).spec_camera_status() matches CameraStatus::Failed(m)
                        && m@ == "Start failed: "@ + e.spec_message()),
                },
            },
            final(self).spec_config() == old(self).spec_config(),
            final(self).spec_is_streaming() == old(self).spec_is_streaming(),
            final(self).spec_device_id() == old(self).spec_device_id(),
            final(self).spec_paused() == old(self).spec_paused(),
            final(self).spec_failure_count() == old(self).spec_failure_count(),
            final(self).spec_max_failures() == old(self).spec_max_failures(),
            final(self).spec_mode() == old(self).spec_mode(),
            final(self).spec_h264_packetizer() == old(self).spec_h264_packetizer(),
            final(self).spec_stream_id() == old(self).spec_stream_id(),
            final(self).spec_has_rtp_sender() == old(self).spec_has_rtp_sender(),
    {
        match self.mode {
            StreamMode::RealCamera => {
                let params = CameraInitParams {
                    device_id: device_id.clone(),
                    format: CameraFormat {
                        width: self.config.width,
                        height: self.config.height,
                        fps: self.config.max_fps,
                        format_type: String::from_str("MJPEG"),
                    },
                    controls: CameraControls::default(),
                };
                match PlatformCamera::new(params, use_mock, platform, device_opened) {
                    Ok(mut camera) => {
                        match camera.start_stream(stream_opened) {
                            Ok(()) => {
                                self.camera_status = CameraStatus::Available;
                                (Some(camera), true)
                            },
                            Err(e) => {
                                self.camera_status = CameraStatus::Failed(
                                    String::from_str("Start failed: ").concat(e.to_string().as_str()),
                                );
                                (Some(camera), false)
                            },
                        }
                    },
                    Err(e) => {
                        let m = String::from_str("Init failed: ").concat(e.to_string().as_str());
                        proof {
                            reveal_strlit("Init failed: ");
                            reveal_strlit("Camera initialization error: ");
                            reveal_strlit("Invalid device ID");
                            reveal_strlit("Init failed: Camera initialization error: Invalid device ID");
                            reveal_strlit("Unsupported platform");
                            reveal_strlit("Init failed: Camera initialization error: Unsupported platform");
                            if !use_mock && platform == Platform::Unknown {
                                assert(m@ =~= "Init failed: Camera initialization error: Unsupported platform"@);
                            } else if !use_mock && parsed_device_index(device_id@) is None {
                                assert(m@ =~= "Init failed: Camera initialization error: Invalid device ID"@);
                            }
                        }
                        self.camera_status = CameraStatus::Unavailable(m);
                        (None, false)
                    },
                }
            },
            StreamMode::SyntheticTest => {
                self.camera_status = CameraStatus::Unavailable(String::from_str("Synthetic test mode"));
                (None, false)
            },
        }
    }

    /// The next frame of the stream: captured from the camera when the stream is in
    /// real-camera mode and the camera is available, else (or when the capture fails, which
    /// is recorded in the camera status) a synthetic frame.
    pub fn capture_stream_frame(
        &mut self,
        camera: &mut Option<PlatformCamera>,
        available: bool,
        frame_counter: u64,
    ) -> (f: CameraFrame)
        requires
            old(self).spec_config().width as int * old(self).spec_config().height as int * 3
                <= u32::MAX,
        ensures
            final(self).spec_encoder_refusals() == old(self).spec_encoder_refusals(),
            final(self).spec_opus_packetizer() == old(self).spec_opus_packetizer(),
            final(self).spec_frames_sent() == old(self).spec_frames_sent(),
            final(self).spec_payloads_sent() == old(self).spec_payloads_sent(),
            *final(camera) == *old(camera),
            is_stream_frame(
                old(self).spec_mode(),
                old(self).spec_config(),
                *old(camera),
                available,
                frame_counter,
                f,
            ),
            final(self).spec_last_capture() == Some(f),
            ({
                let capturing = old(self).spec_mode() == StreamMode::RealCamera && available;
                &&& capturing && (*old(camera) matches Some(PlatformCamera::Mock(c))
                    && c.spec_capture_mode() == MockCaptureMode::Failure) ==> (final(self).spec_camera_status() matches CameraStatus::Failed(m) && m@
                    == "Capture failed: Capture error: Mock capture failure"@)
                &&& capturing && *old(camera) is Some && !captures_camera_frame(
                    old(camera)->0,
                ) ==> final(self).spec_camera_status() is Failed
                &&& !(capturing && *old(camera) is Some && !captures_camera_frame(old(camera)->0))
                    ==> final(self).spec_camera_status() == old(self).spec_camera_status()
            }),
            final(self).spec_config() == old(self).spec_config(),
            final(self).spec_is_streaming() == old(self).spec_is_streaming(),
            final(self).spec_device_id() == old(self).spec_device_id(),
            final(self).spec_paused() == old(self).spec_paused(),
            final(self).spec_failure_count() == old(self).spec_failure_count(),
            final(self).spec_max_failures() == old(self).spec_max_failures(),
            final(self).spec_mode() == old(self).spec_mode(),
            final(self).spec_h264_packetizer() == old(self).spec_h264_packetizer(),
            final(self).spec_stream_id() == old(self).spec_stream_id(),
            final(self).spec_has_rtp_sender() == old(self).spec_has_rtp_sender(),
    {
        if self.mode == StreamMode::RealCamera && available {
            match camera {
                Some(cam) => {
                    match cam.capture_frame() {
                        Ok(frame) => {
                            self.last_capture = Ghost(Some(frame));
                            return frame;
                        },
                        Err(e) => {
                            let m = String::from_str("Capture failed: ").concat(e.to_string().as_str());
                            proof {
                                reveal_strlit("Capture failed: ");
                                reveal_strlit("Capture error: ");
                                reveal_strlit("Mock capture failure");
                                reveal_strlit("Capture failed: Capture error: Mock capture failure");
                                if let Some(PlatformCamera::Mock(c)) = *old(camera) {
                                    if c.spec_capture_mode() == MockCaptureMode::Failure {
                                        assert(m@ =~= "Capture failed: Capture error: Mock capture failure"@);
                                    }
                                }
                            }
                            self.camera_status = CameraStatus::Failed(m);
                        },
                    }
                },
                None => {},
            }
        }
        let frame = self.generate_synthetic_frame(frame_counter);
        self.last_capture = Ghost(Some(frame));
        frame
    }

    /// One pass of the stream's processing loop: takes the next frame (see
    /// [`Self::capture_stream_frame`]), decides whether it is due to be a keyframe, encodes it
    /// and hands it on (see [`Self::deliver_encoded_frame`]). A frame that the encoder cannot
    /// take (see [`encodable`]), or that fails to encode, is counted as a failure and dropped.
    /// Returns whether the frame went through, after which the caller moves on to the next
    /// frame number, and the index of the latest keyframe.
    pub fn process_one_frame(
        &mut self,
        camera: &mut Option<PlatformCamera>,
        available: bool,
        frame_counter: u64,
        last_keyframe: u64,
    ) -> (r: (bool, u64))
        requires
            last_keyframe <= frame_counter,
            old(self).spec_config().width as int * old(self).spec_config().height as int * 3
                <= u32::MAX,
            old(self).spec_failure_count() < u32::MAX,
            old(self).spec_h264_packetizer() matches Some(p) ==> p.spec_mtu() >= 15,
        ensures
            final(self).spec_last_capture() matches Some(c) && is_stream_frame(
                old(self).spec_mode(),
                old(self).spec_config(),
                *old(camera),
                available,
                frame_counter,
                c,
            ),
            ({
                let c = final(self).spec_last_capture()->0;
                let sent = final(self).spec_frames_sent();
                let due = frame_counter - last_keyframe >= KEYFRAME_INTERVAL;
                &&& !encodable(c, c.width, c.height) ==> !r.0 && sent == old(self).spec_frames_sent()
                    && final(self).spec_encoder_refusals() == old(self).spec_encoder_refusals()
                &&& r.0 ==> encodable(c, c.width, c.height)
                &&& encodable(c, c.width, c.height) && sent == old(self).spec_frames_sent() ==> !r.0
                    && final(self).spec_encoder_refusals() == old(self).spec_encoder_refusals() + 1
                &&& sent != old(self).spec_frames_sent() ==> final(self).spec_encoder_refusals()
                    == old(self).spec_encoder_refusals()
                &&& sent == old(self).spec_frames_sent() || (sent.len() == old(self).spec_frames_sent().len() + 1
                    && sent.drop_last() == old(self).spec_frames_sent() && encodes(sent.last(), c, due)
                    && r.0 == !(!old(self).spec_paused() && old(self).spec_has_rtp_sender() && (
                old(self).spec_h264_packetizer() is None || annex_b_nal_units(sent.last().data).len()
                    == 0)))
            }),
            r.0 && (old(self).spec_paused() || !old(self).spec_has_rtp_sender()
                || old(self).spec_failure_count() + 1 <= old(self).spec_max_failures())
                ==> final(self).spec_is_streaming() == old(self).spec_is_streaming(),
            frame_counter - last_keyframe >= KEYFRAME_INTERVAL ==> r.1 == frame_counter,
            frame_counter - last_keyframe < KEYFRAME_INTERVAL ==> r.1 == last_keyframe,
            !r.0 ==> is_failed_round(*old(self), *final(self)),
            r.0 ==> is_delivered_round(*old(self), *final(self)),
            is_paused_round(*old(self), *final(self)),
            *final(camera) == *old(camera),
            final(self).spec_config() == old(self).spec_config(),
            final(self).spec_device_id() == old(self).spec_device_id(),
            final(self).spec_paused() == old(self).spec_paused(),
            final(self).spec_max_failures() == old(self).spec_max_failures(),
            final(self).spec_mode() == old(self).spec_mode(),
            final(self).spec_stream_id() == old(self).spec_stream_id(),
            final(self).spec_has_rtp_sender() == old(self).spec_has_rtp_sender(),
            final(self).spec_h264_packetizer() matches Some(q) ==> q.spec_mtu() >= 15,
            old(self).spec_h264_packetizer() is None ==> final(self).spec_h264_packetizer() is None,
            final(self).spec_opus_packetizer() == old(self).spec_opus_packetizer(),
            r.0 ==> final(self).spec_frames_sent().len() == old(self).spec_frames_sent().len() + 1,
            (old(self).spec_paused() || !old(self).spec_has_rtp_sender() || !r.0) ==> final(self).spec_payloads_sent() == old(self).spec_payloads_sent(),
            r.0 && !old(self).spec_paused() && old(self).spec_has_rtp_sender() ==> (old(self).spec_h264_packetizer() matches Some(p) && exists|k: int|
                1 <= k <= rtp_payloads_of(p, final(self).spec_frames_sent().last()).len()
                    && #[trigger] final(self).spec_payloads_sent() == old(self).spec_payloads_sent()
                    + rtp_payloads_of(p, final(self).spec_frames_sent().last()).take(k)),
    {
        let frame = self.capture_stream_frame(camera, available, frame_counter);
        let (frame_type, new_last_keyframe) = next_frame_type(frame_counter, last_keyframe);
        if !frame_is_encodable(&frame) {
            self.handle_failure();
            return (false, new_last_keyframe);
        }
        let encoded = match encode_camera_frame(&frame, frame_type) {
            Ok(e) => e,
            Err(_) => {
                self.encoder_refusals = Ghost(self.encoder_refusals@ + 1);
                self.handle_failure();
                return (false, new_last_keyframe);
            },
        };
        let done = self.deliver_encoded_frame(encoded);
        (done, new_last_keyframe)
    }

    /// Packetize Opus packet into RTP payload
    pub fn packetize_opus_packet(&mut self, packet: &WebRTCAudioPacket) -> (res: Result<
        RtpPayload,
        String,
    >)
        ensures
            final(self).spec_frames_sent() == old(self).spec_frames_sent(),
            final(self).spec_payloads_sent() == old(self).spec_payloads_sent(),
            old(self).spec_opus_packetizer() is None ==> {
                &&& res is Err
                &&& res->Err_0@ == "Opus packetizer not initialized"@
                &&& final(self).spec_opus_packetizer() is None
            },
            old(self).spec_opus_packetizer() matches Some(p) ==> ({
                &&& res is Ok
                &&& res->Ok_0@ == (RtpPayloadView {
                    data: packet.data@,
                    timestamp: p.spec_timestamp(),
                    sequence_number: p.spec_sequence_number(),
                    marker: true,
                })
                &&& final(self).spec_opus_packetizer() matches Some(q) && q.spec_sequence_number()
                    == seq_after(p.spec_sequence_number(), 1) && q.spec_timestamp() == ((
                p.spec_timestamp() + opus_frame_samples(packet.sample_rate)) % 0x1_0000_0000_0000_0000) as u64
            }),
            final(self).spec_h264_packetizer() == old(self).spec_h264_packetizer(),
            final(self).spec_is_streaming() == old(self).spec_is_streaming(),
            final(self).spec_device_id() == old(self).spec_device_id(),
            final(self).spec_config() == old(self).spec_config(),
            final(self).spec_paused() == old(self).spec_paused(),
            final(self).spec_failure_count() == old(self).spec_failure_count(),
            final(self).spec_mode() == old(self).spec_mode(),
            final(self).spec_stream_id() == old(self).spec_stream_id(),
            final(self).spec_camera_status() == old(self).spec_camera_status(),
            final(self).spec_has_rtp_sender() == old(self).spec_has_rtp_sender(),
    {
        match &mut self.opus_packetizer {
            Some(p) => {
                let samples = samples_per_opus_frame(packet.sample_rate);
                p.packetize(packet.data.as_slice(), samples)
            },
            None => Err(String::from_str("Opus packetizer not initialized")),
        }
    }
}

/// RTP samples in a 20 ms Opus frame at the given sample rate: the sample rate divided by 50,
/// rounded toward zero, taken modulo 2^32 (a negative rate wraps around).
pub open spec fn opus_frame_samples(sample_rate: i32) -> u32 {
    if sample_rate >= 0 {
        (sample_rate / 50) as u32
    } else {
        ((0x1_0000_0000 - (-sample_rate) / 50) % 0x1_0000_0000) as u32
    }
}

/// A 20 ms Opus frame holds a fiftieth of a second of samples: for a sample rate that is not
/// negative, the RTP timestamp moves on per packet by the whole number of samples in 20 ms,
/// the largest count `n` with `50 * n <= sample_rate` (960 at 48 kHz).
pub proof fn lemma_opus_frame_is_20_ms(sample_rate: i32)
    requires
        sample_rate >= 0,
    ensures
        opus_frame_samples(sample_rate) * 50 <= sample_rate,
        sample_rate < (opus_frame_samples(sample_rate) + 1) * 50,
{
    let q = sample_rate / 50;
    assert(0 <= q <= u32::MAX);
    assert(q * 50 <= sample_rate < (q + 1) * 50);
}

/// RTP samples in a 20 ms Opus frame at the given sample rate.
pub fn samples_per_opus_frame(sample_rate: i32) -> (n: u32)
    ensures
        n == opus_frame_samples(sample_rate),
{
    if sample_rate >= 0 {
        (sample_rate as u32) / 50
    } else {
        let magnitude: u32 = (-(sample_rate as i64)) as u32;
        let q = magnitude / 50;
        0u32.wrapping_sub(q)
    }
}

/// The type of the frame with the given index, and the index of the latest keyframe after it:
/// a keyframe when at least [`KEYFRAME_INTERVAL`] frames have passed since the latest one.
pub fn next_frame_type(frame_counter: u64, last_keyframe: u64) -> (r: (WebRTCFrameType, u64))
    requires
        last_keyframe <= frame_counter,
    ensures
        frame_counter - last_keyframe >= KEYFRAME_INTERVAL ==> r == (
            WebRTCFrameType::Keyframe,
            frame_counter,
        ),
        frame_counter - last_keyframe < KEYFRAME_INTERVAL ==> r == (
            WebRTCFrameType::Delta,
            last_keyframe,
        ),
{
    if frame_counter - last_keyframe >= KEYFRAME_INTERVAL {
        (WebRTCFrameType::Keyframe, frame_counter)
    } else {
        (WebRTCFrameType::Delta, last_keyframe)
    }
}

/// Milliseconds to wait between frames at the given frame rate.
pub fn frame_interval_ms(max_fps: u32) -> (ms: u64)
    requires
        max_fps > 0,
    ensures
        ms == 1000int / (max_fps as int),
{
    1000 / (max_fps as u64)
}

/// Convert RGB24 to YUV420 planar format. Sides that are not both even make the conversion
/// index outside the chroma planes unless the frame is empty, hence the `requires`.
pub fn rgb_to_yuv420(rgb: &[u8], width: u32, height: u32) -> (yuv: Vec<u8>)
    requires
        width as int * height as int * 3 <= rgb@.len(),
        width as int * height as int == 0 || (width % 2 == 0 && height % 2 == 0),
    ensures
        is_yuv420_of(yuv@, rgb@, width as int, height as int),
{
    convert_rgb_to_yuv420(rgb, width, height)
}

/// The byte value of every sample of synthetic frame number `frame_counter`: black for 30
/// frames, white for the next 30, and so on, raised (saturating) by five times the low byte of
/// the frame number, modulo 256.
pub open spec fn synthetic_pixel(frame_counter: u64) -> u8 {
    let base: int = if (frame_counter / 30) % 2 == 0 {
        0
    } else {
        255
    };
    let add: int = ((frame_counter % 256) * 5) % 256;
    if base + add > 255 {
        255
    } else {
        (base + add) as u8
    }
}

/// The RGB8 samples of a synthetic test frame.
pub fn synthetic_frame_data(width: u32, height: u32, frame_counter: u64) -> (data: Vec<u8>)
    requires
        width as int * height as int * 3 <= u32::MAX,
    ensures
        data@.len() == width as int * height as int * 3,
        forall|i: int| 0 <= i < data@.len() ==> #[trigger] data@[i] == synthetic_pixel(frame_counter),
{
    let pattern = (frame_counter / 30) % 2;
    let pixel_value: u8 = if pattern == 0 {
        0
    } else {
        255
    };
    let low = (frame_counter % 256) as u8;
    let add = low.wrapping_mul(5);
    let value = pixel_value.saturating_add(add);
    proof {
        assert(low as int == frame_counter % 256);
    }
    let n = (width * height * 3) as usize;
    let mut data: Vec<u8> = Vec::with_capacity(n);
    while data.len() < n
        invariant
            data@.len() <= n,
            value == synthetic_pixel(frame_counter),
            forall|i: int| 0 <= i < data@.len() ==> #[trigger] data@[i] == value,
        decreases n - data@.len(),
    {
        data.push(value);
    }
    data
}

/// `f` is a synthetic test frame of the given size for the given frame number.
pub open spec fn is_synthetic_frame(f: CameraFrame, width: u32, height: u32, frame_counter: u64) -> bool {
    &&& f.width == width
    &&& f.height == height
    &&& f.format@ == "RGB8"@
    &&& f.device_id@ == "synthetic"@
    &&& f.data@.len() == width as int * height as int * 3
    &&& forall|i: int| 0 <= i < f.data@.len() ==> #[trigger] f.data@[i] == synthetic_pixel(frame_counter)
    &&& f.size_bytes == f.data@.len()
    &&& f.id@.len() == 36
}

/// For even sides, the YUV 4:2:0 image takes one and a half bytes per pixel.
pub proof fn lemma_even_yuv420_len(w: int, h: int)
    requires
        w % 2 == 0,
        h % 2 == 0,
        w >= 0,
        h >= 0,
    ensures
        yuv420_len(w, h) == (3 * (w * h)) / 2,
        3 * (w * h) == w * h * 3,
{
    let q = (w / 2) * (h / 2);
    assert(q * 4 == w * h) by (nonlinear_arith)
        requires
            w % 2 == 0,
            h % 2 == 0,
            q == (w / 2) * (h / 2),
    ;
    assert(3 * (w * h) == w * h * 3) by (nonlinear_arith);
}

/// Whether the frame can be encoded at its own size (see [`encodable`]).
pub fn frame_is_encodable(frame: &CameraFrame) -> (b: bool)
    ensures
        b == encodable(*frame, frame.width, frame.height),
{
    let w = frame.width;
    let h = frame.height;
    if w % 2 != 0 || h % 2 != 0 {
        return false;
    }
    assert((w as int) * (h as int) <= 0xFFFF_FFFF * 0xFFFF_FFFF) by (nonlinear_arith)
        requires
            0 <= w <= 0xFFFF_FFFF,
            0 <= h <= 0xFFFF_FFFF,
    ;
    let area: u128 = (w as u128) * (h as u128);
    if area * 3 > usize::MAX as u128 {
        return false;
    }
    proof {
        lemma_even_yuv420_len(w as int, h as int);
    }
    if frame.format == String::from_str("RGB8") {
        proof {
            reveal_strlit("RGB8");
        }
        area * 3 <= frame.data.len() as u128
    } else {
        proof {
            reveal_strlit("RGB8");
        }
        frame.data.len() as u128 == area * 3 / 2
    }
}

/// H.264 encoder for WebRTC streaming
pub struct H264WebRTCEncoder {
    encoder: Encoder,
    width: u32,
    height: u32,
    frame_count: u64,
    /// An intra frame has been asked for and no frame has been encoded since.
    keyframe_requested: bool,
    /// The type of picture that the H.264 encoder reported for the last frame it encoded.
    last_picture_type: Ghost<Option<EncodedPictureType>>,
}

/// The RTP payloads that the packetizer `p` makes of an encoded frame: its Annex B NAL units,
/// whole or in FU-A fragments, at the frame's timestamp from `p`'s next sequence number on.
pub open spec fn rtp_payloads_of(p: H264RTPPacketizer, frame: EncodedFrameView) -> Seq<RtpPayloadView> {
    let nals = annex_b_nal_units(frame.data);
    stamp(au_bodies(nals, p.spec_mtu() as int, nals.len() as int), frame.timestamp, p.spec_sequence_number())
}

/// The frame can be encoded at the encoder's size without a panic: RGB8 frames are converted
/// to YUV 4:2:0 (which needs the whole picture and even sides), other frames are taken as
/// YUV 4:2:0 already, and the encoder needs even sides and a buffer of `3 * w * h / 2` bytes.
pub open spec fn encodable(frame: CameraFrame, width: u32, height: u32) -> bool {
    &&& width % 2 == 0 && height % 2 == 0
    &&& 3 * (width as int * height as int) <= usize::MAX
    &&& if frame.format@ == "RGB8"@ {
        &&& frame.width as int * frame.height as int * 3 <= frame.data@.len()
        &&& frame.width % 2 == 0 && frame.height % 2 == 0
        &&& yuv420_len(frame.width as int, frame.height as int) == (3 * (width as int
            * height as int)) / 2
    } else {
        frame.data@.len() == (3 * (width as int * height as int)) / 2
    }
}

impl H264WebRTCEncoder {
    pub closed spec fn spec_width(&self) -> u32 {
        self.width
    }

    pub closed spec fn spec_height(&self) -> u32 {
        self.height
    }

    pub closed spec fn spec_frame_count(&self) -> u64 {
        self.frame_count
    }

    /// Whether the encoder has been told to make its next frame an intra (IDR) frame, and no
    /// frame has been encoded since.
    pub closed spec fn spec_keyframe_requested(&self) -> bool {
        self.keyframe_requested
    }

    /// The YUV 4:2:0 pictures handed to the H.264 encoder so far, in order.
    pub closed spec fn spec_pictures(&self) -> Seq<Seq<u8>> {
        pictures_encoded(self.encoder)
    }

    /// The type of picture that the H.264 encoder reported for the last frame it encoded.
    pub closed spec fn spec_last_picture_type(&self) -> Option<EncodedPictureType> {
        self.last_picture_type@
    }

    /// Create a new H.264 encoder for WebRTC
    pub fn new(width: u32, height: u32) -> (res: Result<Self, String>)
        ensures
            res matches Ok(e) ==> e.spec_width() == width && e.spec_height() == height
                && e.spec_frame_count() == 0 && !e.spec_keyframe_requested()
                && e.spec_pictures().len() == 0,
            res matches Err(m) ==> m@.subrange(0, 32) == "Failed to create H.264 encoder: "@,
    {
        match h264_encoder_new() {
            Ok(encoder) => Ok(
                H264WebRTCEncoder {
                    encoder,
                    width,
                    height,
                    frame_count: 0,
                    keyframe_requested: false,
                    last_picture_type: Ghost(None),
                },
            ),
            Err(e) => {
                let m = String::from_str("Failed to create H.264 encoder: ").concat(e.as_str());
                proof {
                    reveal_strlit("Failed to create H.264 encoder: ");
                    assert(m@.subrange(0, 32) =~= "Failed to create H.264 encoder: "@);
                }
                Err(m)
            },
        }
    }

    /// Encode a frame to an H.264 access unit
    pub fn encode_frame(&mut self, frame: &CameraFrame) -> (res: Result<EncodedFrame, String>)
        requires
            encodable(*frame, old(self).spec_width(), old(self).spec_height()),
            old(self).spec_frame_count() < u64::MAX,
        ensures
            final(self).spec_width() == old(self).spec_width(),
            final(self).spec_height() == old(self).spec_height(),
            res matches Ok(e) ==> e.width == old(self).spec_width() && e.height == old(self).spec_height() && e.timestamp == frame.timestamp_ms as u64 && e.intra_requested@ == old(self).spec_keyframe_requested() && e.picture@ == final(self).spec_pictures().last() && final(self).spec_frame_count() == old(self).spec_frame_count() + 1 && !final(self).spec_keyframe_requested(),
            res matches Err(m) ==> m@.subrange(0, 23) == "H.264 encoding failed: "@ && final(self).spec_frame_count() == old(self).spec_frame_count() && final(self).spec_keyframe_requested() == old(self).spec_keyframe_requested(),
            final(self).spec_pictures().len() == old(self).spec_pictures().len() + 1,
            final(self).spec_pictures().drop_last() == old(self).spec_pictures(),
            is_encoder_input(final(self).spec_pictures().last(), *frame),
            res matches Ok(e) ==> (final(self).spec_last_picture_type() matches Some(t) && (e.frame_type
                == WebRTCFrameType::Keyframe <==> (t == EncodedPictureType::Idr || t
                == EncodedPictureType::I))),
    {
        let is_rgb = frame.format == String::from_str("RGB8");
        proof {
            reveal_strlit("RGB8");
        }
        let yuv_data = if is_rgb {
            let yuv = rgb_to_yuv420(frame.data.as_slice(), frame.width, frame.height);
            proof {
                let w = frame.width as int;
                let h = frame.height as int;
                assert((w / 2) * (h / 2) * 4 == w * h) by (nonlinear_arith)
                    requires
                        w % 2 == 0,
                        h % 2 == 0,
                        w >= 0,
                        h >= 0,
                ;
            }
            yuv
        } else {
            copy_bytes(frame.data.as_slice())
        };
        match h264_encode(&mut self.encoder, yuv_data, self.width as usize, self.height as usize) {
            Ok((data, picture)) => {
                let is_keyframe = is_keyframe_picture(picture);
                self.last_picture_type = Ghost(Some(picture));
                let ghost requested = self.keyframe_requested;
                self.frame_count = self.frame_count + 1;
                self.keyframe_requested = false;
                let frame_type = if is_keyframe {
                    WebRTCFrameType::Keyframe
                } else {
                    WebRTCFrameType::Delta
                };
                Ok(
                    EncodedFrame {
                        data,
                        timestamp: frame.timestamp_ms as u64,
                        frame_type,
                        width: self.width,
                        height: self.height,
                        intra_requested: Ghost(requested),
                        picture: Ghost(pictures_encoded(self.encoder).last()),
                    },
                )
            },
            Err(e) => {
                let m = String::from_str("H.264 encoding failed: ").concat(e.as_str());
                proof {
                    reveal_strlit("H.264 encoding failed: ");
                    assert(m@.subrange(0, 23) =~= "H.264 encoding failed: "@);
                }
                Err(m)
            },
        }
    }

    /// Force next frame to be keyframe: the encoder is told to make its next frame an intra
    /// (IDR) frame, and the request stands until a frame is encoded.
    pub fn force_keyframe(&mut self)
        ensures
            final(self).spec_keyframe_requested(),
            final(self).spec_width() == old(self).spec_width(),
            final(self).spec_height() == old(self).spec_height(),
            final(self).spec_frame_count() == old(self).spec_frame_count(),
            final(self).spec_pictures() == old(self).spec_pictures(),
    {
        h264_force_intra_frame(&mut self.encoder);
        self.keyframe_requested = true;
    }
}

/// `pic` is the YUV 4:2:0 picture that the encoder takes for `frame`: the conversion of its
/// RGB8 bytes, or, for any other format, the bytes themselves.
pub open spec fn is_encoder_input(pic: Seq<u8>, frame: CameraFrame) -> bool {
    if frame.format@ == "RGB8"@ {
        is_yuv420_of(pic, frame.data@, frame.width as int, frame.height as int)
    } else {
        pic == frame.data@
    }
}

/// `e` is an encoding of `frame`: of the frame's size and capture time, made from the frame's
/// picture, by an encoder that was asked for an intra frame exactly when `keyframe`.
pub open spec fn encodes(e: EncodedFrameView, frame: CameraFrame, keyframe: bool) -> bool {
    &&& e.width == frame.width
    &&& e.height == frame.height
    &&& e.timestamp == frame.timestamp_ms as u64
    &&& e.intra_requested == keyframe
    &&& is_encoder_input(e.picture, frame)
}

/// Encodes a captured camera frame with a fresh encoder of the frame's size, forcing an
/// intra frame when a keyframe is due.
pub fn encode_camera_frame(frame: &CameraFrame, frame_type: WebRTCFrameType) -> (res: Result<
    EncodedFrame,
    String,
>)
    requires
        encodable(*frame, frame.width, frame.height),
    ensures
        res matches Ok(e) ==> encodes(e@, *frame, frame_type == WebRTCFrameType::Keyframe),
        res matches Err(m) ==> m@.subrange(0, 32) == "Failed to create H.264 encoder: "@
            || m@.subrange(0, 23) == "H.264 encoding failed: "@,
{
    let mut encoder = match H264WebRTCEncoder::new(frame.width, frame.height) {
        Ok(e) => e,
        Err(m) => {
            return Err(m);
        },
    };
    if frame_type == WebRTCFrameType::Keyframe {
        encoder.force_keyframe();
    }
    encoder.encode_frame(frame)
}

/// Convert camera frame to WebRTC-compatible format: the frame's own bytes when its size is the
/// configured one, else the frame resampled to the configured size with the Lanczos3 filter.
pub fn prepare_frame_for_webrtc(frame: &CameraFrame, config: &StreamConfig) -> (res: Result<
    Vec<u8>,
    String,
>)
    requires
        !(frame.width == config.width && frame.height == config.height) ==> {
            &&& 3 * (config.width as int) * (config.height as int) <= usize::MAX
            &&& 16 * (frame.width as int) * (config.height as int) <= usize::MAX
            &&& 3 * (frame.width as int) * (frame.height as int) <= usize::MAX
        },
    ensures
        frame.width == config.width && frame.height == config.height ==> (res matches Ok(v) && v@
            == frame.data@),
        !(frame.width == config.width && frame.height == config.height) && frame.data@.len() >= 3
            * (frame.width as int) * (frame.height as int) ==> (res matches Ok(v) && v@.len() == 3
            * (config.width as int) * (config.height as int)),
        !(frame.width == config.width && frame.height == config.height) && frame.data@.len() < 3
            * (frame.width as int) * (frame.height as int) ==> (res matches Err(m) && m@
            == "Failed to create image buffer from frame data (expected "@ + decimal(
            (3 * (frame.width as int) * (frame.height as int)) as nat,
        ) + " bytes for "@ + decimal(frame.width as nat) + "x"@ + decimal(frame.height as nat)
            + " RGB, got "@ + decimal(frame.data@.len()) + ")"@),
{
    if frame.width == config.width && frame.height == config.height {
        return Ok(copy_bytes(frame.data.as_slice()));
    }
    match resize_rgb_lanczos3(
        copy_bytes(frame.data.as_slice()),
        frame.width,
        frame.height,
        config.width,
        config.height,
    ) {
        Some(resized) => Ok(resized),
        None => {
            proof {
                let w = frame.width as int;
                let h = frame.height as int;
                assert(w * h <= 3 * w * h && 3 * w * h == w * h * 3) by (nonlinear_arith)
                    requires
                        w >= 0,
                        h >= 0,
                ;
            }
            let expected: u64 = (frame.width as u64) * (frame.height as u64) * 3;
            let m = String::from_str("Failed to create image buffer from frame data (expected ").concat(
                decimal_string(expected).as_str(),
            ).concat(" bytes for ").concat(decimal_string(frame.width as u64).as_str()).concat(
                "x",
            ).concat(decimal_string(frame.height as u64).as_str()).concat(" RGB, got ").concat(
                decimal_string(frame.data.len() as u64).as_str(),
            ).concat(")");
            Err(m)
        },
    }
}


/// Whether capturing from the camera gives a frame of the camera's own: the mock camera when
/// it is not set to fail, a device camera whose backend last read an image.
pub open spec fn captures_camera_frame(c: PlatformCamera) -> bool {
    match c {
        PlatformCamera::Mock(m) => m.spec_capture_mode() != MockCaptureMode::Failure,
        PlatformCamera::Device(d) => d.spec_latest() matches Some(Ok(_)),
        PlatformCamera::Unsupported => false,
    }
}

/// `f` is the frame that a stream in `mode` with configuration `config` takes as frame number
/// `frame_counter`: when it is in real-camera mode, its camera is available and capturing
/// from the camera gives a frame, that frame; else a synthetic frame of the configured size.
pub open spec fn is_stream_frame(
    mode: StreamMode,
    config: StreamConfigView,
    camera: Option<PlatformCamera>,
    available: bool,
    frame_counter: u64,
    f: CameraFrame,
) -> bool {
    if mode == StreamMode::RealCamera && available && camera is Some && captures_camera_frame(
        camera->0,
    ) {
        match camera->0 {
            PlatformCamera::Mock(m) => is_mock_frame(f, m.spec_device_id()),
            PlatformCamera::Device(d) => d.spec_latest() matches Some(Ok(img)) && is_device_frame(
                f,
                d.spec_device_id(),
                img,
            ),
            PlatformCamera::Unsupported => false,
        }
    } else {
        is_synthetic_frame(f, config.width, config.height, frame_counter)
    }
}

/// What a round of the stream's loop does to the stream when its frame did not go through
/// (the frame could not be encoded, or the encoder refused it, or it could not be
/// packetized): the failure is counted, and the stream runs on only while the count stays
/// within the limit.
pub open spec fn is_failed_round(before: WebRTCStreamer, after: WebRTCStreamer) -> bool {
    &&& after.spec_failure_count() == before.spec_failure_count() + 1
    &&& after.spec_is_streaming() == (before.spec_is_streaming() && before.spec_failure_count() + 1
        <= before.spec_max_failures())
    &&& after.spec_max_failures() == before.spec_max_failures()
}

/// What a round of the stream's loop does to the stream when its frame went through: the
/// failure count starts again from zero, and a stream that was running still runs unless a
/// failed RTP send took the count past the limit.
pub open spec fn is_delivered_round(before: WebRTCStreamer, after: WebRTCStreamer) -> bool {
    &&& after.spec_failure_count() == 0
    &&& after.spec_max_failures() == before.spec_max_failures()
    &&& after.spec_is_streaming() ==> before.spec_is_streaming()
    &&& before.spec_failure_count() + 1 <= before.spec_max_failures() ==> after.spec_is_streaming()
        == before.spec_is_streaming()
}

/// What a round of the stream's loop does to a paused stream: it stays paused and hands no
/// RTP payload to its sender.
pub open spec fn is_paused_round(before: WebRTCStreamer, after: WebRTCStreamer) -> bool {
    before.spec_paused() ==> after.spec_paused() && after.spec_payloads_sent()
        == before.spec_payloads_sent()
}

/// A running stream with no failures behind it runs on through `max_failures` rounds in a
/// row whose frames fail, and stops at the next one: after `k` such rounds (as
/// [`WebRTCStreamer::process_one_frame`] leaves the stream when it returns `false`) its
/// failure count is `k`, and it runs if and only if `k <= max_failures`.
pub proof fn lemma_failed_rounds_stop_the_stream(states: Seq<WebRTCStreamer>, k: int)
    requires
        forall|i: int|
            0 <= i < states.len() - 1 ==> is_failed_round(#[trigger] states[i], states[i + 1]),
        states[0].spec_failure_count() == 0,
        states[0].spec_is_streaming(),
        0 <= k < states.len(),
    ensures
        states[k].spec_failure_count() == k,
        states[k].spec_is_streaming() == (k <= states[0].spec_max_failures()),
        states[k].spec_max_failures() == states[0].spec_max_failures(),
    decreases k,
{
    if k > 0 {
        lemma_failed_rounds_stop_the_stream(states, k - 1);
        let s = states[k - 1];
    }
}

/// Rounds whose frames go through never stop a stream that ran with no failures behind it,
/// even when RTP sends fail in them (as [`WebRTCStreamer::process_one_frame`] leaves the
/// stream when it returns `true`, with a limit of at least one failure).
pub proof fn lemma_delivered_rounds_keep_the_stream(states: Seq<WebRTCStreamer>, k: int)
    requires
        forall|i: int|
            0 <= i < states.len() - 1 ==> is_delivered_round(#[trigger] states[i], states[i + 1]),
        states[0].spec_failure_count() == 0,
        states[0].spec_is_streaming(),
        states[0].spec_max_failures() >= 1,
        0 <= k < states.len(),
    ensures
        states[k].spec_is_streaming(),
        states[k].spec_failure_count() == 0,
        states[k].spec_max_failures() == states[0].spec_max_failures(),
    decreases k,
{
    if k > 0 {
        lemma_delivered_rounds_keep_the_stream(states, k - 1);
        let s = states[k - 1];
    }
}

/// A paused stream hands no RTP payload to its sender however many rounds of its loop run:
/// after any number of rounds (as [`WebRTCStreamer::process_one_frame`] leaves the stream) it
/// is still paused and its sender has been handed what it had been when the stream was paused.
pub proof fn lemma_paused_stream_sends_nothing(states: Seq<WebRTCStreamer>, k: int)
    requires
        forall|i: int|
            0 <= i < states.len() - 1 ==> is_paused_round(#[trigger] states[i], states[i + 1]),
        states[0].spec_paused(),
        0 <= k < states.len(),
    ensures
        states[k].spec_paused(),
        states[k].spec_payloads_sent() == states[0].spec_payloads_sent(),
    decreases k,
{
    if k > 0 {
        lemma_paused_stream_sends_nothing(states, k - 1);
        let s = states[k - 1];
    }
}

} // verus!
