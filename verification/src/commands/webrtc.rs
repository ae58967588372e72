//! WebRTC command logic: RTP framing and the registries of streams and peers.
use vstd::prelude::*;

use tokio::sync::mpsc::UnboundedSender;
use crate::backends::payloads_offered;
use crate::bytes::extend_bytes;
use crate::errors::CameraError;
use crate::platform::{parsed_device_index, PlatformCamera};
use crate::types::Platform;
use crate::text::{decimal, decimal_string, join3, join5, prefixed};
use crate::webrtc::packetizer::{RtpPayload, RtpPayloadView};
use crate::webrtc::peer::{
    holds, no_repeats, with_entry, ConnectionState, IceCandidate, PeerConnection,
    PeerConnectionStats, PeerView, SessionDescription, check_remote_description_type,
};
use crate::webrtc::streaming::{
    encodable, encodes, is_stream_frame, rtp_payloads_of, CameraStatus, SimulcastLayer, StreamConfig, StreamConfigView, StreamMode,
    StreamStats, StreamerView, WebRTCStreamer, DEFAULT_MTU, MAX_FAILURES, KEYFRAME_INTERVAL,
};

verus! {

/// The big-endian bytes of a 16-bit value.
pub open spec fn be16(x: u16) -> Seq<u8> {
    seq![(x / 0x100) as u8, (x % 0x100) as u8]
}

/// The big-endian bytes of a 32-bit value.
pub open spec fn be32(x: u32) -> Seq<u8> {
    seq![
        (x / 0x100_0000) as u8,
        ((x / 0x1_0000) % 0x100) as u8,
        ((x / 0x100) % 0x100) as u8,
        (x % 0x100) as u8,
    ]
}

/// The 12-byte RTP header (RFC 3550): version 2 with no padding, extension or CSRC,
/// the marker bit with the 7-bit payload type, then the sequence number, the low 32 bits
/// of the timestamp and the SSRC, each big-endian.
pub open spec fn rtp_header(payload_type: u8, ssrc: u32, p: RtpPayloadView) -> Seq<u8> {
    seq![0x80u8, (if p.marker { 0x80u8 } else { 0u8 }) | (payload_type & 0x7Fu8)] + be16(
        p.sequence_number,
    ) + be32((p.timestamp % 0x1_0000_0000) as u32) + be32(ssrc)
}

fn push_be16(v: &mut Vec<u8>, x: u16)
    ensures
        final(v)@ == old(v)@ + be16(x),
{
    let hi = (x >> 8) as u8;
    let lo = (x & 0xFF) as u8;
    assert(hi == (x / 0x100) as u8 && lo == (x % 0x100) as u8) by (bit_vector)
        requires
            hi == (x >> 8) as u8,
            lo == (x & 0xFF) as u8,
    ;
    v.push(hi);
    v.push(lo);
    assert(final(v)@ =~= old(v)@ + be16(x));
}

fn push_be32(v: &mut Vec<u8>, x: u32)
    ensures
        final(v)@ == old(v)@ + be32(x),
{
    let b0 = (x >> 24) as u8;
    let b1 = ((x >> 16) & 0xFF) as u8;
    let b2 = ((x >> 8) & 0xFF) as u8;
    let b3 = (x & 0xFF) as u8;
    assert(b0 == (x / 0x100_0000) as u8 && b1 == ((x / 0x1_0000) % 0x100) as u8 && b2 == ((x
        / 0x100) % 0x100) as u8 && b3 == (x % 0x100) as u8) by (bit_vector)
        requires
            b0 == (x >> 24) as u8,
            b1 == ((x >> 16) & 0xFF) as u8,
            b2 == ((x >> 8) & 0xFF) as u8,
            b3 == (x & 0xFF) as u8,
    ;
    v.push(b0);
    v.push(b1);
    v.push(b2);
    v.push(b3);
    assert(final(v)@ =~= old(v)@ + be32(x));
}

/// Frames an RTP payload as a raw RTP packet: the 12-byte header, then the payload bytes.
pub fn build_rtp_packet_bytes(payload_type: u8, ssrc: u32, rtp_packet: &RtpPayload) -> (bytes: Vec<u8>)
    ensures
        bytes@ == rtp_header(payload_type, ssrc, rtp_packet@) + rtp_packet@.data,
{
    let mut rtp_bytes: Vec<u8> = Vec::new();
    rtp_bytes.push(0x80);
    let marker_bit: u8 = if rtp_packet.marker {
        0x80
    } else {
        0x00
    };
    rtp_bytes.push(marker_bit | (payload_type & 0x7F));
    push_be16(&mut rtp_bytes, rtp_packet.sequence_number);
    let ts: u64 = rtp_packet.timestamp;
    let ts32 = (ts & 0xFFFF_FFFF) as u32;
    assert(ts32 == (ts % 0x1_0000_0000) as u32) by (bit_vector)
        requires
            ts32 == (ts & 0xFFFF_FFFF) as u32,
    ;
    push_be32(&mut rtp_bytes, ts32);
    push_be32(&mut rtp_bytes, ssrc);
    extend_bytes(&mut rtp_bytes, rtp_packet.data.as_slice());
    assert(rtp_bytes@ =~= rtp_header(payload_type, ssrc, rtp_packet@) + rtp_packet@.data);
    rtp_bytes
}

/// The fields that a receiver reads back from the start of an RTP packet:
/// version, marker, payload type, sequence number, timestamp and SSRC.
pub open spec fn rtp_read_version(b: Seq<u8>) -> u8 {
    b[0] / 64
}

pub open spec fn rtp_read_marker(b: Seq<u8>) -> bool {
    b[1] >= 0x80
}

pub open spec fn rtp_read_payload_type(b: Seq<u8>) -> u8 {
    (b[1] % 0x80) as u8
}

pub open spec fn rtp_read_u16(b: Seq<u8>, i: int) -> int {
    b[i] * 0x100 + b[i + 1]
}

pub open spec fn rtp_read_u32(b: Seq<u8>, i: int) -> int {
    b[i] * 0x100_0000 + b[i + 1] * 0x1_0000 + b[i + 2] * 0x100 + b[i + 3]
}

proof fn lemma_be16_read(x: u16)
    ensures
        rtp_read_u16(be16(x), 0) == x,
{
}

proof fn lemma_be32_read(x: u32)
    ensures
        rtp_read_u32(be32(x), 0) == x,
{
    let b = be32(x);
    assert(b[0] * 0x100_0000 + b[1] * 0x1_0000 + b[2] * 0x100 + b[3] == x) by (nonlinear_arith)
        requires
            b[0] == (x / 0x100_0000) as u8,
            b[1] == ((x / 0x1_0000) % 0x100) as u8,
            b[2] == ((x / 0x100) % 0x100) as u8,
            b[3] == (x % 0x100) as u8,
            0 <= x < 0x1_0000_0000,
    ;
}

/// A receiver that reads an RTP packet built by [`build_rtp_packet_bytes`] gets back
/// version 2, the marker bit, the payload type's low 7 bits, the sequence number, the
/// timestamp modulo 2^32, the SSRC, and after the 12 header bytes the payload itself.
pub proof fn lemma_rtp_packet_reads_back(payload_type: u8, ssrc: u32, p: RtpPayloadView)
    ensures
        ({
            let b = rtp_header(payload_type, ssrc, p) + p.data;
            &&& b.len() == 12 + p.data.len()
            &&& rtp_read_version(b) == 2
            &&& rtp_read_marker(b) == p.marker
            &&& rtp_read_payload_type(b) == payload_type % 0x80
            &&& rtp_read_u16(b, 2) == p.sequence_number
            &&& rtp_read_u32(b, 4) == p.timestamp % 0x1_0000_0000
            &&& rtp_read_u32(b, 8) == ssrc
            &&& b.subrange(12, b.len() as int) == p.data
        }),
{
    let h = rtp_header(payload_type, ssrc, p);
    let b = h + p.data;
    let m: u8 = if p.marker { 0x80u8 } else { 0u8 };
    let second = m | (payload_type & 0x7Fu8);
    assert((second >= 0x80) == (m == 0x80) && (second % 0x80) as u8 == payload_type % 0x80) by (bit_vector)
        requires
            m == 0x80u8 || m == 0u8,
            second == m | (payload_type & 0x7Fu8),
    ;
    lemma_be16_read(p.sequence_number);
    lemma_be32_read((p.timestamp % 0x1_0000_0000) as u32);
    lemma_be32_read(ssrc);
    let s = be16(p.sequence_number);
    let t = be32((p.timestamp % 0x1_0000_0000) as u32);
    let c = be32(ssrc);
    assert(b[2] == s[0] && b[3] == s[1]);
    assert(b[4] == t[0] && b[5] == t[1] && b[6] == t[2] && b[7] == t[3]);
    assert(b[8] == c[0] && b[9] == c[1] && b[10] == c[2] && b[11] == c[3]);
    assert(b.subrange(12, b.len() as int) =~= p.data);
}


/// The payload type that RTP forwarded to a peer is sent with (the H.264 codec's).
pub const FORWARD_PAYLOAD_TYPE: u8 = 96;

/// The SSRC that RTP forwarded to a peer is sent with.
pub const FORWARD_SSRC: u32 = 12345;

/// Frames an RTP payload of a stream for the peer it is associated with.
pub fn forward_rtp_packet(rtp_packet: &RtpPayload) -> (bytes: Vec<u8>)
    ensures
        bytes@ == rtp_header(FORWARD_PAYLOAD_TYPE, FORWARD_SSRC, rtp_packet@) + rtp_packet@.data,
{
    build_rtp_packet_bytes(FORWARD_PAYLOAD_TYPE, FORWARD_SSRC, rtp_packet)
}

/// The video layer that a peer without video tracks is given when a stream is associated
/// with it: `f`, 1280x720 at 2 Mbps and 30 fps.
pub fn default_video_layer() -> (l: SimulcastLayer)
    ensures
        l.rid@ == "f"@,
        l.width == 1280,
        l.height == 720,
        l.bitrate == 2_000_000,
        l.fps == 30,
{
    SimulcastLayer { rid: String::from_str("f"), width: 1280, height: 720, bitrate: 2_000_000, fps: 30 }
}

/// The layers that a request to add video transceivers sets up: the requested layers, or, for
/// an empty request, the default layer (see [`default_video_layer`]).
pub fn video_layers_to_add(layers: Vec<SimulcastLayer>) -> (r: Vec<SimulcastLayer>)
    ensures
        layers@.len() > 0 ==> r@ == layers@,
        layers@.len() == 0 ==> r@.len() == 1 && r@[0].rid@ == "f"@ && r@[0].width == 1280
            && r@[0].height == 720 && r@[0].bitrate == 2_000_000 && r@[0].fps == 30,
{
    if layers.len() > 0 {
        layers
    } else {
        let mut r: Vec<SimulcastLayer> = Vec::new();
        r.push(default_video_layer());
        r
    }
}

/// WebRTC system status
#[derive(Debug, Clone)]
pub struct WebRTCSystemStatus {
    pub total_streams: usize,
    pub active_streams: usize,
    pub total_subscribers: usize,
    pub total_peers: usize,
    pub connected_peers: usize,
}

/// The identifiers of the streams.
pub open spec fn stream_ids(s: Seq<WebRTCStreamer>) -> Seq<Seq<char>> {
    s.map_values(|x: WebRTCStreamer| x.spec_stream_id())
}

/// The identifiers of the peers.
pub open spec fn peer_ids(s: Seq<PeerConnection>) -> Seq<Seq<char>> {
    s.map_values(|x: PeerConnection| x.spec_id())
}

/// The streams that the associations lead from.
pub open spec fn association_keys(a: Seq<(Seq<char>, Seq<char>)>) -> Seq<Seq<char>> {
    a.map_values(|p: (Seq<char>, Seq<char>)| p.0)
}

/// The associations after the stream `k` is associated with the peer `v`: the stream's
/// association is replaced if it has one, else one is added at the end.
pub open spec fn with_association(a: Seq<(Seq<char>, Seq<char>)>, k: Seq<char>, v: Seq<char>) -> Seq<
    (Seq<char>, Seq<char>),
> {
    if holds(association_keys(a), k) {
        a.map_values(|p: (Seq<char>, Seq<char>)| if p.0 == k { (k, v) } else { p })
    } else {
        a.push((k, v))
    }
}

/// The number of running streams.
pub open spec fn count_active(s: Seq<WebRTCStreamer>) -> nat
    decreases s.len(),
{
    if s.len() == 0 {
        0
    } else {
        count_active(s.drop_last()) + (if s.last().spec_is_streaming() {
            1nat
        } else {
            0nat
        })
    }
}

/// The number of connected peers.
pub open spec fn count_connected(s: Seq<PeerConnection>) -> nat
    decreases s.len(),
{
    if s.len() == 0 {
        0
    } else {
        count_connected(s.drop_last()) + (if s.last().spec_state() == ConnectionState::Connected {
            1nat
        } else {
            0nat
        })
    }
}

/// What the statistics of a stream report of it (the subscriber count is the number of
/// receivers of its frame channel at the time, which contracts leave open).
pub open spec fn reports(st: StreamStats, s: WebRTCStreamer) -> bool {
    &&& st.stream_id@ == s.spec_stream_id()
    &&& st.is_active == s.spec_is_streaming()
    &&& st.target_bitrate == s.spec_config().bitrate
    &&& st.current_fps == (if s.spec_is_streaming() { s.spec_config().max_fps } else { 0 })
    &&& st.resolution == (s.spec_config().width, s.spec_config().height)
    &&& st.codec == s.spec_config().codec
    &&& st.mode == s.spec_mode()
    &&& st.camera_status == s.spec_camera_status()
}

/// What the statistics of a peer connection report of it.
pub open spec fn peer_reports(st: PeerConnectionStats, p: PeerConnection) -> bool {
    &&& st.peer_id@ == p.spec_id()
    &&& st.state == p.spec_state()
    &&& st.ice_candidates_count == p.spec_local_candidates().len()
    &&& st.data_channels_count == p.spec_data_channels().len()
    &&& st.has_local_description == p.spec_has_local_description()
    &&& st.has_remote_description == p.spec_has_remote_description()
}

/// A stream that [`WebRTCRegistry::start_webrtc_stream`] has just started.
pub open spec fn is_started_stream(
    s: StreamerView,
    stream_id: Seq<char>,
    device_id: Seq<char>,
    config: Option<StreamConfigView>,
    mode: Option<StreamMode>,
) -> bool {
    &&& s.stream_id == stream_id
    &&& s.device_id == device_id
    &&& s.is_streaming
    &&& s.config == (match config {
        Some(c) => c,
        None => StreamConfig::spec_default(),
    })
    &&& s.mode == (match mode {
        Some(m) => m,
        None => StreamMode::RealCamera,
    })
    &&& s.h264_packetizer matches Some(p) && p.spec_mtu() == DEFAULT_MTU && p.spec_sequence_number()
        == 0
    &&& s.opus_packetizer is None
    &&& !s.paused
    &&& s.failure_count == 0
    &&& s.max_failures == MAX_FAILURES
    &&& s.camera_status == CameraStatus::Available
    &&& !s.has_rtp_sender
    &&& s.frames_sent.len() == 0
    &&& s.payloads_sent.len() == 0
}

/// `new` is `old` with the stream at `i` now in the state `v`.
pub open spec fn stream_updated(
    old: Seq<WebRTCStreamer>,
    new: Seq<WebRTCStreamer>,
    i: int,
    v: StreamerView,
) -> bool {
    &&& new.len() == old.len()
    &&& new[i]@ == v
    &&& forall|j: int| 0 <= j < new.len() && j != i ==> new[j] == old[j]
}

/// The error for a stream that the registry does not have.
pub open spec fn stream_not_found(id: Seq<char>) -> Seq<char> {
    "WebRTC stream "@ + id + " not found"@
}

/// The error for a peer connection that the registry does not have.
pub open spec fn peer_not_found(id: Seq<char>) -> Seq<char> {
    "Peer connection "@ + id + " not found"@
}

/// The streams, peer connections and stream-to-peer associations of the WebRTC commands.
pub struct WebRTCRegistry {
    streamers: Vec<WebRTCStreamer>,
    peers: Vec<PeerConnection>,
    associations: Vec<(String, String)>,
}

proof fn lemma_unique_index(s: Seq<Seq<char>>, i: int, j: int)
    requires
        no_repeats(s),
        0 <= i < s.len(),
        0 <= j < s.len(),
        s[i] == s[j],
    ensures
        i == j,
{
    if i < j {
        assert(s[i] != s[j]);
    } else if j < i {
        assert(s[j] != s[i]);
    }
}

fn find_stream_in(streamers: &Vec<WebRTCStreamer>, id: &String) -> (r: Option<usize>)
    ensures
        r matches Some(i) ==> i < streamers@.len() && streamers@[i as int].spec_stream_id() == id@,
        r is Some ==> holds(stream_ids(streamers@), id@),
        r is None ==> !holds(stream_ids(streamers@), id@),
        r is None ==> forall|k: int| 0 <= k < streamers@.len() ==> (#[trigger] streamers@[k]).spec_stream_id() != id@,
{
    let mut i: usize = 0;
    while i < streamers.len()
        invariant
            i <= streamers.len(),
            forall|k: int| 0 <= k < i ==> (#[trigger] streamers@[k]).spec_stream_id() != id@,
        decreases streamers.len() - i,
    {
        if *streamers[i].stream_id() == *id {
            assert(stream_ids(streamers@)[i as int] == id@);
            return Some(i);
        }
        i = i + 1;
    }
    proof {
        if holds(stream_ids(streamers@), id@) {
            let k = choose|k: int| 0 <= k < stream_ids(streamers@).len() && stream_ids(streamers@)[k] == id@;
            assert(streamers@[k].spec_stream_id() == id@);
        }
    }
    None
}

fn find_peer_in(peers: &Vec<PeerConnection>, id: &String) -> (r: Option<usize>)
    ensures
        r matches Some(i) ==> i < peers@.len() && peers@[i as int].spec_id() == id@,
        r is Some ==> holds(peer_ids(peers@), id@),
        r is None ==> !holds(peer_ids(peers@), id@),
        r is None ==> forall|k: int| 0 <= k < peers@.len() ==> (#[trigger] peers@[k]).spec_id() != id@,
{
    let mut i: usize = 0;
    while i < peers.len()
        invariant
            i <= peers.len(),
            forall|k: int| 0 <= k < i ==> (#[trigger] peers@[k]).spec_id() != id@,
        decreases peers.len() - i,
    {
        if peers[i].has_id(id) {
            assert(peer_ids(peers@)[i as int] == id@);
            return Some(i);
        }
        i = i + 1;
    }
    proof {
        if holds(peer_ids(peers@), id@) {
            let k = choose|k: int| 0 <= k < peer_ids(peers@).len() && peer_ids(peers@)[k] == id@;
            assert(peers@[k].spec_id() == id@);
        }
    }
    None
}

/// What the registry keeps of every stream: its packetizer can frame NAL units, a running
/// stream has not yet failed more often in a row than it allows, and it allows the default
/// number of failures.
pub open spec fn stream_ok(s: StreamerView) -> bool {
    &&& s.h264_packetizer matches Some(p) ==> p.spec_mtu() >= 15
    &&& s.is_streaming ==> s.failure_count <= s.max_failures
    &&& s.max_failures == MAX_FAILURES
}

/// A peer record as [`WebRTCRegistry::create_peer_connection`] makes it.
pub open spec fn is_fresh_peer(p: PeerView, id: Seq<char>) -> bool {
    &&& p.id == id
    &&& p.state == ConnectionState::New
    &&& p.data_channels.len() == 0
    &&& p.local_candidates.len() == 0
    &&& p.video_tracks.len() == 0
    &&& !p.has_local_description
    &&& !p.has_remote_description
}

/// `new` is `old` with the peer at `i` now in the state `v`.
pub open spec fn peer_changed(old: Seq<PeerConnection>, new: Seq<PeerConnection>, i: int, v: PeerView) -> bool {
    &&& new.len() == old.len()
    &&& new[i]@ == v
    &&& forall|j: int| 0 <= j < new.len() && j != i ==> new[j] == old[j]
}

/// `s` with each of `xs` added in turn unless it is there already.
pub open spec fn with_entries(s: Seq<Seq<char>>, xs: Seq<Seq<char>>) -> Seq<Seq<char>>
    decreases xs.len(),
{
    if xs.len() == 0 {
        s
    } else {
        with_entry(with_entries(s, xs.drop_last()), xs.last())
    }
}

proof fn lemma_push_no_repeats(s: Seq<Seq<char>>, x: Seq<char>)
    requires
        no_repeats(s),
        !holds(s, x),
    ensures
        no_repeats(s.push(x)),
{
    assert forall|i: int, j: int| 0 <= i < j < s.push(x).len() implies (#[trigger] s.push(x)[i])
        != (#[trigger] s.push(x)[j]) by {
        if j == s.len() {
            if s[i] == x {
                assert(holds(s, x));
            }
        } else {
            assert(s[i] != s[j]);
        }
    }
}

proof fn lemma_remove_no_repeats(s: Seq<Seq<char>>, k: int)
    requires
        no_repeats(s),
        0 <= k < s.len(),
    ensures
        no_repeats(s.remove(k)),
{
    let r = s.remove(k);
    assert forall|i: int, j: int| 0 <= i < j < r.len() implies (#[trigger] r[i]) != (#[trigger] r[j]) by {
        let a = if i < k { i } else { i + 1 };
        let b = if j < k { j } else { j + 1 };
        assert(r[i] == s[a] && r[j] == s[b]);
        assert(s[a] != s[b]);
    }
}

/// Streams are known by identifiers that occur once, and each is as [`stream_ok`] says.
pub open spec fn streams_wf(s: Seq<WebRTCStreamer>) -> bool {
    &&& no_repeats(stream_ids(s))
    &&& forall|i: int| 0 <= i < s.len() ==> stream_ok(#[trigger] s[i]@)
}

/// Peers are known by identifiers that occur once, and each record is well formed.
pub open spec fn peers_wf(s: Seq<PeerConnection>) -> bool {
    &&& no_repeats(peer_ids(s))
    &&& forall|i: int| 0 <= i < s.len() ==> (#[trigger] s[i]).wf()
}

impl WebRTCRegistry {
    /// The streams, in the order they were started.
    pub closed spec fn spec_streams(&self) -> Seq<WebRTCStreamer> {
        self.streamers@
    }

    /// The peer connections, in the order they were created.
    pub closed spec fn spec_peers(&self) -> Seq<PeerConnection> {
        self.peers@
    }

    /// The stream-to-peer associations, each as (stream id, peer id).
    pub closed spec fn spec_associations(&self) -> Seq<(Seq<char>, Seq<char>)> {
        self.associations@.map_values(|a: (String, String)| (a.0@, a.1@))
    }

    /// Streams, peers and associated streams are each known by an identifier that occurs
    /// once; every peer record is well formed and every stream is as [`stream_ok`] says.
    pub open spec fn wf(&self) -> bool {
        &&& streams_wf(self.spec_streams())
        &&& peers_wf(self.spec_peers())
        &&& no_repeats(association_keys(self.spec_associations()))
    }

    /// An empty registry.
    pub fn new() -> (r: Self)
        ensures
            r.wf(),
            r.spec_streams().len() == 0,
            r.spec_peers().len() == 0,
            r.spec_associations().len() == 0,
    {
        let r = WebRTCRegistry { streamers: Vec::new(), peers: Vec::new(), associations: Vec::new() };
        assert(stream_ids(r.spec_streams()) =~= Seq::<Seq<char>>::empty());
        assert(peer_ids(r.spec_peers()) =~= Seq::<Seq<char>>::empty());
        assert(association_keys(r.spec_associations()) =~= Seq::<Seq<char>>::empty());
        r
    }

    proof fn lemma_stream_index(&self, i: int, j: int)
        requires
            self.wf(),
            0 <= i < self.spec_streams().len(),
            0 <= j < self.spec_streams().len(),
            self.spec_streams()[i].spec_stream_id() == self.spec_streams()[j].spec_stream_id(),
        ensures
            i == j,
    {
        lemma_unique_index(stream_ids(self.spec_streams()), i, j);
    }

    proof fn lemma_peer_index(&self, i: int, j: int)
        requires
            self.wf(),
            0 <= i < self.spec_peers().len(),
            0 <= j < self.spec_peers().len(),
            self.spec_peers()[i].spec_id() == self.spec_peers()[j].spec_id(),
        ensures
            i == j,
    {
        lemma_unique_index(peer_ids(self.spec_peers()), i, j);
    }

    /// Puts back at `i` a stream taken out from there, keeping its identifier.
    fn reinsert_stream(&mut self, i: usize, s: WebRTCStreamer, Ghost(before): Ghost<Seq<WebRTCStreamer>>)
        requires
            i < before.len(),
            old(self).spec_streams() == before.remove(i as int),
            s.spec_stream_id() == before[i as int].spec_stream_id(),
            stream_ok(s@),
            streams_wf(before),
            peers_wf(old(self).spec_peers()),
            no_repeats(association_keys(old(self).spec_associations())),
        ensures
            final(self).wf(),
            final(self).spec_streams() == before.update(i as int, s),
            final(self).spec_peers() == old(self).spec_peers(),
            final(self).spec_associations() == old(self).spec_associations(),
    {
        self.streamers.insert(i, s);
        assert(self.streamers@ =~= before.update(i as int, s));
        assert(stream_ids(self.streamers@) =~= stream_ids(before));
    }

    /// Puts back at `i` a peer record taken out from there, keeping its identifier.
    fn reinsert_peer(&mut self, i: usize, p: PeerConnection, Ghost(before): Ghost<Seq<PeerConnection>>)
        requires
            i < before.len(),
            old(self).spec_peers() == before.remove(i as int),
            p.spec_id() == before[i as int].spec_id(),
            p.wf(),
            peers_wf(before),
            streams_wf(old(self).spec_streams()),
            no_repeats(association_keys(old(self).spec_associations())),
        ensures
            final(self).wf(),
            final(self).spec_peers() == before.update(i as int, p),
            final(self).spec_streams() == old(self).spec_streams(),
            final(self).spec_associations() == old(self).spec_associations(),
    {
        self.peers.insert(i, p);
        assert(self.peers@ =~= before.update(i as int, p));
        assert(peer_ids(self.peers@) =~= peer_ids(before));
    }

    /// Start WebRTC streaming for a camera: a new stream, in the given mode (a real camera
    /// when none is given), with the given configuration (the default when none is given) and
    /// an H.264 packetizer, running from the given device. A stream identifier that is taken
    /// is refused.
    pub fn start_webrtc_stream(
        &mut self,
        device_id: String,
        stream_id: String,
        config: Option<StreamConfig>,
        mode: Option<StreamMode>,
    ) -> (res: Result<String, String>)
        requires
            old(self).wf(),
        ensures
            final(self).wf(),
            holds(stream_ids(old(self).spec_streams()), stream_id@) ==> (res matches Err(m) && m@
                == "WebRTC stream "@ + stream_id@ + " already exists"@) && *final(self) == *old(
                self,
            ),
            !holds(stream_ids(old(self).spec_streams()), stream_id@) ==> (res matches Ok(m) && m@
                == "WebRTC stream "@ + stream_id@ + " started"@) && final(self).spec_streams().len()
                == old(self).spec_streams().len() + 1 && final(self).spec_streams().drop_last()
                == old(self).spec_streams() && is_started_stream(
                final(self).spec_streams().last()@,
                stream_id@,
                device_id@,
                (match config {
                    Some(c) => Some(c@),
                    None => None,
                }),
                mode,
            ) && final(self).spec_peers() == old(self).spec_peers()
                && final(self).spec_associations() == old(self).spec_associations(),
    {
        if let Some(_) = find_stream_in(&self.streamers, &stream_id) {
            return Err(join3("WebRTC stream ", stream_id.as_str(), " already exists"));
        }
        let cfg = match config {
            Some(c) => c,
            None => StreamConfig::default(),
        };
        let msg = join3("WebRTC stream ", stream_id.as_str(), " started");
        let mut streamer = WebRTCStreamer::new(stream_id, cfg);
        match mode {
            Some(m) => streamer.set_mode(m),
            None => {},
        }
        streamer.init_h264_packetizer(DEFAULT_MTU);
        let _started = streamer.start_streaming(device_id);
        let ghost before = self.streamers@;
        self.streamers.push(streamer);
        proof {
            assert(stream_ids(self.streamers@) =~= stream_ids(before).push(streamer.spec_stream_id()));
            lemma_push_no_repeats(stream_ids(before), streamer.spec_stream_id());
            assert(self.streamers@.drop_last() =~= before);
        }
        Ok(msg)
    }

    /// Stop WebRTC streaming: the stream is stopped and leaves the registry.
    pub fn stop_webrtc_stream(&mut self, stream_id: String) -> (res: Result<String, String>)
        requires
            old(self).wf(),
        ensures
            final(self).wf(),
            !holds(stream_ids(old(self).spec_streams()), stream_id@) ==> (res matches Err(m) && m@
                == stream_not_found(stream_id@)) && *final(self) == *old(self),
            forall|i: int|
                0 <= i < old(self).spec_streams().len() && (#[trigger] old(
                    self,
                ).spec_streams()[i]).spec_stream_id() == stream_id@ ==> (res matches Ok(m) && m@
                    == "WebRTC stream "@ + stream_id@ + " stopped"@) && final(self).spec_streams()
                    == old(self).spec_streams().remove(i),
            final(self).spec_peers() == old(self).spec_peers(),
            final(self).spec_associations() == old(self).spec_associations(),
    {
        match find_stream_in(&self.streamers, &stream_id) {
            Some(i) => {
                proof {
                    assert forall|j: int|
                        0 <= j < self.spec_streams().len() && (#[trigger] self.spec_streams()[j]).spec_stream_id()
                            == stream_id@ implies j == i as int by {
                        self.lemma_stream_index(i as int, j);
                    }
                }
                let ghost before = self.streamers@;
                let mut streamer = self.streamers.remove(i);
                let _stopped = streamer.stop_streaming();
                proof {
                    assert(stream_ids(self.streamers@) =~= stream_ids(before).remove(i as int));
                    lemma_remove_no_repeats(stream_ids(before), i as int);
                }
                Ok(join3("WebRTC stream ", stream_id.as_str(), " stopped"))
            },
            None => Err(join3("WebRTC stream ", stream_id.as_str(), " not found")),
        }
    }

    /// Get WebRTC stream status
    pub fn get_webrtc_stream_status(&self, stream_id: String) -> (res: Result<StreamStats, String>)
        requires
            self.wf(),
        ensures
            !holds(stream_ids(self.spec_streams()), stream_id@) ==> (res matches Err(m) && m@
                == stream_not_found(stream_id@)),
            forall|i: int|
                0 <= i < self.spec_streams().len() && (#[trigger] self.spec_streams()[i]).spec_stream_id()
                    == stream_id@ ==> (res matches Ok(st) && reports(st, self.spec_streams()[i])),
    {
        match find_stream_in(&self.streamers, &stream_id) {
            Some(i) => {
                proof {
                    assert forall|j: int|
                        0 <= j < self.spec_streams().len() && (#[trigger] self.spec_streams()[j]).spec_stream_id()
                            == stream_id@ implies j == i as int by {
                        self.lemma_stream_index(i as int, j);
                    }
                }
                Ok(self.streamers[i].get_stats())
            },
            None => Err(join3("WebRTC stream ", stream_id.as_str(), " not found")),
        }
    }

    /// Update WebRTC stream configuration
    pub fn update_webrtc_config(&mut self, stream_id: String, config: StreamConfig) -> (res: Result<
        String,
        String,
    >)
        requires
            old(self).wf(),
        ensures
            final(self).wf(),
            !holds(stream_ids(old(self).spec_streams()), stream_id@) ==> (res matches Err(m) && m@
                == stream_not_found(stream_id@)) && *final(self) == *old(self),
            forall|i: int|
                0 <= i < old(self).spec_streams().len() && (#[trigger] old(
                    self,
                ).spec_streams()[i]).spec_stream_id() == stream_id@ ==> (res matches Ok(m) && m@
                    == "WebRTC stream "@ + stream_id@ + " configuration updated"@) && stream_updated(
                    old(self).spec_streams(),
                    final(self).spec_streams(),
                    i,
                    StreamerView { config: config@, ..old(self).spec_streams()[i]@ },
                ),
            final(self).spec_peers() == old(self).spec_peers(),
            final(self).spec_associations() == old(self).spec_associations(),
    {
        match find_stream_in(&self.streamers, &stream_id) {
            Some(i) => {
                proof {
                    assert forall|j: int|
                        0 <= j < self.spec_streams().len() && (#[trigger] self.spec_streams()[j]).spec_stream_id()
                            == stream_id@ implies j == i as int by {
                        self.lemma_stream_index(i as int, j);
                    }
                }
                let ghost before = self.streamers@;
                assert(stream_ok(before[i as int]@));
                let mut streamer = self.streamers.remove(i);
                let _updated = streamer.update_config(config);
                self.reinsert_stream(i, streamer, Ghost(before));
                Ok(join3("WebRTC stream ", stream_id.as_str(), " configuration updated"))
            },
            None => Err(join3("WebRTC stream ", stream_id.as_str(), " not found")),
        }
    }

    /// List all active WebRTC streams
    pub fn list_webrtc_streams(&self) -> (res: Result<Vec<StreamStats>, String>)
        ensures
            res matches Ok(v) && v@.len() == self.spec_streams().len() && forall|i: int|
                0 <= i < v@.len() ==> reports(#[trigger] v@[i], self.spec_streams()[i]),
    {
        let mut streams: Vec<StreamStats> = Vec::new();
        let mut i: usize = 0;
        while i < self.streamers.len()
            invariant
                i <= self.streamers.len(),
                streams@.len() == i,
                forall|k: int| 0 <= k < i ==> reports(#[trigger] streams@[k], self.streamers@[k]),
            decreases self.streamers.len() - i,
        {
            streams.push(self.streamers[i].get_stats());
            i = i + 1;
        }
        Ok(streams)
    }

    /// Pause WebRTC stream: it stops sending RTP packets.
    pub fn pause_webrtc_stream(&mut self, stream_id: String) -> (res: Result<String, String>)
        requires
            old(self).wf(),
        ensures
            final(self).wf(),
            !holds(stream_ids(old(self).spec_streams()), stream_id@) ==> (res matches Err(m) && m@
                == stream_not_found(stream_id@)) && *final(self) == *old(self),
            forall|i: int|
                0 <= i < old(self).spec_streams().len() && (#[trigger] old(
                    self,
                ).spec_streams()[i]).spec_stream_id() == stream_id@ ==> (res matches Ok(m) && m@
                    == "Stream "@ + stream_id@ + " paused"@) && stream_updated(
                    old(self).spec_streams(),
                    final(self).spec_streams(),
                    i,
                    StreamerView { paused: true, ..old(self).spec_streams()[i]@ },
                ),
            final(self).spec_peers() == old(self).spec_peers(),
            final(self).spec_associations() == old(self).spec_associations(),
    {
        match find_stream_in(&self.streamers, &stream_id) {
            Some(i) => {
                proof {
                    assert forall|j: int|
                        0 <= j < self.spec_streams().len() && (#[trigger] self.spec_streams()[j]).spec_stream_id()
                            == stream_id@ implies j == i as int by {
                        self.lemma_stream_index(i as int, j);
                    }
                }
                let ghost before = self.streamers@;
                assert(stream_ok(before[i as int]@));
                let mut streamer = self.streamers.remove(i);
                streamer.pause_stream();
                self.reinsert_stream(i, streamer, Ghost(before));
                Ok(join3("Stream ", stream_id.as_str(), " paused"))
            },
            None => Err(join3("WebRTC stream ", stream_id.as_str(), " not found")),
        }
    }

    /// Resume WebRTC stream
    pub fn resume_webrtc_stream(&mut self, stream_id: String) -> (res: Result<String, String>)
        requires
            old(self).wf(),
        ensures
            final(self).wf(),
            !holds(stream_ids(old(self).spec_streams()), stream_id@) ==> (res matches Err(m) && m@
                == stream_not_found(stream_id@)) && *final(self) == *old(self),
            forall|i: int|
                0 <= i < old(self).spec_streams().len() && (#[trigger] old(
                    self,
                ).spec_streams()[i]).spec_stream_id() == stream_id@ ==> (res matches Ok(m) && m@
                    == "Stream "@ + stream_id@ + " resumed"@) && stream_updated(
                    old(self).spec_streams(),
                    final(self).spec_streams(),
                    i,
                    StreamerView { paused: false, ..old(self).spec_streams()[i]@ },
                ),
            final(self).spec_peers() == old(self).spec_peers(),
            final(self).spec_associations() == old(self).spec_associations(),
    {
        match find_stream_in(&self.streamers, &stream_id) {
            Some(i) => {
                proof {
                    assert forall|j: int|
                        0 <= j < self.spec_streams().len() && (#[trigger] self.spec_streams()[j]).spec_stream_id()
                            == stream_id@ implies j == i as int by {
                        self.lemma_stream_index(i as int, j);
                    }
                }
                let ghost before = self.streamers@;
                assert(stream_ok(before[i as int]@));
                let mut streamer = self.streamers.remove(i);
                streamer.resume_stream();
                self.reinsert_stream(i, streamer, Ghost(before));
                Ok(join3("Stream ", stream_id.as_str(), " resumed"))
            },
            None => Err(join3("WebRTC stream ", stream_id.as_str(), " not found")),
        }
    }

    /// Set bitrate for WebRTC stream
    pub fn set_webrtc_stream_bitrate(&mut self, stream_id: String, bitrate: u32) -> (res: Result<
        String,
        String,
    >)
        requires
            old(self).wf(),
        ensures
            final(self).wf(),
            !holds(stream_ids(old(self).spec_streams()), stream_id@) ==> (res matches Err(m) && m@
                == stream_not_found(stream_id@)) && *final(self) == *old(self),
            forall|i: int|
                0 <= i < old(self).spec_streams().len() && (#[trigger] old(
                    self,
                ).spec_streams()[i]).spec_stream_id() == stream_id@ ==> (res matches Ok(m) && m@
                    == "Stream "@ + stream_id@ + " bitrate set to "@ + decimal(bitrate as nat)
                    + " bps"@) && stream_updated(
                    old(self).spec_streams(),
                    final(self).spec_streams(),
                    i,
                    StreamerView {
                        config: StreamConfigView { bitrate, ..old(self).spec_streams()[i]@.config },
                        ..old(self).spec_streams()[i]@
                    },
                ),
            final(self).spec_peers() == old(self).spec_peers(),
            final(self).spec_associations() == old(self).spec_associations(),
    {
        match find_stream_in(&self.streamers, &stream_id) {
            Some(i) => {
                proof {
                    assert forall|j: int|
                        0 <= j < self.spec_streams().len() && (#[trigger] self.spec_streams()[j]).spec_stream_id()
                            == stream_id@ implies j == i as int by {
                        self.lemma_stream_index(i as int, j);
                    }
                }
                let ghost before = self.streamers@;
                assert(stream_ok(before[i as int]@));
                let mut streamer = self.streamers.remove(i);
                streamer.set_bitrate(bitrate);
                self.reinsert_stream(i, streamer, Ghost(before));
                let rate = decimal_string(bitrate as u64);
                Ok(join5("Stream ", stream_id.as_str(), " bitrate set to ", rate.as_str(), " bps"))
            },
            None => Err(join3("WebRTC stream ", stream_id.as_str(), " not found")),
        }
    }

    /// Whether the stream runs, for the loop that drives it.
    pub fn is_stream_running(&self, stream_id: &String) -> (b: bool)
        requires
            self.wf(),
        ensures
            b == exists|i: int|
                0 <= i < self.spec_streams().len() && (#[trigger] self.spec_streams()[i]).spec_stream_id()
                    == stream_id@ && self.spec_streams()[i].spec_is_streaming(),
    {
        match find_stream_in(&self.streamers, stream_id) {
            Some(i) => {
                proof {
                    assert forall|j: int|
                        0 <= j < self.spec_streams().len() && (#[trigger] self.spec_streams()[j]).spec_stream_id()
                            == stream_id@ implies j == i as int by {
                        self.lemma_stream_index(i as int, j);
                    }
                }
                self.streamers[i].is_streaming()
            },
            None => false,
        }
    }

    /// Opens the camera of a stream that the loop driving it has just begun (see
    /// [`WebRTCStreamer::open_stream_camera`]); `None` for a stream the registry does not have.
    pub fn open_stream_camera(
        &mut self,
        stream_id: &String,
        use_mock: bool,
        platform: Platform,
        device_opened: Result<(), CameraError>,
        stream_opened: Result<(), CameraError>,
    ) -> (r: Option<
        (Option<PlatformCamera>, bool),
    >)
        requires
            old(self).wf(),
        ensures
            final(self).wf(),
            !holds(stream_ids(old(self).spec_streams()), stream_id@) ==> r is None && *final(self)
                == *old(self),
            holds(stream_ids(old(self).spec_streams()), stream_id@) ==> r is Some,
            forall|i: int|
                0 <= i < old(self).spec_streams().len() && (#[trigger] old(
                    self,
                ).spec_streams()[i]).spec_stream_id() == stream_id@ ==> {
                    let s = old(self).spec_streams()[i];
                    &&& s.spec_mode() == StreamMode::SyntheticTest ==> r == Some::<
                        (Option<PlatformCamera>, bool),
                    >((None, false))
                    &&& s.spec_mode() == StreamMode::RealCamera && !use_mock && (platform
                        == Platform::Unknown || parsed_device_index(s.spec_device_id()) is None
                        || device_opened is Err) ==> r == Some::<
                        (Option<PlatformCamera>, bool),
                    >((None, false))
                    &&& s.spec_mode() == StreamMode::RealCamera && !use_mock && platform
                        != Platform::Unknown && parsed_device_index(s.spec_device_id()) is Some
                        && device_opened is Ok ==> (r matches Some(
                        (Some(PlatformCamera::Device(d)), b),
                    ) && d.spec_device_id() == s.spec_device_id() && b == stream_opened is Ok
                        && d.spec_stream_open() == b)
                    &&& s.spec_mode() == StreamMode::RealCamera && use_mock ==> (r matches Some(
                        (Some(PlatformCamera::Mock(c)), true),
                    ) && c.spec_device_id() == s.spec_device_id() && c.spec_is_streaming())
                },
            final(self).spec_streams().len() == old(self).spec_streams().len(),
            stream_ids(final(self).spec_streams()) == stream_ids(old(self).spec_streams()),
            final(self).spec_peers() == old(self).spec_peers(),
            final(self).spec_associations() == old(self).spec_associations(),
    {
        match find_stream_in(&self.streamers, stream_id) {
            Some(i) => {
                proof {
                    assert forall|j: int|
                        0 <= j < self.spec_streams().len() && (#[trigger] self.spec_streams()[j]).spec_stream_id()
                            == stream_id@ implies j == i as int by {
                        self.lemma_stream_index(i as int, j);
                    }
                }
                let ghost before = self.streamers@;
                assert(stream_ok(before[i as int]@));
                let mut streamer = self.streamers.remove(i);
                let device_id = streamer.device_id().clone();
                let opened = streamer.open_stream_camera(
                    &device_id,
                    use_mock,
                    platform,
                    device_opened,
                    stream_opened,
                );
                self.reinsert_stream(i, streamer, Ghost(before));
                proof {
                    assert(stream_ids(self.spec_streams()) =~= stream_ids(before));
                }
                Some(opened)
            },
            None => None,
        }
    }

    /// One round of the loop that drives a running stream (see
    /// [`WebRTCStreamer::process_one_frame`]): `None` when the registry has no such running
    /// stream, or when its configured size is too large to make a synthetic frame of (more
    /// than `u32::MAX` bytes), on which the loop ends.
    pub fn process_stream_frame(
        &mut self,
        stream_id: &String,
        camera: &mut Option<PlatformCamera>,
        available: bool,
        frame_counter: u64,
        last_keyframe: u64,
    ) -> (r: Option<(bool, u64)>)
        requires
            old(self).wf(),
            last_keyframe <= frame_counter,
        ensures
            final(self).wf(),
            r is None ==> *final(self) == *old(self),
            r matches Some(p) ==> (frame_counter - last_keyframe >= KEYFRAME_INTERVAL ==> p.1
                == frame_counter) && (frame_counter - last_keyframe < KEYFRAME_INTERVAL ==> p.1
                == last_keyframe),
            (exists|i: int|
                0 <= i < old(self).spec_streams().len()
                    && (#[trigger] old(self).spec_streams()[i]).spec_stream_id() == stream_id@
                    && old(self).spec_streams()[i].spec_is_streaming() && {
                    let c = old(self).spec_streams()[i].spec_config();
                    c.width as int * c.height as int * 3 <= u32::MAX
                }) <==> r is Some,
            stream_ids(final(self).spec_streams()) == stream_ids(old(self).spec_streams()),
            forall|i: int|
                0 <= i < old(self).spec_streams().len() && (#[trigger] old(
                    self,
                ).spec_streams()[i]).spec_stream_id() == stream_id@ ==> {
                    &&& old(self).spec_streams()[i].spec_paused() ==> final(self).spec_streams()[i].spec_payloads_sent()
                        == old(self).spec_streams()[i].spec_payloads_sent()
                    &&& r is Some ==> (final(self).spec_streams()[i].spec_last_capture() matches Some(c)
                        && is_stream_frame(
                        old(self).spec_streams()[i].spec_mode(),
                        old(self).spec_streams()[i].spec_config(),
                        *old(camera),
                        available,
                        frame_counter,
                        c,
                    ) && (!encodable(c, c.width, c.height) ==> (r matches Some(p) && !p.0)
                        && final(self).spec_streams()[i].spec_frames_sent() == old(self).spec_streams()[i].spec_frames_sent())
                        && (encodable(c, c.width, c.height) && final(self).spec_streams()[i].spec_frames_sent()
                        == old(self).spec_streams()[i].spec_frames_sent() ==> (r matches Some(p) && !p.0)
                        && final(self).spec_streams()[i].spec_encoder_refusals()
                        == old(self).spec_streams()[i].spec_encoder_refusals() + 1)
                        && ((r matches Some(p) && p.0) ==> encodable(c, c.width, c.height)
                        && encodes(
                        final(self).spec_streams()[i].spec_frames_sent().last(),
                        c,
                        frame_counter - last_keyframe >= KEYFRAME_INTERVAL,
                    )))
                    &&& (r matches Some(p) && p.0) && (old(self).spec_streams()[i].spec_paused()
                        || !old(self).spec_streams()[i].spec_has_rtp_sender()
                        || old(self).spec_streams()[i].spec_failure_count() + 1 <= MAX_FAILURES)
                        ==> final(self).spec_streams()[i].spec_is_streaming() == old(self).spec_streams()[i].spec_is_streaming()
                    &&& (r matches Some(p) && p.0) && !old(self).spec_streams()[i].spec_paused()
                        && old(self).spec_streams()[i].spec_has_rtp_sender() ==> (old(
                        self,
                    ).spec_streams()[i].spec_h264_packetizer() matches Some(q) && exists|k: int|
                        1 <= k <= rtp_payloads_of(q, final(self).spec_streams()[i].spec_frames_sent().last()).len()
                            && #[trigger] final(self).spec_streams()[i].spec_payloads_sent()
                            == old(self).spec_streams()[i].spec_payloads_sent() + rtp_payloads_of(
                            q,
                            final(self).spec_streams()[i].spec_frames_sent().last(),
                        ).take(k))
                    &&& (r matches Some(p) && p.0) ==> final(self).spec_streams()[i].spec_frames_sent().len()
                        == old(self).spec_streams()[i].spec_frames_sent().len() + 1
                        && final(self).spec_streams()[i].spec_frames_sent().last().intra_requested
                        == (frame_counter - last_keyframe >= KEYFRAME_INTERVAL)
                    &&& (r matches Some(p) && p.0) ==> final(self).spec_streams()[i].spec_failure_count() == 0
                    &&& (r matches Some(p) && !p.0) ==> final(self).spec_streams()[i].spec_failure_count()
                        == old(self).spec_streams()[i].spec_failure_count() + 1
                        && final(self).spec_streams()[i].spec_is_streaming() == (old(
                        self,
                    ).spec_streams()[i].spec_failure_count() + 1 <= MAX_FAILURES)
                },
            final(self).spec_peers() == old(self).spec_peers(),
            final(self).spec_associations() == old(self).spec_associations(),
    {
        match find_stream_in(&self.streamers, stream_id) {
            Some(i) => {
                proof {
                    assert forall|j: int|
                        0 <= j < self.spec_streams().len() && (#[trigger] self.spec_streams()[j]).spec_stream_id()
                            == stream_id@ implies j == i as int by {
                        self.lemma_stream_index(i as int, j);
                    }
                }
                let running = self.streamers[i].is_streaming();
                let config = self.streamers[i].get_config();
                let w: u64 = config.width as u64;
                let h: u64 = config.height as u64;
                assert(w * h <= 0xFFFF_FFFF * 0xFFFF_FFFF) by (nonlinear_arith)
                    requires
                        w <= 0xFFFF_FFFF,
                        h <= 0xFFFF_FFFF,
                ;
                let area: u64 = w * h;
                if !running || area > 0x5555_5555 {
                    return None;
                }
                let ghost before = self.streamers@;
                assert(stream_ok(before[i as int]@));
                let mut streamer = self.streamers.remove(i);
                let step = streamer.process_one_frame(camera, available, frame_counter, last_keyframe);
                self.reinsert_stream(i, streamer, Ghost(before));
                proof {
                    assert(stream_ids(self.spec_streams()) =~= stream_ids(before));
                }
                Some(step)
            },
            None => None,
        }
    }

    /// The peer connection with the given identifier must be in the registry.
    pub fn require_peer(&self, peer_id: &String) -> (res: Result<(), String>)
        ensures
            holds(peer_ids(self.spec_peers()), peer_id@) ==> res is Ok,
            !holds(peer_ids(self.spec_peers()), peer_id@) ==> (res matches Err(m) && m@
                == peer_not_found(peer_id@)),
    {
        match find_peer_in(&self.peers, peer_id) {
            Some(_) => Ok(()),
            None => Err(join3("Peer connection ", peer_id.as_str(), " not found")),
        }
    }

    /// Create WebRTC peer connection: once the connection itself has been created (`outcome`),
    /// its record is kept under its identifier, in place of an earlier one with the same
    /// identifier.
    pub fn create_peer_connection(&mut self, peer_id: String, outcome: Result<(), String>) -> (res:
        Result<String, String>)
        requires
            old(self).wf(),
        ensures
            final(self).wf(),
            outcome matches Err(e) ==> res == Err::<String, String>(e) && *final(self) == *old(self),
            outcome is Ok ==> (res matches Ok(m) && m@ == "Peer connection "@ + peer_id@ + " created"@),
            outcome is Ok && !holds(peer_ids(old(self).spec_peers()), peer_id@) ==> final(self).spec_peers().len()
                == old(self).spec_peers().len() + 1 && final(self).spec_peers().drop_last() == old(
                self,
            ).spec_peers() && is_fresh_peer(final(self).spec_peers().last()@, peer_id@),
            outcome is Ok ==> forall|i: int|
                0 <= i < old(self).spec_peers().len() && (#[trigger] old(self).spec_peers()[i]).spec_id()
                    == peer_id@ ==> peer_changed(
                    old(self).spec_peers(),
                    final(self).spec_peers(),
                    i,
                    final(self).spec_peers()[i]@,
                ) && is_fresh_peer(final(self).spec_peers()[i]@, peer_id@),
            final(self).spec_streams() == old(self).spec_streams(),
            final(self).spec_associations() == old(self).spec_associations(),
    {
        match outcome {
            Err(e) => {
                return Err(e);
            },
            Ok(()) => {},
        }
        let msg = join3("Peer connection ", peer_id.as_str(), " created");
        match find_peer_in(&self.peers, &peer_id) {
            Some(i) => {
                proof {
                    assert forall|j: int|
                        0 <= j < self.spec_peers().len() && (#[trigger] self.spec_peers()[j]).spec_id()
                            == peer_id@ implies j == i as int by {
                        self.lemma_peer_index(i as int, j);
                    }
                }
                let ghost before = self.peers@;
                let _old_record = self.peers.remove(i);
                let fresh = PeerConnection::new(peer_id);
                self.reinsert_peer(i, fresh, Ghost(before));
            },
            None => {
                let ghost before = self.peers@;
                let fresh = PeerConnection::new(peer_id);
                self.peers.push(fresh);
                proof {
                    assert(peer_ids(self.peers@) =~= peer_ids(before).push(fresh.spec_id()));
                    lemma_push_no_repeats(peer_ids(before), fresh.spec_id());
                    assert(self.peers@.drop_last() =~= before);
                }
            },
        }
        Ok(msg)
    }

    /// Records a local description (an offer or an answer) that the connection has created
    /// and set (`outcome`), and hands it back.
    pub fn record_local_description(
        &mut self,
        peer_id: &String,
        outcome: Result<SessionDescription, String>,
    ) -> (res: Result<SessionDescription, String>)
        requires
            old(self).wf(),
        ensures
            final(self).wf(),
            !holds(peer_ids(old(self).spec_peers()), peer_id@) ==> (res matches Err(m) && m@
                == peer_not_found(peer_id@)) && *final(self) == *old(self),
            holds(peer_ids(old(self).spec_peers()), peer_id@) && outcome is Err ==> res == outcome
                && *final(self) == *old(self),
            outcome is Ok ==> forall|i: int|
                0 <= i < old(self).spec_peers().len() && (#[trigger] old(self).spec_peers()[i]).spec_id()
                    == peer_id@ ==> res == outcome && peer_changed(
                    old(self).spec_peers(),
                    final(self).spec_peers(),
                    i,
                    PeerView { has_local_description: true, ..old(self).spec_peers()[i]@ },
                ),
            final(self).spec_streams() == old(self).spec_streams(),
            final(self).spec_associations() == old(self).spec_associations(),
    {
        match find_peer_in(&self.peers, peer_id) {
            Some(i) => {
                proof {
                    assert forall|j: int|
                        0 <= j < self.spec_peers().len() && (#[trigger] self.spec_peers()[j]).spec_id()
                            == peer_id@ implies j == i as int by {
                        self.lemma_peer_index(i as int, j);
                    }
                }
                if outcome.is_err() {
                    return outcome;
                }
                let ghost before = self.peers@;
                assert(before[i as int].wf());
                let mut peer = self.peers.remove(i);
                peer.set_local_description();
                self.reinsert_peer(i, peer, Ghost(before));
                outcome
            },
            None => Err(join3("Peer connection ", peer_id.as_str(), " not found")),
        }
    }

    /// Create SDP offer: records the offer that the connection created (`outcome`).
    pub fn create_webrtc_offer(&mut self, peer_id: &String, outcome: Result<SessionDescription, String>) -> (res:
        Result<SessionDescription, String>)
        requires
            old(self).wf(),
        ensures
            final(self).wf(),
            !holds(peer_ids(old(self).spec_peers()), peer_id@) ==> (res matches Err(m) && m@
                == peer_not_found(peer_id@)) && *final(self) == *old(self),
            holds(peer_ids(old(self).spec_peers()), peer_id@) ==> res == outcome,
            outcome is Ok ==> forall|i: int|
                0 <= i < old(self).spec_peers().len() && (#[trigger] old(self).spec_peers()[i]).spec_id()
                    == peer_id@ ==> peer_changed(
                    old(self).spec_peers(),
                    final(self).spec_peers(),
                    i,
                    PeerView { has_local_description: true, ..old(self).spec_peers()[i]@ },
                ),
            outcome is Err ==> *final(self) == *old(self),
            final(self).spec_streams() == old(self).spec_streams(),
            final(self).spec_associations() == old(self).spec_associations(),
    {
        self.record_local_description(peer_id, outcome)
    }

    /// Create SDP answer: records the answer that the connection created (`outcome`).
    pub fn create_webrtc_answer(&mut self, peer_id: &String, outcome: Result<SessionDescription, String>) -> (res:
        Result<SessionDescription, String>)
        requires
            old(self).wf(),
        ensures
            final(self).wf(),
            !holds(peer_ids(old(self).spec_peers()), peer_id@) ==> (res matches Err(m) && m@
                == peer_not_found(peer_id@)) && *final(self) == *old(self),
            holds(peer_ids(old(self).spec_peers()), peer_id@) ==> res == outcome,
            outcome is Ok ==> forall|i: int|
                0 <= i < old(self).spec_peers().len() && (#[trigger] old(self).spec_peers()[i]).spec_id()
                    == peer_id@ ==> peer_changed(
                    old(self).spec_peers(),
                    final(self).spec_peers(),
                    i,
                    PeerView { has_local_description: true, ..old(self).spec_peers()[i]@ },
                ),
            outcome is Err ==> *final(self) == *old(self),
            final(self).spec_streams() == old(self).spec_streams(),
            final(self).spec_associations() == old(self).spec_associations(),
    {
        self.record_local_description(peer_id, outcome)
    }

    /// Set remote description: a rollback is refused before the connection sees it; else the
    /// connection's answer (`outcome`) decides, and a description it took is recorded.
    pub fn set_remote_description(
        &mut self,
        peer_id: &String,
        description: &SessionDescription,
        outcome: Result<(), String>,
    ) -> (res: Result<String, String>)
        requires
            old(self).wf(),
        ensures
            final(self).wf(),
            !holds(peer_ids(old(self).spec_peers()), peer_id@) ==> (res matches Err(m) && m@
                == peer_not_found(peer_id@)) && *final(self) == *old(self),
            holds(peer_ids(old(self).spec_peers()), peer_id@) && description.sdp_type
                == crate::webrtc::peer::SdpType::Rollback ==> (res matches Err(m) && m@
                == "SDP conversion failed: "@ + "Rollback SDP type not supported"@) && *final(self)
                == *old(self),
            holds(peer_ids(old(self).spec_peers()), peer_id@) && description.sdp_type
                != crate::webrtc::peer::SdpType::Rollback ==> match outcome {
                Err(e) => res == Err::<String, String>(e) && *final(self) == *old(self),
                Ok(_) => (res matches Ok(m) && m@ == "Remote description set for peer "@ + peer_id@)
                    && forall|i: int|
                    0 <= i < old(self).spec_peers().len() && (#[trigger] old(self).spec_peers()[i]).spec_id()
                        == peer_id@ ==> peer_changed(
                        old(self).spec_peers(),
                        final(self).spec_peers(),
                        i,
                        PeerView { has_remote_description: true, ..old(self).spec_peers()[i]@ },
                    ),
            },
            final(self).spec_streams() == old(self).spec_streams(),
            final(self).spec_associations() == old(self).spec_associations(),
    {
        match find_peer_in(&self.peers, peer_id) {
            Some(i) => {
                proof {
                    assert forall|j: int|
                        0 <= j < self.spec_peers().len() && (#[trigger] self.spec_peers()[j]).spec_id()
                            == peer_id@ implies j == i as int by {
                        self.lemma_peer_index(i as int, j);
                    }
                }
                match check_remote_description_type(description) {
                    Err(e) => {
                        return Err(e);
                    },
                    Ok(()) => {},
                }
                match outcome {
                    Err(e) => {
                        return Err(e);
                    },
                    Ok(()) => {},
                }
                let ghost before = self.peers@;
                assert(before[i as int].wf());
                let mut peer = self.peers.remove(i);
                peer.set_remote_description();
                self.reinsert_peer(i, peer, Ghost(before));
                Ok(prefixed("Remote description set for peer ", peer_id))
            },
            None => Err(join3("Peer connection ", peer_id.as_str(), " not found")),
        }
    }

    /// Add ICE candidate: the connection's answer (`outcome`) decides.
    pub fn add_ice_candidate(&self, peer_id: &String, outcome: Result<(), String>) -> (res: Result<
        String,
        String,
    >)
        ensures
            !holds(peer_ids(self.spec_peers()), peer_id@) ==> (res matches Err(m) && m@
                == peer_not_found(peer_id@)),
            holds(peer_ids(self.spec_peers()), peer_id@) ==> match outcome {
                Err(e) => res == Err::<String, String>(e),
                Ok(_) => res matches Ok(m) && m@ == "ICE candidate added for peer "@ + peer_id@,
            },
    {
        match find_peer_in(&self.peers, peer_id) {
            Some(_) => match outcome {
                Err(e) => Err(e),
                Ok(()) => Ok(prefixed("ICE candidate added for peer ", peer_id)),
            },
            None => Err(join3("Peer connection ", peer_id.as_str(), " not found")),
        }
    }

    /// Records a local ICE candidate that a connection has gathered; a connection the
    /// registry no longer has is passed over.
    pub fn record_local_candidate(&mut self, peer_id: &String, candidate: IceCandidate)
        requires
            old(self).wf(),
        ensures
            final(self).wf(),
            !holds(peer_ids(old(self).spec_peers()), peer_id@) ==> *final(self) == *old(self),
            forall|i: int|
                0 <= i < old(self).spec_peers().len() && (#[trigger] old(self).spec_peers()[i]).spec_id()
                    == peer_id@ ==> peer_changed(
                    old(self).spec_peers(),
                    final(self).spec_peers(),
                    i,
                    PeerView {
                        local_candidates: old(self).spec_peers()[i]@.local_candidates.push(candidate),
                        ..old(self).spec_peers()[i]@
                    },
                ),
            final(self).spec_streams() == old(self).spec_streams(),
            final(self).spec_associations() == old(self).spec_associations(),
    {
        match find_peer_in(&self.peers, peer_id) {
            Some(i) => {
                proof {
                    assert forall|j: int|
                        0 <= j < self.spec_peers().len() && (#[trigger] self.spec_peers()[j]).spec_id()
                            == peer_id@ implies j == i as int by {
                        self.lemma_peer_index(i as int, j);
                    }
                }
                let ghost before = self.peers@;
                assert(before[i as int].wf());
                let mut peer = self.peers.remove(i);
                peer.add_local_candidate(candidate);
                self.reinsert_peer(i, peer, Ghost(before));
            },
            None => {},
        }
    }

    /// Records a change of a connection's state; a connection the registry no longer has is
    /// passed over.
    pub fn record_connection_state(&mut self, peer_id: &String, state: ConnectionState)
        requires
            old(self).wf(),
        ensures
            final(self).wf(),
            !holds(peer_ids(old(self).spec_peers()), peer_id@) ==> *final(self) == *old(self),
            forall|i: int|
                0 <= i < old(self).spec_peers().len() && (#[trigger] old(self).spec_peers()[i]).spec_id()
                    == peer_id@ ==> peer_changed(
                    old(self).spec_peers(),
                    final(self).spec_peers(),
                    i,
                    PeerView { state, ..old(self).spec_peers()[i]@ },
                ),
            final(self).spec_streams() == old(self).spec_streams(),
            final(self).spec_associations() == old(self).spec_associations(),
    {
        match find_peer_in(&self.peers, peer_id) {
            Some(i) => {
                proof {
                    assert forall|j: int|
                        0 <= j < self.spec_peers().len() && (#[trigger] self.spec_peers()[j]).spec_id()
                            == peer_id@ implies j == i as int by {
                        self.lemma_peer_index(i as int, j);
                    }
                }
                let ghost before = self.peers@;
                assert(before[i as int].wf());
                let mut peer = self.peers.remove(i);
                peer.set_connection_state(state);
                self.reinsert_peer(i, peer, Ghost(before));
            },
            None => {},
        }
    }

    /// Get local ICE candidates
    pub fn get_local_ice_candidates(&self, peer_id: &String) -> (res: Result<Vec<IceCandidate>, String>)
        requires
            self.wf(),
        ensures
            !holds(peer_ids(self.spec_peers()), peer_id@) ==> (res matches Err(m) && m@
                == peer_not_found(peer_id@)),
            forall|i: int|
                0 <= i < self.spec_peers().len() && (#[trigger] self.spec_peers()[i]).spec_id()
                    == peer_id@ ==> (res matches Ok(v) && v@ == self.spec_peers()[i].spec_local_candidates()),
    {
        match find_peer_in(&self.peers, peer_id) {
            Some(i) => {
                proof {
                    assert forall|j: int|
                        0 <= j < self.spec_peers().len() && (#[trigger] self.spec_peers()[j]).spec_id()
                            == peer_id@ implies j == i as int by {
                        self.lemma_peer_index(i as int, j);
                    }
                }
                Ok(self.peers[i].get_local_candidates())
            },
            None => Err(join3("Peer connection ", peer_id.as_str(), " not found")),
        }
    }

    /// Add video transceivers for simulcast streaming: records the track of each layer that
    /// the connection added (`added`, in order; the layers are those of
    /// [`video_layers_to_add`]), then the connection's answer (`outcome`) decides.
    pub fn add_video_transceivers(
        &mut self,
        peer_id: &String,
        added: &Vec<String>,
        outcome: Result<(), String>,
    ) -> (res: Result<String, String>)
        requires
            old(self).wf(),
        ensures
            final(self).wf(),
            !holds(peer_ids(old(self).spec_peers()), peer_id@) ==> (res matches Err(m) && m@
                == peer_not_found(peer_id@)) && *final(self) == *old(self),
            holds(peer_ids(old(self).spec_peers()), peer_id@) ==> match outcome {
                Err(e) => res == Err::<String, String>(e),
                Ok(_) => res matches Ok(m) && m@ == "Video transceivers added for peer "@ + peer_id@,
            },
            forall|i: int|
                0 <= i < old(self).spec_peers().len() && (#[trigger] old(self).spec_peers()[i]).spec_id()
                    == peer_id@ ==> peer_changed(
                    old(self).spec_peers(),
                    final(self).spec_peers(),
                    i,
                    PeerView {
                        video_tracks: with_entries(
                            old(self).spec_peers()[i]@.video_tracks,
                            added@.map_values(|r: String| r@),
                        ),
                        ..old(self).spec_peers()[i]@
                    },
                ),
            final(self).spec_streams() == old(self).spec_streams(),
            final(self).spec_associations() == old(self).spec_associations(),
    {
        match find_peer_in(&self.peers, peer_id) {
            Some(i) => {
                proof {
                    assert forall|j: int|
                        0 <= j < self.spec_peers().len() && (#[trigger] self.spec_peers()[j]).spec_id()
                            == peer_id@ implies j == i as int by {
                        self.lemma_peer_index(i as int, j);
                    }
                }
                let ghost before = self.peers@;
                assert(before[i as int].wf());
                let mut peer = self.peers.remove(i);
                let ghost first = peer;
                let mut k: usize = 0;
                while k < added.len()
                    invariant
                        k <= added@.len(),
                        peer.wf(),
                        peer@ == (PeerView {
                            video_tracks: with_entries(
                                first@.video_tracks,
                                added@.map_values(|r: String| r@).subrange(0, k as int),
                            ),
                            ..first@
                        }),
                    decreases added@.len() - k,
                {
                    let ghost views = added@.map_values(|r: String| r@);
                    peer.add_video_track(added[k].clone());
                    proof {
                        assert(views.subrange(0, k + 1).drop_last() =~= views.subrange(0, k as int));
                        assert(views.subrange(0, k + 1).last() == added@[k as int]@);
                    }
                    k = k + 1;
                }
                proof {
                    let views = added@.map_values(|r: String| r@);
                    assert(views.subrange(0, added@.len() as int) =~= views);
                }
                self.reinsert_peer(i, peer, Ghost(before));
                match outcome {
                    Err(e) => Err(e),
                    Ok(()) => Ok(prefixed("Video transceivers added for peer ", peer_id)),
                }
            },
            None => Err(join3("Peer connection ", peer_id.as_str(), " not found")),
        }
    }

    /// Create data channel: once the connection has created it (`outcome`), the channel is
    /// recorded and its identifier, `<peer id>_<label>`, returned.
    pub fn create_data_channel(
        &mut self,
        peer_id: &String,
        channel_label: String,
        outcome: Result<(), String>,
    ) -> (res: Result<String, String>)
        requires
            old(self).wf(),
        ensures
            final(self).wf(),
            !holds(peer_ids(old(self).spec_peers()), peer_id@) ==> (res matches Err(m) && m@
                == peer_not_found(peer_id@)) && *final(self) == *old(self),
            holds(peer_ids(old(self).spec_peers()), peer_id@) && outcome is Err ==> res == Err::<
                String,
                String,
            >(outcome->Err_0) && *final(self) == *old(self),
            outcome is Ok ==> forall|i: int|
                0 <= i < old(self).spec_peers().len() && (#[trigger] old(self).spec_peers()[i]).spec_id()
                    == peer_id@ ==> (res matches Ok(m) && m@ == peer_id@ + "_"@ + channel_label@)
                    && peer_changed(
                    old(self).spec_peers(),
                    final(self).spec_peers(),
                    i,
                    PeerView {
                        data_channels: with_entry(
                            old(self).spec_peers()[i]@.data_channels,
                            channel_label@,
                        ),
                        ..old(self).spec_peers()[i]@
                    },
                ),
            final(self).spec_streams() == old(self).spec_streams(),
            final(self).spec_associations() == old(self).spec_associations(),
    {
        match find_peer_in(&self.peers, peer_id) {
            Some(i) => {
                proof {
                    assert forall|j: int|
                        0 <= j < self.spec_peers().len() && (#[trigger] self.spec_peers()[j]).spec_id()
                            == peer_id@ implies j == i as int by {
                        self.lemma_peer_index(i as int, j);
                    }
                }
                match outcome {
                    Err(e) => {
                        return Err(e);
                    },
                    Ok(()) => {},
                }
                let ghost before = self.peers@;
                assert(before[i as int].wf());
                let mut peer = self.peers.remove(i);
                let id = peer.create_data_channel(channel_label);
                self.reinsert_peer(i, peer, Ghost(before));
                Ok(id)
            },
            None => Err(join3("Peer connection ", peer_id.as_str(), " not found")),
        }
    }

    /// Whether data can be sent through a channel of a connection, `is_open` saying whether
    /// that channel is open (see [`PeerConnection::send_data`]).
    pub fn check_send_data(&self, peer_id: &String, channel_label: &String, is_open: bool) -> (res:
        Result<(), String>)
        requires
            self.wf(),
        ensures
            !holds(peer_ids(self.spec_peers()), peer_id@) ==> (res matches Err(m) && m@
                == peer_not_found(peer_id@)),
            forall|i: int|
                0 <= i < self.spec_peers().len() && (#[trigger] self.spec_peers()[i]).spec_id()
                    == peer_id@ ==> {
                    let labels = self.spec_peers()[i].spec_data_channels();
                    &&& !holds(labels, channel_label@) ==> (res matches Err(m) && m@
                        == "Data channel '"@ + channel_label@ + "' not found"@)
                    &&& holds(labels, channel_label@) && !is_open ==> (res matches Err(m) && m@
                        == "Data channel '"@ + channel_label@ + "' is not open"@)
                    &&& holds(labels, channel_label@) && is_open ==> res is Ok
                },
    {
        match find_peer_in(&self.peers, peer_id) {
            Some(i) => {
                proof {
                    assert forall|j: int|
                        0 <= j < self.spec_peers().len() && (#[trigger] self.spec_peers()[j]).spec_id()
                            == peer_id@ implies j == i as int by {
                        self.lemma_peer_index(i as int, j);
                    }
                }
                self.peers[i].send_data(channel_label, is_open)
            },
            None => Err(join3("Peer connection ", peer_id.as_str(), " not found")),
        }
    }

    /// Send data through data channel: the check of [`Self::check_send_data`], then the
    /// channel's answer (`outcome`).
    pub fn send_data_channel_message(
        &self,
        peer_id: &String,
        channel_label: &String,
        is_open: bool,
        outcome: Result<(), String>,
    ) -> (res: Result<String, String>)
        requires
            self.wf(),
        ensures
            !holds(peer_ids(self.spec_peers()), peer_id@) ==> (res matches Err(m) && m@
                == peer_not_found(peer_id@)),
            forall|i: int|
                0 <= i < self.spec_peers().len() && (#[trigger] self.spec_peers()[i]).spec_id()
                    == peer_id@ ==> {
                    let labels = self.spec_peers()[i].spec_data_channels();
                    &&& !holds(labels, channel_label@) ==> (res matches Err(m) && m@
                        == "Data channel '"@ + channel_label@ + "' not found"@)
                    &&& holds(labels, channel_label@) && !is_open ==> (res matches Err(m) && m@
                        == "Data channel '"@ + channel_label@ + "' is not open"@)
                    &&& holds(labels, channel_label@) && is_open ==> match outcome {
                        Err(e) => res == Err::<String, String>(e),
                        Ok(_) => res matches Ok(m) && m@ == "Data sent through channel '"@
                            + channel_label@ + "' on peer "@ + peer_id@,
                    }
                },
    {
        match self.check_send_data(peer_id, channel_label, is_open) {
            Err(e) => Err(e),
            Ok(()) => match outcome {
                Err(e) => Err(e),
                Ok(()) => Ok(
                    join3("Data sent through channel '", channel_label.as_str(), "' on peer ").concat(
                        peer_id.as_str(),
                    ),
                ),
            },
        }
    }

    /// Get peer connection status
    pub fn get_peer_connection_status(&self, peer_id: &String) -> (res: Result<PeerConnectionStats, String>)
        requires
            self.wf(),
        ensures
            !holds(peer_ids(self.spec_peers()), peer_id@) ==> (res matches Err(m) && m@
                == peer_not_found(peer_id@)),
            forall|i: int|
                0 <= i < self.spec_peers().len() && (#[trigger] self.spec_peers()[i]).spec_id()
                    == peer_id@ ==> (res matches Ok(st) && peer_reports(st, self.spec_peers()[i])),
    {
        match find_peer_in(&self.peers, peer_id) {
            Some(i) => {
                proof {
                    assert forall|j: int|
                        0 <= j < self.spec_peers().len() && (#[trigger] self.spec_peers()[j]).spec_id()
                            == peer_id@ implies j == i as int by {
                        self.lemma_peer_index(i as int, j);
                    }
                }
                Ok(self.peers[i].get_stats())
            },
            None => Err(join3("Peer connection ", peer_id.as_str(), " not found")),
        }
    }

    /// Close peer connection: its record leaves the registry whatever the connection answers
    /// when it is closed (`outcome`).
    pub fn close_peer_connection(&mut self, peer_id: &String, outcome: Result<(), String>) -> (res:
        Result<String, String>)
        requires
            old(self).wf(),
        ensures
            final(self).wf(),
            !holds(peer_ids(old(self).spec_peers()), peer_id@) ==> (res matches Err(m) && m@
                == peer_not_found(peer_id@)) && *final(self) == *old(self),
            forall|i: int|
                0 <= i < old(self).spec_peers().len() && (#[trigger] old(self).spec_peers()[i]).spec_id()
                    == peer_id@ ==> final(self).spec_peers() == old(self).spec_peers().remove(i)
                    && match outcome {
                    Err(e) => res == Err::<String, String>(e),
                    Ok(_) => res matches Ok(m) && m@ == "Peer connection "@ + peer_id@ + " closed"@,
                },
            final(self).spec_streams() == old(self).spec_streams(),
            final(self).spec_associations() == old(self).spec_associations(),
    {
        match find_peer_in(&self.peers, peer_id) {
            Some(i) => {
                proof {
                    assert forall|j: int|
                        0 <= j < self.spec_peers().len() && (#[trigger] self.spec_peers()[j]).spec_id()
                            == peer_id@ implies j == i as int by {
                        self.lemma_peer_index(i as int, j);
                    }
                }
                let ghost before = self.peers@;
                let _closed = self.peers.remove(i);
                proof {
                    assert(peer_ids(self.peers@) =~= peer_ids(before).remove(i as int));
                    lemma_remove_no_repeats(peer_ids(before), i as int);
                }
                match outcome {
                    Err(e) => Err(e),
                    Ok(()) => Ok(join3("Peer connection ", peer_id.as_str(), " closed")),
                }
            },
            None => Err(join3("Peer connection ", peer_id.as_str(), " not found")),
        }
    }

    /// List all peer connections
    pub fn list_peer_connections(&self) -> (res: Result<Vec<PeerConnectionStats>, String>)
        ensures
            res matches Ok(v) && v@.len() == self.spec_peers().len() && forall|i: int|
                0 <= i < v@.len() ==> peer_reports(#[trigger] v@[i], self.spec_peers()[i]),
    {
        let mut connections: Vec<PeerConnectionStats> = Vec::new();
        let mut i: usize = 0;
        while i < self.peers.len()
            invariant
                i <= self.peers.len(),
                connections@.len() == i,
                forall|k: int| 0 <= k < i ==> peer_reports(#[trigger] connections@[k], self.peers@[k]),
            decreases self.peers.len() - i,
        {
            connections.push(self.peers[i].get_stats());
            i = i + 1;
        }
        Ok(connections)
    }

    /// Get WebRTC system status: how many streams there are and run, how many peers there are
    /// and are connected, and how many receivers subscribe to the streams' frames (a count
    /// that only the channels know, added up without overflowing).
    pub fn get_webrtc_system_status(&self) -> (res: Result<WebRTCSystemStatus, String>)
        ensures
            res matches Ok(st) && st.total_streams == self.spec_streams().len() && st.active_streams
                == count_active(self.spec_streams()) && st.total_peers == self.spec_peers().len()
                && st.connected_peers == count_connected(self.spec_peers())
                && st.active_streams <= st.total_streams && st.connected_peers <= st.total_peers,
    {
        let mut active_streams: usize = 0;
        let mut total_subscribers: usize = 0;
        let mut i: usize = 0;
        while i < self.streamers.len()
            invariant
                i <= self.streamers.len(),
                active_streams == count_active(self.streamers@.subrange(0, i as int)),
                active_streams <= i,
            decreases self.streamers.len() - i,
        {
            let stats = self.streamers[i].get_stats();
            proof {
                assert(self.streamers@.subrange(0, i + 1).drop_last() =~= self.streamers@.subrange(
                    0,
                    i as int,
                ));
            }
            if stats.is_active {
                active_streams = active_streams + 1;
            }
            total_subscribers = total_subscribers.saturating_add(stats.subscribers);
            i = i + 1;
        }
        assert(self.streamers@.subrange(0, self.streamers@.len() as int) =~= self.streamers@);
        let mut connected_peers: usize = 0;
        let mut j: usize = 0;
        while j < self.peers.len()
            invariant
                j <= self.peers.len(),
                connected_peers == count_connected(self.peers@.subrange(0, j as int)),
                connected_peers <= j,
            decreases self.peers.len() - j,
        {
            proof {
                assert(self.peers@.subrange(0, j + 1).drop_last() =~= self.peers@.subrange(0, j as int));
            }
            if self.peers[j].get_connection_state() == ConnectionState::Connected {
                connected_peers = connected_peers + 1;
            }
            j = j + 1;
        }
        assert(self.peers@.subrange(0, self.peers@.len() as int) =~= self.peers@);
        Ok(
            WebRTCSystemStatus {
                total_streams: self.streamers.len(),
                active_streams,
                total_subscribers,
                total_peers: self.peers.len(),
                connected_peers,
            },
        )
    }

    /// Associate WebRTC stream with peer connection: the stream is associated with the peer
    /// (in place of an earlier association) and sends its RTP to `rtp_sender`. Returns the
    /// video layer to add to the peer first when it has no video track yet.
    pub fn associate_stream_with_peer(
        &mut self,
        stream_id: &String,
        peer_id: &String,
        rtp_sender: UnboundedSender<RtpPayload>,
    ) -> (res: Result<Option<SimulcastLayer>, String>)
        requires
            old(self).wf(),
        ensures
            final(self).wf(),
            !holds(stream_ids(old(self).spec_streams()), stream_id@) ==> (res matches Err(m) && m@
                == stream_not_found(stream_id@)) && *final(self) == *old(self),
            holds(stream_ids(old(self).spec_streams()), stream_id@) && !holds(
                peer_ids(old(self).spec_peers()),
                peer_id@,
            ) ==> (res matches Err(m) && m@ == peer_not_found(peer_id@)) && *final(self) == *old(
                self,
            ),
            forall|i: int, j: int|
                0 <= i < old(self).spec_streams().len() && (#[trigger] old(
                    self,
                ).spec_streams()[i]).spec_stream_id() == stream_id@ && 0 <= j < old(
                    self,
                ).spec_peers().len() && (#[trigger] old(self).spec_peers()[j]).spec_id() == peer_id@
                    ==> {
                    &&& res is Ok
                    &&& res matches Ok(layer) && (layer is Some <==> old(self).spec_peers()[j]@.video_tracks.len() == 0)
                    &&& res matches Ok(Some(l)) ==> l.rid@ == "f"@ && l.width == 1280 && l.height == 720
                        && l.bitrate == 2_000_000 && l.fps == 30
                    &&& stream_updated(
                        old(self).spec_streams(),
                        final(self).spec_streams(),
                        i,
                        StreamerView {
                            has_rtp_sender: true,
                            payloads_sent: payloads_offered(rtp_sender),
                            ..old(self).spec_streams()[i]@
                        },
                    )
                    &&& final(self).spec_associations() == with_association(
                        old(self).spec_associations(),
                        stream_id@,
                        peer_id@,
                    )
                    &&& final(self).spec_peers() == old(self).spec_peers()
                },
    {
        let i = match find_stream_in(&self.streamers, stream_id) {
            Some(i) => i,
            None => {
                return Err(join3("WebRTC stream ", stream_id.as_str(), " not found"));
            },
        };
        let j = match find_peer_in(&self.peers, peer_id) {
            Some(j) => j,
            None => {
                return Err(join3("Peer connection ", peer_id.as_str(), " not found"));
            },
        };
        proof {
            assert forall|k: int|
                0 <= k < self.spec_streams().len() && (#[trigger] self.spec_streams()[k]).spec_stream_id()
                    == stream_id@ implies k == i as int by {
                self.lemma_stream_index(i as int, k);
            }
            assert forall|k: int|
                0 <= k < self.spec_peers().len() && (#[trigger] self.spec_peers()[k]).spec_id()
                    == peer_id@ implies k == j as int by {
                self.lemma_peer_index(j as int, k);
            }
        }
        self.associate(stream_id, peer_id);
        let ghost before = self.streamers@;
        assert(stream_ok(before[i as int]@));
        let mut streamer = self.streamers.remove(i);
        streamer.set_rtp_sender(rtp_sender);
        self.reinsert_stream(i, streamer, Ghost(before));
        let rids = self.peers[j].get_video_track_rids();
        if rids.len() == 0 {
            Ok(Some(default_video_layer()))
        } else {
            Ok(None)
        }
    }

    fn associate(&mut self, stream_id: &String, peer_id: &String)
        requires
            old(self).wf(),
        ensures
            final(self).wf(),
            final(self).spec_associations() == with_association(
                old(self).spec_associations(),
                stream_id@,
                peer_id@,
            ),
            final(self).spec_streams() == old(self).spec_streams(),
            final(self).spec_peers() == old(self).spec_peers(),
    {
        let ghost a = self.spec_associations();
        let mut k: usize = 0;
        while k < self.associations.len()
            invariant
                k <= self.associations.len(),
                self.spec_associations() == a,
                self.spec_streams() == old(self).spec_streams(),
                self.spec_peers() == old(self).spec_peers(),
                a == old(self).spec_associations(),
                old(self).wf(),
                forall|m: int| 0 <= m < k ==> (#[trigger] a[m]).0 != stream_id@,
            decreases self.associations.len() - k,
        {
            if self.associations[k].0 == *stream_id {
                proof {
                    assert(association_keys(a)[k as int] == stream_id@);
                    assert(holds(association_keys(a), stream_id@));
                    assert forall|m: int| 0 <= m < a.len() && m != k as int implies (#[trigger] a[m]).0
                        != stream_id@ by {
                        if a[m].0 == stream_id@ {
                            assert(association_keys(a)[m] == stream_id@);
                            lemma_unique_index(association_keys(a), m, k as int);
                        }
                    }
                }
                self.associations.set(k, (stream_id.clone(), peer_id.clone()));
                proof {
                    assert(self.spec_associations() =~= with_association(a, stream_id@, peer_id@));
                    assert(association_keys(self.spec_associations()) =~= association_keys(a));
                }
                return;
            }
            k = k + 1;
        }
        proof {
            if holds(association_keys(a), stream_id@) {
                let c = choose|m: int| 0 <= m < association_keys(a).len() && association_keys(a)[m] == stream_id@;
                assert(a[c].0 == stream_id@);
            }
        }
        self.associations.push((stream_id.clone(), peer_id.clone()));
        proof {
            assert(self.spec_associations() =~= a.push((stream_id@, peer_id@)));
            assert(association_keys(self.spec_associations()) =~= association_keys(a).push(stream_id@));
            lemma_push_no_repeats(association_keys(a), stream_id@);
        }
    }

    /// Completes an association once the peer's video layers are set up: the peer's first
    /// video track carries the stream. Returns that track's identifier and the command's
    /// message.
    pub fn finish_association(&self, stream_id: &String, peer_id: &String) -> (res: Result<
        (String, String),
        String,
    >)
        requires
            self.wf(),
        ensures
            !holds(peer_ids(self.spec_peers()), peer_id@) ==> (res matches Err(m) && m@
                == peer_not_found(peer_id@)),
            forall|j: int|
                0 <= j < self.spec_peers().len() && (#[trigger] self.spec_peers()[j]).spec_id()
                    == peer_id@ ==> {
                    let tracks = self.spec_peers()[j]@.video_tracks;
                    &&& tracks.len() == 0 ==> (res matches Err(m) && m@
                        == "No video tracks available on peer "@ + peer_id@ + " after setup"@)
                    &&& tracks.len() > 0 ==> (res matches Ok(r) && r.0@ == tracks[0] && r.1@
                        == "Stream "@ + stream_id@ + " associated with peer "@ + peer_id@
                        + " (track "@ + tracks[0] + ")"@)
                },
    {
        let j = match find_peer_in(&self.peers, peer_id) {
            Some(j) => j,
            None => {
                return Err(join3("Peer connection ", peer_id.as_str(), " not found"));
            },
        };
        proof {
            assert forall|k: int|
                0 <= k < self.spec_peers().len() && (#[trigger] self.spec_peers()[k]).spec_id()
                    == peer_id@ implies k == j as int by {
                self.lemma_peer_index(j as int, k);
            }
        }
        let rids = self.peers[j].get_video_track_rids();
        if rids.len() == 0 {
            return Err(join3("No video tracks available on peer ", peer_id.as_str(), " after setup"));
        }
        assert(rids@[0]@ == crate::webrtc::peer::string_views(rids@)[0]);
        let track_rid = rids[0].clone();
        let msg = join5("Stream ", stream_id.as_str(), " associated with peer ", peer_id.as_str(), " (track ")
            .concat(track_rid.as_str()).concat(")");
        Ok((track_rid, msg))
    }
}


/// Starting a stream under a new identifier and then asking for its status reports it
/// running, under that identifier, at the configured bitrate, frame rate and size (those of
/// the default configuration when none was given), in the requested mode (a real camera when
/// none was requested), with its camera available.
pub proof fn lemma_started_stream_reports_running(
    before: WebRTCRegistry,
    after: WebRTCRegistry,
    stream_id: Seq<char>,
    device_id: Seq<char>,
    config: Option<StreamConfigView>,
    mode: Option<StreamMode>,
    st: StreamStats,
)
    requires
        after.wf(),
        after.spec_streams().len() == before.spec_streams().len() + 1,
        after.spec_streams().drop_last() == before.spec_streams(),
        is_started_stream(after.spec_streams().last()@, stream_id, device_id, config, mode),
        forall|i: int|
            0 <= i < after.spec_streams().len() && (#[trigger] after.spec_streams()[i]).spec_stream_id()
                == stream_id ==> reports(st, after.spec_streams()[i]),
    ensures
        ({
            let c = match config {
                Some(c) => c,
                None => StreamConfig::spec_default(),
            };
            &&& st.is_active
            &&& st.stream_id@ == stream_id
            &&& st.target_bitrate == c.bitrate
            &&& st.current_fps == c.max_fps
            &&& st.resolution == (c.width, c.height)
            &&& st.codec == c.codec
            &&& st.mode == (match mode {
                Some(m) => m,
                None => StreamMode::RealCamera,
            })
            &&& st.camera_status == CameraStatus::Available
        }),
{
    let last = after.spec_streams().len() - 1;
    assert(after.spec_streams()[last] == after.spec_streams().last());
}

/// Once a stream has been stopped, the registry no longer has it: asking for its status, or
/// stopping it again, is answered that it is not found.
pub proof fn lemma_stopped_stream_is_gone(before: WebRTCRegistry, i: int, stream_id: Seq<char>)
    requires
        before.wf(),
        0 <= i < before.spec_streams().len(),
        before.spec_streams()[i].spec_stream_id() == stream_id,
    ensures
        !holds(stream_ids(before.spec_streams().remove(i)), stream_id),
{
    let s = before.spec_streams();
    let r = s.remove(i);
    if holds(stream_ids(r), stream_id) {
        let k = choose|k: int| 0 <= k < stream_ids(r).len() && stream_ids(r)[k] == stream_id;
        let a = if k < i { k } else { k + 1 };
        assert(stream_ids(s)[a] == stream_id && stream_ids(s)[i] == stream_id);
        lemma_unique_index(stream_ids(s), a, i);
    }
}

/// Once a peer connection has been closed, the registry no longer has it: asking for its
/// status, or closing it again, is answered that it is not found.
pub proof fn lemma_closed_peer_is_gone(before: WebRTCRegistry, i: int, peer_id: Seq<char>)
    requires
        before.wf(),
        0 <= i < before.spec_peers().len(),
        before.spec_peers()[i].spec_id() == peer_id,
    ensures
        !holds(peer_ids(before.spec_peers().remove(i)), peer_id),
{
    let s = before.spec_peers();
    let r = s.remove(i);
    if holds(peer_ids(r), peer_id) {
        let k = choose|k: int| 0 <= k < peer_ids(r).len() && peer_ids(r)[k] == peer_id;
        let a = if k < i { k } else { k + 1 };
        assert(peer_ids(s)[a] == peer_id && peer_ids(s)[i] == peer_id);
        lemma_unique_index(peer_ids(s), a, i);
    }
}

/// After a stream is associated with a peer, the stream's one association leads to that peer,
/// whatever it was associated with before; the other streams' associations are as they were.
pub proof fn lemma_association_leads_to_peer(
    a: Seq<(Seq<char>, Seq<char>)>,
    stream_id: Seq<char>,
    peer_id: Seq<char>,
)
    requires
        no_repeats(association_keys(a)),
    ensures
        ({
            let b = with_association(a, stream_id, peer_id);
            &&& no_repeats(association_keys(b))
            &&& exists|i: int| 0 <= i < b.len() && b[i] == (stream_id, peer_id)
            &&& forall|i: int| 0 <= i < b.len() && (#[trigger] b[i]).0 == stream_id ==> b[i].1 == peer_id
            &&& forall|p: (Seq<char>, Seq<char>)|
                p.0 != stream_id ==> (a.contains(p) <==> b.contains(p))
        }),
{
    let b = with_association(a, stream_id, peer_id);
    if holds(association_keys(a), stream_id) {
        let c = choose|i: int| 0 <= i < association_keys(a).len() && association_keys(a)[i] == stream_id;
        assert(a[c].0 == stream_id);
        assert(association_keys(b) =~= association_keys(a));
        assert(b[c] == (stream_id, peer_id));
        assert forall|i: int| 0 <= i < b.len() && (#[trigger] b[i]).0 == stream_id implies b[i].1
            == peer_id by {
            if i != c {
                assert(association_keys(a)[i] == stream_id);
                lemma_unique_index(association_keys(a), i, c);
            }
        }
        assert forall|p: (Seq<char>, Seq<char>)| p.0 != stream_id implies (a.contains(p)
            <==> b.contains(p)) by {
            if a.contains(p) {
                let i = choose|i: int| 0 <= i < a.len() && a[i] == p;
                assert(i != c);
                assert(b[i] == p);
            }
            if b.contains(p) {
                let i = choose|i: int| 0 <= i < b.len() && b[i] == p;
                assert(i != c);
                assert(a[i] == p);
            }
        }
    } else {
        assert(association_keys(b) =~= association_keys(a).push(stream_id));
        lemma_push_no_repeats(association_keys(a), stream_id);
        assert(b[a.len() as int] == (stream_id, peer_id));
        assert forall|i: int| 0 <= i < b.len() && (#[trigger] b[i]).0 == stream_id implies b[i].1
            == peer_id by {
            if i < a.len() {
                assert(association_keys(a)[i] == stream_id);
            }
        }
        assert forall|p: (Seq<char>, Seq<char>)| p.0 != stream_id implies (a.contains(p)
            <==> b.contains(p)) by {
            if a.contains(p) {
                let i = choose|i: int| 0 <= i < a.len() && a[i] == p;
                assert(b[i] == p);
            }
            if b.contains(p) {
                let i = choose|i: int| 0 <= i < b.len() && b[i] == p;
                assert(i < a.len());
                assert(a[i] == p);
            }
        }
    }
}


/// After `update_webrtc_config` has given stream `i` the configuration `config`, what is
/// reported of the stream (by `get_webrtc_stream_status` or `list_webrtc_streams`) gives the
/// new bitrate and resolution, and the new frame rate while the stream runs; the stream's
/// identifier and whether it runs are as before.
pub proof fn lemma_status_after_config_update(
    before: Seq<WebRTCStreamer>,
    after: Seq<WebRTCStreamer>,
    i: int,
    config: StreamConfigView,
    st: StreamStats,
)
    requires
        0 <= i < before.len(),
        stream_updated(before, after, i, StreamerView { config, ..before[i]@ }),
        reports(st, after[i]),
    ensures
        st.target_bitrate == config.bitrate,
        st.resolution == (config.width, config.height),
        st.current_fps == (if before[i].spec_is_streaming() { config.max_fps } else { 0 }),
        st.codec == config.codec,
        st.stream_id@ == before[i].spec_stream_id(),
        st.is_active == before[i].spec_is_streaming(),
{
}

/// After `set_webrtc_stream_bitrate` has set stream `i`'s bitrate, what is reported of the
/// stream gives the new bitrate, and its frame rate, resolution and codec as before.
pub proof fn lemma_status_after_bitrate_change(
    before: Seq<WebRTCStreamer>,
    after: Seq<WebRTCStreamer>,
    i: int,
    bitrate: u32,
    st: StreamStats,
    st_before: StreamStats,
)
    requires
        0 <= i < before.len(),
        stream_updated(
            before,
            after,
            i,
            StreamerView {
                config: StreamConfigView { bitrate, ..before[i]@.config },
                ..before[i]@
            },
        ),
        reports(st_before, before[i]),
        reports(st, after[i]),
    ensures
        st.target_bitrate == bitrate,
        st.current_fps == st_before.current_fps,
        st.resolution == st_before.resolution,
        st.codec == st_before.codec,
        st.is_active == st_before.is_active,
{
}

} // verus!
