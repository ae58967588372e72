//! WebRTC peer connections: their configuration, session descriptions, ICE candidates, and the
//! record that the library keeps of each connection (its state, data channels, video tracks and
//! gathered candidates). The connection's network side is driven by the application.
use vstd::prelude::*;

use crate::text::{join3, prefixed};

verus! {

/// ICE server configuration
#[derive(Debug, Clone)]
pub struct IceServer {
    pub urls: Vec<String>,
    pub username: Option<String>,
    pub credential: Option<String>,
}

/// ICE transport policy (`Unspecified` leaves the choice to the connection)
#[derive(Debug, Clone, Copy, PartialEq, Eq, Structural)]
pub enum IceTransportPolicy {
    Unspecified,
    Relay,
    All,
}

/// Bundle policy for RTC connection
#[derive(Debug, Clone, Copy, PartialEq, Eq, Structural)]
pub enum BundlePolicy {
    Balanced,
    MaxCompat,
    MaxBundle,
}

/// WebRTC peer connection configuration
#[derive(Debug, Clone)]
pub struct RTCConfiguration {
    pub ice_servers: Vec<IceServer>,
    pub ice_transport_policy: IceTransportPolicy,
    pub bundle_policy: BundlePolicy,
}

/// The public STUN server that a default configuration uses.
pub const DEFAULT_STUN_URL: &'static str = "stun:stun.l.google.com:19302";

impl Default for RTCConfiguration {
    /// One STUN server without credentials, every ICE transport, and maximal bundling.
    fn default() -> (c: Self)
        ensures
            c.ice_servers@.len() == 1,
            c.ice_servers@[0].urls@.len() == 1,
            c.ice_servers@[0].urls@[0]@ == DEFAULT_STUN_URL@,
            c.ice_servers@[0].username is None,
            c.ice_servers@[0].credential is None,
            c.ice_transport_policy == IceTransportPolicy::All,
            c.bundle_policy == BundlePolicy::MaxBundle,
    {
        let mut urls: Vec<String> = Vec::new();
        urls.push(String::from_str(DEFAULT_STUN_URL));
        let mut ice_servers: Vec<IceServer> = Vec::new();
        ice_servers.push(IceServer { urls, username: None, credential: None });
        RTCConfiguration {
            ice_servers,
            ice_transport_policy: IceTransportPolicy::All,
            bundle_policy: BundlePolicy::MaxBundle,
        }
    }
}

impl IceServer {
    /// The user name and credential that the connection is given for this server: empty
    /// where none is set.
    pub fn rtc_credentials(&self) -> (r: (String, String))
        ensures
            r.0@ == (match self.username {
                Some(u) => u@,
                None => Seq::<char>::empty(),
            }),
            r.1@ == (match self.credential {
                Some(c) => c@,
                None => Seq::<char>::empty(),
            }),
    {
        let username = match &self.username {
            Some(u) => u.clone(),
            None => String::new(),
        };
        let credential = match &self.credential {
            Some(c) => c.clone(),
            None => String::new(),
        };
        (username, credential)
    }
}

/// The ICE transport policy that a connection is created with: `Unspecified` is not a policy of
/// its own: it falls back to gathering every kind of candidate.
pub fn effective_ice_transport_policy(policy: IceTransportPolicy) -> (p: IceTransportPolicy)
    ensures
        p == (if policy == IceTransportPolicy::Relay {
            IceTransportPolicy::Relay
        } else {
            IceTransportPolicy::All
        }),
{
    match policy {
        IceTransportPolicy::Unspecified => IceTransportPolicy::All,
        IceTransportPolicy::Relay => IceTransportPolicy::Relay,
        IceTransportPolicy::All => IceTransportPolicy::All,
    }
}

/// WebRTC peer connection state
#[derive(Debug, Clone, Copy, PartialEq, Eq, Structural)]
pub enum ConnectionState {
    New,
    Connecting,
    Connected,
    Disconnected,
    Failed,
    Closed,
}

/// SDP (Session Description Protocol) type
#[derive(Debug, Clone, Copy, PartialEq, Eq, Structural)]
pub enum SdpType {
    Offer,
    Answer,
    Pranswer,
    Rollback,
}

/// Session description
#[derive(Debug, Clone)]
pub struct SessionDescription {
    pub sdp_type: SdpType,
    pub sdp: String,
}

/// A remote description can be applied unless it is a rollback, which is refused.
pub fn check_remote_description_type(desc: &SessionDescription) -> (res: Result<(), String>)
    ensures
        desc.sdp_type == SdpType::Rollback ==> (res matches Err(m) && m@ == "SDP conversion failed: "@
            + "Rollback SDP type not supported"@),
        desc.sdp_type != SdpType::Rollback ==> res is Ok,
{
    match desc.sdp_type {
        SdpType::Rollback => {
            let reason = String::from_str("Rollback SDP type not supported");
            Err(prefixed("SDP conversion failed: ", &reason))
        },
        _ => Ok(()),
    }
}

/// ICE candidate
#[derive(Debug, Clone)]
pub struct IceCandidate {
    pub candidate: String,
    pub sdp_mid: Option<String>,
    pub sdp_mline_index: Option<u16>,
}

impl IceCandidate {
    /// A gathered local candidate, known by its candidate line alone.
    pub fn from_candidate_line(candidate: String) -> (c: Self)
        ensures
            c.candidate == candidate,
            c.sdp_mid is None,
            c.sdp_mline_index is None,
    {
        IceCandidate { candidate, sdp_mid: None, sdp_mline_index: None }
    }

    /// A copy of this candidate.
    pub fn duplicate(&self) -> (c: Self)
        ensures
            c == *self,
    {
        IceCandidate {
            candidate: self.candidate.clone(),
            sdp_mid: match &self.sdp_mid {
                Some(m) => Some(m.clone()),
                None => None,
            },
            sdp_mline_index: self.sdp_mline_index,
        }
    }
}

/// The H.264 codec that peer connections register and that their video tracks carry.
#[derive(Debug, Clone)]
pub struct VideoCodecParameters {
    pub mime_type: String,
    pub clock_rate: u32,
    pub channels: u16,
    pub sdp_fmtp_line: String,
    pub payload_type: u8,
}

/// The format parameters of the H.264 codec: constrained baseline, level 3.1, non-interleaved.
pub const H264_FMTP_LINE: &'static str =
    "level-asymmetry-allowed=1;packetization-mode=1;profile-level-id=42e01f";

/// The H.264 codec: `video/H264` at the 90 kHz RTP clock, payload type 96.
pub fn h264_codec_parameters() -> (c: VideoCodecParameters)
    ensures
        c.mime_type@ == "video/H264"@,
        c.clock_rate == 90000,
        c.channels == 0,
        c.sdp_fmtp_line@ == H264_FMTP_LINE@,
        c.payload_type == 96,
{
    VideoCodecParameters {
        mime_type: String::from_str("video/H264"),
        clock_rate: 90000,
        channels: 0,
        sdp_fmtp_line: String::from_str(H264_FMTP_LINE),
        payload_type: 96,
    }
}

/// Peer connection statistics
#[derive(Debug, Clone)]
pub struct PeerConnectionStats {
    pub peer_id: String,
    pub state: ConnectionState,
    pub ice_candidates_count: usize,
    pub data_channels_count: usize,
    pub has_local_description: bool,
    pub has_remote_description: bool,
}

/// Whether `s` holds `x`.
pub open spec fn holds(s: Seq<Seq<char>>, x: Seq<char>) -> bool {
    exists|i: int| 0 <= i < s.len() && s[i] == x
}

/// No element of `s` occurs twice.
pub open spec fn no_repeats(s: Seq<Seq<char>>) -> bool {
    forall|i: int, j: int| 0 <= i < j < s.len() ==> (#[trigger] s[i]) != (#[trigger] s[j])
}

/// `s` with `x` added unless it is there already.
pub open spec fn with_entry(s: Seq<Seq<char>>, x: Seq<char>) -> Seq<Seq<char>> {
    if holds(s, x) {
        s
    } else {
        s.push(x)
    }
}

/// The track identifier and media stream identifier of the video track for a simulcast layer
/// of a peer: `video-<rid>` in the stream `crabcamera-video-<peer id>`.
pub fn video_track_ids_for(peer_id: &String, rid: &String) -> (r: (String, String))
    ensures
        r.0@ == "video-"@ + rid@,
        r.1@ == "crabcamera-video-"@ + peer_id@,
{
    (prefixed("video-", rid), prefixed("crabcamera-video-", peer_id))
}

/// The record of a WebRTC peer connection: its state and what has been set up on it.
pub struct PeerConnection {
    id: String,
    state: ConnectionState,
    data_channels: Vec<String>,
    local_candidates: Vec<IceCandidate>,
    video_tracks: Vec<String>,
    has_local_description: bool,
    has_remote_description: bool,
}

fn find_label(labels: &Vec<String>, label: &String) -> (r: Option<usize>)
    ensures
        r matches Some(i) ==> i < labels@.len() && labels@[i as int]@ == label@,
        r is None ==> forall|i: int| 0 <= i < labels@.len() ==> labels@[i]@ != label@,
{
    let mut i: usize = 0;
    while i < labels.len()
        invariant
            i <= labels.len(),
            forall|k: int| 0 <= k < i ==> labels@[k]@ != label@,
        decreases labels.len() - i,
    {
        if labels[i] == *label {
            return Some(i);
        }
        i = i + 1;
    }
    None
}

/// The views of a vector of strings.
pub open spec fn string_views(v: Seq<String>) -> Seq<Seq<char>> {
    v.map_values(|s: String| s@)
}

fn add_label(labels: &mut Vec<String>, label: String)
    ensures
        string_views(final(labels)@) == with_entry(string_views(old(labels)@), label@),
        no_repeats(string_views(old(labels)@)) ==> no_repeats(string_views(final(labels)@)),
{
    match find_label(labels, &label) {
        Some(i) => {
            assert(string_views(labels@)[i as int] == label@);
        },
        None => {
            let ghost before = string_views(labels@);
            proof {
                assert(!holds(before, label@)) by {
                    if holds(before, label@) {
                        let k = choose|k: int| 0 <= k < before.len() && before[k] == label@;
                        assert(labels@[k]@ == label@);
                    }
                }
            }
            labels.push(label);
            assert(string_views(labels@) =~= before.push(label@));
        },
    }
}

/// A peer connection's record as contracts see it.
pub struct PeerView {
    pub id: Seq<char>,
    pub state: ConnectionState,
    pub data_channels: Seq<Seq<char>>,
    pub local_candidates: Seq<IceCandidate>,
    pub video_tracks: Seq<Seq<char>>,
    pub has_local_description: bool,
    pub has_remote_description: bool,
}

impl View for PeerConnection {
    type V = PeerView;

    open spec fn view(&self) -> PeerView {
        PeerView {
            id: self.spec_id(),
            state: self.spec_state(),
            data_channels: self.spec_data_channels(),
            local_candidates: self.spec_local_candidates(),
            video_tracks: self.spec_video_tracks(),
            has_local_description: self.spec_has_local_description(),
            has_remote_description: self.spec_has_remote_description(),
        }
    }
}

impl PeerConnection {
    pub closed spec fn spec_id(&self) -> Seq<char> {
        self.id@
    }

    pub closed spec fn spec_state(&self) -> ConnectionState {
        self.state
    }

    /// The labels of the connection's data channels.
    pub closed spec fn spec_data_channels(&self) -> Seq<Seq<char>> {
        string_views(self.data_channels@)
    }

    /// The local ICE candidates gathered so far, in the order they came.
    pub closed spec fn spec_local_candidates(&self) -> Seq<IceCandidate> {
        self.local_candidates@
    }

    /// The RTP stream identifiers of the connection's video tracks, in the order they came.
    pub closed spec fn spec_video_tracks(&self) -> Seq<Seq<char>> {
        string_views(self.video_tracks@)
    }

    pub closed spec fn spec_has_local_description(&self) -> bool {
        self.has_local_description
    }

    pub closed spec fn spec_has_remote_description(&self) -> bool {
        self.has_remote_description
    }

    /// Data channels and video tracks are each known by a label that occurs once.
    pub open spec fn wf(&self) -> bool {
        no_repeats(self.spec_data_channels()) && no_repeats(self.spec_video_tracks())
    }

    /// The record of a connection that has just been created: new, with nothing set up.
    pub fn new(id: String) -> (p: Self)
        ensures
            p.wf(),
            p.spec_id() == id@,
            p.spec_state() == ConnectionState::New,
            p.spec_data_channels().len() == 0,
            p.spec_local_candidates().len() == 0,
            p.spec_video_tracks().len() == 0,
            !p.spec_has_local_description(),
            !p.spec_has_remote_description(),
    {
        let p = PeerConnection {
            id,
            state: ConnectionState::New,
            data_channels: Vec::new(),
            local_candidates: Vec::new(),
            video_tracks: Vec::new(),
            has_local_description: false,
            has_remote_description: false,
        };
        assert(p.spec_data_channels() =~= Seq::<Seq<char>>::empty());
        assert(p.spec_video_tracks() =~= Seq::<Seq<char>>::empty());
        p
    }

    /// Get peer connection ID
    pub fn id(&self) -> (id: &str)
        ensures
            id@ == self.spec_id(),
    {
        self.id.as_str()
    }

    /// Whether the connection is the one with the given identifier.
    pub fn has_id(&self, id: &String) -> (b: bool)
        ensures
            b == (self.spec_id() == id@),
    {
        self.id == *id
    }

    /// Get current connection state
    pub fn get_connection_state(&self) -> (s: ConnectionState)
        ensures
            s == self.spec_state(),
    {
        self.state
    }

    /// Records a change of the connection's state.
    pub fn set_connection_state(&mut self, state: ConnectionState)
        ensures
            final(self).spec_state() == state,
            final(self).spec_id() == old(self).spec_id(),
            final(self).spec_data_channels() == old(self).spec_data_channels(),
            final(self).spec_local_candidates() == old(self).spec_local_candidates(),
            final(self).spec_video_tracks() == old(self).spec_video_tracks(),
            final(self).spec_has_local_description() == old(self).spec_has_local_description(),
            final(self).spec_has_remote_description() == old(self).spec_has_remote_description(),
    {
        self.state = state;
    }

    /// Records that a local description (an offer or an answer) has been set.
    pub fn set_local_description(&mut self)
        ensures
            final(self).spec_has_local_description(),
            final(self).spec_state() == old(self).spec_state(),
            final(self).spec_id() == old(self).spec_id(),
            final(self).spec_data_channels() == old(self).spec_data_channels(),
            final(self).spec_local_candidates() == old(self).spec_local_candidates(),
            final(self).spec_video_tracks() == old(self).spec_video_tracks(),
            final(self).spec_has_remote_description() == old(self).spec_has_remote_description(),
    {
        self.has_local_description = true;
    }

    /// Records that the remote description has been set.
    pub fn set_remote_description(&mut self)
        ensures
            final(self).spec_has_remote_description(),
            final(self).spec_state() == old(self).spec_state(),
            final(self).spec_id() == old(self).spec_id(),
            final(self).spec_data_channels() == old(self).spec_data_channels(),
            final(self).spec_local_candidates() == old(self).spec_local_candidates(),
            final(self).spec_video_tracks() == old(self).spec_video_tracks(),
            final(self).spec_has_local_description() == old(self).spec_has_local_description(),
    {
        self.has_remote_description = true;
    }

    /// Records a gathered local ICE candidate.
    pub fn add_local_candidate(&mut self, candidate: IceCandidate)
        ensures
            final(self).spec_local_candidates() == old(self).spec_local_candidates().push(candidate),
            final(self).spec_state() == old(self).spec_state(),
            final(self).spec_id() == old(self).spec_id(),
            final(self).spec_data_channels() == old(self).spec_data_channels(),
            final(self).spec_video_tracks() == old(self).spec_video_tracks(),
            final(self).spec_has_local_description() == old(self).spec_has_local_description(),
            final(self).spec_has_remote_description() == old(self).spec_has_remote_description(),
    {
        self.local_candidates.push(candidate);
    }

    /// Get local ICE candidates
    pub fn get_local_candidates(&self) -> (v: Vec<IceCandidate>)
        ensures
            v@ == self.spec_local_candidates(),
    {
        let mut v: Vec<IceCandidate> = Vec::new();
        let mut i: usize = 0;
        while i < self.local_candidates.len()
            invariant
                i <= self.local_candidates.len(),
                v@ == self.local_candidates@.subrange(0, i as int),
            decreases self.local_candidates.len() - i,
        {
            v.push(self.local_candidates[i].duplicate());
            i = i + 1;
            assert(v@ =~= self.local_candidates@.subrange(0, i as int));
        }
        assert(v@ =~= self.local_candidates@);
        v
    }

    /// The identifier of the connection's data channel with the given label.
    pub fn data_channel_id(&self, label: &String) -> (id: String)
        ensures
            id@ == self.spec_id() + "_"@ + label@,
    {
        join3(self.id.as_str(), "_", label.as_str())
    }

    /// Records a data channel created with the given label (one created again under the same
    /// label takes the old one's place), and returns the channel's identifier.
    pub fn create_data_channel(&mut self, label: String) -> (id: String)
        requires
            old(self).wf(),
        ensures
            final(self).wf(),
            id@ == old(self).spec_id() + "_"@ + label@,
            final(self).spec_data_channels() == with_entry(old(self).spec_data_channels(), label@),
            final(self).spec_state() == old(self).spec_state(),
            final(self).spec_id() == old(self).spec_id(),
            final(self).spec_local_candidates() == old(self).spec_local_candidates(),
            final(self).spec_video_tracks() == old(self).spec_video_tracks(),
            final(self).spec_has_local_description() == old(self).spec_has_local_description(),
            final(self).spec_has_remote_description() == old(self).spec_has_remote_description(),
    {
        let id = self.data_channel_id(&label);
        add_label(&mut self.data_channels, label);
        id
    }

    /// Whether data can be sent on the channel with the given label, `is_open` saying whether
    /// that channel is open: a channel the connection does not have, or one that is not open,
    /// is refused.
    pub fn send_data(&self, channel_label: &String, is_open: bool) -> (res: Result<(), String>)
        ensures
            !holds(self.spec_data_channels(), channel_label@) ==> (res matches Err(m) && m@
                == "Data channel '"@ + channel_label@ + "' not found"@),
            holds(self.spec_data_channels(), channel_label@) && !is_open ==> (res matches Err(m)
                && m@ == "Data channel '"@ + channel_label@ + "' is not open"@),
            holds(self.spec_data_channels(), channel_label@) && is_open ==> res is Ok,
    {
        match find_label(&self.data_channels, channel_label) {
            Some(i) => {
                assert(self.spec_data_channels()[i as int] == channel_label@);
                if is_open {
                    Ok(())
                } else {
                    Err(join3("Data channel '", channel_label.as_str(), "' is not open"))
                }
            },
            None => {
                proof {
                    if holds(self.spec_data_channels(), channel_label@) {
                        let k = choose|k: int|
                            0 <= k < self.spec_data_channels().len()
                                && self.spec_data_channels()[k] == channel_label@;
                        assert(self.data_channels@[k]@ == channel_label@);
                    }
                }
                Err(join3("Data channel '", channel_label.as_str(), "' not found"))
            },
        }
    }

    /// The track identifier and media stream identifier of the video track for a simulcast
    /// layer (see [`video_track_ids_for`]).
    pub fn video_track_ids(&self, rid: &String) -> (r: (String, String))
        ensures
            r.0@ == "video-"@ + rid@,
            r.1@ == "crabcamera-video-"@ + self.spec_id(),
    {
        video_track_ids_for(&self.id, rid)
    }

    /// Records the video track of a send-only transceiver added for a simulcast layer (a track
    /// added again under the same identifier takes the old one's place).
    pub fn add_video_track(&mut self, rid: String)
        requires
            old(self).wf(),
        ensures
            final(self).wf(),
            final(self).spec_video_tracks() == with_entry(old(self).spec_video_tracks(), rid@),
            final(self).spec_state() == old(self).spec_state(),
            final(self).spec_id() == old(self).spec_id(),
            final(self).spec_data_channels() == old(self).spec_data_channels(),
            final(self).spec_local_candidates() == old(self).spec_local_candidates(),
            final(self).spec_has_local_description() == old(self).spec_has_local_description(),
            final(self).spec_has_remote_description() == old(self).spec_has_remote_description(),
    {
        add_label(&mut self.video_tracks, rid);
    }

    /// RTP can be sent to the video track of a layer that the connection has; another is
    /// refused.
    pub fn check_video_track(&self, rid: &String) -> (res: Result<(), String>)
        ensures
            holds(self.spec_video_tracks(), rid@) ==> res is Ok,
            !holds(self.spec_video_tracks(), rid@) ==> (res matches Err(m) && m@ == "Video track "@
                + rid@ + " not found"@),
    {
        match find_label(&self.video_tracks, rid) {
            Some(i) => {
                assert(self.spec_video_tracks()[i as int] == rid@);
                Ok(())
            },
            None => {
                proof {
                    if holds(self.spec_video_tracks(), rid@) {
                        let k = choose|k: int|
                            0 <= k < self.spec_video_tracks().len() && self.spec_video_tracks()[k]
                                == rid@;
                        assert(self.video_tracks@[k]@ == rid@);
                    }
                }
                Err(join3("Video track ", rid.as_str(), " not found"))
            },
        }
    }

    /// Get available video track RIDs
    pub fn get_video_track_rids(&self) -> (v: Vec<String>)
        ensures
            string_views(v@) == self.spec_video_tracks(),
    {
        let mut v: Vec<String> = Vec::new();
        let mut i: usize = 0;
        while i < self.video_tracks.len()
            invariant
                i <= self.video_tracks.len(),
                v@.len() == i,
                forall|k: int| 0 <= k < i ==> (#[trigger] v@[k])@ == self.video_tracks@[k]@,
            decreases self.video_tracks.len() - i,
        {
            v.push(self.video_tracks[i].clone());
            i = i + 1;
        }
        assert(string_views(v@) =~= string_views(self.video_tracks@));
        v
    }

    /// Get connection statistics
    pub fn get_stats(&self) -> (st: PeerConnectionStats)
        ensures
            st.peer_id@ == self.spec_id(),
            st.state == self.spec_state(),
            st.ice_candidates_count == self.spec_local_candidates().len(),
            st.data_channels_count == self.spec_data_channels().len(),
            st.has_local_description == self.spec_has_local_description(),
            st.has_remote_description == self.spec_has_remote_description(),
    {
        PeerConnectionStats {
            peer_id: self.id.clone(),
            state: self.state,
            ice_candidates_count: self.local_candidates.len(),
            data_channels_count: self.data_channels.len(),
            has_local_description: self.has_local_description,
            has_remote_description: self.has_remote_description,
        }
    }
}

} // verus!
