use crabcamera::commands::webrtc::{default_video_layer, WebRTCRegistry};
use crabcamera::webrtc::packetizer::RtpPayload;
use crabcamera::webrtc::peer::{
    check_remote_description_type, effective_ice_transport_policy, h264_codec_parameters,
    BundlePolicy, ConnectionState, IceCandidate, IceServer, IceTransportPolicy, PeerConnection,
    RTCConfiguration, SdpType, SessionDescription,
};
use crabcamera::webrtc::streaming::StreamMode;

fn offer() -> SessionDescription {
    SessionDescription { sdp_type: SdpType::Offer, sdp: "v=0".to_string() }
}

#[test]
fn default_configuration_uses_one_public_stun_server() {
    let config = RTCConfiguration::default();
    assert_eq!(config.ice_servers.len(), 1);
    assert_eq!(config.ice_servers[0].urls, vec!["stun:stun.l.google.com:19302".to_string()]);
    assert!(config.ice_servers[0].username.is_none());
    assert!(config.ice_servers[0].credential.is_none());
    assert_eq!(config.ice_transport_policy, IceTransportPolicy::All);
    assert_eq!(config.bundle_policy, BundlePolicy::MaxBundle);
}

#[test]
fn ice_credentials_default_to_empty() {
    let server = IceServer { urls: vec![], username: Some("u".to_string()), credential: None };
    assert_eq!(server.rtc_credentials(), ("u".to_string(), String::new()));
}

#[test]
fn an_unspecified_ice_policy_gathers_every_candidate() {
    assert_eq!(effective_ice_transport_policy(IceTransportPolicy::Unspecified), IceTransportPolicy::All);
    assert_eq!(effective_ice_transport_policy(IceTransportPolicy::Relay), IceTransportPolicy::Relay);
    assert_eq!(effective_ice_transport_policy(IceTransportPolicy::All), IceTransportPolicy::All);
}

#[test]
fn the_h264_codec_parameters() {
    let c = h264_codec_parameters();
    assert_eq!(c.mime_type, "video/H264");
    assert_eq!(c.clock_rate, 90000);
    assert_eq!(c.channels, 0);
    assert_eq!(c.payload_type, 96);
    assert_eq!(c.sdp_fmtp_line, "level-asymmetry-allowed=1;packetization-mode=1;profile-level-id=42e01f");
}

#[test]
fn rollback_descriptions_are_refused() {
    let rollback = SessionDescription { sdp_type: SdpType::Rollback, sdp: String::new() };
    assert_eq!(
        check_remote_description_type(&rollback).unwrap_err(),
        "SDP conversion failed: Rollback SDP type not supported"
    );
    assert!(check_remote_description_type(&offer()).is_ok());
}

#[test]
fn test_peer_connection_creation() {
    let peer = PeerConnection::new("test_peer".to_string());
    assert_eq!(peer.id(), "test_peer");
    assert!(matches!(peer.get_connection_state(), ConnectionState::New));
}

#[test]
fn test_data_channel_creation() {
    let mut peer = PeerConnection::new("test_peer".to_string());
    let channel_id = peer.create_data_channel("test_channel".to_string());
    assert_eq!(channel_id, "test_peer_test_channel");
    let stats = peer.get_stats();
    assert_eq!(stats.data_channels_count, 1);
    // A channel created again under the same label takes the old one's place.
    peer.create_data_channel("test_channel".to_string());
    assert_eq!(peer.get_stats().data_channels_count, 1);
}

#[test]
fn sending_needs_an_open_channel() {
    let mut peer = PeerConnection::new("p".to_string());
    peer.create_data_channel("chat".to_string());
    assert!(peer.send_data(&"chat".to_string(), true).is_ok());
    assert_eq!(peer.send_data(&"chat".to_string(), false).unwrap_err(), "Data channel 'chat' is not open");
    assert_eq!(peer.send_data(&"other".to_string(), true).unwrap_err(), "Data channel 'other' not found");
}

#[test]
fn video_tracks_are_named_after_the_layer_and_the_peer() {
    let mut peer = PeerConnection::new("p1".to_string());
    let (track_id, stream_id) = peer.video_track_ids(&"h".to_string());
    assert_eq!(track_id, "video-h");
    assert_eq!(stream_id, "crabcamera-video-p1");
    assert_eq!(peer.check_video_track(&"h".to_string()).unwrap_err(), "Video track h not found");
    peer.add_video_track("f".to_string());
    peer.add_video_track("h".to_string());
    peer.add_video_track("f".to_string());
    assert_eq!(peer.get_video_track_rids(), vec!["f".to_string(), "h".to_string()]);
    assert!(peer.check_video_track(&"h".to_string()).is_ok());
}

#[test]
fn candidates_and_descriptions_show_in_the_stats() {
    let mut peer = PeerConnection::new("p".to_string());
    peer.add_local_candidate(IceCandidate::from_candidate_line("candidate:1".to_string()));
    peer.set_local_description();
    peer.set_connection_state(ConnectionState::Connected);
    let stats = peer.get_stats();
    assert_eq!(stats.peer_id, "p");
    assert_eq!(stats.ice_candidates_count, 1);
    assert!(stats.has_local_description);
    assert!(!stats.has_remote_description);
    assert_eq!(stats.state, ConnectionState::Connected);
    let candidates = peer.get_local_candidates();
    assert_eq!(candidates.len(), 1);
    assert_eq!(candidates[0].candidate, "candidate:1");
    assert!(candidates[0].sdp_mid.is_none());
}

#[test]
fn test_peer_connection_lifecycle() {
    let mut registry = WebRTCRegistry::new();
    let peer_id = "test_peer".to_string();

    // Create peer connection
    let result = registry.create_peer_connection(peer_id.clone(), Ok(()));
    assert_eq!(result.unwrap(), "Peer connection test_peer created");

    // Create offer (as the connection produced it)
    let offer = registry.create_webrtc_offer(&peer_id, Ok(offer()));
    assert!(offer.is_ok());

    // Get status
    let status = registry.get_peer_connection_status(&peer_id);
    assert!(status.is_ok());
    assert!(status.unwrap().has_local_description);

    // Close connection
    let result = registry.close_peer_connection(&peer_id, Ok(()));
    assert_eq!(result.unwrap(), "Peer connection test_peer closed");
    assert_eq!(
        registry.get_peer_connection_status(&peer_id).unwrap_err(),
        "Peer connection test_peer not found"
    );
}

#[test]
fn peer_commands_answer_for_unknown_peers() {
    let mut registry = WebRTCRegistry::new();
    let id = "ghost".to_string();
    let not_found = "Peer connection ghost not found".to_string();
    assert_eq!(registry.require_peer(&id).unwrap_err(), not_found);
    assert_eq!(registry.create_webrtc_answer(&id, Ok(offer())).unwrap_err(), not_found);
    assert_eq!(registry.set_remote_description(&id, &offer(), Ok(())).unwrap_err(), not_found);
    assert_eq!(registry.add_ice_candidate(&id, Ok(())).unwrap_err(), not_found);
    assert_eq!(registry.get_local_ice_candidates(&id).unwrap_err(), not_found);
    assert_eq!(registry.add_video_transceivers(&id, &vec![], Ok(())).unwrap_err(), not_found);
    assert_eq!(registry.create_data_channel(&id, "c".to_string(), Ok(())).unwrap_err(), not_found);
    assert_eq!(registry.send_data_channel_message(&id, &"c".to_string(), true, Ok(())).unwrap_err(), not_found);
    assert_eq!(registry.close_peer_connection(&id, Ok(())).unwrap_err(), not_found);
}

#[test]
fn peer_commands_report_what_they_did() {
    let mut registry = WebRTCRegistry::new();
    let id = "p".to_string();
    registry.create_peer_connection(id.clone(), Ok(())).unwrap();
    assert_eq!(
        registry.set_remote_description(&id, &offer(), Ok(())).unwrap(),
        "Remote description set for peer p"
    );
    let rollback = SessionDescription { sdp_type: SdpType::Rollback, sdp: String::new() };
    assert_eq!(
        registry.set_remote_description(&id, &rollback, Ok(())).unwrap_err(),
        "SDP conversion failed: Rollback SDP type not supported"
    );
    assert_eq!(registry.add_ice_candidate(&id, Ok(())).unwrap(), "ICE candidate added for peer p");
    assert_eq!(registry.add_ice_candidate(&id, Err("bad".to_string())).unwrap_err(), "bad");
    registry.record_local_candidate(&id, IceCandidate::from_candidate_line("c1".to_string()));
    assert_eq!(registry.get_local_ice_candidates(&id).unwrap().len(), 1);
    assert_eq!(registry.create_data_channel(&id, "chat".to_string(), Ok(())).unwrap(), "p_chat");
    assert_eq!(
        registry.send_data_channel_message(&id, &"chat".to_string(), true, Ok(())).unwrap(),
        "Data sent through channel 'chat' on peer p"
    );
    assert_eq!(
        registry.send_data_channel_message(&id, &"chat".to_string(), false, Ok(())).unwrap_err(),
        "Data channel 'chat' is not open"
    );
    assert_eq!(
        registry.add_video_transceivers(&id, &vec!["f".to_string()], Ok(())).unwrap(),
        "Video transceivers added for peer p"
    );
    registry.record_connection_state(&id, ConnectionState::Connected);
    let status = registry.get_webrtc_system_status().unwrap();
    assert_eq!(status.total_peers, 1);
    assert_eq!(status.connected_peers, 1);
    let listed = registry.list_peer_connections().unwrap();
    assert_eq!(listed.len(), 1);
    assert_eq!(listed[0].data_channels_count, 1);
    assert!(listed[0].has_remote_description);
    // Creating a connection again under the same identifier starts its record afresh.
    registry.create_peer_connection(id.clone(), Ok(())).unwrap();
    let fresh = registry.get_peer_connection_status(&id).unwrap();
    assert_eq!(fresh.data_channels_count, 0);
    assert_eq!(fresh.state, ConnectionState::New);
    assert_eq!(registry.list_peer_connections().unwrap().len(), 1);
    // A connection that could not be created leaves the registry as it was.
    assert_eq!(registry.create_peer_connection("q".to_string(), Err("no".to_string())).unwrap_err(), "no");
    assert_eq!(registry.list_peer_connections().unwrap().len(), 1);
}

#[test]
fn associating_a_stream_sets_up_a_default_layer_and_picks_the_first_track() {
    let mut registry = WebRTCRegistry::new();
    let stream = "s".to_string();
    let peer = "p".to_string();
    let (tx, _rx) = tokio::sync::mpsc::unbounded_channel::<RtpPayload>();
    assert_eq!(
        registry.associate_stream_with_peer(&stream, &peer, tx.clone()).unwrap_err(),
        "WebRTC stream s not found"
    );
    registry
        .start_webrtc_stream("cam".to_string(), stream.clone(), None, Some(StreamMode::SyntheticTest))
        .unwrap();
    assert_eq!(
        registry.associate_stream_with_peer(&stream, &peer, tx.clone()).unwrap_err(),
        "Peer connection p not found"
    );
    registry.create_peer_connection(peer.clone(), Ok(())).unwrap();
    let layer = registry.associate_stream_with_peer(&stream, &peer, tx.clone()).unwrap();
    let layer = layer.expect("a peer without tracks gets the default layer");
    assert_eq!(layer.rid, "f");
    assert_eq!((layer.width, layer.height, layer.bitrate, layer.fps), (1280, 720, 2_000_000, 30));
    assert_eq!(
        registry.finish_association(&stream, &peer).unwrap_err(),
        "No video tracks available on peer p after setup"
    );
    registry.add_video_transceivers(&peer, &vec![layer.rid.clone()], Ok(())).unwrap();
    let (rid, message) = registry.finish_association(&stream, &peer).unwrap();
    assert_eq!(rid, "f");
    assert_eq!(message, "Stream s associated with peer p (track f)");
    // Once the peer has a track, no layer is asked for.
    assert!(registry.associate_stream_with_peer(&stream, &peer, tx).unwrap().is_none());
    let d = default_video_layer();
    assert_eq!(d.rid, "f");
}
