use crabcamera::commands::webrtc::WebRTCRegistry;
use crabcamera::types::CameraFrame;
use crabcamera::platform::CapturedImage;
use crabcamera::types::Platform;
use crabcamera::webrtc::streaming::{
    frame_interval_ms, next_frame_type, prepare_frame_for_webrtc, CameraStatus, StreamConfig,
    StreamMode, VideoCodec, WebRTCFrameType, WebRTCStreamer,
};

fn config(bitrate: u32, max_fps: u32, width: u32, height: u32, codec: VideoCodec) -> StreamConfig {
    StreamConfig { bitrate, max_fps, width, height, codec, simulcast: None }
}

#[test]
fn test_stream_lifecycle_basic() {
    let mut registry = WebRTCRegistry::new();
    let device_id = "test_device_basic".to_string();
    let stream_id = "test_stream_basic".to_string();

    // Start stream
    let result = registry.start_webrtc_stream(
        device_id.clone(),
        stream_id.clone(),
        None,
        Some(StreamMode::SyntheticTest),
    );
    assert!(result.is_ok(), "Failed to start stream: {:?}", result);

    // Verify stream is active
    let status = registry.get_webrtc_stream_status(stream_id.clone());
    assert!(status.is_ok(), "Failed to get stream status: {:?}", status);
    assert!(status.unwrap().is_active, "Stream should be active");

    // Stop stream
    let result = registry.stop_webrtc_stream(stream_id.clone());
    assert!(result.is_ok(), "Failed to stop stream: {:?}", result);

    // Verify stream is stopped
    let status = registry.get_webrtc_stream_status(stream_id);
    assert!(status.is_err(), "Stream should not exist after stopping");
}

#[test]
fn test_stream_lifecycle_with_custom_config() {
    let mut registry = WebRTCRegistry::new();
    let device_id = "test_device_config".to_string();
    let stream_id = "test_stream_config".to_string();

    let config = config(4_000_000, 60, 1920, 1080, VideoCodec::VP9);

    // Start stream with custom config
    let result = registry.start_webrtc_stream(
        device_id,
        stream_id.clone(),
        Some(config.clone()),
        Some(StreamMode::SyntheticTest),
    );
    assert!(result.is_ok(), "Failed to start stream with custom config");

    // Verify config is applied
    let status = registry.get_webrtc_stream_status(stream_id.clone());
    assert!(status.is_ok());
    let status = status.unwrap();
    assert_eq!(status.target_bitrate, 4_000_000);
    assert_eq!(status.resolution, (1920, 1080));

    // Cleanup
    let _ = registry.stop_webrtc_stream(stream_id);
}

#[test]
fn test_stream_configuration_update() {
    let mut registry = WebRTCRegistry::new();
    let device_id = "test_device_update".to_string();
    let stream_id = "test_stream_update".to_string();

    // Start with default config
    let result = registry.start_webrtc_stream(
        device_id,
        stream_id.clone(),
        None,
        Some(StreamMode::SyntheticTest),
    );
    assert!(result.is_ok());

    // Update configuration
    let new_config = config(6_000_000, 120, 2560, 1440, VideoCodec::AV1);

    let result = registry.update_webrtc_config(stream_id.clone(), new_config.clone());
    assert!(result.is_ok(), "Failed to update stream config");

    // Verify config is updated
    let status = registry.get_webrtc_stream_status(stream_id.clone());
    assert!(status.is_ok());
    let status = status.unwrap();
    assert_eq!(status.target_bitrate, 6_000_000);
    assert_eq!(status.resolution, (2560, 1440));

    // Cleanup
    let _ = registry.stop_webrtc_stream(stream_id);
}

#[test]
fn test_stream_error_conditions() {
    let mut registry = WebRTCRegistry::new();
    let stream_id = "nonexistent_stream".to_string();

    // Try to get status of non-existent stream
    let result = registry.get_webrtc_stream_status(stream_id.clone());
    assert!(result.is_err(), "Should fail for non-existent stream");

    // Try to stop non-existent stream
    let result = registry.stop_webrtc_stream(stream_id.clone());
    assert!(result.is_err(), "Should fail to stop non-existent stream");

    // Try to update config of non-existent stream
    let config = StreamConfig::default();
    let result = registry.update_webrtc_config(stream_id, config);
    assert!(result.is_err(), "Should fail to update non-existent stream");
}

#[test]
fn test_stream_double_start_prevention() {
    let mut registry = WebRTCRegistry::new();
    let device_id = "test_device_double".to_string();
    let stream_id = "test_stream_double".to_string();

    // Start stream first time
    let result = registry.start_webrtc_stream(
        device_id.clone(),
        stream_id.clone(),
        None,
        Some(StreamMode::SyntheticTest),
    );
    assert!(result.is_ok(), "First start should succeed");

    // Try to start same stream again - should handle gracefully
    let second = registry.start_webrtc_stream(
        device_id,
        stream_id.clone(),
        None,
        Some(StreamMode::SyntheticTest),
    );
    assert_eq!(second.unwrap_err(), "WebRTC stream test_stream_double already exists");

    // Cleanup
    let _ = registry.stop_webrtc_stream(stream_id);
}

#[test]
fn test_webrtc_streamer_direct_creation() {
    let stream_id = "direct_test_stream".to_string();
    let config = config(1_000_000, 25, 854, 480, VideoCodec::H264);

    let streamer = WebRTCStreamer::new(stream_id.clone(), config.clone());

    // Test initial state
    assert!(!streamer.is_streaming(), "Should not be streaming initially");

    let current_config = streamer.get_config();
    assert_eq!(current_config.bitrate, config.bitrate);
    assert_eq!(current_config.max_fps, config.max_fps);
    assert_eq!(current_config.width, config.width);
    assert_eq!(current_config.height, config.height);
}

#[test]
fn test_frame_subscription_and_delivery() {
    let stream_id = "subscription_test".to_string();
    let config = config(500_000, 10, 640, 360, VideoCodec::VP8);

    let mut streamer = WebRTCStreamer::new(stream_id, config);

    // Subscribe to frames before starting stream
    let mut receiver1 = streamer.subscribe_frames();
    let mut receiver2 = streamer.subscribe_frames();

    // Start streaming
    let result = streamer.start_streaming("mock_device".to_string());
    assert!(result.is_ok(), "Should start streaming successfully");

    // One round of the stream's loop: no camera is available, so a synthetic frame is sent.
    let mut camera = None;
    let (done, _) = streamer.process_one_frame(&mut camera, false, 0, 0);
    assert!(done);

    // Both subscribers should receive frames
    let frame1 = receiver1.try_recv();
    assert!(frame1.is_ok(), "First subscriber should receive frame");
    let frame2 = receiver2.try_recv();
    assert!(frame2.is_ok(), "Second subscriber should receive frame");
    assert_eq!(frame1.unwrap().width, 640);

    // Stop streaming
    let _ = streamer.stop_streaming();
}

#[test]
fn test_stream_stats_accuracy() {
    let mut registry = WebRTCRegistry::new();
    let device_id = "stats_test_device".to_string();
    let stream_id = "stats_test_stream".to_string();

    let config = config(3_000_000, 45, 1600, 900, VideoCodec::VP9);

    // Start stream
    let result = registry.start_webrtc_stream(
        device_id,
        stream_id.clone(),
        Some(config.clone()),
        Some(StreamMode::SyntheticTest),
    );
    assert!(result.is_ok());

    // Get stats
    let stats = registry.get_webrtc_stream_status(stream_id.clone());
    assert!(stats.is_ok());
    let stats = stats.unwrap();

    // Verify stats match configuration
    assert_eq!(stats.stream_id, stream_id);
    assert!(stats.is_active);
    assert_eq!(stats.target_bitrate, 3_000_000);
    assert_eq!(stats.current_fps, 45);
    assert_eq!(stats.resolution, (1600, 900));

    // Cleanup
    let _ = registry.stop_webrtc_stream(stream_id);
}

#[test]
fn test_stream_quality_adaptation() {
    let stream_id = "quality_test".to_string();
    let initial_config = config(2_000_000, 30, 1280, 720, VideoCodec::H264);

    let mut streamer = WebRTCStreamer::new(stream_id, initial_config);

    // Start streaming
    let result = streamer.start_streaming("test_device".to_string());
    assert!(result.is_ok());

    // Simulate network congestion - reduce quality
    let low_quality_config = config(500_000, 15, 640, 360, VideoCodec::H264);

    let result = streamer.update_config(low_quality_config.clone());
    assert!(result.is_ok());

    let stats = streamer.get_stats();
    assert_eq!(stats.target_bitrate, 500_000);
    assert_eq!(stats.resolution, (640, 360));

    // Simulate network recovery - increase quality
    let high_quality_config = config(4_000_000, 60, 1920, 1080, VideoCodec::VP9);

    let result = streamer.update_config(high_quality_config);
    assert!(result.is_ok());

    let stats = streamer.get_stats();
    assert_eq!(stats.target_bitrate, 4_000_000);
    assert_eq!(stats.resolution, (1920, 1080));

    // Stop streaming
    let _ = streamer.stop_streaming();
}

#[test]
fn test_codec_switching() {
    let stream_id = "codec_test".to_string();

    // Test each codec
    let codecs = vec![VideoCodec::H264, VideoCodec::VP8, VideoCodec::VP9, VideoCodec::AV1];

    for codec in codecs {
        let config = StreamConfig { codec, ..Default::default() };

        let mut streamer = WebRTCStreamer::new(format!("{}_{:?}", stream_id, codec), config.clone());

        let result = streamer.start_streaming("test_device".to_string());
        assert!(result.is_ok(), "Should support codec {:?}", codec);

        let stats = streamer.get_stats();
        assert_eq!(stats.codec, codec, "Codec should be set correctly");

        let _ = streamer.stop_streaming();
    }
}

#[test]
fn test_stream_interruption_recovery() {
    let mut registry = WebRTCRegistry::new();
    let device_id = "recovery_test_device".to_string();
    let stream_id = "recovery_test_stream".to_string();

    // Start stream
    let result = registry.start_webrtc_stream(
        device_id.clone(),
        stream_id.clone(),
        None,
        Some(StreamMode::SyntheticTest),
    );
    assert!(result.is_ok());

    // Verify stream is active
    let status = registry.get_webrtc_stream_status(stream_id.clone());
    assert!(status.is_ok());
    assert!(status.unwrap().is_active);

    // Stop stream (simulating interruption)
    let result = registry.stop_webrtc_stream(stream_id.clone());
    assert!(result.is_ok());

    // Restart stream (recovery)
    let result = registry.start_webrtc_stream(
        device_id,
        stream_id.clone(),
        None,
        Some(StreamMode::SyntheticTest),
    );
    assert!(result.is_ok(), "Should be able to restart stream after interruption");

    // Verify stream is active again
    let status = registry.get_webrtc_stream_status(stream_id.clone());
    assert!(status.is_ok());
    assert!(status.unwrap().is_active);

    // Cleanup
    let _ = registry.stop_webrtc_stream(stream_id);
}

#[test]
fn test_configuration_validation() {
    let stream_id = "validation_test".to_string();

    // Test extreme configurations
    let extreme_configs = vec![
        config(100_000_000, 240, 7680, 4320, VideoCodec::AV1),
        config(50_000, 1, 160, 120, VideoCodec::H264),
    ];

    for (i, config) in extreme_configs.into_iter().enumerate() {
        let test_stream_id = format!("{}_{}", stream_id, i);

        let mut streamer = WebRTCStreamer::new(test_stream_id, config.clone());

        // Should handle extreme configs gracefully
        let result = streamer.start_streaming("test_device".to_string());
        assert!(result.is_ok(), "Should handle extreme config {}", i);

        let stats = streamer.get_stats();
        assert_eq!(stats.target_bitrate, config.bitrate);
        assert_eq!(stats.resolution, (config.width, config.height));

        let _ = streamer.stop_streaming();
    }
}

#[test]
fn test_webrtc_streamer_creation() {
    let config = StreamConfig::default();
    let streamer = WebRTCStreamer::new("test_stream".to_string(), config);

    assert!(!streamer.is_streaming());
    assert_eq!(streamer.stream_id(), "test_stream");
}

#[test]
fn test_start_stop_streaming() {
    let config = StreamConfig::default();
    let mut streamer = WebRTCStreamer::new("test_stream".to_string(), config);

    // Start streaming
    let result = streamer.start_streaming("mock_camera".to_string());
    assert!(result.is_ok());
    assert!(streamer.is_streaming());

    // Stop streaming
    let result = streamer.stop_streaming();
    assert!(result.is_ok());
}

#[test]
fn test_config_update() {
    let config = StreamConfig::default();
    let mut streamer = WebRTCStreamer::new("test_stream".to_string(), config);

    let new_config = StreamConfig {
        bitrate: 4_000_000,
        max_fps: 60,
        width: 1920,
        height: 1080,
        codec: VideoCodec::VP9,
        simulcast: None,
    };

    let result = streamer.update_config(new_config.clone());
    assert!(result.is_ok());

    let current_config = streamer.get_config();
    assert_eq!(current_config.bitrate, 4_000_000);
    assert_eq!(current_config.max_fps, 60);
}

#[test]
fn test_frame_subscription() {
    let config = StreamConfig::default();
    let mut streamer = WebRTCStreamer::new("test_stream".to_string(), config);

    let mut receiver = streamer.subscribe_frames();

    // Start streaming
    let _ = streamer.start_streaming("mock_camera".to_string());

    // One round of the stream's loop; the frame reaches the subscriber.
    let mut camera = None;
    let _ = streamer.process_one_frame(&mut camera, false, 0, 0);
    receiver.try_recv().expect("Should receive frame");

    // Stop streaming
    let _ = streamer.stop_streaming();
}

#[test]
fn test_stream_stats() {
    let config = StreamConfig::default();
    let streamer = WebRTCStreamer::new("test_stream".to_string(), config);

    let stats = streamer.get_stats();
    assert_eq!(stats.stream_id, "test_stream");
    assert!(!stats.is_active);
    assert_eq!(stats.subscribers, 0);

    // Subscribe to frames
    let _receiver = streamer.subscribe_frames();
    let stats = streamer.get_stats();
    assert_eq!(stats.subscribers, 1);
}

#[test]
fn test_webrtc_stream_lifecycle() {
    let mut registry = WebRTCRegistry::new();
    let device_id = "test_device".to_string();
    let stream_id = "test_stream".to_string();

    // Start stream
    let result = registry.start_webrtc_stream(
        device_id,
        stream_id.clone(),
        None,
        Some(StreamMode::SyntheticTest),
    );
    assert!(result.is_ok());

    // Check status
    let status = registry.get_webrtc_stream_status(stream_id.clone());
    assert!(status.is_ok());

    // Stop stream
    let result = registry.stop_webrtc_stream(stream_id);
    assert!(result.is_ok());
}

#[test]
fn test_system_status() {
    let registry = WebRTCRegistry::new();
    let status = registry.get_webrtc_system_status();
    assert!(status.is_ok());
    let status = status.unwrap();
    assert_eq!(status.total_streams, 0);
    assert_eq!(status.total_peers, 0);
}

#[test]
fn started_stream_messages_and_defaults() {
    let mut registry = WebRTCRegistry::new();
    let started = registry.start_webrtc_stream("cam".to_string(), "s1".to_string(), None, None);
    assert_eq!(started.unwrap(), "WebRTC stream s1 started");
    let stats = registry.get_webrtc_stream_status("s1".to_string()).unwrap();
    assert_eq!(stats.mode, StreamMode::RealCamera);
    assert_eq!(stats.codec, VideoCodec::H264);
    assert_eq!(stats.target_bitrate, 2_000_000);
    assert_eq!(stats.current_fps, 30);
    assert_eq!(stats.resolution, (1280, 720));
    assert!(matches!(stats.camera_status, CameraStatus::Available));
    assert_eq!(
        registry.get_webrtc_stream_status("s2".to_string()).unwrap_err(),
        "WebRTC stream s2 not found"
    );
    assert_eq!(registry.stop_webrtc_stream("s1".to_string()).unwrap(), "WebRTC stream s1 stopped");
    assert_eq!(registry.stop_webrtc_stream("s1".to_string()).unwrap_err(), "WebRTC stream s1 not found");
}

#[test]
fn pause_resume_and_bitrate_commands() {
    let mut registry = WebRTCRegistry::new();
    registry
        .start_webrtc_stream("cam".to_string(), "s".to_string(), None, Some(StreamMode::SyntheticTest))
        .unwrap();
    assert_eq!(registry.pause_webrtc_stream("s".to_string()).unwrap(), "Stream s paused");
    assert_eq!(registry.resume_webrtc_stream("s".to_string()).unwrap(), "Stream s resumed");
    assert_eq!(
        registry.set_webrtc_stream_bitrate("s".to_string(), 750_000).unwrap(),
        "Stream s bitrate set to 750000 bps"
    );
    assert_eq!(registry.get_webrtc_stream_status("s".to_string()).unwrap().target_bitrate, 750_000);
    assert_eq!(
        registry.update_webrtc_config("s".to_string(), StreamConfig::default()).unwrap(),
        "WebRTC stream s configuration updated"
    );
    assert_eq!(registry.pause_webrtc_stream("x".to_string()).unwrap_err(), "WebRTC stream x not found");
    assert_eq!(registry.resume_webrtc_stream("x".to_string()).unwrap_err(), "WebRTC stream x not found");
    assert_eq!(
        registry.set_webrtc_stream_bitrate("x".to_string(), 1).unwrap_err(),
        "WebRTC stream x not found"
    );
}

#[test]
fn system_status_counts_streams_and_running_ones() {
    let mut registry = WebRTCRegistry::new();
    registry.start_webrtc_stream("a".to_string(), "one".to_string(), None, None).unwrap();
    registry.start_webrtc_stream("b".to_string(), "two".to_string(), None, None).unwrap();
    let listed = registry.list_webrtc_streams().unwrap();
    assert_eq!(listed.len(), 2);
    assert_eq!(listed[0].stream_id, "one");
    assert_eq!(listed[1].stream_id, "two");
    let status = registry.get_webrtc_system_status().unwrap();
    assert_eq!(status.total_streams, 2);
    assert_eq!(status.active_streams, 2);
    assert_eq!(status.connected_peers, 0);
}

#[test]
fn processing_a_stream_delivers_frames_and_counts_keyframes() {
    let mut registry = WebRTCRegistry::new();
    let small = config(500_000, 10, 64, 48, VideoCodec::H264);
    registry
        .start_webrtc_stream("cam".to_string(), "p".to_string(), Some(small), Some(StreamMode::SyntheticTest))
        .unwrap();
    let id = "p".to_string();
    assert!(registry.is_stream_running(&id));
    let opened = registry.open_stream_camera(&id, false, Platform::Linux, Ok(()), Ok(())).unwrap();
    assert!(opened.0.is_none());
    assert!(!opened.1);
    let mut camera = opened.0;
    let step = registry.process_stream_frame(&id, &mut camera, opened.1, 0, 0).unwrap();
    assert_eq!(step, (true, 0));
    let step = registry.process_stream_frame(&id, &mut camera, opened.1, 30, 0).unwrap();
    assert_eq!(step, (true, 30));
    let step = registry.process_stream_frame(&id, &mut camera, opened.1, 31, 30).unwrap();
    assert_eq!(step, (true, 30));
    assert!(registry.process_stream_frame(&"q".to_string(), &mut camera, false, 0, 0).is_none());
}

#[test]
fn a_stream_encodes_what_its_device_camera_reads() {
    let mut registry = WebRTCRegistry::new();
    let small = config(500_000, 10, 64, 48, VideoCodec::H264);
    registry
        .start_webrtc_stream("0".to_string(), "dev".to_string(), Some(small), Some(StreamMode::RealCamera))
        .unwrap();
    let id = "dev".to_string();
    let opened = registry.open_stream_camera(&id, false, Platform::Linux, Ok(()), Ok(())).unwrap();
    assert!(opened.1);
    let mut camera = opened.0;
    assert_eq!(camera.as_ref().and_then(|c| c.get_device_id()), Some("0"));
    let image = CapturedImage { data: vec![90; 64 * 48 * 3], width: 64, height: 48 };
    camera.as_mut().unwrap().deliver_capture(Ok(image));
    let step = registry.process_stream_frame(&id, &mut camera, opened.1, 0, 0).unwrap();
    assert_eq!(step, (true, 0));
    // An image with odd sides cannot be encoded: the frame counts as a failure.
    let odd = CapturedImage { data: vec![90; 63 * 48 * 3], width: 63, height: 48 };
    camera.as_mut().unwrap().deliver_capture(Ok(odd));
    let step = registry.process_stream_frame(&id, &mut camera, opened.1, 1, 0).unwrap();
    assert_eq!(step, (false, 0));
    assert!(registry.is_stream_running(&id));

    registry
        .start_webrtc_stream("front".to_string(), "named".to_string(), None, Some(StreamMode::RealCamera))
        .unwrap();
    let refused = registry.open_stream_camera(&"named".to_string(), false, Platform::Linux, Ok(()), Ok(())).unwrap();
    assert!(refused.0.is_none());
    assert!(!refused.1);
}

#[test]
fn frames_that_cannot_be_encoded_count_as_failures() {
    let mut registry = WebRTCRegistry::new();
    let odd = config(500_000, 10, 63, 48, VideoCodec::H264);
    registry.start_webrtc_stream("cam".to_string(), "odd".to_string(), Some(odd), None).unwrap();
    let id = "odd".to_string();
    let mut camera = None;
    for n in 0..10u64 {
        assert_eq!(registry.process_stream_frame(&id, &mut camera, false, n, 0), Some((false, 0)));
        assert!(registry.is_stream_running(&id));
    }
    assert_eq!(registry.process_stream_frame(&id, &mut camera, false, 10, 0), Some((false, 0)));
    assert!(!registry.is_stream_running(&id));
    assert!(registry.process_stream_frame(&id, &mut camera, false, 11, 0).is_none());

    let huge = config(500_000, 10, 40_000, 40_000, VideoCodec::H264);
    registry.start_webrtc_stream("cam".to_string(), "huge".to_string(), Some(huge), None).unwrap();
    assert!(registry.process_stream_frame(&"huge".to_string(), &mut camera, false, 0, 0).is_none());
}

#[test]
fn frames_are_resized_to_the_stream_size() {
    let frame = CameraFrame {
        id: "f".to_string(),
        data: vec![200u8; 4 * 4 * 3],
        width: 4,
        height: 4,
        format: "RGB8".to_string(),
        timestamp_ms: 0,
        device_id: "d".to_string(),
        size_bytes: 48,
    };
    let small = config(1, 1, 2, 2, VideoCodec::H264);
    let resized = prepare_frame_for_webrtc(&frame, &small).unwrap();
    assert_eq!(resized.len(), 2 * 2 * 3);
    assert!(resized.iter().all(|&b| b == 200));
    let same = config(1, 1, 4, 4, VideoCodec::H264);
    assert_eq!(prepare_frame_for_webrtc(&frame, &same).unwrap(), frame.data);
    let short = CameraFrame { data: vec![0u8; 10], ..frame.clone() };
    assert_eq!(
        prepare_frame_for_webrtc(&short, &small).unwrap_err(),
        "Failed to create image buffer from frame data (expected 48 bytes for 4x4 RGB, got 10)"
    );
}

#[test]
fn synthetic_frames_have_the_configured_size() {
    let streamer = WebRTCStreamer::new("s".to_string(), config(1, 1, 8, 6, VideoCodec::H264));
    let frame = streamer.generate_synthetic_frame(3);
    assert_eq!((frame.width, frame.height), (8, 6));
    assert_eq!(frame.data.len(), 8 * 6 * 3);
    assert_eq!(frame.format, "RGB8");
    assert_eq!(frame.device_id, "synthetic");
    assert_eq!(frame.id.len(), 36);
    assert!(frame.timestamp_ms > 0);
}

#[test]
fn failures_in_a_row_stop_the_stream() {
    let mut streamer = WebRTCStreamer::new("s".to_string(), StreamConfig::default());
    streamer.start_streaming("d".to_string()).unwrap();
    for _ in 0..10 {
        streamer.handle_failure();
    }
    assert!(streamer.is_streaming());
    assert_eq!(streamer.failure_count(), 10);
    streamer.handle_failure();
    assert!(!streamer.is_streaming());
    streamer.reset_failures();
    assert_eq!(streamer.failure_count(), 0);
}

#[test]
fn frame_pacing_and_keyframe_schedule() {
    assert_eq!(frame_interval_ms(30), 33);
    assert_eq!(next_frame_type(29, 0), (WebRTCFrameType::Delta, 0));
    assert_eq!(next_frame_type(30, 0), (WebRTCFrameType::Keyframe, 30));
}

#[test]
fn a_paused_stream_sends_no_rtp_and_resumes_sending() {
    let mut streamer = WebRTCStreamer::new("p".to_string(), config(500_000, 10, 64, 48, VideoCodec::H264));
    streamer.init_h264_packetizer(1200);
    let (tx, mut rx) = tokio::sync::mpsc::unbounded_channel();
    streamer.set_rtp_sender(tx);
    let mut frames = streamer.subscribe_frames();
    streamer.start_streaming("d".to_string()).unwrap();
    streamer.pause_stream();
    let mut camera = None;
    assert!(streamer.process_one_frame(&mut camera, false, 0, 0).0);
    frames.try_recv().expect("the encoded frame still reaches subscribers");
    assert!(rx.try_recv().is_err());
    streamer.resume_stream();
    assert!(streamer.process_one_frame(&mut camera, false, 1, 0).0);
    let first = rx.try_recv().expect("payloads are sent again");
    let mut last = first.clone();
    while let Ok(p) = rx.try_recv() {
        assert_eq!(p.sequence_number, last.sequence_number.wrapping_add(1));
        last = p;
    }
    assert!(last.marker);
}
