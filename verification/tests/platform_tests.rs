use crabcamera::commands::streaming::{
    default_true, direct_stream_params, DirectStreamRegistry, StreamConfig, StreamStatus,
};
use crabcamera::errors::CameraError;
use crabcamera::platform::optimizations::{get_optimal_settings, get_photography_format};
use crabcamera::platform::{
    create_mock_frame, device_index, CameraSystem, CameraTestResult, CapturedImage, DeviceTrial,
    MockCamera, MockCaptureMode, PlatformCamera, QueriedCamera,
};
use crabcamera::types::{CameraControls, CameraDeviceInfo, CameraFormat, CameraInitParams, Platform};

#[test]
fn test_stream_config_defaults() {
    let config = StreamConfig { device_id: "0".to_string(), use_optimal_settings: true, format: None };

    assert_eq!(config.device_id, "0");
    assert!(config.use_optimal_settings);
    assert!(config.format.is_none());
    assert!(default_true());
}

#[test]
fn test_stream_status() {
    let status = StreamStatus { device_id: "0".to_string(), is_active: true };

    assert_eq!(status.device_id, "0");
    assert!(status.is_active);
}

#[test]
fn direct_streaming_needs_a_camera_that_streams_to_a_callback() {
    let mut registry = DirectStreamRegistry::new();
    let config = StreamConfig { device_id: "0".to_string(), use_optimal_settings: true, format: None };
    let unsupported = Err(CameraError::InitializationError("Unsupported platform".to_string()));
    let refused = registry.start_direct_streaming(config.clone(), Platform::Linux, false, unsupported, Ok(()), |_f| {});
    assert_eq!(
        refused.unwrap_err(),
        "Failed to initialize camera: Camera initialization error: Unsupported platform"
    );
    let refused = registry.start_direct_streaming(config, Platform::Linux, true, Ok(()), Ok(()), |_f| {});
    assert_eq!(
        refused.unwrap_err(),
        "Failed to start streaming: Unsupported operation: Mock camera doesn't support streaming with callback"
    );
    let bad = StreamConfig { device_id: "front".to_string(), use_optimal_settings: true, format: None };
    assert_eq!(
        registry.start_direct_streaming(bad, Platform::MacOS, false, Ok(()), Ok(()), |_f| {}).unwrap_err(),
        "Failed to initialize camera: Camera initialization error: Invalid device ID"
    );
    let anywhere = StreamConfig { device_id: "0".to_string(), use_optimal_settings: true, format: None };
    assert_eq!(
        registry.start_direct_streaming(anywhere.clone(), Platform::Unknown, false, Ok(()), Ok(()), |_f| {}).unwrap_err(),
        "Failed to initialize camera: Camera initialization error: Unsupported platform"
    );
    let no_stream = Err(CameraError::StreamError("Failed to open stream: busy".to_string()));
    assert_eq!(
        registry.start_direct_streaming(anywhere, Platform::Windows, false, Ok(()), no_stream, |_f| {}).unwrap_err(),
        "Failed to start streaming: Stream error: Failed to open stream: busy"
    );
    assert!(registry.list_active_streams().unwrap().is_empty());
}

#[test]
fn direct_streaming_of_an_opened_device_records_its_session() {
    let mut registry = DirectStreamRegistry::new();
    let config = StreamConfig { device_id: "2".to_string(), use_optimal_settings: false, format: None };
    assert_eq!(
        registry.start_direct_streaming(config.clone(), Platform::Windows, false, Ok(()), Ok(()), |_f| {}).unwrap(),
        "Direct streaming started for device 2"
    );
    let status = registry.get_streaming_status("2".to_string()).unwrap();
    assert!(status.is_active);
    assert_eq!(
        registry.start_direct_streaming(config.clone(), Platform::Windows, false, Ok(()), Ok(()), |_f| {}).unwrap_err(),
        "Streaming already active for device 2"
    );
    let active = registry.list_active_streams().unwrap();
    assert_eq!(active.len(), 1);
    assert_eq!(active[0].device_id, "2");
    assert_eq!(
        registry.stop_direct_streaming("2".to_string(), Ok(())).unwrap(),
        "Direct streaming stopped for device 2"
    );
    assert!(registry.list_active_streams().unwrap().is_empty());

    // A device that fails to close its stream: the session is gone all the same.
    registry.start_direct_streaming(config, Platform::Windows, false, Ok(()), Ok(()), |_f| {}).unwrap();
    let stuck = Err(CameraError::StreamError("Failed to stop stream: busy".to_string()));
    assert_eq!(
        registry.stop_direct_streaming("2".to_string(), stuck).unwrap_err(),
        "Failed to stop stream: Stream error: Failed to stop stream: busy"
    );
    assert!(!registry.get_streaming_status("2".to_string()).unwrap().is_active);
    assert!(registry.list_active_streams().unwrap().is_empty());
}

#[test]
fn direct_streaming_status_of_devices_without_a_session() {
    let mut registry = DirectStreamRegistry::new();
    let status = registry.get_streaming_status("3".to_string()).unwrap();
    assert_eq!(status.device_id, "3");
    assert!(!status.is_active);
    assert_eq!(
        registry.stop_direct_streaming("3".to_string(), Ok(())).unwrap_err(),
        "No active streaming session for device 3"
    );
    assert_eq!(registry.release_all_streams().unwrap(), "Released 0 streaming session(s)");
}

#[test]
fn direct_stream_parameters() {
    let optimal = StreamConfig { device_id: "cam".to_string(), use_optimal_settings: true, format: None };
    let p = direct_stream_params(&optimal, Platform::Linux);
    assert_eq!(p.device_id, "cam");
    assert_eq!((p.format.width, p.format.height, p.format.fps), (1280, 720, 30));
    assert_eq!(p.format.format_type, "YUYV");
    assert_eq!(p.controls.auto_focus, Some(true));
    assert_eq!(p.controls.auto_exposure, Some(true));

    let fallback = StreamConfig { device_id: "cam".to_string(), use_optimal_settings: false, format: None };
    let p = direct_stream_params(&fallback, Platform::MacOS);
    assert_eq!((p.format.width, p.format.height), (1920, 1080));
    assert_eq!(p.controls.auto_focus, None);

    let custom = StreamConfig {
        device_id: "cam".to_string(),
        use_optimal_settings: false,
        format: Some(CameraFormat::new(320, 240, 15)),
    };
    let p = direct_stream_params(&custom, Platform::Windows);
    assert_eq!((p.format.width, p.format.height, p.format.fps), (320, 240, 15));
}

#[test]
fn photography_formats_and_optimal_settings() {
    let f = get_photography_format(Platform::Windows);
    assert_eq!((f.width, f.height, f.fps), (1920, 1080, 30));
    assert_eq!(f.format_type, "RGB8");
    let f = get_photography_format(Platform::Unknown);
    assert_eq!((f.width, f.height), (1280, 720));
    let s = get_optimal_settings(Platform::MacOS);
    assert_eq!(s.device_id, "0");
    assert_eq!(s.format.width, 1920);
}

#[test]
fn mock_camera_captures_gray_frames_or_fails_on_request() {
    let mut camera = MockCamera::new("mock".to_string(), CameraFormat::standard());
    let frame = camera.capture_frame().unwrap();
    assert_eq!((frame.width, frame.height), (640, 480));
    assert_eq!(frame.format, "RGB8");
    assert_eq!(frame.device_id, "mock");
    assert_eq!(frame.data.len(), 640 * 480 * 3);
    assert!(frame.data.iter().all(|&b| b == 128));
    assert_eq!(frame.size_bytes, frame.data.len());
    assert_eq!(frame.id.len(), 36);
    camera.set_capture_mode(MockCaptureMode::Failure);
    match camera.capture_frame() {
        Err(CameraError::CaptureError(m)) => assert_eq!(m, "Mock capture failure"),
        other => panic!("unexpected: {:?}", other),
    }
    assert!(camera.start_stream().is_ok());
    assert!(camera.is_streaming());
    assert!(camera.stop_stream().is_ok());
    assert!(!camera.is_streaming());
    let same = create_mock_frame(&"x".to_string());
    assert_eq!(same.device_id, "x");
}

#[test]
fn platform_camera_opens_the_mock_or_the_device() {
    let params = CameraInitParams::new("7".to_string());
    let unsupported = Err(CameraError::InitializationError("Unsupported platform".to_string()));
    match PlatformCamera::new(params.clone(), false, Platform::Linux, unsupported) {
        Err(CameraError::InitializationError(m)) => assert_eq!(m, "Unsupported platform"),
        _ => panic!("expected the backend's error"),
    }
    match PlatformCamera::new(params.clone(), false, Platform::Unknown, Ok(())) {
        Err(CameraError::InitializationError(m)) => assert_eq!(m, "Unsupported platform"),
        _ => panic!("expected an unsupported platform"),
    }
    match PlatformCamera::new(CameraInitParams::new("cam".to_string()), false, Platform::Linux, Ok(())) {
        Err(CameraError::InitializationError(m)) => assert_eq!(m, "Invalid device ID"),
        _ => panic!("expected an invalid device identifier"),
    }
    let mut camera = PlatformCamera::new(params.clone(), true, Platform::Unknown, Ok(())).expect("mock camera");
    assert!(camera.is_available());
    assert_eq!(camera.get_device_id(), Some("7"));
    assert!(camera.capture_frame().is_ok());
    match camera.start_streaming(|_f| {}, Ok(())) {
        Err(e) => assert_eq!(
            e.to_string(),
            "Unsupported operation: Mock camera doesn't support streaming with callback"
        ),
        Ok(()) => panic!("the mock camera cannot stream to a callback"),
    }

    let mut device = PlatformCamera::new(params, false, Platform::MacOS, Ok(())).expect("device camera");
    assert!(!device.is_available());
    assert_eq!(device.get_device_id(), Some("7"));
    match device.capture_frame() {
        Err(e) => assert_eq!(e.to_string(), "Capture error: No frame captured from the device"),
        Ok(_) => panic!("nothing was read yet"),
    }
    let busy = Err(CameraError::StreamError("Failed to open stream: busy".to_string()));
    assert!(device.start_stream(busy).is_err());
    assert!(!device.is_available());
    assert!(device.start_stream(Ok(())).is_ok());
    assert!(device.is_available());
    device.deliver_capture(Ok(CapturedImage { data: vec![7, 8, 9, 10, 11, 12], width: 2, height: 1 }));
    let frame = device.capture_frame().expect("a frame");
    assert_eq!(frame.data, vec![7, 8, 9, 10, 11, 12]);
    assert_eq!((frame.width, frame.height), (2, 1));
    assert_eq!(frame.format, "RGB8");
    assert_eq!(frame.device_id, "7");
    assert_eq!(frame.size_bytes, 6);
    assert_eq!(frame.id.len(), 36);
    device.deliver_capture(Err("device lost".to_string()));
    match device.capture_frame() {
        Err(e) => assert_eq!(e.to_string(), "Capture error: Failed to capture frame: device lost"),
        Ok(_) => panic!("the read failed"),
    }
    assert_eq!(device.get_controls().unwrap(), CameraControls::default());
    let mut mock = PlatformCamera::new(CameraInitParams::new("m".to_string()), true, Platform::Linux, Ok(())).unwrap();
    let controls = CameraControls { brightness: Some(7), ..CameraControls::default() };
    assert!(mock.apply_controls(&controls).is_ok());
    assert_eq!(mock.get_controls().unwrap(), controls);
    let mut unsupported = PlatformCamera::Unsupported;
    assert!(unsupported.capture_frame().is_err());
    assert!(unsupported.apply_controls(&controls).is_err());
    assert!(!unsupported.is_available());
    assert_eq!(unsupported.get_device_id(), None);
    assert_eq!(device.test_capabilities().unwrap().max_resolution, (0, 0));
    assert_eq!(device.get_performance_metrics().unwrap().fps_actual, 0);
    assert!(device.stop_stream(Ok(())).is_ok());
    assert!(!device.is_available());
}

#[test]
fn device_indices_are_unsigned_decimal_numbers() {
    assert_eq!(device_index(&"0".to_string()), Some(0));
    assert_eq!(device_index(&"+12".to_string()), Some(12));
    assert_eq!(device_index(&"4294967295".to_string()), Some(u32::MAX));
    assert_eq!(device_index(&"4294967296".to_string()), None);
    assert_eq!(device_index(&"".to_string()), None);
    assert_eq!(device_index(&"+".to_string()), None);
    assert_eq!(device_index(&"-1".to_string()), None);
    assert_eq!(device_index(&"1a".to_string()), None);
    assert_eq!(device_index(&" 1".to_string()), None);
}

#[test]
fn camera_system_reports_its_platforms() {
    assert_eq!(
        CameraSystem::initialize(Platform::Windows, false).unwrap(),
        "Windows camera system initialized with DirectShow/MediaFoundation"
    );
    assert_eq!(
        CameraSystem::initialize(Platform::Linux, true).unwrap(),
        "Linux camera system initialized with V4L2"
    );
    match CameraSystem::initialize(Platform::Linux, false) {
        Err(CameraError::InitializationError(m)) => assert_eq!(m, "V4L2 not available on this system"),
        _ => panic!("expected an error"),
    }
    match CameraSystem::initialize(Platform::Unknown, true) {
        Err(CameraError::InitializationError(m)) => assert_eq!(m, "Unknown platform"),
        _ => panic!("expected an error"),
    }
    let info = CameraSystem::get_platform_info(Platform::Linux).unwrap();
    assert_eq!(info.backend, "V4L2 (Video4Linux2)");
    assert_eq!(info.features.len(), 5);
    assert_eq!(info.features[0], "V4L2 interface");
    let unknown = CameraSystem::get_platform_info(Platform::Unknown).unwrap();
    assert_eq!(unknown.features, vec!["Limited support".to_string()]);
    match CameraSystem::list_cameras(Platform::Unknown, Ok(vec![])) {
        Err(CameraError::InitializationError(m)) => assert_eq!(m, "Unsupported platform"),
        _ => panic!("expected an unsupported platform"),
    }
    match CameraSystem::list_cameras(Platform::Linux, Err("no backend".to_string())) {
        Err(CameraError::InitializationError(m)) => assert_eq!(m, "Failed to query cameras: no backend"),
        _ => panic!("expected the query's error"),
    }
}

#[test]
fn listed_cameras_carry_what_the_backend_found() {
    let found = vec![
        QueriedCamera { id: "0".to_string(), name: "FaceTime HD".to_string(), description: "built in".to_string() },
        QueriedCamera { id: "1".to_string(), name: "USB".to_string(), description: String::new() },
    ];
    let listed = CameraSystem::list_cameras(Platform::MacOS, Ok(found)).unwrap();
    assert_eq!(listed.len(), 2);
    assert_eq!(listed[0].id, "0");
    assert_eq!(listed[0].name, "FaceTime HD");
    assert_eq!(listed[0].description, "built in");
    assert!(listed[1].is_available);
    let sizes: Vec<(u32, u32, u32)> =
        listed[1].supports_formats.iter().map(|f| (f.width, f.height, f.fps)).collect();
    assert_eq!(sizes, vec![(1920, 1080, 30), (1280, 720, 30), (640, 480, 30)]);
}

#[test]
fn system_test_tries_each_available_camera() {
    let cameras = vec![
        CameraDeviceInfo {
            id: "0".to_string(),
            name: "front".to_string(),
            description: String::new(),
            is_available: true,
            supports_formats: vec![],
        },
        CameraDeviceInfo {
            id: "1".to_string(),
            name: "back".to_string(),
            description: String::new(),
            is_available: false,
            supports_formats: vec![],
        },
    ];
    let trials = || {
        vec![
            DeviceTrial { opened: Ok(()), captured: Err("timed out".to_string()) },
            DeviceTrial { opened: Ok(()), captured: Err("unused".to_string()) },
        ]
    };
    let with_mock = CameraSystem::test_system(Platform::Linux, &cameras, true, trials()).unwrap();
    assert_eq!(with_mock.cameras_found, 2);
    assert!(matches!(with_mock.test_results[0].1, CameraTestResult::Success));
    assert!(matches!(with_mock.test_results[1].1, CameraTestResult::NotAvailable));
    let without = CameraSystem::test_system(Platform::Linux, &cameras, false, trials()).unwrap();
    match &without.test_results[0].1 {
        CameraTestResult::CaptureError(m) => {
            assert_eq!(m, "Capture error: Failed to capture frame: timed out")
        }
        other => panic!("unexpected: {:?}", other),
    }
    let refused = vec![
        DeviceTrial {
            opened: Err(CameraError::InitializationError("Unsupported platform".to_string())),
            captured: Err(String::new()),
        },
        DeviceTrial { opened: Ok(()), captured: Err(String::new()) },
    ];
    let unopened = CameraSystem::test_system(Platform::Linux, &cameras, false, refused).unwrap();
    match &unopened.test_results[0].1 {
        CameraTestResult::InitError(m) => {
            assert_eq!(m, "Camera initialization error: Unsupported platform")
        }
        other => panic!("unexpected: {:?}", other),
    }
    let read = vec![
        DeviceTrial { opened: Ok(()), captured: Ok(CapturedImage { data: vec![0; 12], width: 2, height: 2 }) },
        DeviceTrial { opened: Ok(()), captured: Err(String::new()) },
    ];
    let captured = CameraSystem::test_system(Platform::Linux, &cameras, false, read).unwrap();
    assert!(matches!(captured.test_results[0].1, CameraTestResult::Success));
    let nowhere = CameraSystem::test_system(Platform::Unknown, &cameras, false, trials()).unwrap();
    match &nowhere.test_results[0].1 {
        CameraTestResult::InitError(m) => {
            assert_eq!(m, "Camera initialization error: Unsupported platform")
        }
        other => panic!("unexpected: {:?}", other),
    }
    assert_eq!(without.test_results[0].0, "0");
}
