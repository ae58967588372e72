use crabcamera::errors::CameraError;
use crabcamera::recording::encoder::{rgb_to_yuv420, H264Encoder};

#[test]
fn test_rgb_to_yuv420_size() {
    let width = 640u32;
    let height = 480u32;
    let rgb = vec![128u8; (width * height * 3) as usize];

    let yuv = rgb_to_yuv420(&rgb, width, height);

    // YUV420: Y + U + V = w*h + w*h/4 + w*h/4 = w*h * 1.5
    let expected = (width * height * 3 / 2) as usize;
    assert_eq!(yuv.len(), expected);
}

#[test]
fn test_encoder_creation() {
    let result = H264Encoder::new(640, 480, 30, 1_000_000);
    assert!(result.is_ok(), "Encoder should be created successfully");
}

#[test]
fn test_encode_frame() {
    let mut encoder = H264Encoder::new(640, 480, 30, 1_000_000).expect("Encoder creation failed");

    // Create a test frame (gray)
    let rgb = vec![128u8; 640 * 480 * 3];

    let result = encoder.encode_rgb(&rgb);
    assert!(result.is_ok(), "Encoding should succeed");

    let encoded = result.unwrap();
    assert!(!encoded.data.is_empty(), "Encoded data should not be empty");

    // First bytes should be start code (0x00 0x00 0x00 0x01 or 0x00 0x00 0x01)
    assert!(
        encoded.data.starts_with(&[0x00, 0x00, 0x00, 0x01])
            || encoded.data.starts_with(&[0x00, 0x00, 0x01]),
        "Should start with Annex B start code"
    );

    // First frame should be a keyframe
    assert!(encoded.is_keyframe, "First frame should be a keyframe");
}

#[test]
fn yuv420_of_gray_is_bt601_gray() {
    let rgb = vec![128u8; 4 * 2 * 3];
    let yuv = rgb_to_yuv420(&rgb, 4, 2);
    assert_eq!(yuv.len(), 12);
    // Y = ((66 + 129 + 25) * 128 + 128) >> 8 + 16 = 126; U = V = 128.
    assert_eq!(&yuv[0..8], &[126u8; 8]);
    assert_eq!(&yuv[8..10], &[128u8; 2]);
    assert_eq!(&yuv[10..12], &[128u8; 2]);
}

#[test]
fn yuv420_takes_chroma_from_top_left_of_each_block() {
    // A 2x2 frame: red top-left, then green, blue, white.
    let rgb = vec![255, 0, 0, 0, 255, 0, 0, 0, 255, 255, 255, 255];
    let yuv = rgb_to_yuv420(&rgb, 2, 2);
    assert_eq!(yuv.len(), 6);
    // Luma of red, green, blue, white.
    assert_eq!(yuv[0], 82);
    assert_eq!(yuv[1], 144);
    assert_eq!(yuv[2], 41);
    assert_eq!(yuv[3], 235);
    // Chroma of the red pixel.
    assert_eq!(yuv[4], 90);
    assert_eq!(yuv[5], 240);
}

#[test]
fn encoder_refuses_a_frame_of_the_wrong_size() {
    let mut encoder = H264Encoder::new(64, 48, 30, 500_000).expect("Encoder creation failed");
    let rgb = vec![0u8; 100];
    match encoder.encode_rgb(&rgb) {
        Err(CameraError::EncodingError(m)) => {
            assert_eq!(m, "Invalid frame size: expected 9216 bytes, got 100")
        }
        other => panic!("unexpected result: {:?}", other),
    }
    assert_eq!(encoder.frame_count(), 0);
}

#[test]
fn encoder_counts_frames_and_reports_keyframes() {
    let mut encoder = H264Encoder::new(64, 48, 30, 500_000).expect("Encoder creation failed");
    let rgb = vec![200u8; 64 * 48 * 3];
    let first = encoder.encode_rgb(&rgb).expect("first frame");
    assert!(first.is_keyframe);
    assert!(encoder.last_was_keyframe());
    assert_eq!(encoder.frame_count(), 1);
    let second = encoder.encode_rgb(&rgb).expect("second frame");
    assert_eq!(encoder.frame_count(), 2);
    assert_eq!(encoder.last_was_keyframe(), second.is_keyframe);
    assert!(!second.is_keyframe);
    encoder.force_keyframe();
    let third = encoder.encode_rgb(&rgb).expect("third frame");
    assert!(third.is_keyframe);
    assert_eq!(encoder.frame_count(), 3);
}
