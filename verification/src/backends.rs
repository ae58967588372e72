//! The calls into other crates that the library makes: H.264 encoding (openh264), image
//! resampling (image), frame identifiers (uuid), the clock (chrono) and the channels that
//! carry frames and RTP packets (tokio). Each item here states what the called code does;
//! Verus takes these statements as given.
use vstd::prelude::*;

use openh264::encoder::Encoder;
use tokio::sync::broadcast;
use tokio::sync::mpsc::UnboundedSender;

use crate::webrtc::packetizer::{RtpPayload, RtpPayloadView};
use crate::webrtc::streaming::{EncodedFrame, EncodedFrameView};

verus! {

#[verifier::external_type_specification]
#[verifier::external_body]
pub struct ExH264Encoder(openh264::encoder::Encoder);

#[verifier::external_type_specification]
#[verifier::external_body]
#[verifier::reject_recursive_types(T)]
pub struct ExBroadcastSender<T>(tokio::sync::broadcast::Sender<T>);

#[verifier::external_type_specification]
#[verifier::external_body]
#[verifier::reject_recursive_types(T)]
pub struct ExBroadcastReceiver<T>(tokio::sync::broadcast::Receiver<T>);

#[verifier::external_type_specification]
#[verifier::external_body]
#[verifier::reject_recursive_types(T)]
pub struct ExUnboundedSender<T>(tokio::sync::mpsc::UnboundedSender<T>);

/// The pictures that have been handed to `Encoder::encode` on this encoder, in order (each as
/// the bytes of the YUV 4:2:0 buffer it was wrapped from).
pub uninterp spec fn pictures_encoded(encoder: Encoder) -> Seq<Seq<u8>>;

/// Calls `openh264::encoder::Encoder::new`, which builds an encoder with the default
/// configuration from the bundled OpenH264 sources; a new encoder has encoded nothing. On
/// failure the error's display text is returned. Nothing is claimed of when it fails.
#[verifier::external_body]
pub fn h264_encoder_new() -> (r: Result<Encoder, String>)
    ensures
        r matches Ok(e) ==> pictures_encoded(e) == Seq::<Seq<u8>>::empty(),
{
    match Encoder::new() {
        Ok(e) => Ok(e),
        Err(e) => Err(e.to_string()),
    }
}

/// The type of picture that the H.264 encoder reports for an encoded frame, one variant per
/// variant of `openh264::encoder::FrameType`.
#[derive(Debug, Clone, Copy, PartialEq, Eq, Structural)]
pub enum EncodedPictureType {
    /// The encoder was not ready, or its parameters were invalid.
    Invalid,
    /// An instantaneous decoder refresh picture.
    Idr,
    /// An intra picture.
    I,
    /// A predicted picture.
    P,
    /// A skipped picture.
    Skip,
    /// A picture of mixed I and P slices.
    IPMixed,
}

/// Calls `Encoder::encode` on the YUV 4:2:0 picture that `YUVBuffer::from_vec(yuv, width,
/// height)` wraps (which panics unless both sides are even and the buffer holds
/// `3 * width * height / 2` bytes, hence the `requires`), and returns the Annex B bitstream
/// (`EncodedBitStream::to_vec`) with the picture type that `frame_type()` reports. The picture
/// is handed to the encoder whatever comes of it. The result depends on the encoder's state
/// (frames seen, forced keyframes), so nothing is claimed of it; on failure the error's
/// display text is returned.
#[verifier::external_body]
pub fn h264_encode(encoder: &mut Encoder, yuv: Vec<u8>, width: usize, height: usize) -> (r:
    Result<(Vec<u8>, EncodedPictureType), String>)
    requires
        width % 2 == 0,
        height % 2 == 0,
        3 * (width * height) <= usize::MAX,
        yuv@.len() == (3 * (width * height)) / 2,
    ensures
        pictures_encoded(*final(encoder)) == pictures_encoded(*old(encoder)).push(yuv@),
{
    let buffer = openh264::formats::YUVBuffer::from_vec(yuv, width, height);
    match encoder.encode(&buffer) {
        Ok(stream) => {
            let picture = match stream.frame_type() {
                openh264::encoder::FrameType::Invalid => EncodedPictureType::Invalid,
                openh264::encoder::FrameType::IDR => EncodedPictureType::Idr,
                openh264::encoder::FrameType::I => EncodedPictureType::I,
                openh264::encoder::FrameType::P => EncodedPictureType::P,
                openh264::encoder::FrameType::Skip => EncodedPictureType::Skip,
                openh264::encoder::FrameType::IPMixed => EncodedPictureType::IPMixed,
            };
            Ok((stream.to_vec(), picture))
        },
        Err(e) => Err(e.to_string()),
    }
}

/// Whether a picture of this type starts a new group of pictures: an IDR or an I picture.
pub fn is_keyframe_picture(t: EncodedPictureType) -> (b: bool)
    ensures
        b == (t == EncodedPictureType::Idr || t == EncodedPictureType::I),
{
    match t {
        EncodedPictureType::Idr | EncodedPictureType::I => true,
        _ => false,
    }
}

/// Calls `Encoder::force_intra_frame`, which makes the encoder emit an intra (IDR) frame next.
/// It encodes nothing.
#[verifier::external_body]
pub fn h264_force_intra_frame(encoder: &mut Encoder)
    ensures
        pictures_encoded(*final(encoder)) == pictures_encoded(*old(encoder)),
{
    encoder.force_intra_frame();
}

/// Builds `image::RgbImage::from_raw(width, height, data)`, which is `None` exactly when the
/// buffer holds fewer than `3 * width * height` bytes (the product taken without overflow),
/// resizes it with `image::imageops::resize(.., new_width, new_height, FilterType::Lanczos3)`,
/// and returns `into_raw()` of the result: `3 * new_width * new_height` bytes. The resize
/// allocates `new_width * new_height` RGB pixels and a `width * new_height` RGBA float
/// buffer, and panics if either size overflows `usize`, hence the `requires`.
#[verifier::external_body]
pub fn resize_rgb_lanczos3(data: Vec<u8>, width: u32, height: u32, new_width: u32, new_height: u32) -> (r:
    Option<Vec<u8>>)
    requires
        3 * (new_width as int) * (new_height as int) <= usize::MAX,
        16 * (width as int) * (new_height as int) <= usize::MAX,
    ensures
        r is None <==> data@.len() < 3 * (width as int) * (height as int),
        r matches Some(v) ==> v@.len() == 3 * (new_width as int) * (new_height as int),
{
    match image::RgbImage::from_raw(width, height, data) {
        Some(img) => Some(
            image::imageops::resize(&img, new_width, new_height, image::imageops::FilterType::Lanczos3)
                .into_raw(),
        ),
        None => None,
    }
}

/// Calls `uuid::Uuid::new_v4()` and formats it with `to_string()`: a random identifier in the
/// hyphenated form, always 36 characters long.
#[verifier::external_body]
pub fn new_frame_id() -> (id: String)
    ensures
        id@.len() == 36,
{
    uuid::Uuid::new_v4().to_string()
}

/// Reads the clock with `chrono::Utc::now().timestamp_millis()`: milliseconds since the Unix
/// epoch. Nothing is claimed of the value.
#[verifier::external_body]
pub fn now_millis() -> (ms: i64) {
    chrono::Utc::now().timestamp_millis()
}

/// The encoded frames that have been handed to `broadcast::Sender::send` on this sender, in
/// order, whether or not a receiver took them.
pub uninterp spec fn frames_offered(sender: broadcast::Sender<EncodedFrame>) -> Seq<EncodedFrameView>;

/// The RTP payloads that have been handed to `UnboundedSender::send` on this sender, in order,
/// whether or not the receiving half was still there to take them.
pub uninterp spec fn payloads_offered(sender: UnboundedSender<RtpPayload>) -> Seq<RtpPayloadView>;

/// Calls `tokio::sync::broadcast::channel(capacity)` and keeps the sending half (the
/// receiving half is dropped); nothing has been sent on it yet. The channel panics for a
/// capacity of 0 or above `usize::MAX / 2`.
#[verifier::external_body]
pub fn broadcast_channel(capacity: usize) -> (s: broadcast::Sender<EncodedFrame>)
    requires
        0 < capacity <= usize::MAX / 2,
    ensures
        frames_offered(s) == Seq::<EncodedFrameView>::empty(),
{
    broadcast::channel(capacity).0
}

/// Calls `broadcast::Sender::subscribe`, which adds a receiver that sees the values sent from
/// now on.
#[verifier::external_body]
pub fn broadcast_subscribe<T: Clone>(sender: &broadcast::Sender<T>) -> (r: broadcast::Receiver<T>) {
    sender.subscribe()
}

/// Calls `broadcast::Sender::receiver_count`. The count changes as receivers elsewhere are
/// dropped, so nothing is claimed of it.
#[verifier::external_body]
pub fn broadcast_receiver_count<T>(sender: &broadcast::Sender<T>) -> (n: usize) {
    sender.receiver_count()
}

/// Calls `broadcast::Sender::send` with the frame and reports whether it succeeded; it fails
/// when no receiver exists, which depends on code elsewhere, so nothing is claimed of the
/// outcome. The frame is handed to `send` either way.
#[verifier::external_body]
pub fn broadcast_send(sender: &mut broadcast::Sender<EncodedFrame>, value: EncodedFrame) -> (ok: bool)
    ensures
        frames_offered(*final(sender)) == frames_offered(*old(sender)).push(value@),
{
    sender.send(value).is_ok()
}

/// Calls `tokio::sync::mpsc::UnboundedSender::send` with the payload and reports whether it
/// succeeded; it fails once the receiving half is closed or dropped, which happens
/// elsewhere, so nothing is claimed of the outcome. The payload is handed to `send` either
/// way.
#[verifier::external_body]
pub fn unbounded_send(sender: &mut UnboundedSender<RtpPayload>, value: RtpPayload) -> (ok: bool)
    ensures
        payloads_offered(*final(sender)) == payloads_offered(*old(sender)).push(value@),
{
    sender.send(value).is_ok()
}

} // verus!
