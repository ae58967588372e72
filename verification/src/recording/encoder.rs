//! H.264 encoder wrapper using openh264
use vstd::prelude::*;

use openh264::encoder::Encoder;

use crate::backends::{
    h264_encode, h264_encoder_new, h264_force_intra_frame, is_keyframe_picture, pictures_encoded,
    EncodedPictureType,
};
use crate::bytes::copy_bytes;
use crate::errors::CameraError;
use crate::text::decimal;
use crate::yuv::{convert_rgb_to_yuv420, is_yuv420_of};

verus! {

/// Convert RGB24 to YUV420 planar format; the frame must hold exactly `3 * width * height`
/// bytes and both sides must be even and at least 2.
pub fn rgb_to_yuv420(rgb: &[u8], width: u32, height: u32) -> (yuv: Vec<u8>)
    requires
        rgb@.len() == width as int * height as int * 3,
        width % 2 == 0 && height % 2 == 0,
        width >= 2 && height >= 2,
    ensures
        is_yuv420_of(yuv@, rgb@, width as int, height as int),
{
    convert_rgb_to_yuv420(rgb, width, height)
}

/// Result of encoding a single frame
#[derive(Debug, Clone)]
pub struct EncodedFrame {
    /// Encoded H.264 data in Annex B format (with start codes)
    pub data: Vec<u8>,
    /// Whether this frame is a keyframe (IDR/I frame)
    pub is_keyframe: bool,
}

/// H.264 encoder using openh264
pub struct H264Encoder {
    encoder: Encoder,
    width: u32,
    height: u32,
    frame_count: u64,
    last_frame_was_keyframe: bool,
    /// An intra frame has been asked for and no frame has been encoded since.
    keyframe_requested: bool,
    /// The type of picture that the H.264 encoder reported for the last frame it encoded.
    last_picture_type: Ghost<Option<EncodedPictureType>>,
}

impl H264Encoder {
    pub closed spec fn spec_width(&self) -> u32 {
        self.width
    }

    pub closed spec fn spec_height(&self) -> u32 {
        self.height
    }

    pub closed spec fn spec_frame_count(&self) -> u64 {
        self.frame_count
    }

    pub closed spec fn spec_last_was_keyframe(&self) -> bool {
        self.last_frame_was_keyframe
    }

    /// Whether the encoder has been told to make its next frame an intra (IDR) frame, and no
    /// frame has been encoded since.
    pub closed spec fn spec_keyframe_requested(&self) -> bool {
        self.keyframe_requested
    }

    /// The YUV 4:2:0 pictures handed to the H.264 encoder so far, in order.
    pub closed spec fn spec_pictures(&self) -> Seq<Seq<u8>> {
        pictures_encoded(self.encoder)
    }

    /// The type of picture that the H.264 encoder reported for the last frame it encoded.
    pub closed spec fn spec_last_picture_type(&self) -> Option<EncodedPictureType> {
        self.last_picture_type@
    }

    /// Create a new H.264 encoder for frames of the given size. The frame rate and bitrate
    /// are hints that the default encoder configuration does not take.
    pub fn new(width: u32, height: u32, _fps: u32, _bitrate: u32) -> (res: Result<Self, CameraError>)
        ensures
            res matches Ok(e) ==> e.spec_width() == width && e.spec_height() == height
                && e.spec_frame_count() == 0 && !e.spec_last_was_keyframe()
                && !e.spec_keyframe_requested() && e.spec_pictures().len() == 0,
            res matches Err(e) ==> (e matches CameraError::EncodingError(m) && m@.subrange(0, 26)
                == "Failed to create encoder: "@),
    {
        match h264_encoder_new() {
            Ok(encoder) => Ok(
                H264Encoder {
                    encoder,
                    width,
                    height,
                    frame_count: 0,
                    last_frame_was_keyframe: false,
                    keyframe_requested: false,
                    last_picture_type: Ghost(None),
                },
            ),
            Err(e) => {
                let m = String::from_str("Failed to create encoder: ").concat(e.as_str());
                proof {
                    reveal_strlit("Failed to create encoder: ");
                    assert(m@.subrange(0, 26) =~= "Failed to create encoder: "@);
                }
                Err(CameraError::EncodingError(m))
            },
        }
    }

    /// Encode an RGB frame to H.264: a frame of the wrong size is refused, else it is
    /// converted to YUV 4:2:0 and encoded. Returns the encoded NAL units as a single buffer
    /// (Annex B format).
    pub fn encode_rgb(&mut self, rgb_data: &[u8]) -> (res: Result<EncodedFrame, CameraError>)
        requires
            old(self).spec_width() * old(self).spec_height() * 3 <= u32::MAX,
            rgb_data@.len() == old(self).spec_width() * old(self).spec_height() * 3 ==> {
                &&& old(self).spec_width() % 2 == 0 && old(self).spec_height() % 2 == 0
                &&& old(self).spec_width() >= 2 && old(self).spec_height() >= 2
                &&& old(self).spec_frame_count() < u64::MAX
            },
        ensures
            final(self).spec_width() == old(self).spec_width(),
            final(self).spec_height() == old(self).spec_height(),
            rgb_data@.len() != old(self).spec_width() * old(self).spec_height() * 3 ==> ({
                &&& res matches Err(CameraError::EncodingError(m)) && m@ == "Invalid frame size: expected "@
                    + decimal((old(self).spec_width() * old(self).spec_height() * 3) as nat)
                    + " bytes, got "@ + decimal(rgb_data@.len())
                &&& final(self).spec_frame_count() == old(self).spec_frame_count()
                &&& final(self).spec_last_was_keyframe() == old(self).spec_last_was_keyframe()
                &&& final(self).spec_keyframe_requested() == old(self).spec_keyframe_requested()
                &&& final(self).spec_pictures() == old(self).spec_pictures()
            }),
            rgb_data@.len() == old(self).spec_width() * old(self).spec_height() * 3 ==> ({
                &&& final(self).spec_pictures().len() == old(self).spec_pictures().len() + 1
                &&& final(self).spec_pictures().drop_last() == old(self).spec_pictures()
                &&& is_yuv420_of(
                    final(self).spec_pictures().last(),
                    rgb_data@,
                    old(self).spec_width() as int,
                    old(self).spec_height() as int,
                )
                &&& res matches Ok(f) ==> (final(self).spec_last_picture_type() matches Some(t) && (f.is_keyframe
                    <==> (t == EncodedPictureType::Idr || t == EncodedPictureType::I)))
                &&& res matches Ok(f) ==> final(self).spec_frame_count() == old(self).spec_frame_count() + 1
                    && final(self).spec_last_was_keyframe() == f.is_keyframe
                    && !final(self).spec_keyframe_requested()
                &&& res matches Err(e) ==> e matches CameraError::EncodingError(m) && m@.subrange(0, 17)
                    == "Encoding failed: "@ && final(self).spec_frame_count() == old(self).spec_frame_count()
                    && final(self).spec_last_was_keyframe() == old(self).spec_last_was_keyframe()
                    && final(self).spec_keyframe_requested() == old(self).spec_keyframe_requested()
            }),
    {
        let expected_size = (self.width * self.height * 3) as usize;
        if rgb_data.len() != expected_size {
            let m = String::from_str("Invalid frame size: expected ").concat(
                crate::text::decimal_string(expected_size as u64).as_str(),
            ).concat(" bytes, got ").concat(crate::text::decimal_string(rgb_data.len() as u64).as_str());
            return Err(CameraError::EncodingError(m));
        }
        let yuv = rgb_to_yuv420(rgb_data, self.width, self.height);
        proof {
            let w = self.width as int;
            let h = self.height as int;
            assert((w / 2) * (h / 2) * 4 == w * h) by (nonlinear_arith)
                requires
                    w % 2 == 0,
                    h % 2 == 0,
                    w >= 0,
                    h >= 0,
            ;
        }
        self.encode_yuv(yuv.as_slice())
    }

    /// Encode a YUV420 frame to H.264: the picture is handed to the encoder as it is.
    pub fn encode_yuv(&mut self, yuv_data: &[u8]) -> (res: Result<EncodedFrame, CameraError>)
        requires
            old(self).spec_width() % 2 == 0 && old(self).spec_height() % 2 == 0,
            3 * (old(self).spec_width() * old(self).spec_height()) <= usize::MAX,
            yuv_data@.len() == (3 * (old(self).spec_width() * old(self).spec_height())) / 2,
            old(self).spec_frame_count() < u64::MAX,
        ensures
            final(self).spec_pictures() == old(self).spec_pictures().push(yuv_data@),
            res matches Ok(f) ==> (final(self).spec_last_picture_type() matches Some(t) && (f.is_keyframe
                <==> (t == EncodedPictureType::Idr || t == EncodedPictureType::I))),
            final(self).spec_width() == old(self).spec_width(),
            final(self).spec_height() == old(self).spec_height(),
            res matches Ok(f) ==> final(self).spec_frame_count() == old(self).spec_frame_count() + 1
                && final(self).spec_last_was_keyframe() == f.is_keyframe
                && !final(self).spec_keyframe_requested(),
            res matches Err(e) ==> (e matches CameraError::EncodingError(m) && m@.subrange(0, 17)
                == "Encoding failed: "@ && final(self).spec_frame_count() == old(self).spec_frame_count()
                && final(self).spec_last_was_keyframe() == old(self).spec_last_was_keyframe()
                && final(self).spec_keyframe_requested() == old(self).spec_keyframe_requested()),
    {
        let w = self.width as usize;
        let h = self.height as usize;
        match h264_encode(&mut self.encoder, copy_bytes(yuv_data), w, h) {
            Ok((data, picture)) => {
                let is_keyframe = is_keyframe_picture(picture);
                self.last_picture_type = Ghost(Some(picture));
                self.frame_count = self.frame_count + 1;
                self.last_frame_was_keyframe = is_keyframe;
                self.keyframe_requested = false;
                Ok(EncodedFrame { data, is_keyframe })
            },
            Err(e) => {
                let m = String::from_str("Encoding failed: ").concat(e.as_str());
                proof {
                    reveal_strlit("Encoding failed: ");
                    assert(m@.subrange(0, 17) =~= "Encoding failed: "@);
                }
                Err(CameraError::EncodingError(m))
            },
        }
    }

    /// Get the number of frames encoded
    pub fn frame_count(&self) -> (n: u64)
        ensures
            n == self.spec_frame_count(),
    {
        self.frame_count
    }

    /// Check if the last encoded frame was a keyframe (IDR)
    pub fn last_was_keyframe(&self) -> (b: bool)
        ensures
            b == self.spec_last_was_keyframe(),
    {
        self.last_frame_was_keyframe
    }

    /// Force the next frame to be a keyframe: the encoder is told to make its next frame an
    /// intra (IDR) frame, and the request stands until a frame is encoded.
    pub fn force_keyframe(&mut self)
        ensures
            final(self).spec_keyframe_requested(),
            final(self).spec_width() == old(self).spec_width(),
            final(self).spec_height() == old(self).spec_height(),
            final(self).spec_frame_count() == old(self).spec_frame_count(),
            final(self).spec_last_was_keyframe() == old(self).spec_last_was_keyframe(),
            final(self).spec_pictures() == old(self).spec_pictures(),
    {
        h264_force_intra_frame(&mut self.encoder);
        self.keyframe_requested = true;
    }
}

} // verus!
