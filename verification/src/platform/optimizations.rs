//! Platform-specific recommended formats and capture settings.
use vstd::prelude::*;

use crate::types::{CameraControls, CameraFormat, CameraInitParams, Platform};

verus! {

/// Width, height and pixel format recommended for photography on each platform
/// (all at 30 frames per second).
pub open spec fn photography_format(p: Platform) -> (u32, u32, Seq<char>) {
    match p {
        Platform::MacOS => (1920, 1080, "RGB8"@),
        Platform::Linux => (1280, 720, "YUYV"@),
        Platform::Windows => (1920, 1080, "RGB8"@),
        Platform::Unknown => (1280, 720, "RGB8"@),
    }
}

/// Get recommended format for high-quality photography on the given platform
pub fn get_photography_format(platform: Platform) -> (f: CameraFormat)
    ensures
        (f.width, f.height, f.format_type@) == photography_format(platform),
        f.fps == 30,
{
    match platform {
        Platform::MacOS => CameraFormat::new(1920, 1080, 30).with_format_type(String::from_str("RGB8")),
        Platform::Linux => CameraFormat::new(1280, 720, 30).with_format_type(String::from_str("YUYV")),
        Platform::Windows => CameraFormat::new(1920, 1080, 30).with_format_type(
            String::from_str("RGB8"),
        ),
        Platform::Unknown => CameraFormat::standard(),
    }
}

/// Get platform-specific camera settings for optimal capture: the first camera, in the
/// photography format, with auto focus and auto exposure on.
pub fn get_optimal_settings(platform: Platform) -> (p: CameraInitParams)
    ensures
        p.device_id@ == "0"@,
        (p.format.width, p.format.height, p.format.format_type@) == photography_format(platform),
        p.format.fps == 30,
        p.controls == (CameraControls {
            auto_focus: Some(true),
            auto_exposure: Some(true),
            ..CameraControls::spec_default()
        }),
{
    let format = get_photography_format(platform);
    CameraInitParams::new(String::from_str("0")).with_format(format).with_auto_focus(
        true,
    ).with_auto_exposure(true)
}

} // verus!
