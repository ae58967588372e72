//! CrabCamera: cross-platform camera integration for Tauri applications.
//!
//! This crate holds the camera logic: platform camera selection and recommended settings,
//! RGB to YUV conversion, H.264 and Opus RTP packetization, the state of WebRTC streams and
//! the registries of streaming sessions and peer connections.
use vstd::prelude::*;

pub mod backends;
pub mod bytes;
pub mod commands;
pub mod errors;
pub mod platform;
pub mod recording;
pub mod text;
pub mod types;
pub mod webrtc;
pub mod yuv;

pub use errors::CameraError;
pub use platform::{CameraSystem, PlatformCamera};
pub use types::{CameraDeviceInfo, CameraFormat, CameraFrame, CameraInitParams, Platform};

verus! {

/// The crate's version.
pub const VERSION: &'static str = "0.6.0";

/// The crate's name.
pub const NAME: &'static str = "crabcamera";

/// The crate's description.
pub const DESCRIPTION: &'static str = "Advanced cross-platform camera integration for Tauri applications";

/// The platform that the operating-system name `os` (as `std::env::consts::OS` gives it) denotes.
pub fn current_platform(os: &str) -> (p: Platform)
    ensures
        p == Platform::spec_from_os_name(os@),
{
    Platform::from_os_name(os)
}

/// The name of the platform that `os` denotes (legacy compatibility).
pub fn current_platform_string(os: &str) -> (s: String)
    ensures
        s@ == Platform::spec_from_os_name(os@).spec_as_str(),
{
    String::from_str(Platform::from_os_name(os).as_str())
}

/// Crate information structure
#[derive(Debug, Clone)]
pub struct CrateInfo {
    pub name: String,
    pub version: String,
    pub description: String,
    pub platform: Platform,
}

/// Get crate information, for the platform that `os` denotes.
pub fn get_info(os: &str) -> (info: CrateInfo)
    ensures
        info.name@ == NAME@,
        info.version@ == VERSION@,
        info.description@ == DESCRIPTION@,
        info.platform == Platform::spec_from_os_name(os@),
{
    CrateInfo {
        name: String::from_str(NAME),
        version: String::from_str(VERSION),
        description: String::from_str(DESCRIPTION),
        platform: Platform::from_os_name(os),
    }
}

/// A name of a platform is never empty.
pub proof fn lemma_platform_string_nonempty(os: Seq<char>)
    ensures
        Platform::spec_from_os_name(os).spec_as_str().len() > 0,
{
    reveal_strlit("windows");
    reveal_strlit("macos");
    reveal_strlit("linux");
    reveal_strlit("unknown");
}

/// The names that the target gives Windows, macOS and Linux denote those platforms,
/// and each platform's name denotes the platform itself.
pub proof fn lemma_platform_name_roundtrip(p: Platform)
    ensures
        Platform::spec_from_os_name(p.spec_as_str()) == p,
{
    reveal_strlit("windows");
    reveal_strlit("macos");
    reveal_strlit("linux");
    reveal_strlit("unknown");
    assert("unknown"@[0] != "windows"@[0]);
    assert("unknown"@.len() != "macos"@.len());
    assert("unknown"@.len() != "linux"@.len());
    assert("macos"@[0] != "linux"@[0]);
    assert("macos"@.len() != "windows"@.len());
    assert("linux"@.len() != "windows"@.len());
}

} // verus!
