//! Camera data types: platforms, formats, controls, capabilities and frames.
//!
//! Quantities that cameras report as fractions are held as integers in fixed units,
//! named in each field (microseconds, thousandths, tenths of a millisecond).
use vstd::prelude::*;

verus! {

/// The desktop platform that the library runs on.
#[derive(Debug, Clone, Copy, PartialEq, Eq, Structural)]
pub enum Platform {
    Windows,
    MacOS,
    Linux,
    Unknown,
}

impl Platform {
    /// The platform's name as the target reports it.
    pub open spec fn spec_as_str(self) -> Seq<char> {
        match self {
            Platform::Windows => "windows"@,
            Platform::MacOS => "macos"@,
            Platform::Linux => "linux"@,
            Platform::Unknown => "unknown"@,
        }
    }

    /// The platform's name as the target reports it.
    pub fn as_str(&self) -> (s: &'static str)
        ensures
            s@ == self.spec_as_str(),
    {
        match self {
            Platform::Windows => "windows",
            Platform::MacOS => "macos",
            Platform::Linux => "linux",
            Platform::Unknown => "unknown",
        }
    }

    /// The platform that an operating-system name (as `std::env::consts::OS` gives it) denotes.
    pub open spec fn spec_from_os_name(os: Seq<char>) -> Platform {
        if os == "windows"@ {
            Platform::Windows
        } else if os == "macos"@ {
            Platform::MacOS
        } else if os == "linux"@ {
            Platform::Linux
        } else {
            Platform::Unknown
        }
    }

    /// The platform that an operating-system name denotes.
    pub fn from_os_name(os: &str) -> (p: Platform)
        ensures
            p == Platform::spec_from_os_name(os@),
    {
        let name = String::from_str(os);
        if name == String::from_str("windows") {
            Platform::Windows
        } else if name == String::from_str("macos") {
            Platform::MacOS
        } else if name == String::from_str("linux") {
            Platform::Linux
        } else {
            Platform::Unknown
        }
    }
}

/// A capture format: resolution, whole frames per second and pixel format name.
#[derive(Debug, Clone)]
pub struct CameraFormat {
    pub width: u32,
    pub height: u32,
    pub fps: u32,
    pub format_type: String,
}

impl CameraFormat {
    /// A format with the given resolution and rate, in RGB8.
    pub fn new(width: u32, height: u32, fps: u32) -> (f: Self)
        ensures
            f.width == width,
            f.height == height,
            f.fps == fps,
            f.format_type@ == "RGB8"@,
    {
        CameraFormat { width, height, fps, format_type: String::from_str("RGB8") }
    }

    /// The same format with another pixel format name.
    pub fn with_format_type(self, format_type: String) -> (f: Self)
        ensures
            f.width == self.width,
            f.height == self.height,
            f.fps == self.fps,
            f.format_type == format_type,
    {
        CameraFormat { format_type, ..self }
    }

    /// The standard format: 1280x720 at 30 frames per second, in RGB8.
    pub fn standard() -> (f: Self)
        ensures
            f.width == 1280,
            f.height == 720,
            f.fps == 30,
            f.format_type@ == "RGB8"@,
    {
        CameraFormat::new(1280, 720, 30)
    }

    /// A copy of this format.
    pub fn duplicate(&self) -> (f: Self)
        ensures
            f == *self,
    {
        CameraFormat {
            width: self.width,
            height: self.height,
            fps: self.fps,
            format_type: self.format_type.clone(),
        }
    }
}

/// Camera control settings; `None` leaves a control as the device has it.
#[derive(Debug, Clone, Copy, PartialEq, Eq, Structural)]
pub struct CameraControls {
    pub auto_focus: Option<bool>,
    pub auto_exposure: Option<bool>,
    pub brightness: Option<i32>,
    pub contrast: Option<i32>,
    pub saturation: Option<i32>,
    pub sharpness: Option<i32>,
    pub iso: Option<u32>,
    /// Exposure time in microseconds.
    pub exposure_time_us: Option<u32>,
    /// Focus distance in thousandths of the range (0 near, 1000 far).
    pub focus_distance_milli: Option<u32>,
}

impl CameraControls {
    /// The controls that leave every setting as the device has it.
    pub open spec fn spec_default() -> CameraControls {
        CameraControls {
            auto_focus: None,
            auto_exposure: None,
            brightness: None,
            contrast: None,
            saturation: None,
            sharpness: None,
            iso: None,
            exposure_time_us: None,
            focus_distance_milli: None,
        }
    }
}

impl Default for CameraControls {
    fn default() -> (c: Self)
        ensures
            c == CameraControls::spec_default(),
    {
        CameraControls {
            auto_focus: None,
            auto_exposure: None,
            brightness: None,
            contrast: None,
            saturation: None,
            sharpness: None,
            iso: None,
            exposure_time_us: None,
            focus_distance_milli: None,
        }
    }
}

/// What a camera supports.
#[derive(Debug, Clone, Copy)]
pub struct CameraCapabilities {
    pub supports_auto_focus: bool,
    pub supports_manual_focus: bool,
    pub supports_auto_exposure: bool,
    pub supports_manual_exposure: bool,
    pub supports_white_balance: bool,
    pub supports_zoom: bool,
    pub supports_flash: bool,
    pub supports_burst_mode: bool,
    pub supports_hdr: bool,
    pub max_resolution: (u32, u32),
    pub max_fps: u32,
    /// Exposure range in microseconds.
    pub exposure_range_us: Option<(u32, u32)>,
    pub iso_range: Option<(u32, u32)>,
    /// Focus range in thousandths.
    pub focus_range_milli: Option<(u32, u32)>,
}

/// Measured camera performance.
#[derive(Debug, Clone, Copy, PartialEq, Eq, Structural)]
pub struct CameraPerformanceMetrics {
    /// Capture latency in tenths of a millisecond.
    pub capture_latency_tenth_ms: u32,
    /// Processing time in tenths of a millisecond.
    pub processing_time_tenth_ms: u32,
    /// Memory use in megabytes.
    pub memory_usage_mb: u32,
    pub fps_actual: u32,
    pub dropped_frames: u32,
    pub buffer_overruns: u32,
    /// Quality score in thousandths.
    pub quality_score_milli: u32,
}

impl CameraCapabilities {
    /// Capabilities that claim nothing: no control supported, no resolution, rate or ranges.
    pub open spec fn spec_default() -> CameraCapabilities {
        CameraCapabilities {
            supports_auto_focus: false,
            supports_manual_focus: false,
            supports_auto_exposure: false,
            supports_manual_exposure: false,
            supports_white_balance: false,
            supports_zoom: false,
            supports_flash: false,
            supports_burst_mode: false,
            supports_hdr: false,
            max_resolution: (0, 0),
            max_fps: 0,
            exposure_range_us: None,
            iso_range: None,
            focus_range_milli: None,
        }
    }
}

impl Default for CameraCapabilities {
    fn default() -> (c: Self)
        ensures
            c == CameraCapabilities::spec_default(),
    {
        CameraCapabilities {
            supports_auto_focus: false,
            supports_manual_focus: false,
            supports_auto_exposure: false,
            supports_manual_exposure: false,
            supports_white_balance: false,
            supports_zoom: false,
            supports_flash: false,
            supports_burst_mode: false,
            supports_hdr: false,
            max_resolution: (0, 0),
            max_fps: 0,
            exposure_range_us: None,
            iso_range: None,
            focus_range_milli: None,
        }
    }
}

impl CameraPerformanceMetrics {
    /// Metrics with every measure at zero.
    pub open spec fn spec_default() -> CameraPerformanceMetrics {
        CameraPerformanceMetrics {
            capture_latency_tenth_ms: 0,
            processing_time_tenth_ms: 0,
            memory_usage_mb: 0,
            fps_actual: 0,
            dropped_frames: 0,
            buffer_overruns: 0,
            quality_score_milli: 0,
        }
    }
}

impl Default for CameraPerformanceMetrics {
    fn default() -> (m: Self)
        ensures
            m == CameraPerformanceMetrics::spec_default(),
    {
        CameraPerformanceMetrics {
            capture_latency_tenth_ms: 0,
            processing_time_tenth_ms: 0,
            memory_usage_mb: 0,
            fps_actual: 0,
            dropped_frames: 0,
            buffer_overruns: 0,
            quality_score_milli: 0,
        }
    }
}

/// The parameters with which a camera is opened.
#[derive(Debug, Clone)]
pub struct CameraInitParams {
    pub device_id: String,
    pub format: CameraFormat,
    pub controls: CameraControls,
}

impl CameraInitParams {
    /// Parameters for a device in the standard format with default controls.
    pub fn new(device_id: String) -> (p: Self)
        ensures
            p.device_id == device_id,
            p.format.width == 1280 && p.format.height == 720 && p.format.fps == 30,
            p.format.format_type@ == "RGB8"@,
            p.controls == CameraControls::spec_default(),
    {
        CameraInitParams {
            device_id,
            format: CameraFormat::standard(),
            controls: CameraControls::default(),
        }
    }

    /// The same parameters with another format.
    pub fn with_format(self, format: CameraFormat) -> (p: Self)
        ensures
            p.device_id == self.device_id,
            p.format == format,
            p.controls == self.controls,
    {
        CameraInitParams { format, ..self }
    }

    /// The same parameters with auto focus switched on or off.
    pub fn with_auto_focus(self, on: bool) -> (p: Self)
        ensures
            p.device_id == self.device_id,
            p.format == self.format,
            p.controls == (CameraControls { auto_focus: Some(on), ..self.controls }),
    {
        let controls = CameraControls { auto_focus: Some(on), ..self.controls };
        CameraInitParams { controls, ..self }
    }

    /// The same parameters with auto exposure switched on or off.
    pub fn with_auto_exposure(self, on: bool) -> (p: Self)
        ensures
            p.device_id == self.device_id,
            p.format == self.format,
            p.controls == (CameraControls { auto_exposure: Some(on), ..self.controls }),
    {
        let controls = CameraControls { auto_exposure: Some(on), ..self.controls };
        CameraInitParams { controls, ..self }
    }
}

/// A camera device as the platform lists it.
#[derive(Debug, Clone)]
pub struct CameraDeviceInfo {
    pub id: String,
    pub name: String,
    pub description: String,
    pub is_available: bool,
    pub supports_formats: Vec<CameraFormat>,
}

/// A captured frame.
#[derive(Debug, Clone)]
pub struct CameraFrame {
    pub id: String,
    pub data: Vec<u8>,
    pub width: u32,
    pub height: u32,
    pub format: String,
    /// Capture time in milliseconds since the Unix epoch.
    pub timestamp_ms: i64,
    pub device_id: String,
    pub size_bytes: usize,
}

} // verus!
