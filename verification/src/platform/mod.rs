//! Platform camera interface: the mock camera, device cameras, the unified camera type, and
//! the platform-specific system information and recommended settings.
//!
//! A device camera does no I/O of its own: the platform's capture backend (V4L2,
//! AVFoundation, MediaFoundation), driven by the plugin, opens the device, lists the devices
//! and reads their images, and hands what it got to the functions here.
use vstd::prelude::*;

use crate::backends::{new_frame_id, now_millis};
use crate::errors::CameraError;
use crate::types::{
    CameraCapabilities, CameraControls, CameraDeviceInfo, CameraFormat, CameraFrame,
    CameraInitParams, CameraPerformanceMetrics, Platform,
};

pub mod optimizations;

verus! {

/// How the mock camera answers capture requests.
#[derive(Debug, Clone, Copy, PartialEq, Eq, Structural)]
pub enum MockCaptureMode {
    Success,
    Failure,
    /// Succeeds after a delay.
    SlowCapture,
}

/// Width of the frames that the mock camera captures.
pub const MOCK_FRAME_WIDTH: u32 = 640;

/// Height of the frames that the mock camera captures.
pub const MOCK_FRAME_HEIGHT: u32 = 480;

/// Value of every byte of a mock frame.
pub const MOCK_FRAME_FILL: u8 = 128;

/// A frame as the mock camera captures it: a uniform gray RGB8 picture of
/// `MOCK_FRAME_WIDTH` x `MOCK_FRAME_HEIGHT` pixels from the given device.
pub open spec fn is_mock_frame(f: CameraFrame, device_id: Seq<char>) -> bool {
    &&& f.width == MOCK_FRAME_WIDTH
    &&& f.height == MOCK_FRAME_HEIGHT
    &&& f.format@ == "RGB8"@
    &&& f.device_id@ == device_id
    &&& f.data@.len() == 3 * MOCK_FRAME_WIDTH * MOCK_FRAME_HEIGHT
    &&& forall|i: int| 0 <= i < f.data@.len() ==> #[trigger] f.data@[i] == MOCK_FRAME_FILL
    &&& f.size_bytes == f.data@.len()
    &&& f.id@.len() == 36
}

/// Builds a mock frame for the given device.
pub fn create_mock_frame(device_id: &String) -> (f: CameraFrame)
    ensures
        is_mock_frame(f, device_id@),
{
    let n: usize = 3 * 640 * 480;
    let mut data: Vec<u8> = Vec::with_capacity(n);
    while data.len() < n
        invariant
            data@.len() <= n,
            forall|i: int| 0 <= i < data@.len() ==> #[trigger] data@[i] == MOCK_FRAME_FILL,
        decreases n - data@.len(),
    {
        data.push(MOCK_FRAME_FILL);
    }
    let size_bytes = data.len();
    CameraFrame {
        id: new_frame_id(),
        data,
        width: MOCK_FRAME_WIDTH,
        height: MOCK_FRAME_HEIGHT,
        format: String::from_str("RGB8"),
        timestamp_ms: now_millis(),
        device_id: device_id.clone(),
        size_bytes,
    }
}

/// The capabilities that the mock camera reports.
pub open spec fn mock_capabilities() -> CameraCapabilities {
    CameraCapabilities {
        supports_auto_focus: true,
        supports_manual_focus: true,
        supports_auto_exposure: true,
        supports_manual_exposure: true,
        supports_white_balance: true,
        supports_zoom: true,
        supports_flash: false,
        supports_burst_mode: true,
        supports_hdr: true,
        max_resolution: (1920, 1080),
        max_fps: 60,
        exposure_range_us: Some((1000, 10_000_000)),
        iso_range: Some((50, 12800)),
        focus_range_milli: Some((0, 1000)),
    }
}

/// The performance that the mock camera reports: 60 fps with 16.7 ms latency.
pub open spec fn mock_performance() -> CameraPerformanceMetrics {
    CameraPerformanceMetrics {
        capture_latency_tenth_ms: 167,
        processing_time_tenth_ms: 50,
        memory_usage_mb: 32,
        fps_actual: 60,
        dropped_frames: 0,
        buffer_overruns: 0,
        quality_score_milli: 950,
    }
}

/// What a capture from the mock camera gives: a mock frame of its device, or, when it is set
/// to fail, a capture error.
pub open spec fn is_mock_capture(c: MockCamera, res: Result<CameraFrame, CameraError>) -> bool {
    if c.spec_capture_mode() == MockCaptureMode::Failure {
        res matches Err(CameraError::CaptureError(m)) && m@ == "Mock capture failure"@
    } else {
        res matches Ok(f) && is_mock_frame(f, c.spec_device_id())
    }
}

/// Mock camera for testing - always available
pub struct MockCamera {
    device_id: String,
    format: CameraFormat,
    controls: CameraControls,
    is_streaming: bool,
    capture_mode: MockCaptureMode,
}

impl MockCamera {
    pub closed spec fn spec_device_id(&self) -> Seq<char> {
        self.device_id@
    }

    pub closed spec fn spec_format(&self) -> CameraFormat {
        self.format
    }

    pub closed spec fn spec_controls(&self) -> CameraControls {
        self.controls
    }

    pub closed spec fn spec_is_streaming(&self) -> bool {
        self.is_streaming
    }

    pub closed spec fn spec_capture_mode(&self) -> MockCaptureMode {
        self.capture_mode
    }

    pub fn new(device_id: String, format: CameraFormat) -> (c: Self)
        ensures
            c.spec_device_id() == device_id@,
            c.spec_format() == format,
            c.spec_controls() == CameraControls::spec_default(),
            !c.spec_is_streaming(),
            c.spec_capture_mode() == MockCaptureMode::Success,
    {
        MockCamera {
            device_id,
            format,
            controls: CameraControls::default(),
            is_streaming: false,
            capture_mode: MockCaptureMode::Success,
        }
    }

    pub fn set_capture_mode(&mut self, mode: MockCaptureMode)
        ensures
            final(self).spec_capture_mode() == mode,
            final(self).spec_device_id() == old(self).spec_device_id(),
            final(self).spec_format() == old(self).spec_format(),
            final(self).spec_controls() == old(self).spec_controls(),
            final(self).spec_is_streaming() == old(self).spec_is_streaming(),
    {
        self.capture_mode = mode;
    }

    /// How the camera answers capture requests.
    pub fn capture_mode(&self) -> (m: MockCaptureMode)
        ensures
            m == self.spec_capture_mode(),
    {
        self.capture_mode
    }

    /// Captures a frame, or fails, as the capture mode says. (The delay of a slow capture is
    /// the caller's to observe.)
    pub fn capture_frame(&mut self) -> (res: Result<CameraFrame, CameraError>)
        ensures
            *final(self) == *old(self),
            is_mock_capture(*old(self), res),
    {
        match self.capture_mode {
            MockCaptureMode::Failure => Err(
                CameraError::CaptureError(String::from_str("Mock capture failure")),
            ),
            _ => Ok(create_mock_frame(&self.device_id)),
        }
    }

    pub fn start_stream(&mut self) -> (res: Result<(), CameraError>)
        ensures
            res is Ok,
            final(self).spec_is_streaming(),
            final(self).spec_device_id() == old(self).spec_device_id(),
            final(self).spec_format() == old(self).spec_format(),
            final(self).spec_controls() == old(self).spec_controls(),
            final(self).spec_capture_mode() == old(self).spec_capture_mode(),
    {
        self.is_streaming = true;
        Ok(())
    }

    pub fn stop_stream(&mut self) -> (res: Result<(), CameraError>)
        ensures
            res is Ok,
            !final(self).spec_is_streaming(),
            final(self).spec_device_id() == old(self).spec_device_id(),
            final(self).spec_format() == old(self).spec_format(),
            final(self).spec_controls() == old(self).spec_controls(),
            final(self).spec_capture_mode() == old(self).spec_capture_mode(),
    {
        self.is_streaming = false;
        Ok(())
    }

    /// Whether the camera's stream is running.
    pub fn is_streaming(&self) -> (b: bool)
        ensures
            b == self.spec_is_streaming(),
    {
        self.is_streaming
    }

    /// Frame callbacks are not supported by the mock camera.
    pub fn frame_callback<F: Fn(CameraFrame)>(&mut self, _callback: F) -> (res: Result<
        (),
        CameraError,
    >)
        ensures
            *final(self) == *old(self),
            res matches Err(CameraError::UnsupportedOperation(m)) && m@
                == "Frame callback not supported in mock"@,
    {
        Err(CameraError::UnsupportedOperation(String::from_str("Frame callback not supported in mock")))
    }

    pub fn is_available(&self) -> (b: bool)
        ensures
            b,
    {
        true
    }

    pub fn get_device_id(&self) -> (id: &str)
        ensures
            id@ == self.spec_device_id(),
    {
        self.device_id.as_str()
    }

    pub fn apply_controls(&mut self, controls: &CameraControls) -> (res: Result<(), CameraError>)
        ensures
            res is Ok,
            final(self).spec_controls() == *controls,
            final(self).spec_device_id() == old(self).spec_device_id(),
            final(self).spec_format() == old(self).spec_format(),
            final(self).spec_is_streaming() == old(self).spec_is_streaming(),
            final(self).spec_capture_mode() == old(self).spec_capture_mode(),
    {
        self.controls = *controls;
        Ok(())
    }

    pub fn get_controls(&self) -> (res: Result<CameraControls, CameraError>)
        ensures
            res == Ok::<CameraControls, CameraError>(self.spec_controls()),
    {
        Ok(self.controls)
    }

    pub fn test_capabilities(&self) -> (res: Result<CameraCapabilities, CameraError>)
        ensures
            res == Ok::<CameraCapabilities, CameraError>(mock_capabilities()),
    {
        Ok(
            CameraCapabilities {
                supports_auto_focus: true,
                supports_manual_focus: true,
                supports_auto_exposure: true,
                supports_manual_exposure: true,
                supports_white_balance: true,
                supports_zoom: true,
                supports_flash: false,
                supports_burst_mode: true,
                supports_hdr: true,
                max_resolution: (1920, 1080),
                max_fps: 60,
                exposure_range_us: Some((1000, 10_000_000)),
                iso_range: Some((50, 12800)),
                focus_range_milli: Some((0, 1000)),
            },
        )
    }

    pub fn get_performance_metrics(&self) -> (res: Result<CameraPerformanceMetrics, CameraError>)
        ensures
            res == Ok::<CameraPerformanceMetrics, CameraError>(mock_performance()),
    {
        Ok(
            CameraPerformanceMetrics {
                capture_latency_tenth_ms: 167,
                processing_time_tenth_ms: 50,
                memory_usage_mb: 32,
                fps_actual: 60,
                dropped_frames: 0,
                buffer_overruns: 0,
                quality_score_milli: 950,
            },
        )
    }
}

/// An image as a device's capture backend reads it: RGB8 bytes and the resolution that the
/// device reported.
#[derive(Debug, Clone)]
pub struct CapturedImage {
    pub data: Vec<u8>,
    pub width: u32,
    pub height: u32,
}

/// A frame made of an image that a device captured: the image's bytes and resolution, tagged
/// RGB8, from the given device.
pub open spec fn is_device_frame(f: CameraFrame, device_id: Seq<char>, img: CapturedImage) -> bool {
    &&& f.data@ == img.data@
    &&& f.width == img.width
    &&& f.height == img.height
    &&& f.format@ == "RGB8"@
    &&& f.device_id@ == device_id
    &&& f.size_bytes == img.data@.len()
    &&& f.id@.len() == 36
}

/// Builds the frame for an image that the device captured.
pub fn frame_from_capture(img: &CapturedImage, device_id: &String) -> (f: CameraFrame)
    ensures
        is_device_frame(f, device_id@, *img),
{
    let data = img.data.clone();
    assert(data@ =~= img.data@);
    let size_bytes = data.len();
    CameraFrame {
        id: new_frame_id(),
        data,
        width: img.width,
        height: img.height,
        format: String::from_str("RGB8"),
        timestamp_ms: now_millis(),
        device_id: device_id.clone(),
        size_bytes,
    }
}

/// Whether `c` is an ASCII decimal digit.
pub open spec fn is_digit(c: char) -> bool {
    '0' <= c && c <= '9'
}

/// The value of a string of decimal digits, most significant first.
pub open spec fn digits_value(d: Seq<char>) -> int
    decreases d.len(),
{
    if d.len() == 0 {
        0
    } else {
        digits_value(d.drop_last()) * 10 + (d.last() as int - '0' as int)
    }
}

/// The digits of a device identifier, after an optional leading `+`.
pub open spec fn index_digits(id: Seq<char>) -> Seq<char> {
    if id.len() > 0 && id[0] == '+' {
        id.skip(1)
    } else {
        id
    }
}

/// The device index that an identifier names: the identifier read as an unsigned 32-bit
/// decimal number (an optional `+`, then at least one digit and nothing else, at most
/// `u32::MAX`), or `None`.
pub open spec fn parsed_device_index(id: Seq<char>) -> Option<u32> {
    let d = index_digits(id);
    if d.len() > 0 && (forall|i: int| 0 <= i < d.len() ==> #[trigger] is_digit(d[i]))
        && digits_value(d) <= u32::MAX {
        Some(digits_value(d) as u32)
    } else {
        None
    }
}

/// A longer run of digits is worth at least as much as its prefix.
proof fn lemma_digits_value_prefix(d: Seq<char>, i: int)
    requires
        0 <= i <= d.len(),
        forall|k: int| 0 <= k < d.len() ==> #[trigger] is_digit(d[k]),
    ensures
        digits_value(d.take(i)) <= digits_value(d),
        digits_value(d.take(i)) >= 0,
    decreases d.len() - i,
{
    if i < d.len() {
        lemma_digits_value_prefix(d, i + 1);
        assert(d.take(i + 1).drop_last() =~= d.take(i));
        assert(is_digit(d[i]));
    } else {
        assert(d.take(i) =~= d);
        lemma_digits_value_nonneg(d);
    }
}

proof fn lemma_digits_value_nonneg(d: Seq<char>)
    requires
        forall|k: int| 0 <= k < d.len() ==> #[trigger] is_digit(d[k]),
    ensures
        digits_value(d) >= 0,
    decreases d.len(),
{
    if d.len() > 0 {
        assert(is_digit(d[d.len() - 1]));
        lemma_digits_value_nonneg(d.drop_last());
    }
}

/// The device index that a device identifier names (see [`parsed_device_index`]).
pub fn device_index(id: &String) -> (r: Option<u32>)
    ensures
        r == parsed_device_index(id@),
{
    let s = id.as_str();
    let n = s.unicode_len();
    let ghost d = index_digits(id@);
    let mut start: usize = 0;
    if n > 0 && s.get_char(0) == '+' {
        start = 1;
    }
    assert(d =~= id@.skip(start as int));
    if start >= n {
        return None;
    }
    let mut acc: u64 = 0;
    let mut i: usize = start;
    while i < n
        invariant
            start <= i <= n,
            n == id@.len(),
            s@ == id@,
            d =~= id@.skip(start as int),
            d == index_digits(id@),
            acc as int == digits_value(d.take(i - start)),
            acc <= u32::MAX,
            forall|k: int| 0 <= k < i - start ==> #[trigger] is_digit(d[k]),
        decreases n - i,
    {
        let c = s.get_char(i);
        proof {
            assert(d[i - start] == c);
        }
        if c < '0' || c > '9' {
            proof {
                assert(!is_digit(d[i - start]));
                assert(!(forall|k: int| 0 <= k < d.len() ==> #[trigger] is_digit(d[k])));
                assert(index_digits(id@) == d);
                assert(parsed_device_index(id@) is None);
            }
            return None;
        }
        let v: u64 = (c as u64) - ('0' as u64);
        proof {
            assert(d.take(i - start + 1).drop_last() =~= d.take(i - start));
            assert(d.take(i - start + 1).last() == c);
        }
        acc = acc * 10 + v;
        proof {
            assert(acc as int == digits_value(d.take(i - start + 1)));
        }
        if acc > 0xFFFF_FFFF {
            proof {
                assert(is_digit(d[i - start]));
                if forall|k: int| 0 <= k < d.len() ==> #[trigger] is_digit(d[k]) {
                    lemma_digits_value_prefix(d, i - start + 1);
                    assert(digits_value(d) > u32::MAX);
                }
                assert(index_digits(id@) == d);
                assert(parsed_device_index(id@) is None);
            }
            return None;
        }
        i = i + 1;
    }
    proof {
        assert(d.take(i - start) =~= d);
    }
    Some(acc as u32)
}

/// The error of a device identifier that names no device index.
pub open spec fn is_invalid_device_id_error(e: CameraError) -> bool {
    e matches CameraError::InitializationError(m) && m@ == "Invalid device ID"@
}

/// The message of a capture from a device that has delivered no image yet.
pub open spec fn no_image_message() -> Seq<char> {
    "No frame captured from the device"@
}

/// A camera device opened through the platform's capture backend. The backend, which does the
/// device I/O, hands the camera the images that it reads; the camera turns them into frames.
pub struct DeviceCamera {
    device_id: String,
    format: CameraFormat,
    stream_open: bool,
    latest: Option<Result<CapturedImage, String>>,
}

impl DeviceCamera {
    pub closed spec fn spec_device_id(&self) -> Seq<char> {
        self.device_id@
    }

    pub closed spec fn spec_format(&self) -> CameraFormat {
        self.format
    }

    /// Whether the device's stream is open.
    pub closed spec fn spec_stream_open(&self) -> bool {
        self.stream_open
    }

    /// What the backend last read from the device (an image, or the message of the error that
    /// the read gave), if it has read anything.
    pub closed spec fn spec_latest(&self) -> Option<Result<CapturedImage, String>> {
        self.latest
    }
}

/// The frame that a device camera gives for what its backend last read: the image as a frame,
/// or a capture error that carries the read's message.
pub open spec fn is_device_capture(
    res: Result<CameraFrame, CameraError>,
    device_id: Seq<char>,
    latest: Option<Result<CapturedImage, String>>,
) -> bool {
    match latest {
        Some(Ok(img)) => res matches Ok(f) && is_device_frame(f, device_id, img),
        Some(Err(m)) => res matches Err(CameraError::CaptureError(e)) && e@
            == "Failed to capture frame: "@ + m@,
        None => res matches Err(CameraError::CaptureError(e)) && e@ == no_image_message(),
    }
}

/// The error of a camera on a platform without a supported backend.
pub open spec fn is_unsupported_platform_error(e: CameraError) -> bool {
    e matches CameraError::InitializationError(m) && m@ == "Unsupported platform"@
}

fn unsupported_platform() -> (e: CameraError)
    ensures
        is_unsupported_platform_error(e),
{
    CameraError::InitializationError(String::from_str("Unsupported platform"))
}

/// The camera that [`PlatformCamera::new`] opens without the mock, when the device
/// identifier names an index and the backend opened the device: a device camera for the
/// parameters' device and format, stream closed, with nothing read yet.
pub open spec fn is_fresh_device(c: PlatformCamera, params: CameraInitParams) -> bool {
    c matches PlatformCamera::Device(d) && d.spec_device_id() == params.device_id@
        && d.spec_format() == params.format && !d.spec_stream_open() && d.spec_latest() is None
}

/// The controls that a camera reports: the mock camera's own, the default controls for a
/// device camera, none for a camera without a supported platform.
pub open spec fn reported_controls(c: PlatformCamera) -> Option<CameraControls> {
    match c {
        PlatformCamera::Mock(m) => Some(m.spec_controls()),
        PlatformCamera::Device(_) => Some(CameraControls::spec_default()),
        PlatformCamera::Unsupported => None,
    }
}

/// What applying `controls` does to a camera: the mock camera keeps them and is otherwise
/// unchanged; a device camera and a camera without a supported platform are left as they are.
pub open spec fn applies_controls(
    before: PlatformCamera,
    after: PlatformCamera,
    controls: CameraControls,
) -> bool {
    match before {
        PlatformCamera::Mock(c) => after matches PlatformCamera::Mock(d) && d.spec_controls()
            == controls && d.spec_device_id() == c.spec_device_id() && d.spec_capture_mode()
            == c.spec_capture_mode() && d.spec_is_streaming() == c.spec_is_streaming()
            && d.spec_format() == c.spec_format(),
        _ => after == before,
    }
}

/// A device camera after its backend answered `outcome` to a request to open (`open`) or
/// close its stream: on success the stream is open or closed as asked, on failure the camera
/// is unchanged; a close leaves the stream closed whatever the backend answered.
pub open spec fn device_stream_set(
    d: DeviceCamera,
    after: PlatformCamera,
    open: bool,
    outcome: Result<(), CameraError>,
) -> bool {
    after matches PlatformCamera::Device(e) && e.spec_device_id() == d.spec_device_id()
        && e.spec_format() == d.spec_format() && e.spec_latest() == d.spec_latest() && (if open {
        e.spec_stream_open() == (outcome is Ok || d.spec_stream_open())
    } else {
        !e.spec_stream_open()
    })
}

/// Unified camera interface that abstracts platform differences
pub enum PlatformCamera {
    Device(DeviceCamera),
    Mock(MockCamera),
    /// A camera on a platform without a supported capture backend.
    Unsupported,
}

impl PlatformCamera {
    /// Opens a camera: the mock camera when it is asked for (the plugin decides, from the
    /// environment), else, on a platform with a capture backend, the device that the
    /// identifier names. `device_opened` is what the platform's capture backend answered when
    /// it opened that device in the requested format; an identifier that is not a device
    /// index is refused before it.
    pub fn new(
        params: CameraInitParams,
        use_mock: bool,
        platform: Platform,
        device_opened: Result<(), CameraError>,
    ) -> (res: Result<Self, CameraError>)
        ensures
            use_mock ==> (res matches Ok(PlatformCamera::Mock(c)) && c.spec_device_id()
                == params.device_id@ && c.spec_format() == params.format
                && c.spec_controls() == CameraControls::spec_default() && !c.spec_is_streaming()
                && c.spec_capture_mode() == MockCaptureMode::Success),
            !use_mock && platform == Platform::Unknown ==> (res matches Err(e)
                && is_unsupported_platform_error(e)),
            !use_mock && platform != Platform::Unknown && parsed_device_index(params.device_id@)
                is None ==> (res matches Err(e) && is_invalid_device_id_error(e)),
            !use_mock && platform != Platform::Unknown && parsed_device_index(params.device_id@)
                is Some ==> match device_opened {
                Ok(()) => res matches Ok(c) && is_fresh_device(c, params),
                Err(e) => res == Err::<PlatformCamera, CameraError>(e),
            },
    {
        if use_mock {
            return Ok(PlatformCamera::Mock(MockCamera::new(params.device_id, params.format)));
        }
        if platform == Platform::Unknown {
            return Err(unsupported_platform());
        }
        match device_index(&params.device_id) {
            None => Err(CameraError::InitializationError(String::from_str("Invalid device ID"))),
            Some(_) => match device_opened {
                Ok(()) => Ok(
                    PlatformCamera::Device(
                        DeviceCamera {
                            device_id: params.device_id,
                            format: params.format,
                            stream_open: false,
                            latest: None,
                        },
                    ),
                ),
                Err(e) => Err(e),
            },
        }
    }

    /// Hands a device camera what its backend just read from the device; the other cameras
    /// read nothing from outside and are left as they are.
    pub fn deliver_capture(&mut self, captured: Result<CapturedImage, String>)
        ensures
            (*old(self)) matches PlatformCamera::Device(d) ==> ((*final(self)) matches PlatformCamera::Device(e)
                && e.spec_latest() == Some(captured) && e.spec_device_id() == d.spec_device_id()
                && e.spec_format() == d.spec_format() && e.spec_stream_open()
                == d.spec_stream_open()),
            !(*old(self) is Device) ==> *final(self) == *old(self),
    {
        match self {
            PlatformCamera::Device(camera) => {
                camera.latest = Some(captured);
            },
            _ => {},
        }
    }

    /// Capture a single frame from the camera: what the mock camera captures, the frame of
    /// what a device's backend last read, or the unsupported-platform error.
    pub fn capture_frame(&mut self) -> (res: Result<CameraFrame, CameraError>)
        ensures
            *final(self) == *old(self),
            (*old(self)) matches PlatformCamera::Mock(c) ==> is_mock_capture(c, res),
            (*old(self)) matches PlatformCamera::Device(d) ==> is_device_capture(
                res,
                d.spec_device_id(),
                d.spec_latest(),
            ),
            (*old(self)) is Unsupported ==> (res matches Err(e) && is_unsupported_platform_error(e)),
    {
        match self {
            PlatformCamera::Mock(camera) => camera.capture_frame(),
            PlatformCamera::Device(camera) => match &camera.latest {
                Some(Ok(img)) => Ok(frame_from_capture(img, &camera.device_id)),
                Some(Err(m)) => Err(
                    CameraError::CaptureError(String::from_str("Failed to capture frame: ").concat(m.as_str())),
                ),
                None => Err(
                    CameraError::CaptureError(String::from_str("No frame captured from the device")),
                ),
            },
            PlatformCamera::Unsupported => Err(unsupported_platform()),
        }
    }

    /// Start camera stream. For a device camera, `stream_opened` is what its backend answered
    /// when it opened the device's stream, and is the answer; the other cameras ignore it.
    pub fn start_stream(&mut self, stream_opened: Result<(), CameraError>) -> (res: Result<(), CameraError>)
        ensures
            (*old(self)) matches PlatformCamera::Mock(c) ==> res is Ok && ((*final(self)) matches PlatformCamera::Mock(d) && d.spec_is_streaming() && d.spec_device_id()
                == c.spec_device_id() && d.spec_capture_mode() == c.spec_capture_mode()
                && d.spec_controls() == c.spec_controls() && d.spec_format() == c.spec_format()),
            (*old(self)) matches PlatformCamera::Device(d) ==> res == stream_opened
                && device_stream_set(d, *final(self), true, stream_opened),
            (*old(self)) is Unsupported ==> (res matches Err(e) && is_unsupported_platform_error(e))
                && *final(self) == *old(self),
    {
        match self {
            PlatformCamera::Mock(camera) => camera.start_stream(),
            PlatformCamera::Device(camera) => {
                if stream_opened.is_ok() {
                    camera.stream_open = true;
                }
                stream_opened
            },
            PlatformCamera::Unsupported => Err(unsupported_platform()),
        }
    }

    /// Stop camera stream. A device camera's stream counts as closed afterwards; the answer is
    /// what its backend answered when it closed the device's stream (`stream_stopped`).
    pub fn stop_stream(&mut self, stream_stopped: Result<(), CameraError>) -> (res: Result<(), CameraError>)
        ensures
            (*old(self)) matches PlatformCamera::Mock(c) ==> res is Ok && ((*final(self)) matches PlatformCamera::Mock(d) && !d.spec_is_streaming() && d.spec_device_id()
                == c.spec_device_id() && d.spec_capture_mode() == c.spec_capture_mode()
                && d.spec_controls() == c.spec_controls() && d.spec_format() == c.spec_format()),
            (*old(self)) matches PlatformCamera::Device(d) ==> res == stream_stopped
                && device_stream_set(d, *final(self), false, stream_stopped),
            (*old(self)) is Unsupported ==> (res matches Err(e) && is_unsupported_platform_error(e))
                && *final(self) == *old(self),
    {
        match self {
            PlatformCamera::Mock(camera) => camera.stop_stream(),
            PlatformCamera::Device(camera) => {
                camera.stream_open = false;
                stream_stopped
            },
            PlatformCamera::Unsupported => Err(unsupported_platform()),
        }
    }

    /// Start streaming frames to `callback`: a device camera opens its stream (its backend
    /// answered `stream_opened`), and the backend's capture thread, run by the plugin, hands
    /// each frame to the callback; the mock camera refuses.
    pub fn start_streaming<F: Fn(CameraFrame)>(
        &mut self,
        _callback: F,
        stream_opened: Result<(), CameraError>,
    ) -> (res: Result<(), CameraError>)
        ensures
            (*old(self)) is Mock ==> (res matches Err(CameraError::UnsupportedOperation(m)) && m@
                == "Mock camera doesn't support streaming with callback"@) && *final(self)
                == *old(self),
            (*old(self)) matches PlatformCamera::Device(d) ==> res == stream_opened
                && device_stream_set(d, *final(self), true, stream_opened),
            (*old(self)) is Unsupported ==> (res matches Err(e) && is_unsupported_platform_error(e))
                && *final(self) == *old(self),
    {
        match self {
            PlatformCamera::Mock(_camera) => Err(
                CameraError::UnsupportedOperation(
                    String::from_str("Mock camera doesn't support streaming with callback"),
                ),
            ),
            PlatformCamera::Device(camera) => {
                if stream_opened.is_ok() {
                    camera.stream_open = true;
                }
                stream_opened
            },
            PlatformCamera::Unsupported => Err(unsupported_platform()),
        }
    }

    /// Check if camera is available: the mock camera always is, a device camera while its
    /// stream is open.
    pub fn is_available(&self) -> (b: bool)
        ensures
            self is Mock ==> b,
            self matches PlatformCamera::Device(d) ==> b == d.spec_stream_open(),
            self is Unsupported ==> !b,
    {
        match self {
            PlatformCamera::Mock(camera) => camera.is_available(),
            PlatformCamera::Device(camera) => camera.stream_open,
            PlatformCamera::Unsupported => false,
        }
    }

    /// Get device ID
    pub fn get_device_id(&self) -> (id: Option<&str>)
        ensures
            self matches PlatformCamera::Mock(c) ==> (id matches Some(s) && s@ == c.spec_device_id()),
            self matches PlatformCamera::Device(d) ==> (id matches Some(s) && s@ == d.spec_device_id()),
            self is Unsupported ==> id is None,
    {
        match self {
            PlatformCamera::Mock(camera) => Some(camera.get_device_id()),
            PlatformCamera::Device(camera) => Some(camera.device_id.as_str()),
            PlatformCamera::Unsupported => None,
        }
    }

    /// Apply camera controls: the mock camera keeps them; a device camera accepts them and
    /// leaves the device as it is (its backend sets no controls).
    pub fn apply_controls(&mut self, controls: &CameraControls) -> (res: Result<(), CameraError>)
        ensures
            applies_controls(*old(self), *final(self), *controls),
            !(*old(self) is Unsupported) ==> res is Ok,
            (*old(self)) is Unsupported ==> (res matches Err(e) && is_unsupported_platform_error(e)),
    {
        match self {
            PlatformCamera::Mock(camera) => camera.apply_controls(controls),
            PlatformCamera::Device(_camera) => Ok(()),
            PlatformCamera::Unsupported => Err(unsupported_platform()),
        }
    }

    /// Get current camera controls (see [`reported_controls`]).
    pub fn get_controls(&self) -> (res: Result<CameraControls, CameraError>)
        ensures
            match reported_controls(*self) {
                Some(c) => res == Ok::<CameraControls, CameraError>(c),
                None => res matches Err(e) && is_unsupported_platform_error(e),
            },
    {
        match self {
            PlatformCamera::Mock(camera) => camera.get_controls(),
            PlatformCamera::Device(_camera) => Ok(CameraControls::default()),
            PlatformCamera::Unsupported => Err(unsupported_platform()),
        }
    }

    /// Test camera capabilities: a device camera claims none.
    pub fn test_capabilities(&self) -> (res: Result<CameraCapabilities, CameraError>)
        ensures
            self is Mock ==> res == Ok::<CameraCapabilities, CameraError>(mock_capabilities()),
            self is Device ==> res == Ok::<CameraCapabilities, CameraError>(
                CameraCapabilities::spec_default(),
            ),
            self is Unsupported ==> (res matches Err(e) && is_unsupported_platform_error(e)),
    {
        match self {
            PlatformCamera::Mock(camera) => camera.test_capabilities(),
            PlatformCamera::Device(_camera) => Ok(CameraCapabilities::default()),
            PlatformCamera::Unsupported => Err(unsupported_platform()),
        }
    }

    /// Get performance metrics: a device camera measures none and reports zeros.
    pub fn get_performance_metrics(&self) -> (res: Result<CameraPerformanceMetrics, CameraError>)
        ensures
            self is Mock ==> res == Ok::<CameraPerformanceMetrics, CameraError>(
                mock_performance(),
            ),
            self is Device ==> res == Ok::<CameraPerformanceMetrics, CameraError>(
                CameraPerformanceMetrics::spec_default(),
            ),
            self is Unsupported ==> (res matches Err(e) && is_unsupported_platform_error(e)),
    {
        match self {
            PlatformCamera::Mock(camera) => camera.get_performance_metrics(),
            PlatformCamera::Device(_camera) => Ok(CameraPerformanceMetrics::default()),
            PlatformCamera::Unsupported => Err(unsupported_platform()),
        }
    }
}

/// Controls applied to the mock camera of a platform camera read back as applied.
pub proof fn lemma_controls_read_back(before: PlatformCamera, after: PlatformCamera, controls: CameraControls)
    requires
        before is Mock,
        applies_controls(before, after, controls),
    ensures
        reported_controls(after) == Some(controls),
{
}

/// A platform camera that wraps a mock camera captures as the mock camera itself does: both
/// capture contracts are [`is_mock_capture`] of the mock camera, and leave it unchanged.
pub proof fn lemma_platform_capture_is_mock_capture(c: MockCamera, res: Result<CameraFrame, CameraError>)
    requires
        is_mock_capture(c, res),
    ensures
        c.spec_capture_mode() == MockCaptureMode::Failure ==> (res matches Err(
            CameraError::CaptureError(m),
        ) && m@ == "Mock capture failure"@),
        c.spec_capture_mode() != MockCaptureMode::Failure ==> (res matches Ok(f) && is_mock_frame(
            f,
            c.spec_device_id(),
        )),
{
}

/// Platform information structure
#[derive(Debug, Clone)]
pub struct PlatformInfo {
    pub platform: Platform,
    pub backend: String,
    pub features: Vec<String>,
}

/// Individual camera test result
#[derive(Debug, Clone)]
pub enum CameraTestResult {
    Success,
    InitError(String),
    CaptureError(String),
    NotAvailable,
}

/// System test result
#[derive(Debug)]
pub struct SystemTestResult {
    pub platform: Platform,
    pub cameras_found: usize,
    pub test_results: Vec<(String, CameraTestResult)>,
}

/// The capture backend named for each platform.
pub open spec fn platform_backend(p: Platform) -> Seq<char> {
    match p {
        Platform::Windows => "DirectShow/MediaFoundation"@,
        Platform::MacOS => "AVFoundation"@,
        Platform::Linux => "V4L2 (Video4Linux2)"@,
        Platform::Unknown => "Unknown"@,
    }
}

/// The features listed for each platform.
pub open spec fn platform_features(p: Platform) -> Seq<Seq<char>> {
    match p {
        Platform::Windows => seq![
            "Hardware acceleration"@,
            "DirectShow filters"@,
            "Windows Media Foundation"@,
            "USB and integrated cameras"@,
        ],
        Platform::MacOS => seq![
            "AVFoundation framework"@,
            "Hardware acceleration"@,
            "FaceTime HD camera support"@,
            "USB and integrated cameras"@,
            "Advanced color management"@,
        ],
        Platform::Linux => seq![
            "V4L2 interface"@,
            "USB UVC cameras"@,
            "Hardware controls"@,
            "Multiple pixel formats"@,
            "Device-specific extensions"@,
        ],
        Platform::Unknown => seq!["Limited support"@],
    }
}

/// What the platform's capture backend answered when a camera was tried: whether it opened
/// the device, and what it then read from it.
#[derive(Debug)]
pub struct DeviceTrial {
    pub opened: Result<(), CameraError>,
    pub captured: Result<CapturedImage, String>,
}

/// `r` is the result that testing one listed camera gives: not available; or with the mock
/// camera a successful capture; or else the error of a platform without a capture backend,
/// of an identifier that is not a device index, the error that opening the device gave, or the outcome of the read from it.
pub open spec fn is_camera_test_outcome(
    r: CameraTestResult,
    platform: Platform,
    id: Seq<char>,
    available: bool,
    use_mock: bool,
    trial: DeviceTrial,
) -> bool {
    if !available {
        r is NotAvailable
    } else if use_mock {
        r is Success
    } else if platform == Platform::Unknown {
        r matches CameraTestResult::InitError(m) && m@
            == "Camera initialization error: Unsupported platform"@
    } else if parsed_device_index(id) is None {
        r matches CameraTestResult::InitError(m) && m@
            == "Camera initialization error: Invalid device ID"@
    } else {
        match trial.opened {
            Err(e) => r matches CameraTestResult::InitError(m) && m@ == e.spec_message(),
            Ok(()) => match trial.captured {
                Ok(_) => r is Success,
                Err(m) => r matches CameraTestResult::CaptureError(t) && t@
                    == "Capture error: Failed to capture frame: "@ + m@,
            },
        }
    }
}

/// A camera as the platform's capture backend lists it: its identifier as the backend writes
/// it, its name and its description.
#[derive(Debug, Clone)]
pub struct QueriedCamera {
    pub id: String,
    pub name: String,
    pub description: String,
}

/// The formats that a listed camera is offered in: 1920x1080, 1280x720 and 640x480, each at
/// 30 frames per second in RGB8.
pub open spec fn listed_formats_ok(v: Seq<CameraFormat>) -> bool {
    &&& v.len() == 3
    &&& v[0].width == 1920 && v[0].height == 1080
    &&& v[1].width == 1280 && v[1].height == 720
    &&& v[2].width == 640 && v[2].height == 480
    &&& forall|i: int| 0 <= i < 3 ==> (#[trigger] v[i]).fps == 30 && v[i].format_type@ == "RGB8"@
}

/// The device information listed for a camera that the backend found.
pub open spec fn is_listed_camera(info: CameraDeviceInfo, q: QueriedCamera) -> bool {
    &&& info.id@ == q.id@
    &&& info.name@ == q.name@
    &&& info.description@ == q.description@
    &&& info.is_available
    &&& listed_formats_ok(info.supports_formats@)
}

fn listed_formats() -> (v: Vec<CameraFormat>)
    ensures
        listed_formats_ok(v@),
{
    let mut v: Vec<CameraFormat> = Vec::new();
    v.push(CameraFormat::new(1920, 1080, 30));
    v.push(CameraFormat::new(1280, 720, 30));
    v.push(CameraFormat::new(640, 480, 30));
    v
}

/// Platform-specific camera system functions
pub struct CameraSystem;

impl CameraSystem {
    /// List all available cameras on the given platform, from what the platform's capture
    /// backend found when it queried its devices (`queried`, the backend's error message on
    /// failure). A platform without a backend is unsupported.
    pub fn list_cameras(platform: Platform, queried: Result<Vec<QueriedCamera>, String>) -> (res:
        Result<Vec<CameraDeviceInfo>, CameraError>)
        ensures
            platform == Platform::Unknown ==> (res matches Err(e) && is_unsupported_platform_error(
                e,
            )),
            platform != Platform::Unknown ==> match queried {
                Err(m) => res matches Err(CameraError::InitializationError(e)) && e@
                    == "Failed to query cameras: "@ + m@,
                Ok(found) => res matches Ok(v) && v@.len() == found@.len() && forall|i: int|
                    0 <= i < v@.len() ==> is_listed_camera(#[trigger] v@[i], found@[i]),
            },
    {
        if platform == Platform::Unknown {
            return Err(unsupported_platform());
        }
        let found = match queried {
            Err(m) => {
                return Err(
                    CameraError::InitializationError(
                        String::from_str("Failed to query cameras: ").concat(m.as_str()),
                    ),
                );
            },
            Ok(found) => found,
        };
        let mut devices: Vec<CameraDeviceInfo> = Vec::new();
        let mut i: usize = 0;
        while i < found.len()
            invariant
                i <= found@.len(),
                devices@.len() == i,
                forall|k: int| 0 <= k < i ==> is_listed_camera(#[trigger] devices@[k], found@[k]),
            decreases found@.len() - i,
        {
            let q = &found[i];
            devices.push(
                CameraDeviceInfo {
                    id: q.id.clone(),
                    name: q.name.clone(),
                    description: q.description.clone(),
                    is_available: true,
                    supports_formats: listed_formats(),
                },
            );
            i = i + 1;
        }
        Ok(devices)
    }

    /// Initialize the camera system for the given platform; on Linux the result depends on
    /// whether V4L2 is available.
    pub fn initialize(platform: Platform, v4l2_available: bool) -> (res: Result<
        String,
        CameraError,
    >)
        ensures
            platform == Platform::Windows ==> (res matches Ok(m) && m@
                == "Windows camera system initialized with DirectShow/MediaFoundation"@),
            platform == Platform::MacOS ==> (res matches Ok(m) && m@
                == "macOS camera system initialized with AVFoundation"@),
            platform == Platform::Linux && v4l2_available ==> (res matches Ok(m) && m@
                == "Linux camera system initialized with V4L2"@),
            platform == Platform::Linux && !v4l2_available ==> (res matches Err(
                CameraError::InitializationError(m),
            ) && m@ == "V4L2 not available on this system"@),
            platform == Platform::Unknown ==> (res matches Err(CameraError::InitializationError(m))
                && m@ == "Unknown platform"@),
    {
        match platform {
            Platform::Windows => Ok(
                String::from_str("Windows camera system initialized with DirectShow/MediaFoundation"),
            ),
            Platform::MacOS => Ok(String::from_str("macOS camera system initialized with AVFoundation")),
            Platform::Linux => {
                if v4l2_available {
                    Ok(String::from_str("Linux camera system initialized with V4L2"))
                } else {
                    Err(
                        CameraError::InitializationError(
                            String::from_str("V4L2 not available on this system"),
                        ),
                    )
                }
            },
            Platform::Unknown => Err(
                CameraError::InitializationError(String::from_str("Unknown platform")),
            ),
        }
    }

    /// Get platform-specific information
    pub fn get_platform_info(platform: Platform) -> (res: Result<PlatformInfo, CameraError>)
        ensures
            res matches Ok(info) && info.platform == platform && info.backend@ == platform_backend(
                platform,
            ) && info.features@.map_values(|s: String| s@) == platform_features(platform),
    {
        let backend = match platform {
            Platform::Windows => "DirectShow/MediaFoundation",
            Platform::MacOS => "AVFoundation",
            Platform::Linux => "V4L2 (Video4Linux2)",
            Platform::Unknown => "Unknown",
        };
        let mut features: Vec<String> = Vec::new();
        match platform {
            Platform::Windows => {
                features.push(String::from_str("Hardware acceleration"));
                features.push(String::from_str("DirectShow filters"));
                features.push(String::from_str("Windows Media Foundation"));
                features.push(String::from_str("USB and integrated cameras"));
            },
            Platform::MacOS => {
                features.push(String::from_str("AVFoundation framework"));
                features.push(String::from_str("Hardware acceleration"));
                features.push(String::from_str("FaceTime HD camera support"));
                features.push(String::from_str("USB and integrated cameras"));
                features.push(String::from_str("Advanced color management"));
            },
            Platform::Linux => {
                features.push(String::from_str("V4L2 interface"));
                features.push(String::from_str("USB UVC cameras"));
                features.push(String::from_str("Hardware controls"));
                features.push(String::from_str("Multiple pixel formats"));
                features.push(String::from_str("Device-specific extensions"));
            },
            Platform::Unknown => {
                features.push(String::from_str("Limited support"));
            },
        }
        assert(features@.map_values(|s: String| s@) =~= platform_features(platform));
        Ok(PlatformInfo { platform, backend: String::from_str(backend), features })
    }

    /// Test camera system functionality: every listed camera that is available is opened
    /// (the mock camera when `use_mock`) and asked for one frame. `trials[i]` is what the
    /// capture backend answered when it tried the device of `cameras[i]`.
    pub fn test_system(
        platform: Platform,
        cameras: &Vec<CameraDeviceInfo>,
        use_mock: bool,
        trials: Vec<DeviceTrial>,
    ) -> (res: Result<SystemTestResult, CameraError>)
        requires
            trials@.len() == cameras@.len(),
        ensures
            res matches Ok(r) && r.platform == platform && r.cameras_found == cameras@.len()
                && r.test_results@.len() == cameras@.len() && (forall|i: int|
                0 <= i < cameras@.len() ==> (#[trigger] r.test_results@[i]).0@ == cameras@[i].id@
                && is_camera_test_outcome(
                r.test_results@[i].1,
                platform,
                cameras@[i].id@,
                cameras@[i].is_available,
                use_mock,
                trials@[i],
            )),
    {
        let ghost all_trials = trials@;
        let mut rest = trials;
        let mut test_results: Vec<(String, CameraTestResult)> = Vec::new();
        let mut i: usize = 0;
        while i < cameras.len()
            invariant
                i <= cameras@.len(),
                all_trials.len() == cameras@.len(),
                rest@ == all_trials.skip(i as int),
                test_results@.len() == i,
                forall|j: int|
                    0 <= j < i ==> (#[trigger] test_results@[j]).0@ == cameras@[j].id@
                        && is_camera_test_outcome(
                        test_results@[j].1,
                        platform,
                        cameras@[j].id@,
                        cameras@[j].is_available,
                        use_mock,
                        all_trials[j],
                    ),
            decreases cameras@.len() - i,
        {
            let camera_info = &cameras[i];
            let ghost rest_before = rest@;
            let trial = rest.remove(0);
            proof {
                assert(trial == all_trials[i as int]);
                assert(rest@ =~= all_trials.skip(i + 1));
            }
            let ghost tr = all_trials[i as int];
            let test_result = if camera_info.is_available {
                let params = CameraInitParams::new(camera_info.id.clone());
                match PlatformCamera::new(params, use_mock, platform, trial.opened) {
                    Ok(mut camera) => {
                        camera.deliver_capture(trial.captured);
                        match camera.capture_frame() {
                            Ok(_) => CameraTestResult::Success,
                            Err(e) => {
                                let m = e.to_string();
                                proof {
                                    reveal_strlit("Capture error: ");
                                    reveal_strlit("Failed to capture frame: ");
                                    reveal_strlit("Capture error: Failed to capture frame: ");
                                    if let Err(t) = tr.captured {
                                        assert(m@ =~= "Capture error: Failed to capture frame: "@
                                            + t@);
                                    }
                                }
                                CameraTestResult::CaptureError(m)
                            },
                        }
                    },
                    Err(e) => {
                        let m = e.to_string();
                        proof {
                            reveal_strlit("Camera initialization error: ");
                            reveal_strlit("Invalid device ID");
                            reveal_strlit("Camera initialization error: Invalid device ID");
                            reveal_strlit("Unsupported platform");
                            reveal_strlit("Camera initialization error: Unsupported platform");
                            if platform == Platform::Unknown {
                                assert(m@ =~= "Camera initialization error: Unsupported platform"@);
                            } else if parsed_device_index(cameras@[i as int].id@) is None {
                                assert(m@ =~= "Camera initialization error: Invalid device ID"@);
                            }
                        }
                        CameraTestResult::InitError(m)
                    },
                }
            } else {
                CameraTestResult::NotAvailable
            };
            assert(is_camera_test_outcome(
                test_result,
                platform,
                cameras@[i as int].id@,
                cameras@[i as int].is_available,
                use_mock,
                all_trials[i as int],
            ));
            test_results.push((camera_info.id.clone(), test_result));
            i = i + 1;
        }
        Ok(SystemTestResult { platform, cameras_found: cameras.len(), test_results })
    }
}

} // verus!
