//! Direct streaming sessions: one camera per device, streaming frames to a callback.
use vstd::prelude::*;

use crate::platform::optimizations::{get_optimal_settings, get_photography_format, photography_format};
use crate::errors::CameraError;
use crate::platform::{parsed_device_index, PlatformCamera};
use crate::text::{decimal, decimal_string, join3, prefixed};
use crate::types::{CameraControls, CameraFormat, CameraFrame, CameraInitParams, Platform};

verus! {

/// Configuration for starting a stream
#[derive(Debug, Clone)]
pub struct StreamConfig {
    pub device_id: String,
    /// Use optimal settings (recommended)
    pub use_optimal_settings: bool,
    /// Custom format (if use_optimal_settings = false)
    pub format: Option<CameraFormat>,
}

/// The value that `use_optimal_settings` takes when a configuration leaves it out.
pub fn default_true() -> (b: bool)
    ensures
        b,
{
    true
}

/// Status of a streaming session
#[derive(Debug, Clone)]
pub struct StreamStatus {
    pub device_id: String,
    pub is_active: bool,
}

/// A session as the registry's contracts see it.
pub struct SessionView {
    pub device_id: Seq<char>,
    pub is_active: bool,
    pub camera: PlatformCamera,
}

/// Streaming session state
struct StreamingSession {
    device_id: String,
    camera: PlatformCamera,
    is_active: bool,
}

/// Registry of active streaming sessions, at most one per device.
pub struct DirectStreamRegistry {
    sessions: Vec<StreamingSession>,
}

/// Whether a session for the device is in the registry.
pub open spec fn has_session(s: Seq<SessionView>, device_id: Seq<char>) -> bool {
    exists|i: int| 0 <= i < s.len() && (#[trigger] s[i]).device_id == device_id
}

/// The parameters that a direct stream opens its camera with: the platform's optimal settings
/// for the device, or the standard parameters for the device in the configured format (the
/// platform's photography format where none is configured).
pub open spec fn direct_stream_params_spec(
    config: StreamConfig,
    platform: Platform,
    p: CameraInitParams,
) -> bool {
    let (w, h, t) = photography_format(platform);
    &&& p.device_id@ == config.device_id@
    &&& if config.use_optimal_settings {
        &&& (p.format.width, p.format.height, p.format.format_type@) == (w, h, t)
        &&& p.format.fps == 30
        &&& p.controls == (CameraControls {
            auto_focus: Some(true),
            auto_exposure: Some(true),
            ..CameraControls::spec_default()
        })
    } else {
        &&& p.controls == CameraControls::spec_default()
        &&& match config.format {
            Some(f) => p.format == f,
            None => (p.format.width, p.format.height, p.format.format_type@) == (w, h, t)
                && p.format.fps == 30,
        }
    }
}

/// The parameters for a direct stream's camera.
pub fn direct_stream_params(config: &StreamConfig, platform: Platform) -> (p: CameraInitParams)
    ensures
        direct_stream_params_spec(*config, platform, p),
{
    if config.use_optimal_settings {
        let mut optimal = get_optimal_settings(platform);
        optimal.device_id = config.device_id.clone();
        optimal
    } else {
        let format = match &config.format {
            Some(f) => f.duplicate(),
            None => get_photography_format(platform),
        };
        CameraInitParams::new(config.device_id.clone()).with_format(format)
    }
}

impl View for DirectStreamRegistry {
    type V = Seq<SessionView>;

    closed spec fn view(&self) -> Seq<SessionView> {
        self.sessions@.map_values(
            |s: StreamingSession|
                SessionView { device_id: s.device_id@, is_active: s.is_active, camera: s.camera },
        )
    }
}

impl DirectStreamRegistry {
    /// No two sessions are for the same device.
    pub open spec fn wf(&self) -> bool {
        forall|i: int, j: int|
            0 <= i < j < self@.len() ==> (#[trigger] self@[i]).device_id != (#[trigger] self@[j]).device_id
    }

    /// An empty registry.
    pub fn new() -> (r: Self)
        ensures
            r.wf(),
            r@.len() == 0,
    {
        let r = DirectStreamRegistry { sessions: Vec::new() };
        assert(r@.len() == 0);
        r
    }

    fn find(&self, device_id: &String) -> (r: Option<usize>)
        ensures
            r matches Some(i) ==> i < self@.len() && self@[i as int].device_id == device_id@,
            r is None ==> !has_session(self@, device_id@),
    {
        let mut i: usize = 0;
        while i < self.sessions.len()
            invariant
                i <= self.sessions.len(),
                forall|k: int| 0 <= k < i ==> (#[trigger] self@[k]).device_id != device_id@,
            decreases self.sessions.len() - i,
        {
            if self.sessions[i].device_id == *device_id {
                return Some(i);
            }
            i = i + 1;
        }
        None
    }

    /// Start direct streaming: opens the device's camera and starts it streaming frames to
    /// `callback`. `use_mock` selects the mock camera (the plugin decides, from the
    /// environment). `device_opened` is what the platform's capture backend answered when it
    /// opened the device in the format that [`direct_stream_params`] gives, and
    /// `stream_opened` what it answered when it then opened the device's stream.
    pub fn start_direct_streaming<F: Fn(CameraFrame)>(
        &mut self,
        config: StreamConfig,
        platform: Platform,
        use_mock: bool,
        device_opened: Result<(), CameraError>,
        stream_opened: Result<(), CameraError>,
        callback: F,
    ) -> (res: Result<String, String>)
        requires
            old(self).wf(),
        ensures
            final(self).wf(),
            has_session(old(self)@, config.device_id@) ==> (res matches Err(m) && m@
                == "Streaming already active for device "@ + config.device_id@),
            !has_session(old(self)@, config.device_id@) && use_mock ==> (res matches Err(m) && m@
                == "Failed to start streaming: "@ + ("Unsupported operation: "@
                + "Mock camera doesn't support streaming with callback"@)),
            !has_session(old(self)@, config.device_id@) && !use_mock && platform
                == Platform::Unknown ==> (res matches Err(m) && m@ == "Failed to initialize camera: "@
                + ("Camera initialization error: "@ + "Unsupported platform"@)),
            !has_session(old(self)@, config.device_id@) && !use_mock && platform
                != Platform::Unknown && parsed_device_index(config.device_id@) is None ==> (res matches Err(m)
                && m@ == "Failed to initialize camera: "@ + ("Camera initialization error: "@
                + "Invalid device ID"@)),
            !has_session(old(self)@, config.device_id@) && !use_mock && platform
                != Platform::Unknown && parsed_device_index(config.device_id@) is Some ==> match device_opened {
                Err(e) => res matches Err(m) && m@ == "Failed to initialize camera: "@
                    + e.spec_message(),
                Ok(()) => match stream_opened {
                    Err(e) => res matches Err(m) && m@ == "Failed to start streaming: "@
                        + e.spec_message(),
                    Ok(()) => res is Ok,
                },
            },
            res is Err ==> final(self)@ == old(self)@,
            res matches Ok(m) ==> m@ == "Direct streaming started for device "@ + config.device_id@
                && final(self)@.len() == old(self)@.len() + 1
                && final(self)@.drop_last() == old(self)@
                && final(self)@.last().device_id == config.device_id@
                && final(self)@.last().is_active
                && (final(self)@.last().camera matches PlatformCamera::Device(d)
                && d.spec_device_id() == config.device_id@ && d.spec_stream_open()),
    {
        if let Some(_) = self.find(&config.device_id) {
            return Err(prefixed("Streaming already active for device ", &config.device_id));
        }
        let params = direct_stream_params(&config, platform);
        let mut camera = match PlatformCamera::new(params, use_mock, platform, device_opened) {
            Ok(c) => c,
            Err(e) => {
                let m = e.to_string();
                return Err(prefixed("Failed to initialize camera: ", &m));
            },
        };
        match camera.start_streaming(callback, stream_opened) {
            Ok(()) => {},
            Err(e) => {
                let m = e.to_string();
                return Err(prefixed("Failed to start streaming: ", &m));
            },
        }
        let msg = prefixed("Direct streaming started for device ", &config.device_id);
        let ghost before = self@;
        self.sessions.push(StreamingSession { device_id: config.device_id, camera, is_active: true });
        proof {
            assert(self@.drop_last() =~= before);
            assert forall|i: int, j: int| 0 <= i < j < self@.len() implies (#[trigger] self@[i]).device_id
                != (#[trigger] self@[j]).device_id by {
                assert(self@[i] == before[i]);
                if j < before.len() {
                    assert(self@[j] == before[j]);
                }
            }
        }
        Ok(msg)
    }

    /// Stop direct streaming: removes the device's session, marks it inactive and stops its
    /// camera. For a device camera, `stream_stopped` is what the capture backend answered when
    /// it closed the device's stream; a failure is reported after the session is gone.
    pub fn stop_direct_streaming(&mut self, device_id: String, stream_stopped: Result<(), CameraError>) -> (res: Result<String, String>)
        requires
            old(self).wf(),
        ensures
            final(self).wf(),
            !has_session(old(self)@, device_id@) ==> final(self)@ == old(self)@ && (res matches Err(
                m,
            ) && m@ == "No active streaming session for device "@ + device_id@),
            forall|i: int|
                0 <= i < old(self)@.len() && (#[trigger] old(self)@[i]).device_id == device_id@
                    ==> {
                    &&& final(self)@ == old(self)@.remove(i)
                    &&& !has_session(final(self)@, device_id@)
                    &&& (old(self)@[i].camera is Mock || (old(self)@[i].camera is Device
                        && stream_stopped is Ok)) ==> (res matches Ok(m) && m@
                        == "Direct streaming stopped for device "@ + device_id@)
                    &&& old(self)@[i].camera is Device ==> (stream_stopped matches Err(e) ==> (res matches Err(m) && m@
                        == "Failed to stop stream: "@ + e.spec_message()))
                    &&& old(self)@[i].camera is Unsupported ==> (res matches Err(m) && m@
                        == "Failed to stop stream: "@ + ("Camera initialization error: "@
                        + "Unsupported platform"@))
                },
    {
        match self.find(&device_id) {
            Some(i) => {
                let ghost before = self@;
                proof {
                    assert forall|j: int|
                        0 <= j < before.len() && (#[trigger] before[j]).device_id == device_id@
                            implies j == i as int by {
                        if j != i as int {
                            assert(before[j].device_id != before[i as int].device_id);
                        }
                    }
                }
                let mut session = self.sessions.remove(i);
                proof {
                    assert(self@ =~= before.remove(i as int));
                    assert forall|j: int| 0 <= j < self@.len() implies (#[trigger] self@[j]).device_id
                        != device_id@ by {
                        if j < i {
                            assert(self@[j] == before[j]);
                        } else {
                            assert(self@[j] == before[j + 1]);
                        }
                    }
                }
                session.is_active = false;
                match session.camera.stop_stream(stream_stopped) {
                    Ok(()) => Ok(prefixed("Direct streaming stopped for device ", &device_id)),
                    Err(e) => {
                        let m = e.to_string();
                        Err(prefixed("Failed to stop stream: ", &m))
                    },
                }
            },
            None => Err(prefixed("No active streaming session for device ", &device_id)),
        }
    }

    /// Get streaming status: a device without a session is reported inactive.
    pub fn get_streaming_status(&self, device_id: String) -> (res: Result<StreamStatus, String>)
        requires
            self.wf(),
        ensures
            res matches Ok(st) && st.device_id == device_id && st.is_active == exists|i: int|
                0 <= i < self@.len() && (#[trigger] self@[i]).device_id == device_id@
                    && self@[i].is_active,
    {
        match self.find(&device_id) {
            Some(i) => {
                let is_active = self.sessions[i].is_active;
                proof {
                    assert forall|j: int|
                        0 <= j < self@.len() && (#[trigger] self@[j]).device_id == device_id@
                            implies j == i as int by {
                        if j != i as int {
                            assert(self@[j].device_id != self@[i as int].device_id);
                        }
                    }
                }
                Ok(StreamStatus { device_id, is_active })
            },
            None => Ok(StreamStatus { device_id, is_active: false }),
        }
    }

    /// List all active streaming sessions
    pub fn list_active_streams(&self) -> (res: Result<Vec<StreamStatus>, String>)
        ensures
            res matches Ok(v) && v@.len() == self@.len() && forall|i: int|
                0 <= i < v@.len() ==> (#[trigger] v@[i]).device_id@ == self@[i].device_id
                    && v@[i].is_active == self@[i].is_active,
    {
        let mut statuses: Vec<StreamStatus> = Vec::new();
        let mut i: usize = 0;
        while i < self.sessions.len()
            invariant
                i <= self.sessions.len(),
                statuses@.len() == i,
                forall|k: int|
                    0 <= k < i ==> (#[trigger] statuses@[k]).device_id@ == self@[k].device_id
                        && statuses@[k].is_active == self@[k].is_active,
            decreases self.sessions.len() - i,
        {
            let session = &self.sessions[i];
            statuses.push(
                StreamStatus { device_id: session.device_id.clone(), is_active: session.is_active },
            );
            i = i + 1;
        }
        Ok(statuses)
    }

    /// Release all streaming sessions (cleanup): stops every camera, whatever it answers.
    pub fn release_all_streams(&mut self) -> (res: Result<String, String>)
        ensures
            final(self).wf(),
            final(self)@.len() == 0,
            res matches Ok(m) && m@ == "Released "@ + decimal(old(self)@.len()) + " streaming session(s)"@,
    {
        let count = self.sessions.len();
        let n = decimal_string(count as u64);
        while self.sessions.len() > 0
            decreases self.sessions.len(),
        {
            let mut session = self.sessions.pop().unwrap();
            session.is_active = false;
            let _ = session.camera.stop_stream(Ok(()));
        }
        assert(self@.len() == 0);
        Ok(join3("Released ", n.as_str(), " streaming session(s)"))
    }
}

} // verus!
