//! Camera errors and their messages.
use vstd::prelude::*;

verus! {

/// An error from a camera operation, with a message that says what went wrong.
#[derive(Debug, Clone)]
pub enum CameraError {
    InitializationError(String),
    PermissionDenied(String),
    CaptureError(String),
    ControlError(String),
    StreamError(String),
    UnsupportedOperation(String),
    EncodingError(String),
    MuxingError(String),
    IoError(String),
    AudioError(String),
}

impl CameraError {
    /// The message that the error is displayed with: a prefix that names its kind, then its text.
    pub open spec fn spec_message(&self) -> Seq<char> {
        match self {
            CameraError::InitializationError(m) => "Camera initialization error: "@ + m@,
            CameraError::PermissionDenied(m) => "Permission denied error: "@ + m@,
            CameraError::CaptureError(m) => "Capture error: "@ + m@,
            CameraError::ControlError(m) => "Camera control error: "@ + m@,
            CameraError::StreamError(m) => "Stream error: "@ + m@,
            CameraError::UnsupportedOperation(m) => "Unsupported operation: "@ + m@,
            CameraError::EncodingError(m) => "Encoding error: "@ + m@,
            CameraError::MuxingError(m) => "Muxing error: "@ + m@,
            CameraError::IoError(m) => "IO error: "@ + m@,
            CameraError::AudioError(m) => "Audio error: "@ + m@,
        }
    }

    /// The message that the error is displayed with.
    pub fn to_string(&self) -> (s: String)
        ensures
            s@ == self.spec_message(),
    {
        let (prefix, m): (&str, &String) = match self {
            CameraError::InitializationError(m) => ("Camera initialization error: ", m),
            CameraError::PermissionDenied(m) => ("Permission denied error: ", m),
            CameraError::CaptureError(m) => ("Capture error: ", m),
            CameraError::ControlError(m) => ("Camera control error: ", m),
            CameraError::StreamError(m) => ("Stream error: ", m),
            CameraError::UnsupportedOperation(m) => ("Unsupported operation: ", m),
            CameraError::EncodingError(m) => ("Encoding error: ", m),
            CameraError::MuxingError(m) => ("Muxing error: ", m),
            CameraError::IoError(m) => ("IO error: ", m),
            CameraError::AudioError(m) => ("Audio error: ", m),
        };
        String::from_str(prefix).concat(m.as_str())
    }
}

} // verus!
