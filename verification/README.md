# crabcamera

Camera integration for Tauri applications: platform camera selection and recommended
settings, RGB to YUV 4:2:0 conversion, H.264 encoding, H.264 and Opus RTP packetization,
WebRTC stream state, and the registries behind the plugin's streaming and WebRTC commands.

The library in `src/` is verified with Verus. Its functions state in their contracts what
they return or change (where a result comes from an outside service, such as a frame
subscription, the contract says what holds of every outcome), and the properties that
relate several functions (RTP depacketization gives back the NAL units, headers read back,
registries keep identifiers unique, ...) are proof functions.

- `src/types.rs`, `src/errors.rs`: platforms, formats, controls, frames, camera errors.
- `src/platform/`: the mock camera, device cameras (fed by the plugin's capture backend),
  the platform camera, the camera system, recommended settings per platform.
- `src/yuv.rs`, `src/recording/`: BT.601 RGB to YUV 4:2:0, the H.264 encoder.
- `src/webrtc/packetizer.rs`, `src/webrtc/packetizer_laws.rs`: Annex B parsing, single NAL
  and FU-A packetization, Opus packetization, and their properties.
- `src/webrtc/streaming.rs`: the state of a WebRTC stream and one round of its loop.
- `src/webrtc/peer.rs`: peer connection configuration, descriptions, candidates, and the
  record kept of each connection.
- `src/commands/`: direct streaming sessions, the WebRTC registry, RTP framing.
- `src/backends.rs`: the calls into openh264, image, uuid, chrono and tokio, with the
  contracts the library relies on.
- `app/`: the async plugin around the library: the capture backend (device I/O through
  nokhwa), shared state, command entry points, the loops that drive streams and forward RTP,
  the `webrtc` connections, logging, serializable forms.
