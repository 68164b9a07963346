# avio

The core of an Android Auto head unit, written in Verus: every function in `src/` carries a
contract that Verus proves, except the handful of `#[verifier::external_body]` wrappers
around outside code (the `regex` and `regex-split` calls in `patterns`; `from_utf8_lossy`,
`to_uppercase`, `to_lowercase` and `replace` of std in `text`), whose contracts are trusted
as the outside crates' source and documentation state them, not proved.

- `proto`, `frame`: protobuf varints and fields; the frame codec and fragment reassembly.
- `channels`: per-channel handlers (audio, video, microphone, input reports,
  navigation and media status).
- `session`: configuration, control channel, service discovery (video tiers, letterbox
  geometry, and the ServiceDiscoveryResponse message bytes) and the session state machine, which turns received bytes into replies and
  events; the owner runs the socket and TLS and feeds results back.
- `projection`: AOAP accessory handshake, USB bulk-endpoint selection, the wired driver's
  presenter (video, touch overlay and audio sink actions per session event), front-end
  commands.
- `usb`: hotplug decisions (which device is the phone, re-enumeration window) and the udev
  rule template logic.
- `audio`, `video`, `radio`, `shared`, `text`, `patterns`: GStreamer pipeline arguments,
  device-monitor parsing, compositor control messages, the FM tuner state, string helpers
  and the regular expressions the parsers use.

`app/` is the desktop shell (Tauri windows and commands, sockets, TLS with OpenSSL, USB I/O
with nusb, playback processes); it performs what the library decides. `tests/` runs the
library on concrete values.
