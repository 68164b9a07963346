//! Android Auto head unit core, verified: protobuf wire helpers, the frame codec, channel
//! handlers, the session state machine and service discovery, the AOAP handshake and USB
//! hotplug decisions, the wired driver's presentation decisions, and the helpers around
//! audio, video, radio and udev that the desktop shell drives.

pub mod audio;
pub mod channels;
pub mod constants;
pub mod frame;
pub mod patterns;
pub mod projection;
pub mod proto;
pub mod radio;
pub mod session;
pub mod shared;
pub mod text;
pub mod usb;
pub mod video;
