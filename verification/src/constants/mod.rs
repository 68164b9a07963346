//! Android Auto wire-protocol constants.
use vstd::prelude::*;
pub mod frame_flags;
pub mod ctrl_msg;
pub mod av_msg;
pub mod ch;
pub mod version;
pub mod video_resolution;
pub mod video_fps;
pub mod media_codec;
pub mod av_stream_type;
pub mod display_type;
pub mod sensor_type;
pub mod audio_type;
pub mod bt_pairing_method;
pub mod color_scheme;
pub mod av_setup_status;

verus! {

pub const TCP_PORT: u16 = 5277;

pub const STATUS_OK: i32 = 0;

/// MessageStatus STATUS_BLUETOOTH_UNAVAILABLE.
pub const STATUS_BLUETOOTH_UNAVAILABLE: i32 = -11;

} // verus!
