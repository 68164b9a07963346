//! AV-channel message ids.

use vstd::prelude::*;

verus! {

pub const AV_MEDIA_WITH_TIMESTAMP: u16 = 0x0000;

/// H.264 / PCM frames.
pub const AV_MEDIA_INDICATION: u16 = 0x0001;

pub const SETUP_REQUEST: u16 = 0x8000;

pub const START_INDICATION: u16 = 0x8001;

pub const STOP_INDICATION: u16 = 0x8002;

pub const SETUP_RESPONSE: u16 = 0x8003;

pub const AV_MEDIA_ACK: u16 = 0x8004;

pub const AV_INPUT_OPEN_REQUEST: u16 = 0x8005;

pub const AV_INPUT_OPEN_RESPONSE: u16 = 0x8006;

pub const VIDEO_FOCUS_REQUEST: u16 = 0x8007;

pub const VIDEO_FOCUS_INDICATION: u16 = 0x8008;

} // verus!
