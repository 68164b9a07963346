//! Android KeyEvent keycodes and the Android Auto extensions.
//!
//! A key reaches the phone only if its code is in the `keycodes_supported` list advertised in
//! the input source service of service discovery.

use vstd::prelude::*;

verus! {

// System
pub const UNKNOWN: u32 = 0;

pub const HOME: u32 = 3;

pub const BACK: u32 = 4;

// Phone call
pub const PHONE_ACCEPT: u32 = 5;

pub const PHONE_DECLINE: u32 = 6;

// Numeric (DTMF / dialer pad)
pub const KEY_0: u32 = 7;

pub const KEY_1: u32 = 8;

pub const KEY_2: u32 = 9;

pub const KEY_3: u32 = 10;

pub const KEY_4: u32 = 11;

pub const KEY_5: u32 = 12;

pub const KEY_6: u32 = 13;

pub const KEY_7: u32 = 14;

pub const KEY_8: u32 = 15;

pub const KEY_9: u32 = 16;

pub const KEY_STAR: u32 = 17;

pub const KEY_POUND: u32 = 18;

// D-PAD navigation
pub const DPAD_UP: u32 = 19;

pub const DPAD_DOWN: u32 = 20;

pub const DPAD_LEFT: u32 = 21;

pub const DPAD_RIGHT: u32 = 22;

pub const DPAD_CENTER: u32 = 23;

// Volume (informational — NOT advertised)
pub const VOLUME_UP: u32 = 24;

pub const VOLUME_DOWN: u32 = 25;

pub const POWER: u32 = 26;

// General
pub const ENTER: u32 = 66;

pub const HEADSETHOOK: u32 = 79;

pub const MENU: u32 = 82;

pub const SEARCH: u32 = 84;

// Media transport
pub const MEDIA_PLAY_PAUSE: u32 = 85;

pub const MEDIA_STOP: u32 = 86;

pub const MEDIA_NEXT: u32 = 87;

pub const MEDIA_PREV: u32 = 88;

pub const MEDIA_REWIND: u32 = 89;

pub const MEDIA_FAST_FWD: u32 = 90;

pub const MUTE: u32 = 91;

pub const ESCAPE: u32 = 111;

pub const MEDIA_PLAY: u32 = 126;

pub const MEDIA_PAUSE: u32 = 127;

pub const VOLUME_MUTE: u32 = 164;

// Voice / assistant
pub const ASSIST: u32 = 219;

pub const VOICE_ASSIST: u32 = 231;

// Map / list navigation
pub const NAVIGATE_PREVIOUS: u32 = 260;

pub const NAVIGATE_NEXT: u32 = 261;

pub const NAVIGATE_IN: u32 = 262;

pub const NAVIGATE_OUT: u32 = 263;

// AA-specific extensions
pub const ROTARY_CONTROLLER: u32 = 65536;

pub const MEDIA: u32 = 65537;

pub const TERTIARY_BUTTON: u32 = 65543;

pub const TURN_CARD: u32 = 65544;

} // verus!
