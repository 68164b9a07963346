//! Control-channel message ids (channel 0).

use vstd::prelude::*;

verus! {

pub const VERSION_REQUEST: u16 = 0x0001;

pub const VERSION_RESPONSE: u16 = 0x0002;

pub const SSL_HANDSHAKE: u16 = 0x0003;

pub const AUTH_COMPLETE: u16 = 0x0004;

/// Phone -> HU.
pub const SERVICE_DISCOVERY_REQUEST: u16 = 0x0005;

/// HU -> phone.
pub const SERVICE_DISCOVERY_RESPONSE: u16 = 0x0006;

/// Phone -> HU.
pub const CHANNEL_OPEN_REQUEST: u16 = 0x0007;

/// HU -> phone.
pub const CHANNEL_OPEN_RESPONSE: u16 = 0x0008;

pub const CHANNEL_CLOSE_NOTIFICATION: u16 = 0x0009;

pub const PING_REQUEST: u16 = 0x000b;

pub const PING_RESPONSE: u16 = 0x000c;

pub const NAVIGATION_FOCUS_REQUEST: u16 = 0x000d;

pub const NAVIGATION_FOCUS_RESPONSE: u16 = 0x000e;

pub const SHUTDOWN_REQUEST: u16 = 0x000f;

pub const SHUTDOWN_RESPONSE: u16 = 0x0010;

/// Phone -> HU (1=START, 2=END).
pub const VOICE_SESSION_NOTIFICATION: u16 = 0x0011;

pub const AUDIO_FOCUS_REQUEST: u16 = 0x0012;

pub const AUDIO_FOCUS_RESPONSE: u16 = 0x0013;

/// Phone -> HU (scan codes).
pub const BINDING_REQUEST: u16 = 0x0019;

/// HU -> phone.
pub const BINDING_RESPONSE: u16 = 0x001a;

} // verus!
