//! Channel ids (service types).

use vstd::prelude::*;

verus! {

pub const CONTROL: u8 = 0;

/// Driving status, GPS, night mode.
pub const SENSOR: u8 = 1;

/// Main display.
pub const VIDEO: u8 = 3;

/// Music / podcast PCM.
pub const MEDIA_AUDIO: u8 = 4;

/// Navigation prompts.
pub const SPEECH_AUDIO: u8 = 5;

/// System sounds.
pub const SYSTEM_AUDIO: u8 = 6;

/// Touch + keycodes.
pub const INPUT: u8 = 8;

/// Microphone.
pub const MIC_INPUT: u8 = 9;

pub const BLUETOOTH: u8 = 10;

pub const NAVIGATION: u8 = 12;

pub const MEDIA_INFO: u8 = 13;

pub const PHONE_STATUS: u8 = 14;

pub const WIFI: u8 = 18;

/// Secondary display sink.
pub const CLUSTER_VIDEO: u8 = 19;

/// Secondary display input stub.
pub const CLUSTER_INPUT: u8 = 20;

} // verus!
