//! Media codec types.

use vstd::prelude::*;

verus! {

pub const AUDIO_PCM: i32 = 1;

pub const AUDIO_AAC_LC: i32 = 2;

pub const VIDEO_H264_BP: i32 = 3;

pub const VIDEO_VP9: i32 = 5;

pub const VIDEO_AV1: i32 = 6;

pub const VIDEO_H265: i32 = 7;

} // verus!
