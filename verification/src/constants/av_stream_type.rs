//! AV stream types.

use vstd::prelude::*;

verus! {

pub const AUDIO: i32 = 1;

pub const VIDEO: i32 = 3;

} // verus!
