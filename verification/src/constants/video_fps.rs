//! Video frame-rate enum.

use vstd::prelude::*;

verus! {

pub const FPS60: i32 = 1;

pub const FPS30: i32 = 2;

} // verus!
