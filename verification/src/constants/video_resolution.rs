//! Video codec resolution tiers.

use vstd::prelude::*;

verus! {

pub const R800X480: i32 = 1;

pub const R1280X720: i32 = 2;

pub const R1920X1080: i32 = 3;

} // verus!
