//! AV setup status.

use vstd::prelude::*;

verus! {

pub const NONE: i32 = 0;

pub const FAIL: i32 = 1;

pub const OK: i32 = 2;

} // verus!
