//! Bluetooth pairing methods.

use vstd::prelude::*;

verus! {

pub const NUMERIC_COMPARISON: i32 = 2;

pub const PIN: i32 = 4;

} // verus!
