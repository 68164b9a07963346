//! Colour schemes.

use vstd::prelude::*;

verus! {

pub const BASIC: i32 = 0;

pub const MATERIAL_YOU_V2: i32 = 2;

pub const MATERIAL_YOU_V3: i32 = 3;

} // verus!
