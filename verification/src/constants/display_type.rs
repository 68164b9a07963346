//! Display types.

use vstd::prelude::*;

verus! {

pub const MAIN: i32 = 0;

pub const CLUSTER: i32 = 1;

pub const AUXILIARY: i32 = 2;

} // verus!
