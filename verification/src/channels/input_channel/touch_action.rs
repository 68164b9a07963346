//! PointerAction values of a touch event.

use vstd::prelude::*;

verus! {

pub const DOWN: u32 = 0;

pub const UP: u32 = 1;

pub const MOVED: u32 = 2;

pub const POINTER_DOWN: u32 = 5;

pub const POINTER_UP: u32 = 6;

} // verus!
