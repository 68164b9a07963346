//! Audio stream purposes.

use vstd::prelude::*;

verus! {

pub const SPEECH: i32 = 1;

pub const SYSTEM: i32 = 2;

pub const MEDIA: i32 = 3;

} // verus!
