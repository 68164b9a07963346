//! Version negotiation.

use vstd::prelude::*;

verus! {

pub const MAJOR: u16 = 1;

pub const MINOR: u16 = 7;

pub const STATUS_MATCH: u16 = 0x0000;

pub const STATUS_MISMATCH: u16 = 0xffff;

} // verus!
