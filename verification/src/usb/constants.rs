//! USB ids of the Carlinkit dongle.

use vstd::prelude::*;

verus! {

pub const CARLINKIT_VID: u16 = 0x1314;

pub const CARLINKIT_PID_A: u16 = 0x1520;

pub const CARLINKIT_PID_B: u16 = 0x1521;

pub open spec fn carlinkit_spec(vid: Option<u16>, pid: Option<u16>) -> bool {
    match (vid, pid) {
        (Some(v), Some(p)) => v == CARLINKIT_VID && (p == CARLINKIT_PID_A || p == CARLINKIT_PID_B),
        _ => false,
    }
}

/// Whether a device with these ids is a Carlinkit dongle (both ids known and matching).
pub fn is_carlinkit_dongle(vid: Option<u16>, pid: Option<u16>) -> (b: bool)
    ensures
        b == carlinkit_spec(vid, pid),
{
    match (vid, pid) {
        (Some(v), Some(p)) => v == CARLINKIT_VID && (p == CARLINKIT_PID_A || p == CARLINKIT_PID_B),
        _ => false,
    }
}

} // verus!
