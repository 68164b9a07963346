//! Sensor types.

use vstd::prelude::*;

verus! {

pub const DRIVING_STATUS: i32 = 13;

pub const NIGHT_DATA: i32 = 10;

pub const PARKING_BRAKE: i32 = 7;

pub const GPS_LOCATION: i32 = 1;

pub const CAR_SPEED: i32 = 3;

pub const RPM: i32 = 4;

} // verus!
