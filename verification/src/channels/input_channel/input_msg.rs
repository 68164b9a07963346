//! Input channel message ids.

use vstd::prelude::*;

verus! {

/// Touch, key and relative events (HU -> phone).
pub const INPUT_REPORT: u16 = 0x8001;

/// Key binding request (phone -> HU).
pub const KEY_BINDING_REQUEST: u16 = 0x8002;

/// Key binding response (HU -> phone).
pub const KEY_BINDING_RESPONSE: u16 = 0x8003;

/// Input feedback (not sent).
pub const INPUT_FEEDBACK: u16 = 0x8004;

} // verus!
