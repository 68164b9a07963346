//! Frame flags (byte 1 of the frame header).

use vstd::prelude::*;

verus! {

/// Version negotiation + SSL handshake.
pub const PLAINTEXT: u8 = 0x03;

/// Encrypted single-frame signaling.
pub const ENC_SIGNAL: u8 = 0x0b;

/// Encrypted channel-lifecycle messages.
pub const ENC_CONTROL: u8 = 0x0f;

/// Encrypted first fragment.
pub const ENC_FIRST_FRAG: u8 = 0x08;

/// Encrypted continuation/last fragment.
pub const ENC_CONT_FRAG: u8 = 0x0a;

} // verus!
