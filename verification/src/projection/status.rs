//! Status and dongle types shared with the front end.

use vstd::prelude::*;

verus! {

/// Payload of the projection status event: "connected", "host-ui" or "disconnected", and the
/// phone's name when known.
#[derive(Clone, Debug)]
pub struct AAStatus {
    pub status: String,
    pub device_name: Option<String>,
}

/// A USB endpoint of the Carlinkit dongle, known by its address.
#[derive(Clone, Copy, Debug, PartialEq, Eq, Structural)]
pub struct UsbEndpoint {
    pub address: u8,
}

/// Work modes the Carlinkit dongle can be switched to.
#[derive(Clone, Copy, Debug, PartialEq, Eq, Structural)]
pub enum AndroidWorkMode {
    Off,
    AndroidAuto,
    CarLife,
    AndroidMirror,
    Search,
}

impl AndroidWorkMode {
    /// The mode's number in the dongle's protocol.
    pub fn value(self) -> (v: u32)
        ensures
            v == match self {
                AndroidWorkMode::Off => 0u32,
                AndroidWorkMode::AndroidAuto => 1u32,
                AndroidWorkMode::CarLife => 2u32,
                AndroidWorkMode::AndroidMirror => 3u32,
                AndroidWorkMode::Search => 7u32,
            },
    {
        match self {
            AndroidWorkMode::Off => 0,
            AndroidWorkMode::AndroidAuto => 1,
            AndroidWorkMode::CarLife => 2,
            AndroidWorkMode::AndroidMirror => 3,
            AndroidWorkMode::Search => 7,
        }
    }
}

} // verus!
