//! Android Open Accessory (AOAP) handshake: the accessory-mode device ids, the identification
//! strings, and the control-transfer sequence that switches a stock phone into accessory mode.
//!
//! The transfers themselves are USB I/O and are made by the caller; `AoapHandshake` decides
//! which request comes next and what each reply means.

use vstd::prelude::*;
use vstd::string::StringSliceAdditionalSpecFns;
use nusb::transfer::TransferError;

verus! {

pub const GOOGLE_VID: u16 = 0x18d1;

/// Lowest and highest accessory-mode product id (accessory, +ADB, audio, +ADB, both, +ADB).
pub const ACCESSORY_PID_FIRST: u16 = 0x2d00;

pub const ACCESSORY_PID_LAST: u16 = 0x2d05;

pub const REQ_GET_PROTOCOL: u8 = 51;

pub const REQ_SEND_STRING: u8 = 52;

pub const REQ_START: u8 = 53;

pub const STRING_MANUFACTURER: u16 = 0;

pub const STRING_MODEL: u16 = 1;

pub const STRING_DESCRIPTION: u16 = 2;

pub const STRING_VERSION: u16 = 3;

pub const STRING_URI: u16 = 4;

pub const STRING_SERIAL: u16 = 5;

/// Android matches manufacturer and model against its accessory filters to decide whether to
/// launch Android Auto; the other strings only show in the connection dialog.
pub const AOAP_MANUFACTURER: &'static str = "Android";

pub const AOAP_MODEL: &'static str = "Android Auto";

pub const AOAP_DESCRIPTION: &'static str = "avio Wired Android Auto host";

pub const AOAP_VERSION: &'static str = "1.0.0";

pub const AOAP_URI: &'static str = "";

pub const AOAP_SERIAL: &'static str = "avio-0001";

/// Loopback address the USB bridge listens on for the session to dial.
pub const AOAP_LOOPBACK_HOST: &'static str = "127.0.0.1";

pub const AOAP_LOOPBACK_PORT: u16 = 5278;

pub const AOAP_RE_ENUMERATE_TIMEOUT_MS: u64 = 5000;

pub const TRANSFER_TIMEOUT_MS: u64 = 2000;

/// Number of identification strings sent before `START`.
pub const IDENTIFICATION_COUNT: u8 = 6;

#[verifier::external_type_specification]
#[verifier::external_body]
pub struct ExTransferError(TransferError);

pub open spec fn is_accessory_pid(pid: u16) -> bool {
    ACCESSORY_PID_FIRST <= pid <= ACCESSORY_PID_LAST
}

/// The six accessory-mode product ids, in the order the protocol numbers them.
pub fn accessory_pids() -> (v: Vec<u16>)
    ensures
        v@ == seq![0x2d00u16, 0x2d01u16, 0x2d02u16, 0x2d03u16, 0x2d04u16, 0x2d05u16],
        forall|p: u16| #[trigger] v@.contains(p) <==> is_accessory_pid(p),
{
    let v = vec![0x2d00u16, 0x2d01, 0x2d02, 0x2d03, 0x2d04, 0x2d05];
    assert forall|p: u16| #[trigger] v@.contains(p) <==> is_accessory_pid(p) by {
        if is_accessory_pid(p) {
            assert(v@[p - 0x2d00] == p);
        }
    }
    v
}

/// Whether a device with these ids has already re-enumerated in accessory mode.
pub fn is_accessory_mode(vendor_id: u16, product_id: u16) -> (b: bool)
    ensures
        b == (vendor_id == GOOGLE_VID && is_accessory_pid(product_id)),
{
    vendor_id == GOOGLE_VID && ACCESSORY_PID_FIRST <= product_id && product_id
        <= ACCESSORY_PID_LAST
}

#[derive(Debug)]
pub enum HandshakeError {
    NoClaimableInterface,
    Transfer(TransferError),
    ProtocolTooOld(u16),
    ShortProtocolReply,
}

/// The string index and text of identification string `i` (`0 <= i < 6`).
pub open spec fn identification_spec(i: int) -> (u16, &'static str) {
    if i == 0 {
        (STRING_MANUFACTURER, AOAP_MANUFACTURER)
    } else if i == 1 {
        (STRING_MODEL, AOAP_MODEL)
    } else if i == 2 {
        (STRING_DESCRIPTION, AOAP_DESCRIPTION)
    } else if i == 3 {
        (STRING_VERSION, AOAP_VERSION)
    } else if i == 4 {
        (STRING_URI, AOAP_URI)
    } else {
        (STRING_SERIAL, AOAP_SERIAL)
    }
}

pub fn identification(i: u8) -> (r: (u16, &'static str))
    requires
        i < IDENTIFICATION_COUNT,
    ensures
        r == identification_spec(i as int),
{
    if i == 0 {
        (STRING_MANUFACTURER, AOAP_MANUFACTURER)
    } else if i == 1 {
        (STRING_MODEL, AOAP_MODEL)
    } else if i == 2 {
        (STRING_DESCRIPTION, AOAP_DESCRIPTION)
    } else if i == 3 {
        (STRING_VERSION, AOAP_VERSION)
    } else if i == 4 {
        (STRING_URI, AOAP_URI)
    } else {
        (STRING_SERIAL, AOAP_SERIAL)
    }
}

/// A `SEND_STRING` payload: the string's UTF-8 bytes and a terminating NUL.
pub fn string_payload(value: &str) -> (data: Vec<u8>)
    ensures
        data@ == value.spec_bytes().push(0u8),
{
    let mut data = vstd::slice::slice_to_vec(value.as_bytes());
    data.push(0);
    data
}

/// The protocol version in a `GET_PROTOCOL` reply (little-endian, first two bytes).
pub fn protocol_version(reply: &[u8]) -> (r: Result<u16, HandshakeError>)
    ensures
        reply@.len() < 2 ==> r matches Err(HandshakeError::ShortProtocolReply),
        reply@.len() >= 2 ==> r == Ok::<u16, HandshakeError>(
            (reply@[0] as int + 256 * reply@[1] as int) as u16,
        ),
{
    if reply.len() < 2 {
        return Err(HandshakeError::ShortProtocolReply);
    }
    let lo = reply[0] as u16;
    let hi = reply[1] as u16;
    Ok(lo + 256 * hi)
}

/// One vendor control transfer of the handshake.
#[derive(Debug)]
pub enum ControlRequest {
    /// `GET_PROTOCOL`: control-in, two bytes expected.
    GetProtocol,
    /// `SEND_STRING` with the string index and its NUL-terminated payload.
    SendString { index: u16, data: Vec<u8> },
    /// `START`: control-out without data.
    Start,
}

/// The request issued at a stage of the handshake: the protocol query, then the six
/// identification strings in order, then `START`; nothing once the handshake is done.
pub open spec fn request_matches(stage: u8, r: Option<ControlRequest>) -> bool {
    if stage == 0 {
        r matches Some(ControlRequest::GetProtocol)
    } else if 1 <= stage <= 6 {
        r matches Some(ControlRequest::SendString { index, data }) && index
            == identification_spec(stage - 1).0 && data@ == identification_spec(
            stage - 1,
        ).1.spec_bytes().push(0u8)
    } else if stage == 7 {
        r matches Some(ControlRequest::Start)
    } else {
        r is None
    }
}

/// Progress of an AOAP handshake on a claimed interface. `stage` counts the transfers that
/// completed: 0 before the protocol query, 1..=6 while identification strings go out, 7 before
/// `START`, 8 once the phone was told to switch.
pub struct AoapHandshake {
    pub stage: u8,
}

impl AoapHandshake {
    pub open spec fn wf(&self) -> bool {
        self.stage <= 8
    }

    pub fn new() -> (h: Self)
        ensures
            h.stage == 0,
            h.wf(),
    {
        AoapHandshake { stage: 0 }
    }

    pub fn is_done(&self) -> (b: bool)
        ensures
            b == (self.stage == 8),
    {
        self.stage == 8
    }

    /// The control transfer to make next, or `None` when the handshake is complete.
    pub fn next_request(&self) -> (r: Option<ControlRequest>)
        requires
            self.wf(),
        ensures
            request_matches(self.stage, r),
    {
        if self.stage == 0 {
            Some(ControlRequest::GetProtocol)
        } else if self.stage <= 6 {
            let (index, text) = identification(self.stage - 1);
            Some(ControlRequest::SendString { index, data: string_payload(text) })
        } else if self.stage == 7 {
            Some(ControlRequest::Start)
        } else {
            None
        }
    }

    /// The `GET_PROTOCOL` transfer finished. Version 1 or later moves on to the identification
    /// strings; a failed transfer, a short reply or version 0 ends the handshake with an error.
    pub fn on_protocol_reply(&mut self, reply: Result<Vec<u8>, TransferError>) -> (r: Result<
        (),
        HandshakeError,
    >)
        requires
            old(self).stage == 0,
        ensures
            match reply {
                Err(e) => r matches Err(HandshakeError::Transfer(x)) && x == e,
                Ok(data) => if data@.len() < 2 {
                    r matches Err(HandshakeError::ShortProtocolReply)
                } else if (data@[0] as int + 256 * (data@[1] as int)) < 1 {
                    r matches Err(HandshakeError::ProtocolTooOld(v)) && v == 0
                } else {
                    r is Ok
                },
            },
            r is Ok ==> final(self).stage == 1,
            r is Err ==> final(self).stage == 0,
            final(self).wf(),
    {
        match reply {
            Err(e) => Err(HandshakeError::Transfer(e)),
            Ok(data) => {
                match protocol_version(data.as_slice()) {
                    Err(e) => Err(e),
                    Ok(proto) => {
                        if proto < 1 {
                            Err(HandshakeError::ProtocolTooOld(proto))
                        } else {
                            self.stage = 1;
                            Ok(())
                        }
                    },
                }
            },
        }
    }

    /// A `SEND_STRING` or `START` transfer finished: success moves to the next request, a
    /// failed transfer ends the handshake with that error.
    pub fn on_transfer_done(&mut self, result: Result<(), TransferError>) -> (r: Result<
        (),
        HandshakeError,
    >)
        requires
            1 <= old(self).stage <= 7,
        ensures
            match result {
                Err(e) => r matches Err(HandshakeError::Transfer(x)) && x == e && final(self).stage
                    == old(self).stage,
                Ok(()) => r is Ok && final(self).stage == old(self).stage + 1,
            },
            final(self).wf(),
    {
        match result {
            Err(e) => Err(HandshakeError::Transfer(e)),
            Ok(()) => {
                self.stage = self.stage + 1;
                Ok(())
            },
        }
    }
}

} // verus!
