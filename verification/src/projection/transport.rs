//! Transport decisions: which USB interface carries the accessory byte stream, how a hotplug
//! event moves the wait for re-enumeration along, and the server/bridge types that the I/O
//! layer fills in.

use vstd::prelude::*;
use crate::projection::aoap::{is_accessory_mode, is_accessory_pid, GOOGLE_VID, HandshakeError};
use crate::session::config::SessionConfig;

verus! {

#[verifier::external_type_specification]
#[verifier::external_body]
pub struct ExUsbError(nusb::Error);

#[verifier::external_type_specification]
#[verifier::external_body]
pub struct ExIoError(std::io::Error);

/// Size of each bulk read or write the bridge queues.
pub const BULK_TRANSFER_SIZE: usize = 16384;

/// What the USB bridge reports to the driver that started it.
#[derive(Debug)]
pub enum BridgeEvent {
    Ready { host: String, port: u16 },
    Error(String),
    Closed,
}

#[derive(Debug)]
pub enum BridgeError {
    Handshake(HandshakeError),
    Usb(nusb::Error),
    Io(std::io::Error),
    ReenumerateTimeout,
    WatcherClosed,
    NoBulkEndpoints,
    AlreadyRunning,
}

/// One endpoint of an interface's first alternate setting, as the descriptors give it.
#[derive(Clone, Copy, Debug, PartialEq, Eq, Structural)]
pub struct EndpointDesc {
    pub address: u8,
    pub bulk: bool,
    pub direction_in: bool,
}

/// An interface of the active configuration: its number and the endpoints of its first
/// alternate setting, in descriptor order.
#[derive(Clone, Debug)]
pub struct InterfaceDesc {
    pub number: u8,
    pub endpoints: Vec<EndpointDesc>,
}

/// Address of the last bulk endpoint in the given direction (a later one replaces an earlier).
pub open spec fn last_bulk(eps: Seq<EndpointDesc>, direction_in: bool) -> Option<u8>
    decreases eps.len(),
{
    if eps.len() == 0 {
        None
    } else if eps.last().bulk && eps.last().direction_in == direction_in {
        Some(eps.last().address)
    } else {
        last_bulk(eps.drop_last(), direction_in)
    }
}

/// Whether an interface has both a bulk IN and a bulk OUT endpoint.
pub open spec fn carries_stream(ifc: InterfaceDesc) -> bool {
    last_bulk(ifc.endpoints@, true) is Some && last_bulk(ifc.endpoints@, false) is Some
}

/// (interface number, bulk IN address, bulk OUT address) of an interface that carries the
/// stream.
pub open spec fn stream_triple(ifc: InterfaceDesc) -> (u8, u8, u8) {
    (
        ifc.number,
        last_bulk(ifc.endpoints@, true).unwrap(),
        last_bulk(ifc.endpoints@, false).unwrap(),
    )
}

fn last_bulk_of(eps: &Vec<EndpointDesc>, direction_in: bool) -> (r: Option<u8>)
    ensures
        r == last_bulk(eps@, direction_in),
{
    let mut found: Option<u8> = None;
    let mut j: usize = 0;
    while j < eps.len()
        invariant
            j <= eps@.len(),
            found == last_bulk(eps@.subrange(0, j as int), direction_in),
        decreases eps@.len() - j,
    {
        let ep = eps[j];
        assert(eps@.subrange(0, j as int + 1).drop_last() =~= eps@.subrange(0, j as int));
        if ep.bulk && ep.direction_in == direction_in {
            found = Some(ep.address);
        }
        j = j + 1;
    }
    assert(eps@.subrange(0, eps@.len() as int) =~= eps@);
    found
}

/// The first interface, in descriptor order, with both a bulk IN and a bulk OUT endpoint:
/// its number and the two endpoint addresses. `NoBulkEndpoints` when no interface has both.
pub fn find_bulk_endpoints(interfaces: &Vec<InterfaceDesc>) -> (r: Result<(u8, u8, u8), BridgeError>)
    ensures
        match r {
            Ok(t) => exists|k: int|
                0 <= k < interfaces@.len() && carries_stream(#[trigger] interfaces@[k]) && (
                forall|j: int| 0 <= j < k ==> !carries_stream(#[trigger] interfaces@[j]))
                    && t == stream_triple(interfaces@[k]),
            Err(e) => e is NoBulkEndpoints && forall|k: int|
                0 <= k < interfaces@.len() ==> !carries_stream(#[trigger] interfaces@[k]),
        },
{
    let mut i: usize = 0;
    while i < interfaces.len()
        invariant
            i <= interfaces@.len(),
            forall|j: int| 0 <= j < i ==> !carries_stream(#[trigger] interfaces@[j]),
        decreases interfaces@.len() - i,
    {
        let group = &interfaces[i];
        let in_addr = last_bulk_of(&group.endpoints, true);
        let out_addr = last_bulk_of(&group.endpoints, false);
        match (in_addr, out_addr) {
            (Some(a), Some(b)) => {
                assert(carries_stream(interfaces@[i as int]));
                return Ok((group.number, a, b));
            },
            _ => {},
        }
        i = i + 1;
    }
    Err(BridgeError::NoBulkEndpoints)
}

/// The accessory interface lives in configuration 1: select it unless it is already active
/// (an unreadable active configuration counts as 0).
pub fn needs_set_configuration(active: Option<u8>) -> (b: bool)
    ensures
        b == (match active {
            Some(v) => v != 1,
            None => true,
        }),
{
    match active {
        Some(v) => v != 1,
        None => true,
    }
}

/// What happened while waiting for the phone to re-enumerate in accessory mode.
pub enum HotplugOutcome {
    /// A device attached with these ids.
    Connected { vendor_id: u16, product_id: u16 },
    /// Some other hotplug event (a detach).
    Other,
    /// The hotplug watcher's stream ended.
    WatcherEnded,
    /// The re-enumeration deadline passed.
    TimedOut,
}

pub enum AttachDecision {
    /// The attached device is the phone in accessory mode: open it.
    Accept,
    KeepWaiting,
    Fail(BridgeError),
}

/// Accept an attach in accessory mode, wait on for anything else, fail on a closed watcher or
/// an expired deadline.
pub fn attach_decision(event: HotplugOutcome) -> (d: AttachDecision)
    ensures
        match event {
            HotplugOutcome::Connected { vendor_id, product_id } => if vendor_id == GOOGLE_VID
                && is_accessory_pid(product_id) {
                d is Accept
            } else {
                d is KeepWaiting
            },
            HotplugOutcome::Other => d is KeepWaiting,
            HotplugOutcome::WatcherEnded => d matches AttachDecision::Fail(
                BridgeError::WatcherClosed,
            ),
            HotplugOutcome::TimedOut => d matches AttachDecision::Fail(
                BridgeError::ReenumerateTimeout,
            ),
        },
{
    match event {
        HotplugOutcome::Connected { vendor_id, product_id } => {
            if is_accessory_mode(vendor_id, product_id) {
                AttachDecision::Accept
            } else {
                AttachDecision::KeepWaiting
            }
        },
        HotplugOutcome::Other => AttachDecision::KeepWaiting,
        HotplugOutcome::WatcherEnded => AttachDecision::Fail(BridgeError::WatcherClosed),
        HotplugOutcome::TimedOut => AttachDecision::Fail(BridgeError::ReenumerateTimeout),
    }
}

/// The wireless transport: accepts phone connections and runs a session on each, all with
/// the same configuration.
pub struct TcpServer {
    pub cfg: SessionConfig,
}

impl TcpServer {
    pub fn new(cfg: SessionConfig) -> (s: Self)
        ensures
            s.cfg == cfg,
    {
        TcpServer { cfg }
    }
}

/// Bytes produced by feeding data into the TLS engine.
pub struct TlsFeedResult {
    /// Decrypted application data, if any completed records were ready.
    pub plaintext: Vec<u8>,
    /// New ciphertext (or handshake flight) the engine wants sent to the phone.
    pub outbound: Vec<u8>,
}

impl Default for TlsFeedResult {
    fn default() -> (r: Self)
        ensures
            r.plaintext@.len() == 0,
            r.outbound@.len() == 0,
    {
        TlsFeedResult { plaintext: Vec::new(), outbound: Vec::new() }
    }
}

} // verus!
