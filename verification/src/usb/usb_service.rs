//! USB hotplug decisions: which attached device is a phone to project, when a detach ends the
//! projection, and what the front end hears about devices. The hotplug watcher and the
//! projection driver live with the caller; this state machine takes each device as plain
//! values and answers with actions.

use vstd::prelude::*;
use vstd::slice::slice_to_vec;
use crate::projection::aoap::{is_accessory_mode, is_accessory_pid, GOOGLE_VID};
use crate::text::int_text;
use crate::usb::constants::{carlinkit_spec, is_carlinkit_dongle};

verus! {

/// After a phone attaches, further attaches are not treated as a new phone for this long: the
/// AOAP switch makes the same phone disconnect and re-enumerate under other ids.
pub const PHONE_REENUM_SUPRESS_MS: u32 = 2500;

/// An attached USB device as the hotplug watcher describes it. `id` is the watcher's id for
/// the attachment, unique among attached devices.
pub struct UsbDeviceInfo {
    pub id: u64,
    pub vendor_id: u16,
    pub product_id: u16,
    /// Device class from the device descriptor.
    pub class: u8,
    /// Class of each interface.
    pub interface_classes: Vec<u8>,
    pub product_string: Option<String>,
}

pub struct UsbDeviceView {
    pub id: u64,
    pub vendor_id: u16,
    pub product_id: u16,
    pub class: u8,
    pub interface_classes: Seq<u8>,
    pub product_string: Option<Seq<char>>,
}

impl View for UsbDeviceInfo {
    type V = UsbDeviceView;

    open spec fn view(&self) -> UsbDeviceView {
        UsbDeviceView {
            id: self.id,
            vendor_id: self.vendor_id,
            product_id: self.product_id,
            class: self.class,
            interface_classes: self.interface_classes@,
            product_string: match self.product_string {
                Some(s) => Some(s@),
                None => None,
            },
        }
    }
}

impl UsbDeviceInfo {
    pub fn duplicate(&self) -> (r: Self)
        ensures
            r@ == self@,
    {
        UsbDeviceInfo {
            id: self.id,
            vendor_id: self.vendor_id,
            product_id: self.product_id,
            class: self.class,
            interface_classes: slice_to_vec(self.interface_classes.as_slice()),
            product_string: match &self.product_string {
                Some(s) => Some(s.clone()),
                None => None,
            },
        }
    }
}

/// Interface classes no phone exposes on its own: audio, communications, HID, printer, mass
/// storage, hub, CDC data, smart card, video, wireless.
pub open spec fn non_phone_class(c: u8) -> bool {
    c == 0x01 || c == 0x02 || c == 0x03 || c == 0x07 || c == 0x08 || c == 0x09 || c == 0x0a
        || c == 0x0b || c == 0x0e || c == 0xe0
}

pub open spec fn only_non_phone_interfaces(d: UsbDeviceView) -> bool {
    forall|i: int|
        0 <= i < d.interface_classes.len() ==> non_phone_class(#[trigger] d.interface_classes[i])
}

pub open spec fn is_dongle_spec(d: UsbDeviceView) -> bool {
    carlinkit_spec(Some(d.vendor_id), Some(d.product_id))
}

/// A device that may be a phone: not the dongle, a per-interface (0) or vendor-specific (0xff)
/// device class, some interface of a class a phone has, and (where the udev template's vendor
/// list is in use) a listed vendor.
pub open spec fn phone_candidate_spec(d: UsbDeviceView, vendors: Option<Seq<u16>>) -> bool {
    &&& !is_dongle_spec(d)
    &&& d.class == 0x00 || d.class == 0xff
    &&& !only_non_phone_interfaces(d)
    &&& match vendors {
        Some(v) => v.contains(d.vendor_id),
        None => true,
    }
}

pub open spec fn is_accessory_spec(d: UsbDeviceView) -> bool {
    d.vendor_id == GOOGLE_VID && is_accessory_pid(d.product_id)
}

/// The end of the re-enumeration window that starts at `now_ms` (milliseconds, wrapping).
pub open spec fn suppress_until(now_ms: u32) -> u32 {
    ((now_ms as int + PHONE_REENUM_SUPRESS_MS as int) % 0x1_0000_0000) as u32
}

/// A device whose interfaces all belong to audio, communications (CDC control), HID, printer,
/// mass storage, hub, CDC data, smart card, video or wireless-controller classes (0x01, 0x02,
/// 0x03, 0x07, 0x08, 0x09, 0x0a, 0x0b, 0x0e, 0xe0) is never taken for a phone, whatever vendor
/// list is in use; a device with a per-interface or vendor-specific class that is not the
/// dongle and has any interface of another class is one when no vendor list is in use.
pub proof fn lemma_phone_candidate_by_interfaces(d: UsbDeviceView, vendors: Option<Seq<u16>>)
    ensures
        (forall|i: int|
            0 <= i < d.interface_classes.len() ==> seq![
                0x01u8, 0x02u8, 0x03u8, 0x07u8, 0x08u8, 0x09u8, 0x0au8, 0x0bu8, 0x0eu8, 0xe0u8,
            ].contains(#[trigger] d.interface_classes[i])) ==> !phone_candidate_spec(d, vendors),
        (!is_dongle_spec(d) && (d.class == 0x00 || d.class == 0xff) && exists|i: int|
            0 <= i < d.interface_classes.len() && !seq![
                0x01u8, 0x02u8, 0x03u8, 0x07u8, 0x08u8, 0x09u8, 0x0au8, 0x0bu8, 0x0eu8, 0xe0u8,
            ].contains(#[trigger] d.interface_classes[i])) ==> phone_candidate_spec(d, None),
{
    let listed = seq![
        0x01u8, 0x02u8, 0x03u8, 0x07u8, 0x08u8, 0x09u8, 0x0au8, 0x0bu8, 0x0eu8, 0xe0u8,
    ];
    assert forall|c: u8| listed.contains(c) <==> non_phone_class(c) by {
        if non_phone_class(c) {
            if c == 0x01 { assert(listed[0] == c); }
            else if c == 0x02 { assert(listed[1] == c); }
            else if c == 0x03 { assert(listed[2] == c); }
            else if c == 0x07 { assert(listed[3] == c); }
            else if c == 0x08 { assert(listed[4] == c); }
            else if c == 0x09 { assert(listed[5] == c); }
            else if c == 0x0a { assert(listed[6] == c); }
            else if c == 0x0b { assert(listed[7] == c); }
            else if c == 0x0e { assert(listed[8] == c); }
            else { assert(listed[9] == c); }
        }
    }
}

pub fn is_non_phone_class(c: u8) -> (b: bool)
    ensures
        b == non_phone_class(c),
{
    c == 0x01 || c == 0x02 || c == 0x03 || c == 0x07 || c == 0x08 || c == 0x09 || c == 0x0a
        || c == 0x0b || c == 0x0e || c == 0xe0
}

pub fn has_only_non_phone_interfaces(device: &UsbDeviceInfo) -> (b: bool)
    ensures
        b == only_non_phone_interfaces(device@),
{
    let mut i: usize = 0;
    while i < device.interface_classes.len()
        invariant
            i <= device.interface_classes@.len(),
            forall|j: int| 0 <= j < i ==> non_phone_class(#[trigger] device.interface_classes@[j]),
        decreases device.interface_classes@.len() - i,
    {
        if !is_non_phone_class(device.interface_classes[i]) {
            assert(device@.interface_classes[i as int] == device.interface_classes@[i as int]);
            return false;
        }
        i = i + 1;
    }
    true
}

pub fn is_dongle(device: &UsbDeviceInfo) -> (b: bool)
    ensures
        b == is_dongle_spec(device@),
{
    is_carlinkit_dongle(Some(device.vendor_id), Some(device.product_id))
}

fn vendor_listed(vendors: &Vec<u16>, vendor_id: u16) -> (b: bool)
    ensures
        b == vendors@.contains(vendor_id),
{
    let mut i: usize = 0;
    while i < vendors.len()
        invariant
            i <= vendors@.len(),
            forall|j: int| 0 <= j < i ==> vendors@[j] != vendor_id,
        decreases vendors@.len() - i,
    {
        if vendors[i] == vendor_id {
            assert(vendors@[i as int] == vendor_id);
            return true;
        }
        i = i + 1;
    }
    false
}

/// Whether an attached device may be the phone. `vendors` is the phone vendor list from the
/// udev template where it applies (Linux, template readable), `None` otherwise.
pub fn is_phone_candidate(device: &UsbDeviceInfo, vendors: Option<&Vec<u16>>) -> (b: bool)
    ensures
        b == phone_candidate_spec(
            device@,
            match vendors {
                Some(v) => Some(v@),
                None => None,
            },
        ),
{
    if is_dongle(device) {
        return false;
    }
    if device.class != 0x00 && device.class != 0xff {
        return false;
    }
    if has_only_non_phone_interfaces(device) {
        return false;
    }
    match vendors {
        Some(v) => vendor_listed(v, device.vendor_id),
        None => true,
    }
}

fn suppress_until_exec(now_ms: u32) -> (r: u32)
    ensures
        r == suppress_until(now_ms),
{
    if now_ms <= 4294964795 {
        now_ms + PHONE_REENUM_SUPRESS_MS
    } else {
        now_ms - 4294964796
    }
}

/// Firmware version of the dongle from its BCD device version: `major.minor` with the minor
/// part as two decimal digits of the low byte, or "Unknown" for version 0.
pub open spec fn fw_version_spec(device_version: u16) -> Seq<char> {
    if device_version == 0 {
        "Unknown"@
    } else {
        let major = device_version / 256;
        let low = device_version % 256;
        crate::text::decimal(major as int) + "."@ + if low < 10 {
            "0"@ + crate::text::decimal(low as int)
        } else {
            crate::text::decimal(low as int)
        }
    }
}

pub fn dongle_fw_version(device_version: u16) -> (s: String)
    ensures
        s@ == fw_version_spec(device_version),
{
    if device_version == 0 {
        return String::from_str("Unknown");
    }
    let major = int_text((device_version / 256) as i32);
    let low_byte = device_version % 256;
    let mut s = major;
    s.append(".");
    if low_byte < 10 {
        s.append("0");
    }
    let low = int_text(low_byte as i32);
    s.append(low.as_str());
    proof {
        reveal_strlit(".");
        reveal_strlit("0");
    }
    s
}

/// What the service asks its owner to do.
pub enum UsbAction {
    /// Start wired projection on this phone.
    ConnectWired(UsbDeviceInfo),
    /// Tell the front end that a device (not the dongle) attached ("attach") or detached
    /// ("detach").
    Broadcast { event_type: &'static str, device: UsbDeviceInfo },
}

pub enum UsbActionView {
    ConnectWired(UsbDeviceView),
    Broadcast { event_type: Seq<char>, device: UsbDeviceView },
}

impl View for UsbAction {
    type V = UsbActionView;

    open spec fn view(&self) -> UsbActionView {
        match self {
            UsbAction::ConnectWired(d) => UsbActionView::ConnectWired(d@),
            UsbAction::Broadcast { event_type, device } => UsbActionView::Broadcast {
                event_type: event_type@,
                device: device@,
            },
        }
    }
}

pub open spec fn actions_of(v: Seq<UsbAction>) -> Seq<UsbActionView> {
    v.map_values(|a: UsbAction| a@)
}

pub struct UsbServiceView {
    pub last_dongle_state: bool,
    pub last_phone_state: bool,
    pub phone_suspend_until: u32,
    pub connected_phone: Option<UsbDeviceView>,
    pub stopped: bool,
    pub reset_in_progress: bool,
    pub shutdown_in_progress: bool,
    pub known: Seq<UsbDeviceView>,
}

pub open spec fn ids_unique(s: Seq<UsbDeviceView>) -> bool {
    forall|i: int, j: int| 0 <= i < j < s.len() ==> s[i].id != s[j].id
}

pub open spec fn has_id(s: Seq<UsbDeviceView>, id: u64) -> bool {
    exists|i: int| 0 <= i < s.len() && s[i].id == id
}

/// `s` with `d` recorded: replacing the entry with the same id, else appended.
pub open spec fn upsert(s: Seq<UsbDeviceView>, d: UsbDeviceView) -> Seq<UsbDeviceView> {
    if has_id(s, d.id) {
        s.update(choose|i: int| 0 <= i < s.len() && s[i].id == d.id, d)
    } else {
        s.push(d)
    }
}

/// The service once a phone counts as attached at `now_ms`.
pub open spec fn attached(s: UsbServiceView, d: UsbDeviceView, now_ms: u32) -> UsbServiceView {
    UsbServiceView {
        last_phone_state: true,
        phone_suspend_until: suppress_until(now_ms),
        connected_phone: Some(d),
        ..s
    }
}

pub open spec fn busy(s: UsbServiceView) -> bool {
    s.stopped || s.reset_in_progress || s.shutdown_in_progress
}

pub open spec fn same_phone(s: UsbServiceView, d: UsbDeviceView) -> bool {
    match s.connected_phone {
        Some(c) => c.vendor_id == d.vendor_id && c.product_id == d.product_id,
        None => false,
    }
}

/// A device attached at `now_ms`.
pub open spec fn connect_spec(
    s: UsbServiceView,
    d: UsbDeviceView,
    now_ms: u32,
    vendors: Option<Seq<u16>>,
) -> (UsbServiceView, Seq<UsbActionView>) {
    if busy(s) {
        (s, Seq::empty())
    } else {
        let s1 = UsbServiceView { known: upsert(s.known, d), ..s };
        if is_dongle_spec(d) {
            (s1, Seq::empty())
        } else if !s.last_phone_state && !(now_ms < s.phone_suspend_until)
            && phone_candidate_spec(d, vendors) {
            (
                attached(s1, d, now_ms),
                seq![
                    UsbActionView::ConnectWired(d),
                    UsbActionView::Broadcast { event_type: "attach"@, device: d },
                ],
            )
        } else {
            (s1, seq![UsbActionView::Broadcast { event_type: "attach"@, device: d }])
        }
    }
}

/// The device with this id detached.
pub open spec fn disconnect_spec(s: UsbServiceView, id: u64) -> (UsbServiceView, Seq<UsbActionView>) {
    if busy(s) || !has_id(s.known, id) {
        (s, Seq::empty())
    } else {
        let i = choose|i: int| 0 <= i < s.known.len() && s.known[i].id == id;
        let d = s.known[i];
        let s1 = UsbServiceView { known: s.known.remove(i), ..s };
        if is_dongle_spec(d) {
            (s1, Seq::empty())
        } else if same_phone(s, d) {
            (
                UsbServiceView { last_phone_state: false, connected_phone: None, ..s1 },
                seq![UsbActionView::Broadcast { event_type: "detach"@, device: d }],
            )
        } else {
            (s1, seq![UsbActionView::Broadcast { event_type: "detach"@, device: d }])
        }
    }
}

/// The first device in accessory mode.
pub open spec fn first_accessory(s: Seq<UsbDeviceView>) -> Option<UsbDeviceView>
    decreases s.len(),
{
    if s.len() == 0 {
        None
    } else {
        match first_accessory(s.drop_last()) {
            Some(d) => Some(d),
            None => if is_accessory_spec(s.last()) {
                Some(s.last())
            } else {
                None
            },
        }
    }
}

/// The first device that may be the phone.
pub open spec fn first_candidate(s: Seq<UsbDeviceView>, vendors: Option<Seq<u16>>) -> Option<
    UsbDeviceView,
>
    decreases s.len(),
{
    if s.len() == 0 {
        None
    } else {
        match first_candidate(s.drop_last(), vendors) {
            Some(d) => Some(d),
            None => if phone_candidate_spec(s.last(), vendors) {
                Some(s.last())
            } else {
                None
            },
        }
    }
}

/// Looking for a phone that was attached before the watcher started: a device already in
/// accessory mode is taken, and then the first phone candidate is taken as well.
pub open spec fn scan_spec(
    s: UsbServiceView,
    devices: Seq<UsbDeviceView>,
    now_ms: u32,
    vendors: Option<Seq<u16>>,
) -> (UsbServiceView, Seq<UsbActionView>) {
    if s.stopped || s.last_phone_state {
        (s, Seq::empty())
    } else {
        let (s1, a1) = match first_accessory(devices) {
            Some(d) => (attached(s, d, now_ms), seq![UsbActionView::ConnectWired(d)]),
            None => (s, Seq::empty()),
        };
        match first_candidate(devices, vendors) {
            Some(d) => (attached(s1, d, now_ms), a1.push(UsbActionView::ConnectWired(d))),
            None => (s1, a1),
        }
    }
}

pub open spec fn starts_projection(a: Seq<UsbActionView>) -> bool {
    exists|k: int| 0 <= k < a.len() && a[k] is ConnectWired
}

/// While a phone is attached, no other attach starts a second projection.
pub proof fn lemma_one_projection_at_a_time(
    s: UsbServiceView,
    d: UsbDeviceView,
    now_ms: u32,
    vendors: Option<Seq<u16>>,
)
    requires
        s.last_phone_state,
    ensures
        !starts_projection(connect_spec(s, d, now_ms, vendors).1),
{
}

/// When an attach starts a projection while none ran, the phone's own re-enumeration (detach,
/// then attach under other ids) inside the window that this attach opened does not start a
/// second projection, even though the detach ended the first attachment.
pub proof fn lemma_reenumeration_is_not_a_new_phone(
    s: UsbServiceView,
    d: UsbDeviceView,
    d2: UsbDeviceView,
    now_ms: u32,
    later_ms: u32,
    vendors: Option<Seq<u16>>,
)
    requires
        !s.last_phone_state,
        connect_spec(s, d, now_ms, vendors).0.last_phone_state,
        later_ms < suppress_until(now_ms),
    ensures
        ({
            let s1 = connect_spec(s, d, now_ms, vendors).0;
            let s2 = disconnect_spec(s1, d.id).0;
            !starts_projection(connect_spec(s2, d2, later_ms, vendors).1)
        }),
{
    let s1 = connect_spec(s, d, now_ms, vendors).0;
    let s2 = disconnect_spec(s1, d.id).0;
    assert(s1.phone_suspend_until == suppress_until(now_ms));
    assert(s2.phone_suspend_until == s1.phone_suspend_until);
    assert(!busy(s2));
}

/// What the service knows of attached USB devices and the phone it projects.
pub struct UsbService {
    pub last_dongle_state: bool,
    pub last_phone_state: bool,
    pub phone_suspend_until: u32,
    pub connected_phone: Option<UsbDeviceInfo>,
    pub stopped: bool,
    pub reset_in_progress: bool,
    pub shutdown_in_progress: bool,
    /// Attached devices, each id once.
    pub known: Vec<UsbDeviceInfo>,
}

impl View for UsbService {
    type V = UsbServiceView;

    open spec fn view(&self) -> UsbServiceView {
        UsbServiceView {
            last_dongle_state: self.last_dongle_state,
            last_phone_state: self.last_phone_state,
            phone_suspend_until: self.phone_suspend_until,
            connected_phone: match self.connected_phone {
                Some(d) => Some(d@),
                None => None,
            },
            stopped: self.stopped,
            reset_in_progress: self.reset_in_progress,
            shutdown_in_progress: self.shutdown_in_progress,
            known: self.known@.map_values(|d: UsbDeviceInfo| d@),
        }
    }
}

proof fn lemma_push_action(v: Seq<UsbAction>, a: UsbAction)
    ensures
        actions_of(v.push(a)) == actions_of(v).push(a@),
{
    assert(actions_of(v.push(a)) =~= actions_of(v).push(a@));
}

impl UsbService {
    pub open spec fn wf(&self) -> bool {
        ids_unique(self@.known)
    }

    pub fn new() -> (s: Self)
        ensures
            s.wf(),
            s@ == (UsbServiceView {
                last_dongle_state: false,
                last_phone_state: false,
                phone_suspend_until: 0,
                connected_phone: None,
                stopped: false,
                reset_in_progress: false,
                shutdown_in_progress: false,
                known: Seq::empty(),
            }),
    {
        let s = UsbService {
            last_dongle_state: false,
            last_phone_state: false,
            phone_suspend_until: 0,
            connected_phone: None,
            stopped: false,
            reset_in_progress: false,
            shutdown_in_progress: false,
            known: Vec::new(),
        };
        assert(s@.known =~= Seq::<UsbDeviceView>::empty());
        s
    }

    /// Whether an attach now falls in the window after a phone attached.
    pub fn is_phone_suspend_window(&self, now_ms: u32) -> (b: bool)
        ensures
            b == (now_ms < self.phone_suspend_until),
    {
        now_ms < self.phone_suspend_until
    }

    /// Whether a device has the vendor and product id of the phone being projected.
    pub fn is_same_phone_device(&self, device: &UsbDeviceInfo) -> (b: bool)
        ensures
            b == same_phone(self@, device@),
    {
        match &self.connected_phone {
            Some(c) => c.vendor_id == device.vendor_id && c.product_id == device.product_id,
            None => false,
        }
    }

    fn find_known(&self, id: u64) -> (r: Option<usize>)
        requires
            self.wf(),
        ensures
            match r {
                Some(i) => i < self@.known.len() && self@.known[i as int].id == id,
                None => !has_id(self@.known, id),
            },
    {
        let mut i: usize = 0;
        while i < self.known.len()
            invariant
                i <= self.known@.len(),
                forall|j: int| 0 <= j < i ==> (#[trigger] self.known@[j]).id != id,
            decreases self.known@.len() - i,
        {
            if self.known[i].id == id {
                return Some(i);
            }
            i = i + 1;
        }
        assert forall|j: int| 0 <= j < self@.known.len() implies self@.known[j].id != id by {
            assert(self@.known[j] == self.known@[j]@);
        }
        None
    }

    fn remember(&mut self, device: UsbDeviceInfo)
        requires
            old(self).wf(),
        ensures
            final(self).wf(),
            final(self)@ == (UsbServiceView { known: upsert(old(self)@.known, device@), ..old(self)@ }),
    {
        let ghost d = device@;
        let ghost k = self@.known;
        match self.find_known(device.id) {
            Some(i) => {
                self.known.set(i, device);
                proof {
                    let c = choose|j: int| 0 <= j < k.len() && k[j].id == d.id;
                    assert(c == i as int);
                    assert(self@.known =~= k.update(i as int, d));
                }
            },
            None => {
                self.known.push(device);
                assert(self@.known =~= k.push(d));
            },
        }
    }

    fn attach(&mut self, device: &UsbDeviceInfo, now_ms: u32, actions: &mut Vec<UsbAction>)
        requires
            old(self).wf(),
        ensures
            final(self).wf(),
            final(self)@ == attached(old(self)@, device@, now_ms),
            actions_of(final(actions)@) == actions_of(old(actions)@).push(
                UsbActionView::ConnectWired(device@),
            ),
    {
        self.last_phone_state = true;
        self.phone_suspend_until = suppress_until_exec(now_ms);
        self.connected_phone = Some(device.duplicate());
        let a = UsbAction::ConnectWired(device.duplicate());
        proof {
            lemma_push_action(actions@, a);
        }
        actions.push(a);
    }

    /// A device attached at `now_ms`; `vendors` as for `is_phone_candidate`.
    pub fn on_connect(&mut self, device: UsbDeviceInfo, now_ms: u32, vendors: Option<&Vec<u16>>) -> (actions: Vec<UsbAction>)
        requires
            old(self).wf(),
        ensures
            final(self).wf(),
            (final(self)@, actions_of(actions@)) == connect_spec(
                old(self)@,
                device@,
                now_ms,
                match vendors {
                    Some(v) => Some(v@),
                    None => None,
                },
            ),
    {
        let mut actions: Vec<UsbAction> = Vec::new();
        if self.stopped || self.reset_in_progress || self.shutdown_in_progress {
            assert(actions_of(actions@) =~= Seq::<UsbActionView>::empty());
            return actions;
        }
        let dongle = is_dongle(&device);
        let copy = device.duplicate();
        self.remember(device);
        if dongle {
            assert(actions_of(actions@) =~= Seq::<UsbActionView>::empty());
            return actions;
        }
        if !self.last_phone_state && !self.is_phone_suspend_window(now_ms)
            && is_phone_candidate(&copy, vendors) {
            self.attach(&copy, now_ms, &mut actions);
        }
        let a = UsbAction::Broadcast { event_type: "attach", device: copy };
        proof {
            lemma_push_action(actions@, a);
        }
        actions.push(a);
        actions
    }

    /// The device with this id detached.
    pub fn on_disconnect(&mut self, id: u64) -> (actions: Vec<UsbAction>)
        requires
            old(self).wf(),
        ensures
            final(self).wf(),
            (final(self)@, actions_of(actions@)) == disconnect_spec(old(self)@, id),
    {
        let mut actions: Vec<UsbAction> = Vec::new();
        if self.stopped || self.reset_in_progress || self.shutdown_in_progress {
            assert(actions_of(actions@) =~= Seq::<UsbActionView>::empty());
            return actions;
        }
        let ghost k = self@.known;
        let ghost s0 = self@;
        let i = match self.find_known(id) {
            Some(i) => i,
            None => {
                assert(actions_of(actions@) =~= Seq::<UsbActionView>::empty());
                return actions;
            },
        };
        proof {
            let c = choose|j: int| 0 <= j < k.len() && k[j].id == id;
            assert(c == i as int);
        }
        let device = self.known.remove(i);
        assert(self@.known =~= k.remove(i as int));
        assert(device@ == k[i as int]);
        if is_dongle(&device) {
            assert(actions_of(actions@) =~= Seq::<UsbActionView>::empty());
            return actions;
        }
        if self.is_same_phone_device(&device) {
            self.last_phone_state = false;
            self.connected_phone = None;
        }
        let a = UsbAction::Broadcast { event_type: "detach", device };
        proof {
            lemma_push_action(actions@, a);
        }
        actions.push(a);
        actions
    }

    /// No further device events are acted on while the application shuts down.
    pub fn begin_shutdown(&mut self)
        ensures
            final(self)@ == (UsbServiceView { shutdown_in_progress: true, ..old(self)@ }),
    {
        self.shutdown_in_progress = true;
    }

    /// Stops the service; true the first time, when the watcher must be told to end.
    pub fn stop(&mut self) -> (first: bool)
        ensures
            first == !old(self)@.stopped,
            final(self)@ == (UsbServiceView { stopped: true, ..old(self)@ }),
    {
        if self.stopped {
            return false;
        }
        self.stopped = true;
        true
    }

    /// Record the devices attached at start-up, note whether the dongle is among them, then
    /// look for a phone among `devices`.
    pub fn init(&mut self, devices: &Vec<UsbDeviceInfo>, now_ms: u32, vendors: Option<&Vec<u16>>) -> (actions: Vec<UsbAction>)
        requires
            old(self).wf(),
        ensures
            final(self).wf(),
            ({
                let dv = devices@.map_values(|d: UsbDeviceInfo| d@);
                let dongle = old(self)@.last_dongle_state || exists|i: int|
                    0 <= i < dv.len() && is_dongle_spec(#[trigger] dv[i]);
                let s1 = UsbServiceView {
                    known: final(self)@.known,
                    last_dongle_state: dongle,
                    ..old(self)@
                };
                (final(self)@, actions_of(actions@)) == scan_spec(
                    s1,
                    dv,
                    now_ms,
                    match vendors {
                        Some(v) => Some(v@),
                        None => None,
                    },
                )
            }),
    {
        let ghost dv = devices@.map_values(|d: UsbDeviceInfo| d@);
        let ghost old_dongle = self.last_dongle_state;
        let mut any_dongle = false;
        let mut i: usize = 0;
        while i < devices.len()
            invariant
                self.wf(),
                i <= devices@.len(),
                dv == devices@.map_values(|d: UsbDeviceInfo| d@),
                self.last_dongle_state == old_dongle,
                any_dongle == exists|j: int| 0 <= j < i && is_dongle_spec(#[trigger] dv[j]),
                self@.stopped == old(self)@.stopped,
                self@.last_phone_state == old(self)@.last_phone_state,
                self@.phone_suspend_until == old(self)@.phone_suspend_until,
                self@.connected_phone == old(self)@.connected_phone,
                self@.reset_in_progress == old(self)@.reset_in_progress,
                self@.shutdown_in_progress == old(self)@.shutdown_in_progress,
            decreases devices@.len() - i,
        {
            let d = devices[i].duplicate();
            if is_dongle(&d) {
                any_dongle = true;
                assert(is_dongle_spec(dv[i as int]));
            }
            self.remember(d);
            i = i + 1;
        }
        if any_dongle {
            self.last_dongle_state = true;
        }
        self.scan_for_existing_phone(devices, now_ms, vendors)
    }

    /// Look for a phone attached before the watcher started.
    pub fn scan_for_existing_phone(&mut self, devices: &Vec<UsbDeviceInfo>, now_ms: u32, vendors: Option<&Vec<u16>>) -> (actions: Vec<UsbAction>)
        requires
            old(self).wf(),
        ensures
            final(self).wf(),
            (final(self)@, actions_of(actions@)) == scan_spec(
                old(self)@,
                devices@.map_values(|d: UsbDeviceInfo| d@),
                now_ms,
                match vendors {
                    Some(v) => Some(v@),
                    None => None,
                },
            ),
    {
        let ghost dv = devices@.map_values(|d: UsbDeviceInfo| d@);
        let ghost vs = match vendors {
            Some(v) => Some(v@),
            None => None,
        };
        let mut actions: Vec<UsbAction> = Vec::new();
        if self.stopped || self.last_phone_state {
            assert(actions_of(actions@) =~= Seq::<UsbActionView>::empty());
            return actions;
        }
        let mut accessory: Option<usize> = None;
        let mut candidate: Option<usize> = None;
        let mut i: usize = 0;
        while i < devices.len()
            invariant
                i <= devices@.len(),
                dv == devices@.map_values(|d: UsbDeviceInfo| d@),
                vs == match vendors {
                    Some(v) => Some(v@),
                    None => None,
                },
                match accessory {
                    Some(k) => k < i && first_accessory(dv.subrange(0, i as int)) == Some(dv[k as int]),
                    None => first_accessory(dv.subrange(0, i as int)) is None,
                },
                match candidate {
                    Some(k) => k < i && first_candidate(dv.subrange(0, i as int), vs) == Some(dv[k as int]),
                    None => first_candidate(dv.subrange(0, i as int), vs) is None,
                },
            decreases devices@.len() - i,
        {
            assert(dv.subrange(0, i as int + 1).drop_last() =~= dv.subrange(0, i as int));
            assert(dv.subrange(0, i as int + 1).last() == dv[i as int]);
            assert(dv[i as int] == devices@[i as int]@);
            let d = &devices[i];
            if accessory.is_none() && is_accessory_mode(d.vendor_id, d.product_id) {
                accessory = Some(i);
            }
            let is_candidate = is_phone_candidate(d, vendors);
            assert(is_candidate == phone_candidate_spec(dv[i as int], vs));
            if candidate.is_none() && is_candidate {
                candidate = Some(i);
            }
            i = i + 1;
        }
        assert(dv.subrange(0, dv.len() as int) =~= dv);
        match accessory {
            Some(k) => {
                self.attach(&devices[k], now_ms, &mut actions);
            },
            None => {
                assert(actions_of(actions@) =~= Seq::<UsbActionView>::empty());
            },
        }
        match candidate {
            Some(k) => {
                self.attach(&devices[k], now_ms, &mut actions);
            },
            None => {},
        }
        actions
    }
}

} // verus!
