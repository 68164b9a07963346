//! Audio devices as `gst-device-monitor` lists them.

use vstd::prelude::*;
use crate::patterns::{
    default_line, default_line_spec, device_assignment, device_assignment_spec, device_blocks,
    device_blocks_spec, launch_line, launch_line_spec, prop_value, prop_value_spec,
};
use crate::text::{chars_of, contains, contains_text, opt_text, text_eq, trim, trimmed};

verus! {

#[derive(Clone, Copy, PartialEq, Eq, Structural, Debug)]
pub enum AudioDeviceType {
    Sink,
    Source,
}

pub struct AudioDevice {
    pub id: String,
    pub name: String,
    pub is_default: bool,
    pub offline: Option<bool>,
}

pub struct AudioDeviceView {
    pub id: Seq<char>,
    pub name: Seq<char>,
    pub is_default: bool,
    pub offline: Option<bool>,
}

impl View for AudioDevice {
    type V = AudioDeviceView;

    open spec fn view(&self) -> AudioDeviceView {
        AudioDeviceView { id: self.id@, name: self.name@, is_default: self.is_default, offline: self.offline }
    }
}

pub open spec fn devices_view(v: Seq<AudioDevice>) -> Seq<AudioDeviceView> {
    v.map_values(|d: AudioDevice| d@)
}

/// A value without one pair of surrounding double quotes.
pub open spec fn unquoted(v: Seq<char>) -> Seq<char> {
    if v.len() >= 2 && v[0] == '"' && v.last() == '"' {
        v.subrange(1, v.len() - 1)
    } else {
        v
    }
}

/// The value of property `key` in the block, unquoted.
pub open spec fn prop_spec(block: Seq<char>, key: Seq<char>) -> Option<Seq<char>> {
    match prop_value_spec(block, key) {
        Some(v) => Some(unquoted(v)),
        None => None,
    }
}

/// The device id on the block's launch line.
pub open spec fn launch_id_spec(block: Seq<char>) -> Option<Seq<char>> {
    match launch_line_spec(block) {
        Some(l) => device_assignment_spec(l),
        None => None,
    }
}

pub open spec fn or_else(a: Option<Seq<char>>, b: Option<Seq<char>>) -> Option<Seq<char>> {
    match a {
        Some(x) => Some(x),
        None => b,
    }
}

pub open spec fn id_spec(block: Seq<char>) -> Option<Seq<char>> {
    or_else(
        launch_id_spec(block),
        or_else(
            prop_spec(block, "unique-id"@),
            or_else(
                prop_spec(block, "device.name"@),
                or_else(
                    prop_spec(block, "node.name"@),
                    or_else(prop_spec(block, "alsa.card_name"@), prop_spec(block, "name"@)),
                ),
            ),
        ),
    )
}

pub open spec fn name_spec(block: Seq<char>, id: Seq<char>) -> Seq<char> {
    match or_else(
        prop_spec(block, "name"@),
        or_else(
            prop_spec(block, "device.description"@),
            or_else(prop_spec(block, "node.description"@), prop_spec(block, "alsa.card_name"@)),
        ),
    ) {
        Some(n) => n,
        None => id,
    }
}

pub open spec fn default_spec(block: Seq<char>) -> bool {
    default_line_spec(block) || prop_spec(block, "is-default"@) == Some("true"@) || prop_spec(
        block,
        "is-default"@,
    ) == Some("true (gboolean)"@) || prop_spec(block, "node.is-default"@) == Some("true"@)
}

pub open spec fn expected_class(kind: AudioDeviceType) -> Seq<char> {
    match kind {
        AudioDeviceType::Sink => "Audio/Sink"@,
        AudioDeviceType::Source => "Audio/Source"@,
    }
}

/// The device a block describes: a block of the wanted class (a source that is a monitor does
/// not count) with an id; its name falls back to the id.
pub open spec fn block_device(block: Seq<char>, kind: AudioDeviceType) -> Option<AudioDeviceView> {
    if trimmed(block).len() == 0 {
        None
    } else {
        match prop_spec(block, "class"@) {
            None => None,
            Some(cls) => if !contains_text(cls, expected_class(kind)) {
                None
            } else if kind == AudioDeviceType::Source && prop_spec(block, "device.class"@) == Some(
                "monitor"@,
            ) {
                None
            } else {
                match id_spec(block) {
                    None => None,
                    Some(id) => Some(
                        AudioDeviceView {
                            id,
                            name: name_spec(block, id),
                            is_default: default_spec(block),
                            offline: None,
                        },
                    ),
                }
            },
        }
    }
}

pub open spec fn devices_of(blocks: Seq<Seq<char>>, kind: AudioDeviceType) -> Seq<AudioDeviceView>
    decreases blocks.len(),
{
    if blocks.len() == 0 {
        Seq::empty()
    } else {
        devices_of(blocks.drop_last(), kind) + match block_device(blocks.last(), kind) {
            Some(d) => seq![d],
            None => Seq::empty(),
        }
    }
}

fn opt_text_eq(a: &Option<String>, b: &str) -> (r: bool)
    ensures
        r == (opt_text(*a) == Some(b@)),
{
    match a {
        Some(s) => text_eq(s.as_str(), b),
        None => false,
    }
}

/// The value of property `key` in `block`, with one pair of surrounding double quotes removed.
pub fn match_prop(block: &str, key: &str) -> (r: Option<String>)
    ensures
        opt_text(r) == prop_spec(block@, key@),
{
    match prop_value(block, key) {
        None => None,
        Some(v) => {
            let cs = chars_of(v.as_str());
            let n = cs.len();
            if n >= 2 && cs[0] == '"' && cs[n - 1] == '"' {
                Some(v.as_str().substring_char(1, n - 1).to_owned())
            } else {
                Some(v)
            }
        },
    }
}

/// The device id on the block's sample launch line: what follows `device=`, `device-name=`
/// or `unique-id=`, up to unquoted white space, the end of the line or a closing quote.
pub fn id_from_launch_line(block: &str) -> (r: Option<String>)
    ensures
        opt_text(r) == launch_id_spec(block@),
{
    match launch_line(block) {
        Some(line) => device_assignment(line.as_str()),
        None => None,
    }
}

fn device_id(block: &str) -> (r: Option<String>)
    ensures
        opt_text(r) == id_spec(block@),
{
    if let Some(id) = id_from_launch_line(block) {
        return Some(id);
    }
    if let Some(v) = match_prop(block, "unique-id") {
        return Some(v);
    }
    if let Some(v) = match_prop(block, "device.name") {
        return Some(v);
    }
    if let Some(v) = match_prop(block, "node.name") {
        return Some(v);
    }
    if let Some(v) = match_prop(block, "alsa.card_name") {
        return Some(v);
    }
    match_prop(block, "name")
}

fn device_name(block: &str, id: &String) -> (r: String)
    ensures
        r@ == name_spec(block@, id@),
{
    if let Some(v) = match_prop(block, "name") {
        return v;
    }
    if let Some(v) = match_prop(block, "device.description") {
        return v;
    }
    if let Some(v) = match_prop(block, "node.description") {
        return v;
    }
    if let Some(v) = match_prop(block, "alsa.card_name") {
        return v;
    }
    id.clone()
}

fn is_default_device(block: &str) -> (b: bool)
    ensures
        b == default_spec(block@),
{
    default_line(block) || opt_text_eq(&match_prop(block, "is-default"), "true") || opt_text_eq(
        &match_prop(block, "is-default"),
        "true (gboolean)",
    ) || opt_text_eq(&match_prop(block, "node.is-default"), "true")
}

/// The device class of a kind, also the filter `gst-device-monitor` is run with.
pub fn device_class(kind: AudioDeviceType) -> (c: &'static str)
    ensures
        c@ == expected_class(kind),
{
    match kind {
        AudioDeviceType::Sink => "Audio/Sink",
        AudioDeviceType::Source => "Audio/Source",
    }
}

fn parse_block(block: &str, kind: AudioDeviceType) -> (r: Option<AudioDevice>)
    ensures
        match block_device(block@, kind) {
            Some(d) => r matches Some(x) && x@ == d,
            None => r is None,
        },
{
    if trim(block).is_empty() {
        return None;
    }
    let cls = match match_prop(block, "class") {
        Some(c) => c,
        None => return None,
    };
    if !contains(cls.as_str(), device_class(kind)) {
        return None;
    }
    if kind == AudioDeviceType::Source && opt_text_eq(&match_prop(block, "device.class"), "monitor") {
        return None;
    }
    let id = match device_id(block) {
        Some(id) => id,
        None => return None,
    };
    let name = device_name(block, &id);
    let is_default = is_default_device(block);
    Some(AudioDevice { id, name, is_default, offline: None })
}

/// The audio devices of the wanted kind in a `gst-device-monitor` listing, in order.
pub fn parse_device_monitor_output(output: &str, kind: AudioDeviceType) -> (devices: Vec<
    AudioDevice,
>)
    ensures
        devices_view(devices@) == devices_of(device_blocks_spec(output@), kind),
{
    let blocks = device_blocks(output);
    let ghost bs = device_blocks_spec(output@);
    let mut devices: Vec<AudioDevice> = Vec::new();
    let mut i: usize = 0;
    proof {
        assert(bs.take(0) =~= Seq::<Seq<char>>::empty());
    }
    while i < blocks.len()
        invariant
            i <= blocks@.len(),
            blocks@.map_values(|b: String| b@) == bs,
            devices_view(devices@) == devices_of(bs.take(i as int), kind),
        decreases blocks@.len() - i,
    {
        let block = blocks[i].as_str();
        proof {
            assert(bs[i as int] == block@);
            assert(bs.take(i + 1).drop_last() =~= bs.take(i as int));
        }
        let ghost before = devices_view(devices@);
        match parse_block(block, kind) {
            Some(d) => {
                devices.push(d);
                proof {
                    assert(devices_view(devices@) =~= before + seq![d@]);
                }
            },
            None => {
                proof {
                    assert(before + Seq::<AudioDeviceView>::empty() =~= before);
                }
            },
        }
        i = i + 1;
    }
    proof {
        assert(bs.take(blocks@.len() as int) =~= bs);
    }
    devices
}

} // verus!
