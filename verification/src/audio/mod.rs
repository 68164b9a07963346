//! Audio: device enumeration, Bluetooth device dedup, GStreamer elements, microphone formats
//! and playback pipeline arguments.

pub mod audio_device_enumerator;
pub mod audio_output;
pub mod gstreamer;
pub mod microphone;

use vstd::prelude::*;
use crate::patterns::{bluez_mac, bluez_mac_spec};
use crate::text::{opt_text, replace, replace_spec, to_uppercase, uppercase_spec};
use audio_device_enumerator::{devices_view, AudioDevice, AudioDeviceView};

verus! {

/// Major device class "audio/video" of a Bluetooth class-of-device.
pub const BT_COD_MAJOR_AUDIO: u8 = 0x04;

/// Whether a Bluetooth class-of-device has the audio major class (bits 8 to 12).
pub fn is_bt_audio_cod(cod: u32) -> (b: bool)
    ensures
        b == ((cod / 256) % 32 == BT_COD_MAJOR_AUDIO),
{
    let major_cod = ((cod / 256) % 32) as u8;
    major_cod == BT_COD_MAJOR_AUDIO
}

/// The BlueZ id form of a MAC: upper case, `:` replaced by `_`.
pub fn mac_to_bluez_id(mac: &str) -> (r: Option<String>)
    ensures
        r matches Some(s) && s@ == replace_spec(uppercase_spec(mac@), ":"@, "_"@),
{
    let up = to_uppercase(mac);
    Some(replace(up.as_str(), ":", "_"))
}

/// The MAC of a BlueZ device id (`bluez_output.AA_BB_...`), as `AA:BB:...` in upper case.
pub open spec fn bluez_mac_of(device_id: Seq<char>) -> Option<Seq<char>> {
    match bluez_mac_spec(device_id) {
        Some(m) => Some(uppercase_spec(replace_spec(m, "_"@, ":"@))),
        None => None,
    }
}

pub fn extract_bluez_mac(device_id: &str) -> (r: Option<String>)
    ensures
        opt_text(r) == bluez_mac_of(device_id@),
{
    match bluez_mac(device_id) {
        Some(m) => {
            let colons = replace(m.as_str(), "_", ":");
            Some(to_uppercase(colons.as_str()))
        },
        None => None,
    }
}

/// The devices with one entry per Bluetooth MAC, and the MACs seen.
pub struct DedupedPerMac {
    pub deduped: Vec<AudioDevice>,
    pub macs: Vec<String>,
}

/// Keeps the first device of each Bluetooth MAC and every device without one; the MACs seen,
/// in order of first appearance.
pub open spec fn dedupe_spec(devices: Seq<AudioDeviceView>) -> (Seq<AudioDeviceView>, Seq<Seq<char>>)
    decreases devices.len(),
{
    if devices.len() == 0 {
        (Seq::empty(), Seq::empty())
    } else {
        let (kept, seen) = dedupe_spec(devices.drop_last());
        let d = devices.last();
        match bluez_mac_of(d.id) {
            Some(m) => if seen.contains(m) {
                (kept, seen)
            } else {
                (kept.push(d), seen.push(m))
            },
            None => (kept.push(d), seen),
        }
    }
}

fn seen_contains(seen: &Vec<String>, mac: &String) -> (b: bool)
    ensures
        b == seen@.map_values(|s: String| s@).contains(mac@),
{
    let ghost sv = seen@.map_values(|s: String| s@);
    let mut i: usize = 0;
    while i < seen.len()
        invariant
            i <= seen@.len(),
            sv == seen@.map_values(|s: String| s@),
            forall|k: int| 0 <= k < i ==> sv[k] != mac@,
        decreases seen@.len() - i,
    {
        if seen[i] == *mac {
            assert(sv[i as int] == mac@);
            return true;
        }
        i = i + 1;
    }
    false
}

pub fn dedupe_bt_per_mac(devices: Vec<AudioDevice>) -> (r: DedupedPerMac)
    ensures
        ({
            let (kept, seen) = dedupe_spec(devices_view(devices@));
            &&& devices_view(r.deduped@) == kept
            &&& r.macs@.map_values(|s: String| s@) == seen
        }),
{
    let ghost dv = devices_view(devices@);
    let mut seen: Vec<String> = Vec::new();
    let mut deduped: Vec<AudioDevice> = Vec::new();
    let mut devices = devices;
    let n = devices.len();
    let mut i: usize = 0;
    proof {
        assert(dv.take(0) =~= Seq::<AudioDeviceView>::empty());
        assert(devices_view(deduped@) =~= Seq::<AudioDeviceView>::empty());
        assert(seen@.map_values(|s: String| s@) =~= Seq::<Seq<char>>::empty());
    }
    while i < n
        invariant
            i <= n,
            n == dv.len(),
            devices@.len() == n - i,
            forall|k: int| 0 <= k < n - i ==> (#[trigger] devices@[k])@ == dv[i + k],
            ({
                let (kept, s) = dedupe_spec(dv.take(i as int));
                &&& devices_view(deduped@) == kept
                &&& seen@.map_values(|x: String| x@) == s
            }),
        decreases n - i,
    {
        let device = devices.remove(0);
        assert(device@ == dv[i as int]);
        proof {
            assert(dv.take(i + 1).drop_last() =~= dv.take(i as int));
            assert(dv.take(i + 1).last() == device@);
        }
        let ghost kept0 = devices_view(deduped@);
        let ghost seen0 = seen@.map_values(|x: String| x@);
        match extract_bluez_mac(device.id.as_str()) {
            Some(mac) => {
                if !seen_contains(&seen, &mac) {
                    seen.push(mac);
                    deduped.push(device);
                    proof {
                        assert(devices_view(deduped@) =~= kept0.push(dv[i as int]));
                        assert(seen@.map_values(|x: String| x@) =~= seen0.push(
                            bluez_mac_of(dv[i as int].id)->0,
                        ));
                    }
                }
            },
            None => {
                deduped.push(device);
                proof {
                    assert(devices_view(deduped@) =~= kept0.push(dv[i as int]));
                }
            },
        }
        i = i + 1;
    }
    proof {
        assert(dv.take(n as int) =~= dv);
    }
    DedupedPerMac { deduped, macs: seen }
}

} // verus!
