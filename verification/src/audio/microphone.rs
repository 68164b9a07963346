//! Microphone capture formats.

use vstd::prelude::*;
use crate::shared::{decode_type_map, decode_type_spec, pcm_format, AudioFormat, AudioFormatView};
use crate::audio::audio_output::{push_all, push_text, texts};
use crate::audio::gstreamer::{
    audio_device_prop, audio_source_element, audio_source_spec, device_prop_spec, HostOs,
};
use vstd::string::StringExecFns;
use crate::text::{decimal, lowercase_spec, to_lowercase, to_uppercase, uint_text, uppercase_spec};

verus! {

/// The capture format of a decode type, 16 kHz mono s16le when the type is unknown.
pub open spec fn resolve_format_spec(decode_type: i32) -> AudioFormatView {
    match decode_type_spec(decode_type) {
        Some(f) => f,
        None => AudioFormatView {
            frequency: 16000,
            channels: 1,
            bit_depth: 16,
            format: Some("s16le"@),
            mime_type: None,
        },
    }
}

pub fn resolve_format(decode_type: i32) -> (f: AudioFormat)
    ensures
        f@ == resolve_format_spec(decode_type),
{
    match decode_type_map(decode_type) {
        Some(f) => f,
        None => AudioFormat {
            frequency: 16000,
            channels: 1,
            bit_depth: 16,
            format: Some("s16le".to_owned()),
            mime_type: None,
        },
    }
}

/// The GStreamer raw-audio format name: `S16LE` for `s16le`/`s16_le` in any case, otherwise
/// the format upper-cased (s16le when unset).
pub open spec fn gst_raw_format_spec(format: Option<Seq<char>>) -> Seq<char> {
    let raw = lowercase_spec(
        match format {
            Some(f) => f,
            None => "s16le"@,
        },
    );
    if raw == "s16le"@ || raw == "s16_le"@ {
        "S16LE"@
    } else {
        uppercase_spec(raw)
    }
}

pub fn to_gst_raw_format(format: &AudioFormat) -> (s: String)
    ensures
        s@ == gst_raw_format_spec(format@.format),
{
    let raw = match &format.format {
        Some(f) => to_lowercase(f.as_str()),
        None => to_lowercase("s16le"),
    };
    if raw == "s16le".to_owned() || raw == "s16_le".to_owned() {
        return "S16LE".to_owned();
    }
    to_uppercase(raw.as_str())
}

/// Decode type used when the phone names none (16 kHz mono voice).
pub const DEFAULT_DECODE_TYPE: i32 = 5;

/// Arguments of the capture process: the platform source (on `device` when given), a short
/// leaky queue, conversion and resampling to the decode type's format, written raw to stdout.
pub open spec fn capture_args_spec(os: HostOs, device: Option<Seq<char>>, decode_type: i32) -> Seq<
    Seq<char>,
> {
    let f = resolve_format_spec(decode_type);
    seq!["-q"@, audio_source_spec(os)] + match device {
        Some(d) => seq![device_prop_spec(os) + "="@ + d],
        None => Seq::empty(),
    } + seq![
        "!"@,
        "queue"@,
        "max-size-time=20000000"@,
        "max-size-bytes=0"@,
        "max-size-buffers=0"@,
        "leaky=downstream"@,
        "!"@,
        "audioconvert"@,
        "!"@,
        "audioresample"@,
        "!"@,
        gst_raw_format_spec(f.format) + ",rate="@ + decimal(f.frequency as int) + ",channels="@
            + decimal(f.channels as int),
        "!"@,
        "fdsink"@,
        "fd=1"@,
    ]
}

pub fn capture_args(os: HostOs, device: Option<&str>, decode_type: i32) -> (args: Vec<String>)
    ensures
        texts(args@) == capture_args_spec(
            os,
            match device {
                Some(d) => Some(d@),
                None => None,
            },
            decode_type,
        ),
{
    let format = resolve_format(decode_type);
    let mut args: Vec<String> = Vec::new();
    push_all(&mut args, &["-q", audio_source_element(os)]);
    if let Some(d) = device {
        let mut a = String::from_str(audio_device_prop(os));
        a.append("=");
        a.append(d);
        push_text(&mut args, a);
    }
    push_all(
        &mut args,
        &[
            "!",
            "queue",
            "max-size-time=20000000",
            "max-size-bytes=0",
            "max-size-buffers=0",
            "leaky=downstream",
            "!",
            "audioconvert",
            "!",
            "audioresample",
            "!",
        ],
    );
    let mut caps = to_gst_raw_format(&format);
    caps.append(",rate=");
    caps.append(uint_text(format.frequency as u64).as_str());
    caps.append(",channels=");
    caps.append(uint_text(format.channels as u64).as_str());
    push_text(&mut args, caps);
    push_all(&mut args, &["!", "fdsink", "fd=1"]);
    assert(texts(args@) =~= capture_args_spec(
        os,
        match device {
            Some(d) => Some(d@),
            None => None,
        },
        decode_type,
    ));
    args
}

/// The label of the system default input device.
pub fn get_sys_default_prettty_name() -> (s: String)
    ensures
        s@ == "system default"@,
{
    "system default".to_owned()
}

} // verus!
