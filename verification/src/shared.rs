//! Audio formats shared by the capture and playback paths.

use vstd::prelude::*;
use crate::text::opt_text;

verus! {

pub struct AudioFormat {
    pub frequency: u32,
    pub channels: u32,
    pub bit_depth: u32,
    pub format: Option<String>,
    pub mime_type: Option<String>,
}

pub struct AudioFormatView {
    pub frequency: u32,
    pub channels: u32,
    pub bit_depth: u32,
    pub format: Option<Seq<char>>,
    pub mime_type: Option<Seq<char>>,
}

impl View for AudioFormat {
    type V = AudioFormatView;

    open spec fn view(&self) -> AudioFormatView {
        AudioFormatView {
            frequency: self.frequency,
            channels: self.channels,
            bit_depth: self.bit_depth,
            format: opt_text(self.format),
            mime_type: opt_text(self.mime_type),
        }
    }
}

/// 16-bit little-endian PCM at `frequency` Hz with `channels` channels.
pub open spec fn pcm_format(frequency: u32, channels: u32, mime: Seq<char>) -> AudioFormatView {
    AudioFormatView {
        frequency,
        channels,
        bit_depth: 16,
        format: Some("s16le"@),
        mime_type: Some(mime),
    }
}

/// The PCM format of an audio decode type: 1 and 2 are 44.1 kHz stereo, 3 is 8 kHz mono, 4 is
/// 48 kHz stereo, 5 is 16 kHz mono, 6 is 24 kHz mono, 7 is 16 kHz stereo.
pub open spec fn decode_type_spec(key: i32) -> Option<AudioFormatView> {
    if key == 1 || key == 2 {
        Some(pcm_format(44100, 2, "audio/L16; rate=44100; channels=2"@))
    } else if key == 3 {
        Some(pcm_format(8000, 1, "audio/L16; rate=8000; channels=1"@))
    } else if key == 4 {
        Some(pcm_format(48000, 2, "audio/L16; rate=48000; channels=2"@))
    } else if key == 5 {
        Some(pcm_format(16000, 1, "audio/L16; rate=16000; channels=1"@))
    } else if key == 6 {
        Some(pcm_format(24000, 1, "audio/L16; rate=24000; channels=1"@))
    } else if key == 7 {
        Some(pcm_format(16000, 2, "audio/L16; rate=16000; channels=2"@))
    } else {
        None
    }
}

fn pcm(frequency: u32, channels: u32, mime: &str) -> (f: AudioFormat)
    ensures
        f@ == pcm_format(frequency, channels, mime@),
{
    AudioFormat {
        frequency,
        channels,
        bit_depth: 16,
        format: Some("s16le".to_owned()),
        mime_type: Some(mime.to_owned()),
    }
}

pub fn decode_type_map(key: i32) -> (r: Option<AudioFormat>)
    ensures
        match decode_type_spec(key) {
            Some(v) => r matches Some(f) && f@ == v,
            None => r is None,
        },
{
    if key == 1 || key == 2 {
        Some(pcm(44100, 2, "audio/L16; rate=44100; channels=2"))
    } else if key == 3 {
        Some(pcm(8000, 1, "audio/L16; rate=8000; channels=1"))
    } else if key == 4 {
        Some(pcm(48000, 2, "audio/L16; rate=48000; channels=2"))
    } else if key == 5 {
        Some(pcm(16000, 1, "audio/L16; rate=16000; channels=1"))
    } else if key == 6 {
        Some(pcm(24000, 1, "audio/L16; rate=24000; channels=1"))
    } else if key == 7 {
        Some(pcm(16000, 2, "audio/L16; rate=16000; channels=2"))
    } else {
        None
    }
}

} // verus!
