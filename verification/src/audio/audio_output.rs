//! Settings and pipeline arguments of a PCM playback process (`gst-launch-1.0` reading raw
//! s16le from stdin).

use vstd::prelude::*;
use vstd::string::StringExecFns;
use crate::audio::gstreamer::{audio_device_prop, audio_sink_element, audio_sink_spec, device_prop_spec, HostOs};
use crate::text::{decimal, int_text, joined, opt_text};

verus! {

#[derive(Clone, Copy, PartialEq, Eq, Structural, Debug)]
pub enum AudioOutputMode {
    Music,
    Realtime,
}

pub struct AudioOutputOptions {
    pub sample_rate: i32,
    pub channels: i32,
    pub mode: Option<AudioOutputMode>,
    pub device: Option<String>,
}

/// What a playback process is started with.
pub struct AudioOutputConfig {
    pub sample_rate: i32,
    pub channels: i32,
    pub mode: AudioOutputMode,
    pub device: Option<String>,
}

/// Mono or narrow-band audio is latency-sensitive speech; the rest is music.
pub open spec fn infer_mode_spec(sample_rate: i32, channels: i32) -> AudioOutputMode {
    if channels == 1 || sample_rate <= 24000 {
        AudioOutputMode::Realtime
    } else {
        AudioOutputMode::Music
    }
}

pub fn infer_mode(sample_rate: i32, channels: i32) -> (m: AudioOutputMode)
    ensures
        m == infer_mode_spec(sample_rate, channels),
{
    if channels == 1 {
        AudioOutputMode::Realtime
    } else if sample_rate <= 24000 {
        AudioOutputMode::Realtime
    } else {
        AudioOutputMode::Music
    }
}

/// The 16-bit two's-complement pattern of a sample.
pub open spec fn sample_bits(x: i16) -> int {
    if x >= 0 {
        x as int
    } else {
        x as int + 65536
    }
}

/// Samples as the playback process reads them: each as two little-endian bytes.
pub open spec fn pcm_bytes_spec(samples: Seq<i16>) -> Seq<u8> {
    Seq::new(
        2 * samples.len(),
        |k: int|
            if k % 2 == 0 {
                (sample_bits(samples[k / 2]) % 256) as u8
            } else {
                (sample_bits(samples[k / 2]) / 256) as u8
            },
    )
}

pub fn pcm_bytes(samples: &Vec<i16>) -> (out: Vec<u8>)
    requires
        2 * samples@.len() <= usize::MAX,
    ensures
        out@ == pcm_bytes_spec(samples@),
{
    let mut out: Vec<u8> = Vec::new();
    let mut i: usize = 0;
    while i < samples.len()
        invariant
            i <= samples@.len(),
            out@ =~= pcm_bytes_spec(samples@.take(i as int)),
        decreases samples@.len() - i,
    {
        let x = samples[i];
        let u: u16 = if x >= 0 {
            x as u16
        } else {
            (x as i32 + 65536) as u16
        };
        out.push((u % 256) as u8);
        out.push((u / 256) as u8);
        proof {
            let t = samples@.take(i as int + 1);
            assert(t.take(i as int) =~= samples@.take(i as int));
            assert forall|k: int| 0 <= k < 2 * (i as int + 1) implies #[trigger] out@[k]
                == pcm_bytes_spec(t)[k] by {
                if k < 2 * i {
                    assert(k / 2 < i) by (nonlinear_arith)
                        requires
                            0 <= k < 2 * i,
                    ;
                    assert(t[k / 2] == samples@.take(i as int)[k / 2]);
                } else {
                    assert(k / 2 == i) by (nonlinear_arith)
                        requires
                            2 * i <= k < 2 * i + 2,
                    ;
                }
            }
        }
        i = i + 1;
    }
    assert(samples@.take(samples@.len() as int) =~= samples@);
    out
}

pub open spec fn texts(v: Seq<String>) -> Seq<Seq<char>> {
    v.map_values(|s: String| s@)
}

pub open spec fn str_texts(v: Seq<&str>) -> Seq<Seq<char>> {
    v.map_values(|s: &str| s@)
}

pub(crate) fn push_text(args: &mut Vec<String>, s: String)
    ensures
        texts(final(args)@) == texts(old(args)@).push(s@),
{
    let ghost before = texts(args@);
    args.push(s);
    assert(texts(args@) =~= before.push(s@));
}

pub(crate) fn push_all(args: &mut Vec<String>, v: &[&str])
    ensures
        texts(final(args)@) == texts(old(args)@) + str_texts(v@),
{
    let ghost start = texts(args@);
    let mut i: usize = 0;
    proof {
        assert(start + str_texts(v@.take(0)) =~= start);
    }
    while i < v.len()
        invariant
            i <= v@.len(),
            texts(args@) == start + str_texts(v@.take(i as int)),
        decreases v@.len() - i,
    {
        push_text(args, v[i].to_owned());
        proof {
            assert(str_texts(v@.take(i + 1)) =~= str_texts(v@.take(i as int)).push(v@[i as int]@));
            assert(start + str_texts(v@.take(i + 1)) =~= (start + str_texts(v@.take(i as int))).push(v@[i as int]@));
        }
        i = i + 1;
    }
    proof {
        assert(v@.take(v@.len() as int) =~= v@);
    }
}

/// A queue that holds `max_time_ns` of audio and no byte or buffer limit.
pub open spec fn queue_args(max_time: Seq<char>) -> Seq<Seq<char>> {
    seq!["queue"@, max_time, "max-size-bytes=0"@, "max-size-buffers=0"@]
}

pub open spec fn sink_args(os: HostOs, realtime: bool, device: Option<Seq<char>>) -> Seq<Seq<char>> {
    let sink = audio_sink_spec(os);
    (if realtime {
        seq![sink, "sync=false"@]
    } else if os == HostOs::MacOs {
        seq![sink]
    } else {
        seq![sink, "buffer-time=300000"@, "latency-time=30000"@]
    }) + match device {
        Some(d) => seq![device_prop_spec(os) + "="@ + d],
        None => Seq::empty(),
    }
}

/// `fdsrc fd=0 ! queue ! rawaudioparse (s16le at the rate and channel count) ! audioconvert !
/// audioresample [! 48 kHz stereo S16LE caps, except on Windows] ! queue ! sink`, with short
/// queues in realtime mode.
pub open spec fn build_args_spec(c: AudioOutputConfig, os: HostOs) -> Seq<Seq<char>> {
    let realtime = c.mode == AudioOutputMode::Realtime;
    seq!["fdsrc"@, "fd=0"@, "!"@] + queue_args(
        if realtime {
            "max-size-time=40000000"@
        } else {
            "max-size-time=350000000"@
        },
    ) + seq![
        "!"@,
        "rawaudioparse"@,
        "format=pcm"@,
        "pcm-format=s16le"@,
        "sample-rate="@ + decimal(c.sample_rate as int),
        "num-channels="@ + decimal(c.channels as int),
        "!"@,
        "audioconvert"@,
        "!"@,
        "audioresample"@,
    ] + (if os != HostOs::Windows {
        seq!["!"@, "audio/x-raw,format=S16LE,rate=48000,channels=2"@]
    } else {
        Seq::empty()
    }) + seq!["!"@] + queue_args(
        if realtime {
            "max-size-time=20000000"@
        } else {
            "max-size-time=200000000"@
        },
    ) + seq!["!"@] + sink_args(os, realtime, opt_text(c.device))
}

impl AudioOutputConfig {
    /// At least one channel; the mode given, or inferred from rate and channels.
    pub fn new(opts: AudioOutputOptions) -> (c: AudioOutputConfig)
        ensures
            c.channels == if opts.channels >= 1 {
                opts.channels
            } else {
                1
            },
            c.sample_rate == opts.sample_rate,
            c.mode == match opts.mode {
                Some(m) => m,
                None => infer_mode_spec(opts.sample_rate, c.channels),
            },
            opt_text(c.device) == opt_text(opts.device),
    {
        let channels = if opts.channels >= 1 {
            opts.channels
        } else {
            1
        };
        let mode = match opts.mode {
            Some(m) => m,
            None => infer_mode(opts.sample_rate, channels),
        };
        AudioOutputConfig { sample_rate: opts.sample_rate, channels, mode, device: opts.device }
    }

    /// The `gst-launch-1.0` arguments of the playback pipeline (see `build_args_spec`).
    pub fn build_args(&self, os: HostOs) -> (args: Vec<String>)
        ensures
            texts(args@) == build_args_spec(*self, os),
    {
        let realtime = self.mode == AudioOutputMode::Realtime;
        let mut args: Vec<String> = Vec::new();
        push_all(&mut args, &["fdsrc", "fd=0", "!"]);
        if realtime {
            push_all(&mut args, &["queue", "max-size-time=40000000", "max-size-bytes=0", "max-size-buffers=0"]);
        } else {
            push_all(&mut args, &["queue", "max-size-time=350000000", "max-size-bytes=0", "max-size-buffers=0"]);
        }
        push_all(&mut args, &["!", "rawaudioparse", "format=pcm", "pcm-format=s16le"]);
        push_text(&mut args, joined("sample-rate=", int_text(self.sample_rate).as_str()));
        push_text(&mut args, joined("num-channels=", int_text(self.channels).as_str()));
        push_all(&mut args, &["!", "audioconvert", "!", "audioresample"]);
        if os != HostOs::Windows {
            push_all(&mut args, &["!", "audio/x-raw,format=S16LE,rate=48000,channels=2"]);
        }
        push_all(&mut args, &["!"]);
        if realtime {
            push_all(&mut args, &["queue", "max-size-time=20000000", "max-size-bytes=0", "max-size-buffers=0"]);
        } else {
            push_all(&mut args, &["queue", "max-size-time=200000000", "max-size-bytes=0", "max-size-buffers=0"]);
        }
        push_all(&mut args, &["!"]);
        let sink = audio_sink_element(os);
        if realtime {
            push_all(&mut args, &[sink, "sync=false"]);
        } else if os == HostOs::MacOs {
            push_all(&mut args, &[sink]);
        } else {
            push_all(&mut args, &[sink, "buffer-time=300000", "latency-time=30000"]);
        }
        if let Some(device) = &self.device {
            let mut a = String::from_str(audio_device_prop(os));
            a.append("=");
            a.append(device.as_str());
            push_text(&mut args, a);
        }
        assert(texts(args@) =~= build_args_spec(*self, os));
        args
    }
}


/// Writing samples out as bytes and reading those bytes back as samples gives the samples.
pub proof fn lemma_pcm_roundtrip(samples: Seq<i16>)
    ensures
        crate::projection::wired::pcm_samples_spec(pcm_bytes_spec(samples)) == samples,
{
    let b = pcm_bytes_spec(samples);
    let r = crate::projection::wired::pcm_samples_spec(b);
    assert(b.len() / 2 == samples.len()) by (nonlinear_arith)
        requires
            b.len() == 2 * samples.len(),
    ;
    assert forall|k: int| 0 <= k < samples.len() implies r[k] == samples[k] by {
        let u = sample_bits(samples[k]);
        assert((2 * k) / 2 == k && (2 * k + 1) / 2 == k && (2 * k) % 2 == 0 && (2 * k + 1) % 2
            == 1) by (nonlinear_arith);
        assert(0 <= u < 65536);
        assert(u % 256 + 256 * (u / 256) == u) by (nonlinear_arith)
            requires
                0 <= u,
        ;
        assert(0 <= u % 256 < 256 && 0 <= u / 256 < 256) by (nonlinear_arith)
            requires
                0 <= u < 65536,
        ;
    }
    assert(r =~= samples);
}

} // verus!
