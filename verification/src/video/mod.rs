//! Video presentation helpers: the codec names the GStreamer pipeline uses, backdrop
//! colours, and the codec support probe.

pub mod compositor;
pub mod control;

use vstd::prelude::*;
use crate::text::{chars_of, trim, trimmed};

verus! {

#[derive(Clone, Copy, PartialEq, Eq, Structural, Debug)]
pub enum GstVideoCodec {
    H264,
    H265,
    VP9,
    AV1,
}

impl GstVideoCodec {
    /// The codec name the decode pipeline is created with.
    pub fn as_str(self) -> (s: &'static str)
        ensures
            s@ == match self {
                GstVideoCodec::H264 => "h264"@,
                GstVideoCodec::H265 => "h265"@,
                GstVideoCodec::VP9 => "vp9"@,
                GstVideoCodec::AV1 => "av1"@,
            },
    {
        match self {
            GstVideoCodec::H264 => "h264",
            GstVideoCodec::H265 => "h265",
            GstVideoCodec::VP9 => "vp9",
            GstVideoCodec::AV1 => "av1",
        }
    }
}

/// The value of an ASCII hexadecimal digit.
pub open spec fn hex_digit(c: char) -> Option<nat> {
    if '0' <= c <= '9' {
        Some((c as u32 - '0' as u32) as nat)
    } else if 'a' <= c <= 'f' {
        Some((c as u32 - 'a' as u32 + 10) as nat)
    } else if 'A' <= c <= 'F' {
        Some((c as u32 - 'A' as u32 + 10) as nat)
    } else {
        None
    }
}

pub open spec fn all_hex(s: Seq<char>) -> bool {
    forall|i: int| 0 <= i < s.len() ==> (#[trigger] hex_digit(s[i])) is Some
}

/// The number the hexadecimal digits of `s` stand for, most significant first.
pub open spec fn hex_value(s: Seq<char>) -> nat
    decreases s.len(),
{
    if s.len() == 0 {
        0
    } else {
        hex_value(s.drop_last()) * 16 + match hex_digit(s.last()) {
            Some(d) => d,
            None => 0,
        }
    }
}

/// `s` without one leading `#`.
pub open spec fn without_hash(s: Seq<char>) -> Seq<char> {
    if s.len() > 0 && s[0] == '#' {
        s.drop_first()
    } else {
        s
    }
}

/// `#rrggbb` (surrounding white space and the `#` optional) as red, green and blue; black
/// for anything else.
pub open spec fn rgb_of(hex: Option<Seq<char>>) -> (u8, u8, u8) {
    let s = without_hash(
        trimmed(
            match hex {
                Some(h) => h,
                None => Seq::empty(),
            },
        ),
    );
    if s.len() != 6 || !all_hex(s) {
        (0, 0, 0)
    } else {
        let n = hex_value(s);
        ((n / 65536 % 256) as u8, (n / 256 % 256) as u8, (n % 256) as u8)
    }
}

fn hex_digit_of(c: char) -> (d: Option<u32>)
    ensures
        match hex_digit(c) {
            Some(v) => d == Some(v as u32),
            None => d is None,
        },
{
    if '0' <= c && c <= '9' {
        Some(c as u32 - '0' as u32)
    } else if 'a' <= c && c <= 'f' {
        Some(c as u32 - 'a' as u32 + 10)
    } else if 'A' <= c && c <= 'F' {
        Some(c as u32 - 'A' as u32 + 10)
    } else {
        None
    }
}

pub open spec fn pow16(k: nat) -> nat
    decreases k,
{
    if k == 0 {
        1
    } else {
        16 * pow16((k - 1) as nat)
    }
}

proof fn lemma_hex_value_bound(s: Seq<char>)
    requires
        all_hex(s),
    ensures
        hex_value(s) < pow16(s.len()),
    decreases s.len(),
{
    if s.len() > 0 {
        assert(all_hex(s.drop_last())) by {
            assert forall|i: int| 0 <= i < s.drop_last().len() implies (#[trigger] hex_digit(
                s.drop_last()[i],
            )) is Some by {
                assert(s.drop_last()[i] == s[i]);
            }
        }
        assert(hex_digit(s[s.len() - 1]) is Some);
        lemma_hex_value_bound(s.drop_last());
        let p = pow16((s.len() - 1) as nat);
        let d = hex_digit(s.last())->0;
        assert(d < 16);
        assert(hex_value(s.drop_last()) * 16 + d < p * 16) by (nonlinear_arith)
            requires
                hex_value(s.drop_last()) < p,
                d < 16,
        ;
    }
}

/// Parses `#rrggbb` into its channels, falling back to black on a malformed value.
pub fn hex_to_rgb255(hex: Option<&str>) -> (rgb: (u8, u8, u8))
    ensures
        rgb == rgb_of(
            match hex {
                Some(h) => Some(h@),
                None => None,
            },
        ),
{
    let t = trim(
        match hex {
            Some(h) => h,
            None => "",
        },
    );
    let ghost hv: Option<Seq<char>> = match hex {
        Some(h) => Some(h@),
        None => None,
    };
    proof {
        reveal_strlit("");
        assert(t@ == trimmed(
            match hv {
                Some(h) => h,
                None => Seq::<char>::empty(),
            },
        ));
    }
    let cs = chars_of(t);
    let start: usize = if cs.len() > 0 && cs[0] == '#' {
        1
    } else {
        0
    };
    let ghost s = without_hash(t@);
    proof {
        if start == 1 {
            assert(cs@.skip(1) =~= s);
        } else {
            assert(cs@.skip(0) =~= s);
        }
    }
    if cs.len() - start != 6 {
        return (0, 0, 0);
    }
    let mut n: u32 = 0;
    let mut i: usize = 0;
    while i < 6
        invariant
            i <= 6,
            start <= 1,
            cs@.len() == start + 6,
            cs@.skip(start as int) == s,
            s == without_hash(
                trimmed(
                    match hv {
                        Some(h) => h,
                        None => Seq::<char>::empty(),
                    },
                ),
            ),
            hv == match hex {
                Some(h) => Some(h@),
                None => None,
            },
            all_hex(s.take(i as int)),
            n as nat == hex_value(s.take(i as int)),
            n < 0x100_0000,
        decreases 6 - i,
    {
        let c = cs[start + i];
        assert(c == s[i as int]);
        match hex_digit_of(c) {
            None => {
                proof {
                    assert(hex_digit(s[i as int]) is None);
                    assert(!all_hex(s));
                    assert(s.len() == 6);
                    assert(rgb_of(hv) == (0u8, 0u8, 0u8));
                }
                return (0, 0, 0);
            },
            Some(d) => {
                proof {
                    assert(s.take(i + 1).drop_last() =~= s.take(i as int));
                    assert(all_hex(s.take(i + 1))) by {
                        assert forall|k: int| 0 <= k < s.take(i + 1).len() implies (
                        #[trigger] hex_digit(s.take(i + 1)[k])) is Some by {
                            if k < i {
                                assert(s.take(i + 1)[k] == s.take(i as int)[k]);
                            }
                        }
                    }
                    lemma_hex_value_bound(s.take(i + 1));
                    assert(pow16((i + 1) as nat) <= 0x100_0000) by {
                        reveal_with_fuel(pow16, 7);
                    }
                }
                n = n * 16 + d;
            },
        }
        i = i + 1;
    }
    proof {
        assert(s.take(6) =~= s);
    }
    (((n / 65536) % 256) as u8, ((n / 256) % 256) as u8, (n % 256) as u8)
}

/// The active backdrop colour: the configured one for the current theme, or the theme
/// default (black when dark, light grey otherwise).
pub fn backdrop_hex(dark_mode: bool, dark: Option<&str>, light: Option<&str>) -> (s: String)
    ensures
        s@ == ({
            let chosen = if dark_mode {
                dark
            } else {
                light
            };
            match chosen {
                Some(h) if h@.len() > 0 => h@,
                _ => if dark_mode {
                    "#000000"@
                } else {
                    "#d4d4d4"@
                },
            }
        }),
{
    let chosen = if dark_mode {
        dark
    } else {
        light
    };
    match chosen {
        Some(h) if !h.is_empty() => h.to_owned(),
        _ => if dark_mode {
            "#000000".to_owned()
        } else {
            "#d4d4d4".to_owned()
        },
    }
}

/// Hardware and software decode support for one codec.
#[derive(Clone, Copy, PartialEq, Eq, Debug)]
pub struct CodecSupport {
    pub hw: bool,
    pub sw: bool,
}

/// Per-codec decode support of the platform's GStreamer install.
#[derive(Clone, Copy, PartialEq, Eq, Debug)]
pub struct CodecProbe {
    pub h264: CodecSupport,
    pub h265: CodecSupport,
    pub vp9: CodecSupport,
    pub av1: CodecSupport,
}

/// One row of the GStreamer probe: a codec name with its hardware and software support.
pub struct ProbeEntry {
    pub codec: String,
    pub hw: bool,
    pub sw: bool,
}

pub open spec fn no_support() -> CodecSupport {
    CodecSupport { hw: false, sw: false }
}

/// Folds probe rows into per-codec support: a row for "h264", "h265", "vp9" or "av1" sets
/// that codec (a later row wins), other rows are ignored.
pub open spec fn probe_row(p: CodecProbe, codec: Seq<char>, hw: bool, sw: bool) -> CodecProbe {
    let s = CodecSupport { hw, sw };
    if codec == "h264"@ {
        CodecProbe { h264: s, ..p }
    } else if codec == "h265"@ {
        CodecProbe { h265: s, ..p }
    } else if codec == "vp9"@ {
        CodecProbe { vp9: s, ..p }
    } else if codec == "av1"@ {
        CodecProbe { av1: s, ..p }
    } else {
        p
    }
}

pub open spec fn probe_rows(rows: Seq<ProbeEntry>) -> CodecProbe
    decreases rows.len(),
{
    if rows.len() == 0 {
        CodecProbe { h264: no_support(), h265: no_support(), vp9: no_support(), av1: no_support() }
    } else {
        probe_row(probe_rows(rows.drop_last()), rows.last().codec@, rows.last().hw, rows.last().sw)
    }
}

fn text_eq(a: &str, b: &str) -> (r: bool)
    ensures
        r == (a@ == b@),
{
    let x = chars_of(a);
    let y = chars_of(b);
    if x.len() != y.len() {
        return false;
    }
    let mut i: usize = 0;
    while i < x.len()
        invariant
            i <= x@.len(),
            x@.len() == y@.len(),
            x@ == a@,
            y@ == b@,
            forall|k: int| 0 <= k < i ==> x@[k] == y@[k],
        decreases x@.len() - i,
    {
        if x[i] != y[i] {
            return false;
        }
        i = i + 1;
    }
    assert(x@ =~= y@);
    true
}

/// Per-codec decode support from the rows the GStreamer probe reported.
pub fn codec_probe_from(rows: &Vec<ProbeEntry>) -> (p: CodecProbe)
    ensures
        p == probe_rows(rows@),
{
    let mut p = CodecProbe {
        h264: CodecSupport { hw: false, sw: false },
        h265: CodecSupport { hw: false, sw: false },
        vp9: CodecSupport { hw: false, sw: false },
        av1: CodecSupport { hw: false, sw: false },
    };
    let mut i: usize = 0;
    proof {
        assert(rows@.take(0) =~= Seq::<ProbeEntry>::empty());
    }
    while i < rows.len()
        invariant
            i <= rows@.len(),
            p == probe_rows(rows@.take(i as int)),
        decreases rows@.len() - i,
    {
        let r = &rows[i];
        let support = CodecSupport { hw: r.hw, sw: r.sw };
        let c = r.codec.as_str();
        if text_eq(c, "h264") {
            p.h264 = support;
        } else if text_eq(c, "h265") {
            p.h265 = support;
        } else if text_eq(c, "vp9") {
            p.vp9 = support;
        } else if text_eq(c, "av1") {
            p.av1 = support;
        }
        proof {
            assert(rows@.take(i + 1).drop_last() =~= rows@.take(i as int));
        }
        i = i + 1;
    }
    proof {
        assert(rows@.take(rows@.len() as int) =~= rows@);
    }
    p
}

} // verus!
