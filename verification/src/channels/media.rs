//! Media payload helpers shared by the audio and video channels.

use vstd::prelude::*;
use vstd::slice::slice_to_vec;

verus! {

/// Big-endian value of the first eight bytes.
pub open spec fn be64(p: Seq<u8>) -> nat {
    p[0] as nat * 0x100_0000_0000_0000 + p[1] as nat * 0x1_0000_0000_0000 + p[2] as nat
        * 0x100_0000_0000 + p[3] as nat * 0x1_0000_0000 + p[4] as nat * 0x100_0000 + p[5] as nat
        * 0x1_0000 + p[6] as nat * 0x100 + p[7] as nat
}

/// The eight bytes of `v`, most significant first.
pub open spec fn be64_bytes(v: u64) -> Seq<u8> {
    seq![
        ((v as nat / 0x100_0000_0000_0000) % 256) as u8,
        ((v as nat / 0x1_0000_0000_0000) % 256) as u8,
        ((v as nat / 0x100_0000_0000) % 256) as u8,
        ((v as nat / 0x1_0000_0000) % 256) as u8,
        ((v as nat / 0x100_0000) % 256) as u8,
        ((v as nat / 0x1_0000) % 256) as u8,
        ((v as nat / 0x100) % 256) as u8,
        (v as nat % 256) as u8,
    ]
}

/// A frame carrying a timestamp starts with it (8 bytes, big endian) when it is long enough.
pub open spec fn has_stamp(payload: Seq<u8>, stamped: bool) -> bool {
    stamped && payload.len() >= 8
}

pub open spec fn media_payload(payload: Seq<u8>, stamped: bool) -> Seq<u8> {
    if has_stamp(payload, stamped) {
        payload.skip(8)
    } else {
        payload
    }
}

/// The frame's own timestamp, or the wall-clock time `now_ns` when it carries none.
pub open spec fn media_timestamp(payload: Seq<u8>, stamped: bool, now_ns: u64) -> u64 {
    if has_stamp(payload, stamped) {
        be64(payload) as u64
    } else {
        now_ns
    }
}

pub fn read_be64(p: &[u8]) -> (v: u64)
    requires
        p@.len() >= 8,
    ensures
        v as nat == be64(p@),
{
    (p[0] as u64) * 0x100_0000_0000_0000 + (p[1] as u64) * 0x1_0000_0000_0000 + (p[2] as u64)
        * 0x100_0000_0000 + (p[3] as u64) * 0x1_0000_0000 + (p[4] as u64) * 0x100_0000 + (p[5]
        as u64) * 0x1_0000 + (p[6] as u64) * 0x100 + (p[7] as u64)
}

pub fn write_be64(v: u64) -> (out: Vec<u8>)
    ensures
        out@ == be64_bytes(v),
{
    let mut out: Vec<u8> = Vec::new();
    out.push(((v / 0x100_0000_0000_0000) % 256) as u8);
    out.push(((v / 0x1_0000_0000_0000) % 256) as u8);
    out.push(((v / 0x100_0000_0000) % 256) as u8);
    out.push(((v / 0x1_0000_0000) % 256) as u8);
    out.push(((v / 0x100_0000) % 256) as u8);
    out.push(((v / 0x1_0000) % 256) as u8);
    out.push(((v / 0x100) % 256) as u8);
    out.push((v % 256) as u8);
    assert(out@ =~= be64_bytes(v));
    out
}

/// Split a media frame into its timestamp and data.
pub fn split_media(payload: &[u8], stamped: bool, now_ns: u64) -> (r: (u64, Vec<u8>))
    ensures
        r.0 == media_timestamp(payload@, stamped, now_ns),
        r.1@ == media_payload(payload@, stamped),
{
    if stamped && payload.len() >= 8 {
        let ts = read_be64(payload);
        (ts, slice_to_vec(&payload[8..payload.len()]))
    } else {
        (now_ns, slice_to_vec(payload))
    }
}

} // verus!
