//! Android Auto wire-protocol frame codec.
//!
//! Frame layout (channel + flags header is always plaintext, the payload may be encrypted):
//!
//!   SHORT (BULK, MIDDLE, LAST):
//!     byte 0: channel id, byte 1: flags, bytes 2-3: payload size (u16 BE), then the payload.
//!
//!   EXTENDED (FIRST fragment of a multi-frame message, flags bit0 = 1 and bit1 = 0):
//!     byte 0: channel id, byte 1: flags, bytes 2-3: this fragment's payload size (u16 BE),
//!     bytes 4-7: full reassembled message size (u32 BE), then the payload.
//!
//! A plaintext payload starts with the message id (u16 BE), followed by the message body.

use vstd::prelude::*;
use vstd::slice::slice_to_vec;

verus! {

pub const FRAME_HEADER_SHORT: usize = 4;

pub const FRAME_HEADER_EXTENDED: usize = 8;

/// Number of channel slots (channel ids are one byte).
pub const CHANNEL_SLOTS: usize = 256;

pub open spec fn is_first_flag(flags: u8) -> bool {
    flags % 2 == 1
}

pub open spec fn is_last_flag(flags: u8) -> bool {
    (flags / 2) % 2 == 1
}

pub open spec fn is_extended_flag(flags: u8) -> bool {
    is_first_flag(flags) && !is_last_flag(flags)
}

pub open spec fn header_len(flags: u8) -> nat {
    if is_extended_flag(flags) {
        8
    } else {
        4
    }
}

pub open spec fn be16(hi: u8, lo: u8) -> nat {
    hi as nat * 256 + lo as nat
}

pub open spec fn be32(b0: u8, b1: u8, b2: u8, b3: u8) -> nat {
    ((b0 as nat * 256 + b1 as nat) * 256 + b2 as nat) * 256 + b3 as nat
}

pub open spec fn hi_byte(n: nat) -> u8 {
    ((n / 256) % 256) as u8
}

pub open spec fn lo_byte(n: nat) -> u8 {
    (n % 256) as u8
}

/// A whole frame (header and payload) sits at the front of `buf`.
pub open spec fn frame_ready(buf: Seq<u8>) -> bool {
    &&& buf.len() >= 4
    &&& buf.len() >= header_len(buf[1]) + be16(buf[2], buf[3])
}

pub open spec fn frame_total(buf: Seq<u8>) -> nat {
    header_len(buf[1]) + be16(buf[2], buf[3])
}

/// The full message size an EXTENDED header announces (0 for a short header).
pub open spec fn announced_size(buf: Seq<u8>) -> u32 {
    if is_extended_flag(buf[1]) {
        be32(buf[4], buf[5], buf[6], buf[7]) as u32
    } else {
        0
    }
}

pub struct RawFrame {
    pub channel_id: u8,
    pub flags: u8,
    /// First two payload bytes (after framing).
    pub msg_id: u16,
    /// Payload bytes after the message id.
    pub payload: Vec<u8>,
    /// Full payload including the message id bytes.
    pub raw_payload: Vec<u8>,
}

pub struct RawFrameView {
    pub channel_id: u8,
    pub flags: u8,
    pub msg_id: u16,
    pub payload: Seq<u8>,
    pub raw_payload: Seq<u8>,
}

impl View for RawFrame {
    type V = RawFrameView;

    open spec fn view(&self) -> RawFrameView {
        RawFrameView {
            channel_id: self.channel_id,
            flags: self.flags,
            msg_id: self.msg_id,
            payload: self.payload@,
            raw_payload: self.raw_payload@,
        }
    }
}

pub open spec fn frames_view(v: Seq<RawFrame>) -> Seq<RawFrameView> {
    v.map_values(|f: RawFrame| f@)
}

/// The frame a complete payload becomes: nothing when it cannot hold a message id.
pub open spec fn emit_spec(channel_id: u8, flags: u8, raw: Seq<u8>) -> Seq<RawFrameView> {
    if raw.len() < 2 {
        Seq::empty()
    } else {
        seq![
            RawFrameView {
                channel_id,
                flags,
                msg_id: be16(raw[0], raw[1]) as u16,
                payload: raw.skip(2),
                raw_payload: raw,
            },
        ]
    }
}

/// Reassembly state of one channel: the payload bytes gathered so far and the size the FIRST
/// fragment announced.
pub struct FragView {
    pub parts: Seq<u8>,
    pub total_size: u32,
}

/// What one frame does to the per-channel reassembly state, and what it emits.
///   BULK (first and last): emitted at once.
///   FIRST: starts (or restarts) reassembly on its channel.
///   MIDDLE / LAST: appended to the channel's message in progress (dropped when there is none);
///   LAST emits the whole message and clears the channel.
pub open spec fn handle_spec(
    frags: Seq<Option<FragView>>,
    channel_id: u8,
    flags: u8,
    payload: Seq<u8>,
    announced: u32,
) -> (Seq<Option<FragView>>, Seq<RawFrameView>) {
    if is_first_flag(flags) && is_last_flag(flags) {
        (frags, emit_spec(channel_id, flags, payload))
    } else if is_first_flag(flags) {
        (
            frags.update(channel_id as int, Some(FragView { parts: payload, total_size: announced })),
            Seq::empty(),
        )
    } else {
        match frags[channel_id as int] {
            None => (frags, Seq::empty()),
            Some(st) => {
                let parts = st.parts + payload;
                if is_last_flag(flags) {
                    (frags.update(channel_id as int, None), emit_spec(channel_id, flags, parts))
                } else {
                    (
                        frags.update(
                            channel_id as int,
                            Some(FragView { parts, total_size: st.total_size }),
                        ),
                        Seq::empty(),
                    )
                }
            },
        }
    }
}

/// Consume every complete frame at the front of `buf`: the bytes left over, the reassembly
/// state afterwards, and the frames emitted, in order.
pub open spec fn drain_spec(buf: Seq<u8>, frags: Seq<Option<FragView>>) -> (
    Seq<u8>,
    Seq<Option<FragView>>,
    Seq<RawFrameView>,
)
    decreases buf.len(),
{
    if !frame_ready(buf) {
        (buf, frags, Seq::empty())
    } else {
        let t = frame_total(buf);
        let payload = buf.subrange(header_len(buf[1]) as int, t as int);
        let (f2, o) = handle_spec(frags, buf[0], buf[1], payload, announced_size(buf));
        let (r, f3, out) = drain_spec(buf.skip(t as int), f2);
        (r, f3, o + out)
    }
}

/// The bytes `encode_raw_frame` writes: short header, then the payload (size kept to 16 bits).
pub open spec fn raw_frame_bytes(channel_id: u8, flags: u8, payload: Seq<u8>) -> Seq<u8> {
    seq![channel_id, flags, hi_byte(payload.len()), lo_byte(payload.len())] + payload
}

/// The bytes `encode_frame` writes: a short header whose payload is the message id then data.
pub open spec fn frame_bytes(channel_id: u8, flags: u8, msg_id: u16, data: Seq<u8>) -> Seq<u8> {
    raw_frame_bytes(channel_id, flags, seq![hi_byte(msg_id as nat), lo_byte(msg_id as nat)] + data)
}

/// A message to send: which channel, the frame flags (encrypted when bit 3 is set), the
/// message id and its body.
pub struct OutFrame {
    pub channel_id: u8,
    pub flags: u8,
    pub msg_id: u16,
    pub data: Vec<u8>,
}

pub struct OutFrameView {
    pub channel_id: u8,
    pub flags: u8,
    pub msg_id: u16,
    pub data: Seq<u8>,
}

impl View for OutFrame {
    type V = OutFrameView;

    open spec fn view(&self) -> OutFrameView {
        OutFrameView {
            channel_id: self.channel_id,
            flags: self.flags,
            msg_id: self.msg_id,
            data: self.data@,
        }
    }
}

pub open spec fn out_view(v: Seq<OutFrame>) -> Seq<OutFrameView> {
    v.map_values(|f: OutFrame| f@)
}

pub open spec fn out_frame(channel_id: u8, flags: u8, msg_id: u16, data: Seq<u8>) -> OutFrameView {
    OutFrameView { channel_id, flags, msg_id, data }
}

/// Queue a message on an outbox.
pub fn send_out(out: &mut Vec<OutFrame>, channel_id: u8, flags: u8, msg_id: u16, data: Vec<u8>)
    ensures
        out_view(final(out)@) == out_view(old(out)@).push(
            out_frame(channel_id, flags, msg_id, data@),
        ),
{
    let ghost before = out_view(out@);
    out.push(OutFrame { channel_id, flags, msg_id, data });
    assert(out_view(out@) =~= before.push(out_frame(channel_id, flags, msg_id, data@)));
}

// ---------------------------------------------------------------------------------------
// Laws
// ---------------------------------------------------------------------------------------

/// Parsing `x` then `y` gives what parsing `x + y` gives: frames split across reads are
/// reassembled the same way as when they arrive in one piece.
pub proof fn lemma_drain_append(x: Seq<u8>, y: Seq<u8>, frags: Seq<Option<FragView>>)
    ensures
        ({
            let (r, f1, o1) = drain_spec(x, frags);
            let (r2, f2, o2) = drain_spec(r + y, f1);
            drain_spec(x + y, frags) == (r2, f2, o1 + o2)
        }),
    decreases x.len(),
{
    let (r, f1, o1) = drain_spec(x, frags);
    if frame_ready(x) {
        let xy = x + y;
        let t = frame_total(x);
        assert(xy[0] == x[0] && xy[1] == x[1] && xy[2] == x[2] && xy[3] == x[3]);
        if is_extended_flag(x[1]) {
            assert(xy[4] == x[4] && xy[5] == x[5] && xy[6] == x[6] && xy[7] == x[7]);
        }
        assert(frame_ready(xy));
        assert(frame_total(xy) == t);
        assert(announced_size(xy) == announced_size(x));
        let hl = header_len(x[1]);
        assert(xy.subrange(hl as int, t as int) =~= x.subrange(hl as int, t as int));
        assert(xy.skip(t as int) =~= x.skip(t as int) + y);
        let payload = x.subrange(hl as int, t as int);
        let (fa, oa) = handle_spec(frags, x[0], x[1], payload, announced_size(x));
        lemma_drain_append(x.skip(t as int), y, fa);
        let (rb, fb, ob) = drain_spec(x.skip(t as int), fa);
        let (r2, f2, o2) = drain_spec(rb + y, fb);
        assert(oa + (ob + o2) =~= (oa + ob) + o2);
    } else {
        assert(Seq::<RawFrameView>::empty() + drain_spec(x + y, frags).2 =~= drain_spec(
            x + y,
            frags,
        ).2);
    }
}

/// A BULK frame written by `encode_frame` and followed by anything is read back as exactly
/// that frame, after which parsing continues with what follows.
pub proof fn lemma_encode_frame_roundtrip(
    channel_id: u8,
    flags: u8,
    msg_id: u16,
    data: Seq<u8>,
    rest: Seq<u8>,
    frags: Seq<Option<FragView>>,
)
    requires
        is_first_flag(flags),
        is_last_flag(flags),
        data.len() + 2 <= 0xffff,
    ensures
        ({
            let (r, f, o) = drain_spec(rest, frags);
            drain_spec(frame_bytes(channel_id, flags, msg_id, data) + rest, frags) == (
                r,
                f,
                seq![
                    RawFrameView {
                        channel_id,
                        flags,
                        msg_id,
                        payload: data,
                        raw_payload: seq![hi_byte(msg_id as nat), lo_byte(msg_id as nat)] + data,
                    },
                ] + o,
            )
        }),
{
    let raw = seq![hi_byte(msg_id as nat), lo_byte(msg_id as nat)] + data;
    let e = frame_bytes(channel_id, flags, msg_id, data);
    let b = e + rest;
    assert(b[0] == channel_id && b[1] == flags);
    assert(b[2] == hi_byte(raw.len()) && b[3] == lo_byte(raw.len()));
    assert(be16(b[2], b[3]) == raw.len());
    assert(frame_ready(b));
    assert(frame_total(b) == 4 + raw.len());
    assert(b.subrange(4, 4 + raw.len() as int) =~= raw);
    assert(b.skip(4 + raw.len() as int) =~= rest);
    assert(be16(raw[0], raw[1]) == msg_id as nat);
    assert(raw.skip(2) =~= data);
}

/// A FIRST fragment on the wire: channel, flags, the 16-bit payload size, the four bytes of the
/// announced total, then the payload.
pub open spec fn first_fragment_wire(c: u8, flags: u8, total: Seq<u8>, payload: Seq<u8>) -> Seq<u8> {
    seq![c, flags, ((payload.len() / 256) % 256) as u8, (payload.len() % 256) as u8] + total
        + payload
}

/// A MIDDLE or LAST fragment on the wire: channel, flags, the 16-bit payload size, then the
/// payload.
pub open spec fn fragment_wire(c: u8, flags: u8, payload: Seq<u8>) -> Seq<u8> {
    seq![c, flags, ((payload.len() / 256) % 256) as u8, (payload.len() % 256) as u8] + payload
}

/// MIDDLE fragments one after the other.
pub open spec fn middles_wire(c: u8, flags: u8, ms: Seq<Seq<u8>>) -> Seq<u8>
    decreases ms.len(),
{
    if ms.len() == 0 {
        Seq::empty()
    } else {
        fragment_wire(c, flags, ms[0]) + middles_wire(c, flags, ms.drop_first())
    }
}

proof fn lemma_drain_one_short(
    c: u8,
    flags: u8,
    payload: Seq<u8>,
    rest: Seq<u8>,
    frags: Seq<Option<FragView>>,
)
    requires
        flags % 4 != 1,
        payload.len() <= 0xffff,
    ensures
        ({
            let (f2, o) = handle_spec(frags, c, flags, payload, 0);
            let (r, f3, out) = drain_spec(rest, f2);
            drain_spec(fragment_wire(c, flags, payload) + rest, frags) == (r, f3, o + out)
        }),
{
    let b = fragment_wire(c, flags, payload) + rest;
    assert(b[0] == c && b[1] == flags);
    assert(!is_extended_flag(flags));
    assert(be16(b[2], b[3]) == payload.len());
    assert(frame_ready(b));
    assert(frame_total(b) == 4 + payload.len());
    assert(b.subrange(4, 4 + payload.len() as int) =~= payload);
    assert(b.skip(4 + payload.len() as int) =~= rest);
}

proof fn lemma_drain_one_first(
    c: u8,
    flags: u8,
    total: Seq<u8>,
    payload: Seq<u8>,
    rest: Seq<u8>,
    frags: Seq<Option<FragView>>,
)
    requires
        flags % 4 == 1,
        total.len() == 4,
        payload.len() <= 0xffff,
    ensures
        drain_spec(first_fragment_wire(c, flags, total, payload) + rest, frags) == drain_spec(
            rest,
            frags.update(
                c as int,
                Some(FragView { parts: payload, total_size: be32(total[0], total[1], total[2], total[3]) as u32 }),
            ),
        ),
{
    let b = first_fragment_wire(c, flags, total, payload) + rest;
    assert(b[0] == c && b[1] == flags);
    assert(is_extended_flag(flags));
    assert(be16(b[2], b[3]) == payload.len());
    assert(b[4] == total[0] && b[5] == total[1] && b[6] == total[2] && b[7] == total[3]);
    assert(frame_ready(b));
    assert(frame_total(b) == 8 + payload.len());
    assert(b.subrange(8, 8 + payload.len() as int) =~= payload);
    assert(b.skip(8 + payload.len() as int) =~= rest);
    let (r, f3, out) = drain_spec(rest, frags.update(
        c as int,
        Some(FragView { parts: payload, total_size: be32(total[0], total[1], total[2], total[3]) as u32 }),
    ));
    assert(Seq::<RawFrameView>::empty() + out =~= out);
}

proof fn lemma_drain_middles(
    c: u8,
    flags: u8,
    ms: Seq<Seq<u8>>,
    rest: Seq<u8>,
    frags: Seq<Option<FragView>>,
    parts: Seq<u8>,
    total: u32,
)
    requires
        flags % 4 == 0,
        frags.len() == CHANNEL_SLOTS,
        frags[c as int] == Some(FragView { parts, total_size: total }),
        forall|i: int| 0 <= i < ms.len() ==> (#[trigger] ms[i]).len() <= 0xffff,
    ensures
        drain_spec(middles_wire(c, flags, ms) + rest, frags) == drain_spec(
            rest,
            frags.update(c as int, Some(FragView { parts: parts + ms.flatten(), total_size: total })),
        ),
    decreases ms.len(),
{
    if ms.len() == 0 {
        assert(middles_wire(c, flags, ms) + rest =~= rest);
        assert(parts + ms.flatten() =~= parts);
        assert(frags.update(c as int, Some(FragView { parts, total_size: total })) =~= frags);
    } else {
        let tl = ms.drop_first();
        let tail = middles_wire(c, flags, tl) + rest;
        assert(middles_wire(c, flags, ms) + rest =~= fragment_wire(c, flags, ms[0]) + tail);
        lemma_drain_one_short(c, flags, ms[0], tail, frags);
        let p1 = parts + ms[0];
        let f1 = frags.update(c as int, Some(FragView { parts: p1, total_size: total }));
        assert(handle_spec(frags, c, flags, ms[0], 0) == (f1, Seq::<RawFrameView>::empty()));
        assert forall|i: int| 0 <= i < tl.len() implies (#[trigger] tl[i]).len() <= 0xffff by {
            assert(tl[i] == ms[i + 1]);
        }
        lemma_drain_middles(c, flags, tl, rest, f1, p1, total);
        let (r, f3, out) = drain_spec(tail, f1);
        assert(Seq::<RawFrameView>::empty() + out =~= out);
        assert(p1 + tl.flatten() =~= parts + ms.flatten());
        assert(f1.update(c as int, Some(FragView { parts: p1 + tl.flatten(), total_size: total }))
            =~= frags.update(c as int, Some(FragView { parts: parts + ms.flatten(), total_size: total })));
    }
}

/// A message cut into a FIRST fragment carrying `first`, MIDDLE fragments carrying `middles`
/// and a LAST fragment carrying `last`, all on one channel, comes out of the parser as exactly
/// one frame on that channel whose raw payload is the fragments' payloads joined in the order
/// they arrived; its first two bytes are the big-endian message id and the rest is the
/// payload. Afterwards the channel has no message in progress.
pub proof fn lemma_parser_reassembles_fragments(
    frags: Seq<Option<FragView>>,
    c: u8,
    first_flags: u8,
    total: Seq<u8>,
    first: Seq<u8>,
    middle_flags: u8,
    middles: Seq<Seq<u8>>,
    last_flags: u8,
    last: Seq<u8>,
)
    requires
        frags.len() == CHANNEL_SLOTS,
        first_flags % 4 == 1,
        middle_flags % 4 == 0,
        last_flags % 4 == 2,
        total.len() == 4,
        first.len() <= 0xffff,
        last.len() <= 0xffff,
        forall|i: int| 0 <= i < middles.len() ==> (#[trigger] middles[i]).len() <= 0xffff,
        (first + middles.flatten() + last).len() >= 2,
    ensures
        ({
            let wire = first_fragment_wire(c, first_flags, total, first) + middles_wire(
                c,
                middle_flags,
                middles,
            ) + fragment_wire(c, last_flags, last);
            let whole = first + middles.flatten() + last;
            drain_spec(wire, frags) == (
                Seq::<u8>::empty(),
                frags.update(c as int, None),
                seq![
                    RawFrameView {
                        channel_id: c,
                        flags: last_flags,
                        msg_id: (whole[0] as nat * 256 + whole[1] as nat) as u16,
                        payload: whole.subrange(2, whole.len() as int),
                        raw_payload: whole,
                    },
                ],
            )
        }),
{
    let ts = be32(total[0], total[1], total[2], total[3]) as u32;
    let lw = fragment_wire(c, last_flags, last);
    let mw = middles_wire(c, middle_flags, middles);
    let fw = first_fragment_wire(c, first_flags, total, first);
    assert(fw + mw + lw =~= fw + (mw + lw));
    lemma_drain_one_first(c, first_flags, total, first, mw + lw, frags);
    let f1 = frags.update(c as int, Some(FragView { parts: first, total_size: ts }));
    lemma_drain_middles(c, middle_flags, middles, lw, f1, first, ts);
    let p2 = first + middles.flatten();
    let f2 = f1.update(c as int, Some(FragView { parts: p2, total_size: ts }));
    assert(lw + Seq::<u8>::empty() =~= lw);
    lemma_drain_one_short(c, last_flags, last, Seq::empty(), f2);
    assert(f2[c as int] == Some(FragView { parts: p2, total_size: ts }));
    let whole = p2 + last;
    assert(whole == first + middles.flatten() + last);
    assert(f2.update(c as int, None) =~= frags.update(c as int, None));
    assert(drain_spec(Seq::<u8>::empty(), frags.update(c as int, None)) == (
        Seq::<u8>::empty(),
        frags.update(c as int, None),
        Seq::<RawFrameView>::empty(),
    ));
    assert(whole.skip(2) =~= whole.subrange(2, whole.len() as int));
    assert(emit_spec(c, last_flags, whole) + Seq::<RawFrameView>::empty() =~= emit_spec(
        c,
        last_flags,
        whole,
    ));
}

// ---------------------------------------------------------------------------------------
// Executable code
// ---------------------------------------------------------------------------------------

/// Write a short-header frame around an already-formed payload.
pub fn encode_raw_frame(channel_id: u8, flags: u8, payload: &[u8]) -> (out: Vec<u8>)
    ensures
        out@ == raw_frame_bytes(channel_id, flags, payload@),
{
    let mut frame: Vec<u8> = Vec::new();
    frame.push(channel_id);
    frame.push(flags);
    frame.push(((payload.len() / 256) % 256) as u8);
    frame.push((payload.len() % 256) as u8);
    let ghost head = frame@;
    frame.extend_from_slice(payload);
    proof {
        assert(head =~= seq![
            channel_id,
            flags,
            hi_byte(payload@.len()),
            lo_byte(payload@.len()),
        ]);
        assert(frame@ =~= head + payload@);
    }
    frame
}

/// Encode a complete BULK frame ready to write to the socket.
pub fn encode_frame(channel_id: u8, flags: u8, msg_id: u16, data: &[u8]) -> (out: Vec<u8>)
    ensures
        out@ == frame_bytes(channel_id, flags, msg_id, data@),
{
    let mut full_payload: Vec<u8> = Vec::new();
    full_payload.push((msg_id / 256) as u8);
    full_payload.push((msg_id % 256) as u8);
    let ghost head = full_payload@;
    full_payload.extend_from_slice(data);
    proof {
        assert(head =~= seq![hi_byte(msg_id as nat), lo_byte(msg_id as nat)]);
        assert(full_payload@ =~= head + data@);
    }
    encode_raw_frame(channel_id, flags, full_payload.as_slice())
}

pub struct Fragment {
    pub parts: Vec<u8>,
    pub total_size: u32,
}

impl View for Fragment {
    type V = FragView;

    open spec fn view(&self) -> FragView {
        FragView { parts: self.parts@, total_size: self.total_size }
    }
}

pub open spec fn slot_view(o: Option<Fragment>) -> Option<FragView> {
    match o {
        Some(f) => Some(f@),
        None => None,
    }
}

pub open spec fn slots_view(v: Seq<Option<Fragment>>) -> Seq<Option<FragView>> {
    v.map_values(|o: Option<Fragment>| slot_view(o))
}

/// Streaming frame parser: feed raw bytes with `push`, which returns the frames that
/// completed. Handles fragmented reads and FIRST -> MIDDLE* -> LAST reassembly per channel.
pub struct FrameParser {
    buf: Vec<u8>,
    fragments: Vec<Option<Fragment>>,
}

pub struct ParserView {
    pub buf: Seq<u8>,
    pub frags: Seq<Option<FragView>>,
}

impl View for FrameParser {
    type V = ParserView;

    closed spec fn view(&self) -> ParserView {
        ParserView { buf: self.buf@, frags: slots_view(self.fragments@) }
    }
}

impl FrameParser {
    /// One reassembly slot per channel.
    pub closed spec fn wf(&self) -> bool {
        self.fragments@.len() == CHANNEL_SLOTS
    }

    pub fn new() -> (p: FrameParser)
        ensures
            p.wf(),
            p@.buf == Seq::<u8>::empty(),
            p@.frags == Seq::new(CHANNEL_SLOTS as nat, |i: int| None::<FragView>),
    {
        let mut fragments: Vec<Option<Fragment>> = Vec::new();
        let mut i: usize = 0;
        while i < CHANNEL_SLOTS
            invariant
                i <= CHANNEL_SLOTS,
                fragments@.len() == i,
                forall|k: int| 0 <= k < i ==> fragments@[k].is_none(),
            decreases CHANNEL_SLOTS - i,
        {
            fragments.push(None);
            i = i + 1;
        }
        let p = FrameParser { buf: Vec::new(), fragments };
        assert(p@.frags =~= Seq::new(CHANNEL_SLOTS as nat, |i: int| None::<FragView>));
        p
    }

    /// Append `chunk` and return every frame that completed.
    pub fn push(&mut self, chunk: &[u8]) -> (out: Vec<RawFrame>)
        requires
            old(self).wf(),
        ensures
            final(self).wf(),
            ({
                let (r, f, o) = drain_spec(old(self)@.buf + chunk@, old(self)@.frags);
                &&& final(self)@.buf == r
                &&& final(self)@.frags == f
                &&& frames_view(out@) == o
            }),
    {
        let ghost before = self.buf@;
        self.buf.extend_from_slice(chunk);
        assert(self.buf@ =~= before + chunk@);
        self.drain()
    }

    fn drain(&mut self) -> (out: Vec<RawFrame>)
        requires
            old(self).wf(),
        ensures
            final(self).wf(),
            ({
                let (r, f, o) = drain_spec(old(self)@.buf, old(self)@.frags);
                &&& final(self)@.buf == r
                &&& final(self)@.frags == f
                &&& frames_view(out@) == o
            }),
    {
        let ghost b0 = self.buf@;
        let ghost d0 = drain_spec(b0, self@.frags);
        let mut out: Vec<RawFrame> = Vec::new();
        let mut pos: usize = 0;
        let len = self.buf.len();
        proof {
            assert(b0.skip(0) =~= b0);
            assert(frames_view(out@) + d0.2 =~= d0.2);
        }
        loop
            invariant_except_break
                self.wf(),
                len == self.buf@.len(),
                self.buf@ == b0,
                pos <= len,
                ({
                    let d = drain_spec(b0.skip(pos as int), self@.frags);
                    &&& d.0 == d0.0
                    &&& d.1 == d0.1
                    &&& frames_view(out@) + d.2 == d0.2
                }),
            ensures
                self.wf(),
                self.buf@ == b0,
                pos <= len,
                !frame_ready(b0.skip(pos as int)),
                b0.skip(pos as int) == d0.0,
                self@.frags == d0.1,
                frames_view(out@) == d0.2,
            decreases len - pos,
        {
            let ghost rest = b0.skip(pos as int);
            let rem = len - pos;
            let mut ready = rem >= FRAME_HEADER_SHORT;
            let mut header: usize = FRAME_HEADER_SHORT;
            let mut total: usize = 0;
            let mut flags: u8 = 0;
            if ready {
                flags = self.buf[pos + 1];
                let is_first = flags % 2 == 1;
                let is_last = (flags / 2) % 2 == 1;
                if is_first && !is_last {
                    header = FRAME_HEADER_EXTENDED;
                }
                let payload_size = (self.buf[pos + 2] as usize) * 256 + (self.buf[pos + 3] as usize);
                total = header + payload_size;
                ready = rem >= total;
                proof {
                    assert(rest[1] == flags && rest[2] == self.buf@[pos + 2] && rest[3]
                        == self.buf@[pos + 3]);
                    assert(header == header_len(flags));
                    assert(ready == frame_ready(rest));
                }
            }
            if !ready {
                proof {
                    assert(!frame_ready(rest));
                    assert(frames_view(out@) + Seq::<RawFrameView>::empty() =~= frames_view(out@));
                }
                break;
            }
            let channel_id = self.buf[pos];
            let announced: u32 = if header == FRAME_HEADER_EXTENDED {
                let a = (((self.buf[pos + 4] as u32) * 256 + (self.buf[pos + 5] as u32)) * 256
                    + (self.buf[pos + 6] as u32)) * 256 + (self.buf[pos + 7] as u32);
                a
            } else {
                0
            };
            let payload = slice_to_vec(&self.buf.as_slice()[pos + header..pos + total]);
            proof {
                assert(rest[0] == channel_id);
                if header == FRAME_HEADER_EXTENDED {
                    assert(rest[4] == self.buf@[pos + 4] && rest[5] == self.buf@[pos + 5]
                        && rest[6] == self.buf@[pos + 6] && rest[7] == self.buf@[pos + 7]);
                }
                assert(announced == announced_size(rest));
                assert(payload@ =~= rest.subrange(header as int, total as int));
                assert(rest.skip(total as int) =~= b0.skip((pos + total) as int));
            }
            let ghost out_before = frames_view(out@);
            let ghost frags_before = self@.frags;
            self.handle_frame(channel_id, flags, payload, announced, &mut out);
            proof {
                let (f2, o) = handle_spec(
                    frags_before,
                    channel_id,
                    flags,
                    rest.subrange(header as int, total as int),
                    announced,
                );
                assert(frames_view(out@) =~= out_before + o);
                let d = drain_spec(rest, frags_before);
                let dn = drain_spec(b0.skip((pos + total) as int), f2);
                assert(d.2 == o + dn.2);
                assert(frames_view(out@) + dn.2 =~= out_before + d.2);
            }
            pos = pos + total;
        }
        let remaining = slice_to_vec(&self.buf.as_slice()[pos..len]);
        proof {
            assert(remaining@ =~= b0.skip(pos as int));
        }
        self.buf = remaining;
        out
    }

    fn handle_frame(
        &mut self,
        channel_id: u8,
        flags: u8,
        payload: Vec<u8>,
        announced_total_size: u32,
        out: &mut Vec<RawFrame>,
    )
        requires
            old(self).wf(),
        ensures
            final(self).wf(),
            final(self).buf@ == old(self).buf@,
            ({
                let (f, o) = handle_spec(
                    old(self)@.frags,
                    channel_id,
                    flags,
                    payload@,
                    announced_total_size,
                );
                &&& final(self)@.frags == f
                &&& frames_view(final(out)@) == frames_view(old(out)@) + o
            }),
    {
        let is_first = flags % 2 == 1;
        let is_last = (flags / 2) % 2 == 1;
        let ch = channel_id as usize;
        if is_first && is_last {
            emit(channel_id, flags, payload, out);
            return;
        }
        if is_first && !is_last {
            let ghost before = self.fragments@;
            self.fragments.set(
                ch,
                Some(Fragment { parts: payload, total_size: announced_total_size }),
            );
            proof {
                assert(slots_view(self.fragments@) =~= slots_view(before).update(
                    ch as int,
                    Some(FragView { parts: payload@, total_size: announced_total_size }),
                ));
                assert(frames_view(out@) =~= frames_view(out@) + Seq::<RawFrameView>::empty());
            }
            return;
        }
        let ghost before = self.fragments@;
        let slot = self.fragments.remove(ch);
        self.fragments.insert(ch, None);
        proof {
            assert(self.fragments@ =~= before.update(ch as int, None));
        }
        match slot {
            None => {
                proof {
                    assert(slots_view(self.fragments@) =~= slots_view(before));
                    assert(frames_view(out@) =~= frames_view(out@) + Seq::<RawFrameView>::empty());
                }
            },
            Some(state) => {
                let mut parts = state.parts;
                let total_size = state.total_size;
                let ghost old_parts = parts@;
                let mut payload = payload;
                parts.append(&mut payload);
                if is_last {
                    proof {
                        assert(slots_view(self.fragments@) =~= slots_view(before).update(
                            ch as int,
                            None,
                        ));
                    }
                    emit(channel_id, flags, parts, out);
                } else {
                    let ghost mid = self.fragments@;
                    let ghost pv = parts@;
                    self.fragments.set(ch, Some(Fragment { parts, total_size }));
                    proof {
                        assert(slots_view(self.fragments@) =~= slots_view(before).update(
                            ch as int,
                            Some(FragView { parts: pv, total_size }),
                        ));
                        assert(frames_view(out@) =~= frames_view(out@)
                            + Seq::<RawFrameView>::empty());
                    }
                }
            },
        }
    }
}

fn emit(channel_id: u8, flags: u8, raw_payload: Vec<u8>, out: &mut Vec<RawFrame>)
    ensures
        frames_view(final(out)@) == frames_view(old(out)@) + emit_spec(
            channel_id,
            flags,
            raw_payload@,
        ),
{
    if raw_payload.len() < 2 {
        assert(frames_view(out@) =~= frames_view(out@) + Seq::<RawFrameView>::empty());
        return;
    }
    let msg_id: u16 = (raw_payload[0] as u16) * 256 + (raw_payload[1] as u16);
    let payload = slice_to_vec(&raw_payload.as_slice()[2..raw_payload.len()]);
    let ghost before = frames_view(out@);
    let f = RawFrame { channel_id, flags, msg_id, payload, raw_payload };
    proof {
        assert(f@.payload =~= f@.raw_payload.skip(2));
    }
    out.push(f);
    assert(frames_view(out@) =~= before + emit_spec(channel_id, flags, f@.raw_payload));
}

} // verus!
