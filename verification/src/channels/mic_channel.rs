//! Microphone channel handler — outbound counterpart of `AudioChannel` on MIC_INPUT (= 9).
//!
//!   Phone -> HU: AV_INPUT_OPEN_REQUEST (0x8005) — MicrophoneRequest { open, .., max_unacked }
//!   HU -> Phone: AV_INPUT_OPEN_RESPONSE (0x8006) — MicrophoneResponse { status, session_id }
//!   HU -> Phone: START_INDICATION (0x8001) — the HU is the sender on input channels
//!   HU -> Phone: AV_MEDIA_WITH_TIMESTAMP (0x0000) — mic PCM frames with timestamp
//!   Phone -> HU: AV_MEDIA_ACK (0x8004) — flow control; STOP_INDICATION (0x8002)

use std::collections::VecDeque;
use vstd::prelude::*;
use crate::constants::{av_msg, frame_flags};
use crate::frame::{out_frame, out_view, send_out, OutFrame, OutFrameView};
use crate::proto::{
    decode_fields, decode_fields_spec, decode_varint_value, field_varint, field_varint_bytes,
    fields_view, read_varint_spec, ProtoFieldView,
};
use super::media::{be64_bytes, write_be64};

verus! {

broadcast use vstd::std_specs::vecdeque::group_vec_dequeue_axioms;

/// Backlog bound: older frames are dropped beyond this many waiting for acks.
pub const MAX_PENDING: usize = 64;

pub enum MicEvent {
    /// Phone asked the HU to begin sending mic PCM.
    Start,
    /// Phone asked the HU to stop, or closed the channel.
    Stop,
    Ignored,
}

pub struct MicChannel {
    channel_id: u8,
    sample_rate: u32,
    channel_count: u32,
    session: i32,
    open: bool,
    max_unacked: u32,
    unacked: u32,
    pending: VecDeque<(u64, Vec<u8>)>,
}

pub struct MicView {
    pub channel_id: u8,
    pub sample_rate: u32,
    pub channel_count: u32,
    /// HU-chosen session id, echoed by the phone in acks.
    pub session: i32,
    /// True between OPEN(open = true) and OPEN(open = false) / STOP.
    pub open: bool,
    pub max_unacked: u32,
    pub unacked: u32,
    /// (timestamp_ns, data) backlog while `unacked >= max_unacked`.
    pub pending: Seq<(u64, Seq<u8>)>,
}

pub open spec fn pending_view(q: Seq<(u64, Vec<u8>)>) -> Seq<(u64, Seq<u8>)> {
    q.map_values(|e: (u64, Vec<u8>)| (e.0, e.1@))
}

impl View for MicChannel {
    type V = MicView;

    closed spec fn view(&self) -> MicView {
        MicView {
            channel_id: self.channel_id,
            sample_rate: self.sample_rate,
            channel_count: self.channel_count,
            session: self.session,
            open: self.open,
            max_unacked: self.max_unacked,
            unacked: self.unacked,
            pending: pending_view(self.pending@),
        }
    }
}

/// What every reachable mic channel satisfies: a closed mic has nothing in flight or waiting,
/// the backlog stays within `MAX_PENDING`, and at least one frame may be in flight.
pub open spec fn mic_wf(s: MicView) -> bool {
    &&& !s.open ==> s.unacked == 0 && s.pending.len() == 0
    &&& s.pending.len() <= MAX_PENDING
    &&& s.max_unacked >= 1
}

/// A PCM frame: AV_MEDIA_WITH_TIMESTAMP with the 8-byte big-endian timestamp first.
pub open spec fn mic_frame(s: MicView, ts: u64, data: Seq<u8>) -> OutFrameView {
    out_frame(s.channel_id, frame_flags::ENC_SIGNAL, av_msg::AV_MEDIA_WITH_TIMESTAMP, be64_bytes(ts) + data)
}

/// Send waiting frames, oldest first, while acks allow.
pub open spec fn mic_drain(s: MicView) -> (MicView, Seq<OutFrameView>)
    decreases s.pending.len(),
{
    if s.pending.len() > 0 && s.unacked < s.max_unacked {
        let (ts, d) = s.pending[0];
        let s1 = MicView { pending: s.pending.drop_first(), unacked: (s.unacked + 1) as u32, ..s };
        let (s2, o) = mic_drain(s1);
        (s2, seq![mic_frame(s, ts, d)] + o)
    } else {
        (s, Seq::empty())
    }
}

/// What `push_pcm` does: nothing while closed; queue (dropping the oldest beyond
/// `MAX_PENDING`) while the phone owes acks; send otherwise.
pub open spec fn mic_push(s: MicView, data: Seq<u8>, ts: u64) -> (MicView, Seq<OutFrameView>) {
    if !s.open {
        (s, Seq::empty())
    } else if s.unacked >= s.max_unacked {
        let p = s.pending.push((ts, data));
        (MicView { pending: if p.len() > MAX_PENDING { p.drop_first() } else { p }, ..s }, Seq::empty())
    } else {
        (MicView { unacked: (s.unacked + 1) as u32, ..s }, seq![mic_frame(s, ts, data)])
    }
}

/// The `open` flag and `max_unacked` a MicrophoneRequest carries (field 1 and field 4, both
/// varints; later fields win; `max_unacked` is at least 1).
pub open spec fn open_request_scan(fs: Seq<ProtoFieldView>, open: bool, max: u32) -> (bool, u32)
    decreases fs.len(),
{
    if fs.len() == 0 {
        (open, max)
    } else {
        let (o, m) = open_request_scan(fs.drop_last(), open, max);
        let f = fs.last();
        let v = read_varint_spec(f.bytes, 0).0;
        if f.field == 1 && f.wire == 0 {
            (v != 0, m)
        } else if f.field == 4 && f.wire == 0 {
            (o, if v >= 1 { v } else { 1 })
        } else {
            (o, m)
        }
    }
}

pub open spec fn open_response(s: MicView) -> OutFrameView {
    out_frame(
        s.channel_id,
        frame_flags::ENC_SIGNAL,
        av_msg::AV_INPUT_OPEN_RESPONSE,
        field_varint_bytes(1, 0) + field_varint_bytes(2, (s.session as i64) as u64),
    )
}

pub open spec fn start_indication(s: MicView) -> OutFrameView {
    out_frame(
        s.channel_id,
        frame_flags::ENC_SIGNAL,
        av_msg::START_INDICATION,
        field_varint_bytes(1, (s.session as i64) as u64) + field_varint_bytes(2, 0),
    )
}

pub open spec fn mic_open_request(s: MicView, payload: Seq<u8>) -> (MicView, MicEventKind, Seq<
    OutFrameView,
>) {
    let (open, max) = open_request_scan(decode_fields_spec(payload), false, s.max_unacked);
    let s1 = MicView { max_unacked: max, ..s };
    if open && !s.open {
        (
            MicView { open: true, unacked: 0, pending: Seq::empty(), ..s1 },
            MicEventKind::Start,
            seq![open_response(s1), start_indication(s1)],
        )
    } else if !open && s.open {
        (
            MicView { open: false, unacked: 0, pending: Seq::empty(), ..s1 },
            MicEventKind::Stop,
            seq![open_response(s1)],
        )
    } else {
        (s1, MicEventKind::Ignored, seq![open_response(s1)])
    }
}

/// Plain mirror of `MicEvent` for contracts.
pub enum MicEventKind {
    Start,
    Stop,
    Ignored,
}

pub open spec fn mic_event_kind(e: MicEvent) -> MicEventKind {
    match e {
        MicEvent::Start => MicEventKind::Start,
        MicEvent::Stop => MicEventKind::Stop,
        MicEvent::Ignored => MicEventKind::Ignored,
    }
}

/// What `handle_message` does.
pub open spec fn mic_step(s: MicView, msg_id: u16, payload: Seq<u8>) -> (MicView, MicEventKind, Seq<
    OutFrameView,
>) {
    if msg_id == av_msg::AV_INPUT_OPEN_REQUEST {
        mic_open_request(s, payload)
    } else if msg_id == av_msg::AV_MEDIA_ACK {
        let s1 = MicView { unacked: if s.unacked > 0 { (s.unacked - 1) as u32 } else { 0 }, ..s };
        let (s2, o) = mic_drain(s1);
        (s2, MicEventKind::Ignored, o)
    } else if msg_id == av_msg::STOP_INDICATION && s.open {
        (MicView { open: false, unacked: 0, pending: Seq::empty(), ..s }, MicEventKind::Stop, Seq::empty())
    } else {
        (s, MicEventKind::Ignored, Seq::empty())
    }
}

proof fn lemma_mic_drain_wf(s: MicView)
    requires
        mic_wf(s),
    ensures
        mic_wf(mic_drain(s).0),
        mic_drain(s).0.open == s.open,
        mic_drain(s).0.channel_id == s.channel_id,
        mic_drain(s).0.session == s.session,
        mic_drain(s).0.max_unacked == s.max_unacked,
        mic_drain(s).0.sample_rate == s.sample_rate,
        mic_drain(s).0.channel_count == s.channel_count,
    decreases s.pending.len(),
{
    if s.pending.len() > 0 && s.unacked < s.max_unacked {
        let s1 = MicView { pending: s.pending.drop_first(), unacked: (s.unacked + 1) as u32, ..s };
        lemma_mic_drain_wf(s1);
    }
}

/// Every handled message keeps the mic channel well formed: a closed mic has nothing in
/// flight or queued, and the backlog never exceeds `MAX_PENDING`.
pub proof fn lemma_mic_step_wf(s: MicView, msg_id: u16, payload: Seq<u8>)
    requires
        mic_wf(s),
    ensures
        mic_wf(mic_step(s, msg_id, payload).0),
{
    if msg_id == av_msg::AV_MEDIA_ACK {
        let s1 = MicView { unacked: if s.unacked > 0 { (s.unacked - 1) as u32 } else { 0 }, ..s };
        lemma_mic_drain_wf(s1);
    } else if msg_id == av_msg::AV_INPUT_OPEN_REQUEST {
        lemma_open_scan_max(decode_fields_spec(payload), false, s.max_unacked);
    }
}

proof fn lemma_open_scan_max(fs: Seq<ProtoFieldView>, open: bool, max: u32)
    requires
        max >= 1,
    ensures
        open_request_scan(fs, open, max).1 >= 1,
    decreases fs.len(),
{
    if fs.len() > 0 {
        lemma_open_scan_max(fs.drop_last(), open, max);
    }
}

/// Pushing PCM keeps the mic channel well formed, and sends nothing while the mic is closed.
pub proof fn lemma_mic_push_wf(s: MicView, data: Seq<u8>, ts: u64)
    requires
        mic_wf(s),
    ensures
        mic_wf(mic_push(s, data, ts).0),
        !s.open ==> mic_push(s, data, ts).1.len() == 0,
{
}

/// A closed microphone is silent: pushing PCM sends and queues nothing, and no message but an
/// open request changes it or makes it send.
pub proof fn lemma_closed_mic_is_silent(
    s: MicView,
    msg_id: u16,
    payload: Seq<u8>,
    data: Seq<u8>,
    ts: u64,
)
    requires
        mic_wf(s),
        !s.open,
    ensures
        mic_push(s, data, ts) == (s, Seq::<OutFrameView>::empty()),
        msg_id != av_msg::AV_INPUT_OPEN_REQUEST ==> mic_step(s, msg_id, payload).0 == s,
        msg_id != av_msg::AV_INPUT_OPEN_REQUEST ==> mic_step(s, msg_id, payload).2
            == Seq::<OutFrameView>::empty(),
{
    if msg_id == av_msg::AV_MEDIA_ACK {
        let s1 = MicView { unacked: 0, ..s };
        assert(s1 == s);
    }
}

/// The flow-control window: no more frames in flight than the phone allows, and frames wait
/// only while the window is full.
pub open spec fn mic_window(s: MicView) -> bool {
    &&& s.unacked <= s.max_unacked
    &&& s.pending.len() > 0 ==> s.unacked == s.max_unacked
}

/// What the mic channel can be handed: a message from the phone, or a captured PCM frame.
pub enum MicInput {
    Message { msg_id: u16, payload: Seq<u8> },
    Pcm { data: Seq<u8>, timestamp_ns: u64 },
}

pub open spec fn mic_apply(s: MicView, i: MicInput) -> MicView {
    match i {
        MicInput::Message { msg_id, payload } => mic_step(s, msg_id, payload).0,
        MicInput::Pcm { data, timestamp_ns } => mic_push(s, data, timestamp_ns).0,
    }
}

/// The mic channel after handling `inputs` in order.
pub open spec fn mic_run(s: MicView, inputs: Seq<MicInput>) -> MicView
    decreases inputs.len(),
{
    if inputs.len() == 0 {
        s
    } else {
        mic_apply(mic_run(s, inputs.drop_last()), inputs.last())
    }
}

/// An open request on an open mic that changes `max_unacked`: the window is resized without
/// sending or dropping anything.
pub open spec fn resizes_window(s: MicView, i: MicInput) -> bool {
    match i {
        MicInput::Message { msg_id, payload } => {
            let (open, max) = open_request_scan(decode_fields_spec(payload), false, s.max_unacked);
            msg_id == av_msg::AV_INPUT_OPEN_REQUEST && s.open && open && max != s.max_unacked
        },
        MicInput::Pcm { .. } => false,
    }
}

proof fn lemma_mic_drain_window(s: MicView)
    requires
        s.unacked <= s.max_unacked,
    ensures
        mic_window(mic_drain(s).0),
        mic_drain(s).0.max_unacked == s.max_unacked,
    decreases s.pending.len(),
{
    if s.pending.len() > 0 && s.unacked < s.max_unacked {
        let s1 = MicView { pending: s.pending.drop_first(), unacked: (s.unacked + 1) as u32, ..s };
        lemma_mic_drain_window(s1);
    }
}

proof fn lemma_mic_apply_window(s: MicView, i: MicInput)
    requires
        mic_wf(s),
        mic_window(s),
        !resizes_window(s, i),
    ensures
        mic_wf(mic_apply(s, i)),
        mic_window(mic_apply(s, i)),
{
    match i {
        MicInput::Message { msg_id, payload } => {
            lemma_mic_step_wf(s, msg_id, payload);
            if msg_id == av_msg::AV_MEDIA_ACK {
                let s1 = MicView {
                    unacked: if s.unacked > 0 {
                        (s.unacked - 1) as u32
                    } else {
                        0
                    },
                    ..s
                };
                lemma_mic_drain_window(s1);
            }
        },
        MicInput::Pcm { data, timestamp_ns } => {
            lemma_mic_push_wf(s, data, timestamp_ns);
        },
    }
}

/// Over any run of messages and PCM frames, the microphone never has more frames in flight
/// than the phone allows, and frames wait for acks only while the window is full, except after
/// an open request that resizes the window of an already open mic.
pub proof fn lemma_mic_window_holds(s: MicView, inputs: Seq<MicInput>)
    requires
        mic_wf(s),
        mic_window(s),
        forall|k: int|
            0 <= k < inputs.len() ==> !resizes_window(
                mic_run(s, inputs.take(k)),
                #[trigger] inputs[k],
            ),
    ensures
        mic_wf(mic_run(s, inputs)),
        mic_window(mic_run(s, inputs)),
    decreases inputs.len(),
{
    if inputs.len() > 0 {
        let prefix = inputs.drop_last();
        assert forall|k: int| 0 <= k < prefix.len() implies !resizes_window(
            mic_run(s, prefix.take(k)),
            #[trigger] prefix[k],
        ) by {
            assert(prefix.take(k) =~= inputs.take(k));
            assert(prefix[k] == inputs[k]);
        }
        lemma_mic_window_holds(s, prefix);
        let k = inputs.len() - 1;
        assert(inputs.take(k) =~= prefix);
        assert(!resizes_window(mic_run(s, inputs.take(k)), inputs[k]));
        lemma_mic_apply_window(mic_run(s, prefix), inputs.last());
    }
}

impl MicChannel {
    pub closed spec fn wf(&self) -> bool {
        mic_wf(self@)
    }

    pub proof fn lemma_wf(&self)
        requires
            self.wf(),
        ensures
            mic_wf(self@),
    {
    }

    pub fn new(channel_id: u8) -> (c: MicChannel)
        ensures
            c.wf(),
            c@ == (MicView {
                channel_id,
                sample_rate: 16000,
                channel_count: 1,
                session: 1,
                open: false,
                max_unacked: 1,
                unacked: 0,
                pending: Seq::empty(),
            }),
    {
        let c = MicChannel {
            channel_id,
            sample_rate: 16000,
            channel_count: 1,
            session: 1,
            open: false,
            max_unacked: 1,
            unacked: 0,
            pending: VecDeque::new(),
        };
        assert(pending_view(c.pending@) =~= Seq::<(u64, Seq<u8>)>::empty());
        c
    }

    pub fn handle_message(&mut self, msg_id: u16, payload: &[u8], out: &mut Vec<OutFrame>) -> (ev:
        MicEvent)
        requires
            old(self).wf(),
            payload@.len() < usize::MAX,
        ensures
            final(self).wf(),
            ({
                let (s, e, sent) = mic_step(old(self)@, msg_id, payload@);
                &&& final(self)@ == s
                &&& mic_event_kind(ev) == e
                &&& out_view(final(out)@) == out_view(old(out)@) + sent
            }),
    {
        proof {
            lemma_mic_step_wf(self@, msg_id, payload@);
        }
        if msg_id == av_msg::AV_INPUT_OPEN_REQUEST {
            self.on_open_request(payload, out)
        } else if msg_id == av_msg::AV_MEDIA_ACK {
            if self.unacked > 0 {
                self.unacked = self.unacked - 1;
            }
            self.drain_pending(out);
            MicEvent::Ignored
        } else if msg_id == av_msg::STOP_INDICATION && self.open {
            self.open = false;
            self.unacked = 0;
            self.pending.clear();
            assert(pending_view(self.pending@) =~= Seq::<(u64, Seq<u8>)>::empty());
            assert(out_view(out@) =~= out_view(out@) + Seq::<OutFrameView>::empty());
            MicEvent::Stop
        } else {
            assert(out_view(out@) =~= out_view(out@) + Seq::<OutFrameView>::empty());
            MicEvent::Ignored
        }
    }

    /// Called when the phone's AV setup request arrives; zero keeps the current value.
    pub fn handle_setup_request(&mut self, sample_rate: u32, channel_count: u32)
        requires
            old(self).wf(),
        ensures
            final(self).wf(),
            final(self)@ == (MicView {
                sample_rate: if sample_rate > 0 {
                    sample_rate
                } else {
                    old(self)@.sample_rate
                },
                channel_count: if channel_count > 0 {
                    channel_count
                } else {
                    old(self)@.channel_count
                },
                ..old(self)@
            }),
    {
        if sample_rate > 0 {
            self.sample_rate = sample_rate;
        }
        if channel_count > 0 {
            self.channel_count = channel_count;
        }
    }

    /// Push a PCM chunk to the phone (see `mic_push`).
    pub fn push_pcm(&mut self, data: Vec<u8>, timestamp_ns: u64, out: &mut Vec<OutFrame>)
        requires
            old(self).wf(),
        ensures
            final(self).wf(),
            ({
                let (s, sent) = mic_push(old(self)@, data@, timestamp_ns);
                &&& final(self)@ == s
                &&& out_view(final(out)@) == out_view(old(out)@) + sent
            }),
    {
        if !self.open {
            assert(out_view(out@) =~= out_view(out@) + Seq::<OutFrameView>::empty());
            return;
        }
        if self.unacked >= self.max_unacked {
            let ghost p = pending_view(self.pending@).push((timestamp_ns, data@));
            self.pending.push_back((timestamp_ns, data));
            assert(pending_view(self.pending@) =~= p);
            if self.pending.len() > MAX_PENDING {
                let _ = self.pending.pop_front();
                assert(pending_view(self.pending@) =~= p.drop_first());
            }
            assert(out_view(out@) =~= out_view(out@) + Seq::<OutFrameView>::empty());
            return;
        }
        let ghost before = out_view(out@);
        self.send_frame(data, timestamp_ns, out);
        assert(out_view(out@) =~= before + seq![mic_frame(old(self)@, timestamp_ns, data@)]);
    }

    fn drain_pending(&mut self, out: &mut Vec<OutFrame>)
        requires
            mic_wf(old(self)@) || old(self)@.pending.len() <= MAX_PENDING,
        ensures
            ({
                let (s, sent) = mic_drain(old(self)@);
                &&& final(self)@ == s
                &&& out_view(final(out)@) == out_view(old(out)@) + sent
            }),
    {
        let ghost s0 = self@;
        let ghost o0 = out_view(out@);
        while self.pending.len() > 0 && self.unacked < self.max_unacked
            invariant
                ({
                    let (s, sent) = mic_drain(self@);
                    &&& s == mic_drain(s0).0
                    &&& out_view(out@) + sent == o0 + mic_drain(s0).1
                }),
            decreases self.pending@.len(),
        {
            let ghost cur = self@;
            let ghost rest_sent = mic_drain(cur).1;
            match self.pending.pop_front() {
                Some(item) => {
                    let (ts, data) = item;
                    let ghost ov = out_view(out@);
                    assert(pending_view(self.pending@) =~= cur.pending.drop_first());
                    self.send_frame(data, ts, out);
                    proof {
                        let s1 = MicView {
                            pending: cur.pending.drop_first(),
                            unacked: (cur.unacked + 1) as u32,
                            ..cur
                        };
                        assert(self@ == s1);
                        assert(rest_sent == seq![mic_frame(cur, ts, data@)] + mic_drain(s1).1);
                        assert(out_view(out@) + mic_drain(s1).1 =~= ov + rest_sent);
                    }
                },
                None => {},
            }
        }
        assert(out_view(out@) + Seq::<OutFrameView>::empty() =~= out_view(out@));
    }

    fn send_frame(&mut self, data: Vec<u8>, timestamp_ns: u64, out: &mut Vec<OutFrame>)
        requires
            old(self).unacked < u32::MAX,
        ensures
            final(self)@ == (MicView { unacked: (old(self)@.unacked + 1) as u32, ..old(self)@ }),
            out_view(final(out)@) == out_view(old(out)@).push(
                mic_frame(old(self)@, timestamp_ns, data@),
            ),
    {
        let mut framed = write_be64(timestamp_ns);
        let ghost head = framed@;
        let mut data = data;
        let ghost dv = data@;
        framed.append(&mut data);
        assert(framed@ =~= head + dv);
        send_out(out, self.channel_id, frame_flags::ENC_SIGNAL, av_msg::AV_MEDIA_WITH_TIMESTAMP, framed);
        self.unacked = self.unacked + 1;
    }

    fn on_open_request(&mut self, payload: &[u8], out: &mut Vec<OutFrame>) -> (ev: MicEvent)
        requires
            old(self).wf(),
            payload@.len() < usize::MAX,
        ensures
            ({
                let (s, e, sent) = mic_open_request(old(self)@, payload@);
                &&& final(self)@ == s
                &&& mic_event_kind(ev) == e
                &&& out_view(final(out)@) == out_view(old(out)@) + sent
            }),
    {
        let fields = decode_fields(payload);
        let ghost fs = fields_view(fields@);
        let mut open = false;
        let mut i: usize = 0;
        let ghost max0 = self.max_unacked;
        proof {
            assert(fs.take(0) =~= Seq::<ProtoFieldView>::empty());
        }
        while i < fields.len()
            invariant
                i <= fields@.len(),
                fs == fields_view(fields@),
                fs == decode_fields_spec(payload@),
                forall|k: int| 0 <= k < fields@.len() ==> (#[trigger] fields@[k]).bytes@.len()
                    < payload@.len(),
                payload@.len() < usize::MAX,
                (open, self.max_unacked) == open_request_scan(fs.take(i as int), false, max0),
                self@ == (MicView { max_unacked: self.max_unacked, ..old(self)@ }),
            decreases fields@.len() - i,
        {
            let f = &fields[i];
            proof {
                assert(fs.take(i + 1).drop_last() =~= fs.take(i as int));
                assert(fs.take(i + 1).last() == f@);
            }
            if f.field == 1 && f.wire == 0 {
                open = decode_varint_value(f.bytes.as_slice()) != 0;
            } else if f.field == 4 && f.wire == 0 {
                let v = decode_varint_value(f.bytes.as_slice());
                self.max_unacked = if v >= 1 { v } else { 1 };
            }
            i = i + 1;
        }
        proof {
            assert(fs.take(fields@.len() as int) =~= fs);
        }
        let ghost s1 = self@;
        let mut resp = field_varint(1, 0);
        let mut second = field_varint(2, self.session as i64);
        resp.append(&mut second);
        let ghost o0 = out_view(out@);
        send_out(out, self.channel_id, frame_flags::ENC_SIGNAL, av_msg::AV_INPUT_OPEN_RESPONSE, resp);
        if open && !self.open {
            self.open = true;
            self.unacked = 0;
            self.pending.clear();
            let mut start = field_varint(1, self.session as i64);
            let mut idx = field_varint(2, 0);
            start.append(&mut idx);
            send_out(out, self.channel_id, frame_flags::ENC_SIGNAL, av_msg::START_INDICATION, start);
            assert(pending_view(self.pending@) =~= Seq::<(u64, Seq<u8>)>::empty());
            assert(out_view(out@) =~= o0 + seq![open_response(s1), start_indication(s1)]);
            MicEvent::Start
        } else if !open && self.open {
            self.open = false;
            self.unacked = 0;
            self.pending.clear();
            assert(pending_view(self.pending@) =~= Seq::<(u64, Seq<u8>)>::empty());
            assert(out_view(out@) =~= o0 + seq![open_response(s1)]);
            MicEvent::Stop
        } else {
            assert(out_view(out@) =~= o0 + seq![open_response(s1)]);
            MicEvent::Ignored
        }
    }
}

} // verus!
