//! Video channel handler — main display (VIDEO = 3) or cluster (CLUSTER_VIDEO = 19).
//!
//! Receives H.264/H.265 NAL units from the phone and returns them as `VideoEvent::Frame`,
//! acking every frame for flow control.
//!
//!   Phone -> HU: AV_MEDIA_INDICATION (0x0001), AV_MEDIA_WITH_TIMESTAMP (0x0000) — video data
//!   Phone -> HU: START_INDICATION / STOP_INDICATION, VIDEO_FOCUS_REQUEST / _INDICATION
//!   HU -> Phone: AV_MEDIA_ACK (0x8004), VIDEO_FOCUS_INDICATION (0x8008)

use vstd::prelude::*;
use crate::constants::{av_msg, frame_flags};
use crate::frame::{out_frame, out_view, send_out, OutFrame, OutFrameView};
use crate::proto::{
    decode_start, decode_start_spec, field_varint, field_varint_bytes, lemma_read_varint_count_le,
    lemma_read_varint_in_place, read_varint, read_varint_spec, tag_value, varint_bytes,
};
use super::audio_channel::media_ack;
use super::media::{media_payload, media_timestamp, split_media};

verus! {

pub enum VideoEvent {
    /// H.264/H.265 NAL unit, ready for the decoder.
    Frame { data: Vec<u8>, timestamp_ns: u64 },
    /// Phone wants NATIVE/NATIVE_TRANSIENT focus — the user wants the host UI.
    HostUiRequested,
    /// Phone confirmed/granted PROJECTED focus.
    VideoFocusProjected,
    Ignored,
}

pub enum VideoEventView {
    Frame { data: Seq<u8>, timestamp_ns: u64 },
    HostUiRequested,
    VideoFocusProjected,
    Ignored,
}

impl View for VideoEvent {
    type V = VideoEventView;

    open spec fn view(&self) -> VideoEventView {
        match self {
            VideoEvent::Frame { data, timestamp_ns } => VideoEventView::Frame {
                data: data@,
                timestamp_ns: *timestamp_ns,
            },
            VideoEvent::HostUiRequested => VideoEventView::HostUiRequested,
            VideoEvent::VideoFocusProjected => VideoEventView::VideoFocusProjected,
            VideoEvent::Ignored => VideoEventView::Ignored,
        }
    }
}

pub struct VideoChannel {
    channel_id: u8,
    session: i32,
    frame_count: u64,
}

pub struct VideoChannelView {
    pub channel_id: u8,
    pub session: i32,
    pub frame_count: u64,
}

impl View for VideoChannel {
    type V = VideoChannelView;

    closed spec fn view(&self) -> VideoChannelView {
        VideoChannelView {
            channel_id: self.channel_id,
            session: self.session,
            frame_count: self.frame_count,
        }
    }
}

/// The focus mode a VideoFocusRequest asks for: the last field-2 varint (tag 0x10), PROJECTED
/// (1) when there is none; other tags' varints are skipped.
pub open spec fn focus_scan(p: Seq<u8>, off: nat, mode: u32) -> u32
    decreases p.len() + 1 - off,
{
    if off >= p.len() {
        mode
    } else {
        let (v, n) = read_varint_spec(p, off + 1int);
        proof {
            if off + 1 < p.len() {
                lemma_read_varint_count_le(p, off + 1int);
            }
        }
        let next = off + 1 + n;
        if p[off as int] == 0x10 {
            focus_scan(p, next, v)
        } else {
            focus_scan(p, next, mode)
        }
    }
}

pub open spec fn focus_mode(p: Seq<u8>) -> u32 {
    focus_scan(p, 0, 1)
}

pub open spec fn is_media_msg(msg_id: u16) -> bool {
    msg_id == av_msg::AV_MEDIA_INDICATION || msg_id == av_msg::AV_MEDIA_WITH_TIMESTAMP
}

/// What `handle_message` does: the channel afterwards, the event, and the frames sent.
pub open spec fn video_step(
    s: VideoChannelView,
    msg_id: u16,
    payload: Seq<u8>,
    now_ns: u64,
) -> (VideoChannelView, VideoEventView, Seq<OutFrameView>) {
    if is_media_msg(msg_id) {
        let stamped = msg_id == av_msg::AV_MEDIA_WITH_TIMESTAMP;
        (
            VideoChannelView { frame_count: (s.frame_count + 1) as u64, ..s },
            VideoEventView::Frame {
                data: media_payload(payload, stamped),
                timestamp_ns: media_timestamp(payload, stamped, now_ns),
            },
            seq![media_ack(s.channel_id, s.session)],
        )
    } else if msg_id == av_msg::START_INDICATION {
        let s2 = match decode_start_spec(payload) {
            Some((sid, _)) => VideoChannelView { session: sid as i32, ..s },
            None => s,
        };
        (s2, VideoEventView::Ignored, Seq::empty())
    } else if msg_id == av_msg::VIDEO_FOCUS_REQUEST {
        let mode = focus_mode(payload);
        (
            s,
            if mode == 2 || mode == 3 {
                VideoEventView::HostUiRequested
            } else {
                VideoEventView::VideoFocusProjected
            },
            seq![
                out_frame(
                    s.channel_id,
                    frame_flags::ENC_SIGNAL,
                    av_msg::VIDEO_FOCUS_INDICATION,
                    seq![0x08u8, (mode % 256) as u8],
                ),
            ],
        )
    } else {
        (s, VideoEventView::Ignored, Seq::empty())
    }
}

proof fn lemma_focus_step(x: Seq<u8>, t: u8, v: u32, y: Seq<u8>, mode: u32)
    ensures
        focus_scan(x + seq![t] + varint_bytes(v as nat) + y, x.len(), mode) == focus_scan(
            x + seq![t] + varint_bytes(v as nat) + y,
            x.len() + 1 + varint_bytes(v as nat).len(),
            if t == 0x10 {
                v
            } else {
                mode
            },
        ),
{
    let p = x + seq![t] + varint_bytes(v as nat) + y;
    lemma_read_varint_in_place(x + seq![t], v, y);
    assert(p[x.len() as int] == t);
    assert(read_varint_spec(p, x.len() + 1int) == (v, varint_bytes(v as nat).len()));
}

/// A VideoFocusRequest asking for mode `m` (field 2), alone or between a display channel id
/// (field 1) and a reason (field 3), is answered with a VIDEO_FOCUS_INDICATION on the same
/// channel whose body is exactly `0x08 m`: the mode granted is the mode asked for. NATIVE (2)
/// and NATIVE_TRANSIENT (3) hand the screen to the head unit; anything else keeps projecting.
pub proof fn lemma_focus_indication_echoes_mode(
    s: VideoChannelView,
    m: u32,
    disp: u32,
    reason: u32,
    with_others: bool,
    now_ns: u64,
)
    requires
        m < 256,
    ensures
        ({
            let p = if with_others {
                field_varint_bytes(1, disp as u64) + field_varint_bytes(2, m as u64)
                    + field_varint_bytes(3, reason as u64)
            } else {
                field_varint_bytes(2, m as u64)
            };
            let (s2, e, sent) = video_step(s, av_msg::VIDEO_FOCUS_REQUEST, p, now_ns);
            &&& sent == seq![
                OutFrameView {
                    channel_id: s.channel_id,
                    flags: frame_flags::ENC_SIGNAL,
                    msg_id: av_msg::VIDEO_FOCUS_INDICATION,
                    data: seq![0x08u8, m as u8],
                },
            ]
            &&& s2 == s
            &&& (e == VideoEventView::HostUiRequested) == (m == 2 || m == 3)
            &&& (e == VideoEventView::VideoFocusProjected) == !(m == 2 || m == 3)
        }),
{
    assert(varint_bytes(tag_value(1, 0)) =~= seq![0x08u8]);
    assert(varint_bytes(tag_value(2, 0)) =~= seq![0x10u8]);
    assert(varint_bytes(tag_value(3, 0)) =~= seq![0x18u8]);
    let vm = varint_bytes(m as nat);
    if with_others {
        let va = varint_bytes(disp as nat);
        let vr = varint_bytes(reason as nat);
        let p = field_varint_bytes(1, disp as u64) + field_varint_bytes(2, m as u64)
            + field_varint_bytes(3, reason as u64);
        let e = Seq::<u8>::empty();
        let x1 = seq![0x08u8] + va;
        let x2 = x1 + seq![0x10u8] + vm;
        assert(p =~= e + seq![0x08u8] + va + (seq![0x10u8] + vm + seq![0x18u8] + vr));
        lemma_focus_step(e, 0x08, disp, seq![0x10u8] + vm + seq![0x18u8] + vr, 1);
        assert(p =~= x1 + seq![0x10u8] + vm + (seq![0x18u8] + vr));
        lemma_focus_step(x1, 0x10, m, seq![0x18u8] + vr, 1);
        assert(p =~= x2 + seq![0x18u8] + vr + Seq::<u8>::empty());
        lemma_focus_step(x2, 0x18, reason, Seq::empty(), m);
        assert(focus_scan(p, p.len(), m) == m);
        assert(focus_mode(p) == m);
    } else {
        let p = field_varint_bytes(2, m as u64);
        let e = Seq::<u8>::empty();
        assert(p =~= e + seq![0x10u8] + vm + e);
        lemma_focus_step(e, 0x10, m, e, 1);
        assert(focus_scan(p, p.len(), m) == m);
        assert(focus_mode(p) == m);
    }
}

impl VideoChannel {
    pub fn new(channel_id: u8) -> (c: VideoChannel)
        ensures
            c@ == (VideoChannelView { channel_id, session: 0, frame_count: 0 }),
    {
        VideoChannel { channel_id, session: 0, frame_count: 0 }
    }

    pub fn channel_id(&self) -> (c: u8)
        ensures
            c == self@.channel_id,
    {
        self.channel_id
    }

    pub fn frame_count(&self) -> (n: u64)
        ensures
            n == self@.frame_count,
    {
        self.frame_count
    }

    /// `now_ns` is the wall-clock time, used as the timestamp of frames that carry none.
    pub fn handle_message(
        &mut self,
        msg_id: u16,
        payload: &[u8],
        now_ns: u64,
        out: &mut Vec<OutFrame>,
    ) -> (ev: VideoEvent)
        requires
            payload@.len() < usize::MAX,
            is_media_msg(msg_id) ==> old(self)@.frame_count < u64::MAX,
        ensures
            ({
                let (s, e, sent) = video_step(old(self)@, msg_id, payload@, now_ns);
                &&& final(self)@ == s
                &&& ev@ == e
                &&& out_view(final(out)@) == out_view(old(out)@) + sent
            }),
    {
        if msg_id == av_msg::AV_MEDIA_INDICATION || msg_id == av_msg::AV_MEDIA_WITH_TIMESTAMP {
            let stamped = msg_id == av_msg::AV_MEDIA_WITH_TIMESTAMP;
            let (timestamp_ns, data) = split_media(payload, stamped, now_ns);
            self.frame_count = self.frame_count + 1;
            self.send_ack(out);
            VideoEvent::Frame { data, timestamp_ns }
        } else if msg_id == av_msg::START_INDICATION {
            if let Some(start) = decode_start(payload) {
                self.session = start.session_id;
            }
            assert(out_view(out@) =~= out_view(out@) + Seq::<OutFrameView>::empty());
            VideoEvent::Ignored
        } else if msg_id == av_msg::VIDEO_FOCUS_REQUEST {
            self.on_video_focus_request(payload, out)
        } else {
            assert(out_view(out@) =~= out_view(out@) + Seq::<OutFrameView>::empty());
            VideoEvent::Ignored
        }
    }

    fn send_ack(&self, out: &mut Vec<OutFrame>)
        ensures
            out_view(final(out)@) == out_view(old(out)@).push(
                media_ack(self@.channel_id, self@.session),
            ),
    {
        let mut msg = field_varint(1, self.session as i64);
        let mut second = field_varint(2, 1);
        msg.append(&mut second);
        send_out(out, self.channel_id, frame_flags::ENC_SIGNAL, av_msg::AV_MEDIA_ACK, msg);
    }

    fn on_video_focus_request(&self, payload: &[u8], out: &mut Vec<OutFrame>) -> (ev: VideoEvent)
        requires
            payload@.len() < usize::MAX,
        ensures
            ({
                let (s, e, sent) = video_step(self@, av_msg::VIDEO_FOCUS_REQUEST, payload@, 0);
                &&& ev@ == e
                &&& out_view(final(out)@) == out_view(old(out)@) + sent
            }),
    {
        let mut mode: u32 = 1;
        let mut off: usize = 0;
        let len = payload.len();
        while off < len
            invariant
                off <= len + 1,
                len == payload@.len(),
                len < usize::MAX,
                focus_scan(payload@, off as nat, mode) == focus_mode(payload@),
            decreases len + 1 - off,
        {
            let t = payload[off];
            let (v, n) = read_varint(payload, off + 1);
            proof {
                if off + 1 < len {
                    lemma_read_varint_count_le(payload@, off + 1);
                }
            }
            if t == 0x10 {
                mode = v;
            }
            off = off + 1 + n;
        }
        let mut resp: Vec<u8> = Vec::new();
        resp.push(0x08);
        resp.push((mode % 256) as u8);
        proof {
            assert(resp@ =~= seq![0x08u8, (mode % 256) as u8]);
        }
        let ghost before = out_view(out@);
        send_out(out, self.channel_id, frame_flags::ENC_SIGNAL, av_msg::VIDEO_FOCUS_INDICATION, resp);
        assert(out_view(out@) =~= before + seq![
            out_frame(
                self@.channel_id,
                frame_flags::ENC_SIGNAL,
                av_msg::VIDEO_FOCUS_INDICATION,
                seq![0x08u8, (mode % 256) as u8],
            ),
        ]);
        if mode == 2 || mode == 3 {
            VideoEvent::HostUiRequested
        } else {
            VideoEvent::VideoFocusProjected
        }
    }
}

} // verus!
