//! Audio channel handler (MEDIA_AUDIO = 4, SPEECH_AUDIO = 5, SYSTEM_AUDIO = 6).
//!
//! Receives PCM or AAC-LC frames from the phone and returns them as `AudioEvent::Pcm`, sending
//! an AV media ack for flow control on every frame.
//!
//!   Phone -> HU: AV_MEDIA_INDICATION (0x0001), AV_MEDIA_WITH_TIMESTAMP (0x0000) — audio data
//!   Phone -> HU: START_INDICATION (0x8001) / STOP_INDICATION (0x8002)
//!   HU -> Phone: AV_MEDIA_ACK (0x8004)

use vstd::prelude::*;
use crate::constants::{av_msg, frame_flags};
use crate::frame::{out_frame, out_view, send_out, OutFrame, OutFrameView};
use crate::proto::{decode_start, decode_start_spec, field_varint, field_varint_bytes};
use super::media::{media_payload, media_timestamp};

verus! {

#[derive(Clone, Copy, PartialEq, Eq, Debug)]
pub enum AudioChannelType {
    Media,
    Speech,
    System,
}

pub enum AudioEvent {
    Pcm { data: Vec<u8>, timestamp_ns: u64 },
    Start,
    Stop,
    Ignored,
}

pub enum AudioEventView {
    Pcm { data: Seq<u8>, timestamp_ns: u64 },
    Start,
    Stop,
    Ignored,
}

impl View for AudioEvent {
    type V = AudioEventView;

    open spec fn view(&self) -> AudioEventView {
        match self {
            AudioEvent::Pcm { data, timestamp_ns } => AudioEventView::Pcm {
                data: data@,
                timestamp_ns: *timestamp_ns,
            },
            AudioEvent::Start => AudioEventView::Start,
            AudioEvent::Stop => AudioEventView::Stop,
            AudioEvent::Ignored => AudioEventView::Ignored,
        }
    }
}

pub struct AudioChannel {
    channel_id: u8,
    channel_type: AudioChannelType,
    session: i32,
    sample_rate: u32,
    channel_count: u32,
}

pub struct AudioChannelView {
    pub channel_id: u8,
    pub channel_type: AudioChannelType,
    pub session: i32,
    pub sample_rate: u32,
    pub channel_count: u32,
}

impl View for AudioChannel {
    type V = AudioChannelView;

    closed spec fn view(&self) -> AudioChannelView {
        AudioChannelView {
            channel_id: self.channel_id,
            channel_type: self.channel_type,
            session: self.session,
            sample_rate: self.sample_rate,
            channel_count: self.channel_count,
        }
    }
}

/// The flow-control ack for every received frame: `Ack { session_id = 1, ack = 2 }`.
pub open spec fn media_ack(channel_id: u8, session: i32) -> OutFrameView {
    out_frame(
        channel_id,
        frame_flags::ENC_SIGNAL,
        av_msg::AV_MEDIA_ACK,
        field_varint_bytes(1, (session as i64) as u64) + field_varint_bytes(2, 1),
    )
}

/// What `handle_message` does: the channel afterwards, the event, and the frames sent.
pub open spec fn audio_step(
    s: AudioChannelView,
    msg_id: u16,
    payload: Seq<u8>,
    now_ns: u64,
) -> (AudioChannelView, AudioEventView, Seq<OutFrameView>) {
    if msg_id == av_msg::AV_MEDIA_INDICATION || msg_id == av_msg::AV_MEDIA_WITH_TIMESTAMP {
        let stamped = msg_id == av_msg::AV_MEDIA_WITH_TIMESTAMP;
        (
            s,
            AudioEventView::Pcm {
                data: media_payload(payload, stamped),
                timestamp_ns: media_timestamp(payload, stamped, now_ns),
            },
            seq![media_ack(s.channel_id, s.session)],
        )
    } else if msg_id == av_msg::START_INDICATION {
        let s2 = match decode_start_spec(payload) {
            Some((sid, _)) => AudioChannelView { session: sid as i32, ..s },
            None => s,
        };
        (s2, AudioEventView::Start, Seq::empty())
    } else if msg_id == av_msg::STOP_INDICATION {
        (s, AudioEventView::Stop, Seq::empty())
    } else {
        (s, AudioEventView::Ignored, Seq::empty())
    }
}

impl AudioChannel {
    pub fn new(channel_id: u8, channel_type: AudioChannelType) -> (c: AudioChannel)
        ensures
            c@ == (AudioChannelView {
                channel_id,
                channel_type,
                session: 0,
                sample_rate: 48000,
                channel_count: 2,
            }),
    {
        AudioChannel { channel_id, channel_type, session: 0, sample_rate: 48000, channel_count: 2 }
    }

    pub fn channel_type(&self) -> (t: AudioChannelType)
        ensures
            t == self@.channel_type,
    {
        self.channel_type
    }

    /// `now_ns` is the wall-clock time, used as the timestamp of frames that carry none.
    pub fn handle_message(
        &mut self,
        msg_id: u16,
        payload: &[u8],
        now_ns: u64,
        out: &mut Vec<OutFrame>,
    ) -> (ev: AudioEvent)
        requires
            payload@.len() < usize::MAX,
        ensures
            ({
                let (s, e, sent) = audio_step(old(self)@, msg_id, payload@, now_ns);
                &&& final(self)@ == s
                &&& ev@ == e
                &&& out_view(final(out)@) == out_view(old(out)@) + sent
            }),
    {
        if msg_id == av_msg::AV_MEDIA_INDICATION {
            self.on_media_indication(payload, false, now_ns, out)
        } else if msg_id == av_msg::AV_MEDIA_WITH_TIMESTAMP {
            self.on_media_indication(payload, true, now_ns, out)
        } else if msg_id == av_msg::START_INDICATION {
            if let Some(start) = decode_start(payload) {
                self.session = start.session_id;
            }
            assert(out_view(out@) =~= out_view(out@) + Seq::<OutFrameView>::empty());
            AudioEvent::Start
        } else if msg_id == av_msg::STOP_INDICATION {
            assert(out_view(out@) =~= out_view(out@) + Seq::<OutFrameView>::empty());
            AudioEvent::Stop
        } else {
            assert(out_view(out@) =~= out_view(out@) + Seq::<OutFrameView>::empty());
            AudioEvent::Ignored
        }
    }

    /// Called when the phone's AV setup request arrives for this channel; zero keeps the
    /// current value.
    pub fn handle_setup_request(&mut self, sample_rate: u32, channel_count: u32)
        ensures
            final(self)@ == (AudioChannelView {
                sample_rate: if sample_rate > 0 {
                    sample_rate
                } else {
                    old(self)@.sample_rate
                },
                channel_count: if channel_count > 0 {
                    channel_count
                } else {
                    old(self)@.channel_count
                },
                ..old(self)@
            }),
    {
        if sample_rate > 0 {
            self.sample_rate = sample_rate;
        }
        if channel_count > 0 {
            self.channel_count = channel_count;
        }
    }

    fn on_media_indication(
        &mut self,
        payload: &[u8],
        has_timestamp: bool,
        now_ns: u64,
        out: &mut Vec<OutFrame>,
    ) -> (ev: AudioEvent)
        ensures
            final(self)@ == old(self)@,
            ev@ == (AudioEventView::Pcm {
                data: media_payload(payload@, has_timestamp),
                timestamp_ns: media_timestamp(payload@, has_timestamp, now_ns),
            }),
            out_view(final(out)@) == out_view(old(out)@).push(
                media_ack(old(self)@.channel_id, old(self)@.session),
            ),
    {
        let (timestamp_ns, data) = super::media::split_media(payload, has_timestamp, now_ns);
        self.send_ack(out);
        AudioEvent::Pcm { data, timestamp_ns }
    }

    fn send_ack(&self, out: &mut Vec<OutFrame>)
        ensures
            out_view(final(out)@) == out_view(old(out)@).push(
                media_ack(self@.channel_id, self@.session),
            ),
    {
        let mut msg = field_varint(1, self.session as i64);
        let mut second = field_varint(2, 1);
        msg.append(&mut second);
        send_out(out, self.channel_id, frame_flags::ENC_SIGNAL, av_msg::AV_MEDIA_ACK, msg);
    }
}

} // verus!
