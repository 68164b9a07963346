//! Control channel (channel 0): ping keepalive, service discovery, channel open, audio and
//! navigation focus, binding and shutdown.
//!
//! Messages the session reacts to come back as a `ControlEvent`; immediate protocol replies
//! (ping, audio focus, navigation focus, binding) are queued on the outbox right away.
//!
//! Message bodies read and written here:
//!   ChannelOpenRequest  { priority = 1, service_id = 2 }
//!   ChannelOpenResponse { status = 1 }
//!   PingRequest         { timestamp = 1 (int64), bug_report = 2, data = 3 }
//!   PingResponse        { timestamp = 1 (int64), data = 2 }
//!   AudioFocusRequest   { audio_focus_type = 1 } -> AudioFocusNotification { focus_state = 1 }
//!   BindingResponse     { status = 1 }

use vstd::prelude::*;
use vstd::slice::slice_to_vec;
use crate::constants::{av_msg, ch, ctrl_msg, frame_flags};
use crate::frame::{be32, out_frame, out_view, send_out, OutFrame, OutFrameView};
use crate::proto::{
    decode_fields, decode_fields_spec, decode_varint64_value, decode_varint_value, field_varint,
    field_varint_bytes, fields_view, u32_as_i32, u32_to_i32, varint64_value, varint_of,
    ProtoFieldView,
};

verus! {

pub enum ControlEvent {
    /// The body of the phone's ServiceDiscoveryRequest, as received.
    ServiceDiscoveryRequest(Vec<u8>),
    ChannelOpenRequest { channel_id: i32 },
    Pong,
    VoiceSession(bool),
    Shutdown { reason: i32 },
    ShutdownComplete,
    Ignored,
}

pub enum ControlEventView {
    ServiceDiscoveryRequest(Seq<u8>),
    ChannelOpenRequest { channel_id: i32 },
    Pong,
    VoiceSession(bool),
    Shutdown { reason: i32 },
    ShutdownComplete,
    Ignored,
}

impl View for ControlEvent {
    type V = ControlEventView;

    open spec fn view(&self) -> ControlEventView {
        match self {
            ControlEvent::ServiceDiscoveryRequest(r) => ControlEventView::ServiceDiscoveryRequest(
                r@,
            ),
            ControlEvent::ChannelOpenRequest { channel_id } => ControlEventView::ChannelOpenRequest {
                channel_id: *channel_id,
            },
            ControlEvent::Pong => ControlEventView::Pong,
            ControlEvent::VoiceSession(b) => ControlEventView::VoiceSession(*b),
            ControlEvent::Shutdown { reason } => ControlEventView::Shutdown { reason: *reason },
            ControlEvent::ShutdownComplete => ControlEventView::ShutdownComplete,
            ControlEvent::Ignored => ControlEventView::Ignored,
        }
    }
}

/// The control channel keeps no state of its own.
pub struct ControlChannel;

// ---------------------------------------------------------------------------------------
// What the control channel reads and answers
// ---------------------------------------------------------------------------------------

/// The value byte of a minimal `[0x08, value]` field-1 encoding.
pub open spec fn field1_byte(p: Seq<u8>) -> Option<u8> {
    if p.len() >= 2 && p[0] == 0x08 {
        Some(p[1])
    } else {
        None
    }
}

/// The service id of a ChannelOpenRequest: the last varint field 2 (its low 32 bits as an
/// int32), or 0.
pub open spec fn open_request_service_id(p: Seq<u8>) -> int {
    u32_as_i32(
        decode_fields_spec(p).fold_left(
            0u32,
            |acc: u32, f: ProtoFieldView|
                if f.field == 2 && f.wire == 0 {
                    varint_of(f)
                } else {
                    acc
                },
        ),
    )
}

/// The timestamp of a PingRequest: the last varint field 1, or 0.
pub open spec fn ping_timestamp(p: Seq<u8>) -> u64 {
    decode_fields_spec(p).fold_left(
        0u64,
        |acc: u64, f: ProtoFieldView|
            if f.field == 1 && f.wire == 0 {
                varint64_value(f.bytes)
            } else {
                acc
            },
    )
}

/// AudioFocusRequest type -> AudioFocusNotification state: GAIN (1) -> STATE_GAIN (1),
/// GAIN_TRANSIENT (2) and GAIN_TRANSIENT_MAY_DUCK (3) -> STATE_GAIN_TRANSIENT (2), RELEASE
/// (4), unknown or missing -> STATE_LOSS (3).
pub open spec fn focus_state_for(focus_type: u8) -> u8 {
    if focus_type == 1 {
        1
    } else if focus_type == 2 || focus_type == 3 {
        2
    } else {
        3
    }
}

/// `ChannelOpenResponse { status }` on the control channel.
pub open spec fn channel_open_response(status: i32) -> OutFrameView {
    out_frame(
        ch::CONTROL,
        frame_flags::ENC_CONTROL,
        ctrl_msg::CHANNEL_OPEN_RESPONSE,
        field_varint_bytes(1, (status as i64) as u64),
    )
}

/// What `handle_message` returns and sends for a control message.
pub open spec fn control_step(msg_id: u16, p: Seq<u8>) -> (ControlEventView, Seq<OutFrameView>) {
    if msg_id == ctrl_msg::SERVICE_DISCOVERY_REQUEST {
        (ControlEventView::ServiceDiscoveryRequest(p), Seq::empty())
    } else if msg_id == ctrl_msg::CHANNEL_OPEN_RESPONSE {
        (ControlEventView::Ignored, Seq::empty())
    } else if msg_id == ctrl_msg::CHANNEL_OPEN_REQUEST {
        (
            ControlEventView::ChannelOpenRequest { channel_id: open_request_service_id(p) as i32 },
            Seq::empty(),
        )
    } else if msg_id == ctrl_msg::PING_REQUEST {
        (
            ControlEventView::Ignored,
            seq![
                out_frame(
                    ch::CONTROL,
                    frame_flags::PLAINTEXT,
                    ctrl_msg::PING_RESPONSE,
                    field_varint_bytes(1, ping_timestamp(p)),
                ),
            ],
        )
    } else if msg_id == ctrl_msg::PING_RESPONSE {
        (ControlEventView::Pong, Seq::empty())
    } else if msg_id == ctrl_msg::AUDIO_FOCUS_REQUEST {
        let focus_type = match field1_byte(p) {
            Some(b) => b,
            None => 0,
        };
        (
            ControlEventView::Ignored,
            seq![
                out_frame(
                    ch::CONTROL,
                    frame_flags::ENC_SIGNAL,
                    ctrl_msg::AUDIO_FOCUS_RESPONSE,
                    seq![0x08u8, focus_state_for(focus_type)],
                ),
            ],
        )
    } else if msg_id == ctrl_msg::NAVIGATION_FOCUS_REQUEST {
        (
            ControlEventView::Ignored,
            seq![
                out_frame(
                    ch::CONTROL,
                    frame_flags::ENC_SIGNAL,
                    ctrl_msg::NAVIGATION_FOCUS_RESPONSE,
                    p,
                ),
            ],
        )
    } else if msg_id == ctrl_msg::SHUTDOWN_REQUEST {
        let reason: int = if p.len() >= 4 {
            u32_as_i32(be32(p[0], p[1], p[2], p[3]) as u32)
        } else {
            0
        };
        (ControlEventView::Shutdown { reason: reason as i32 }, Seq::empty())
    } else if msg_id == ctrl_msg::SHUTDOWN_RESPONSE {
        (ControlEventView::ShutdownComplete, Seq::empty())
    } else if msg_id == ctrl_msg::BINDING_REQUEST {
        (
            ControlEventView::Ignored,
            seq![
                out_frame(
                    ch::CONTROL,
                    frame_flags::ENC_SIGNAL,
                    ctrl_msg::BINDING_RESPONSE,
                    seq![0x08u8, 0x00u8],
                ),
            ],
        )
    } else if msg_id == ctrl_msg::VOICE_SESSION_NOTIFICATION {
        (ControlEventView::VoiceSession(field1_byte(p) == Some(1u8)), Seq::empty())
    } else {
        (ControlEventView::Ignored, Seq::empty())
    }
}

// ---------------------------------------------------------------------------------------
// Executable code
// ---------------------------------------------------------------------------------------

impl ControlChannel {
    pub fn handle_message(&mut self, msg_id: u16, payload: &[u8], out: &mut Vec<OutFrame>) -> (ev:
        ControlEvent)
        requires
            payload@.len() < usize::MAX,
        ensures
            ({
                let (e, sent) = control_step(msg_id, payload@);
                &&& ev@ == e
                &&& out_view(final(out)@) == out_view(old(out)@) + sent
            }),
    {
        let ghost before = out_view(out@);
        proof {
            assert(before + Seq::<OutFrameView>::empty() =~= before);
        }
        if msg_id == ctrl_msg::SERVICE_DISCOVERY_REQUEST {
            ControlEvent::ServiceDiscoveryRequest(slice_to_vec(payload))
        } else if msg_id == ctrl_msg::CHANNEL_OPEN_RESPONSE {
            ControlEvent::Ignored
        } else if msg_id == ctrl_msg::CHANNEL_OPEN_REQUEST {
            ControlEvent::ChannelOpenRequest { channel_id: read_open_request_service_id(payload) }
        } else if msg_id == ctrl_msg::PING_REQUEST {
            self.on_ping_request(payload, out);
            ControlEvent::Ignored
        } else if msg_id == ctrl_msg::PING_RESPONSE {
            ControlEvent::Pong
        } else if msg_id == ctrl_msg::AUDIO_FOCUS_REQUEST {
            self.on_audio_focus_request(payload, out);
            ControlEvent::Ignored
        } else if msg_id == ctrl_msg::NAVIGATION_FOCUS_REQUEST {
            // Navigation focus is granted by echoing the request: the response has the
            // request's field structure.
            send_out(
                out,
                ch::CONTROL,
                frame_flags::ENC_SIGNAL,
                ctrl_msg::NAVIGATION_FOCUS_RESPONSE,
                slice_to_vec(payload),
            );
            proof {
                assert(out_view(out@) =~= before + control_step(msg_id, payload@).1);
            }
            ControlEvent::Ignored
        } else if msg_id == ctrl_msg::SHUTDOWN_REQUEST {
            let reason: i32 = if payload.len() >= 4 {
                let v: u32 = (payload[0] as u32) * 0x100_0000 + (payload[1] as u32) * 0x1_0000
                    + (payload[2] as u32) * 0x100 + (payload[3] as u32);
                u32_to_i32(v)
            } else {
                0
            };
            ControlEvent::Shutdown { reason }
        } else if msg_id == ctrl_msg::SHUTDOWN_RESPONSE {
            ControlEvent::ShutdownComplete
        } else if msg_id == ctrl_msg::BINDING_REQUEST {
            self.on_binding_request(payload, out);
            ControlEvent::Ignored
        } else if msg_id == ctrl_msg::VOICE_SESSION_NOTIFICATION {
            let status = read_field1_varint_byte(payload);
            ControlEvent::VoiceSession(
                match status {
                    Some(b) => b == 1,
                    None => false,
                },
            )
        } else if msg_id == av_msg::SETUP_REQUEST {
            // AV setup arrives on the media channels; on channel 0 it is ignored.
            ControlEvent::Ignored
        } else {
            ControlEvent::Ignored
        }
    }

    /// CHANNEL_OPEN_RESPONSE always goes on the control channel.
    pub fn send_channel_open_response(status: i32, out: &mut Vec<OutFrame>)
        ensures
            out_view(final(out)@) == out_view(old(out)@).push(channel_open_response(status)),
    {
        let buf = field_varint(1, status as i64);
        send_out(out, ch::CONTROL, frame_flags::ENC_CONTROL, ctrl_msg::CHANNEL_OPEN_RESPONSE, buf);
    }

    /// PING_RESPONSE echoes the request's timestamp and goes out in plaintext.
    fn on_ping_request(&self, payload: &[u8], out: &mut Vec<OutFrame>)
        requires
            payload@.len() < usize::MAX,
        ensures
            out_view(final(out)@) == out_view(old(out)@).push(
                out_frame(
                    ch::CONTROL,
                    frame_flags::PLAINTEXT,
                    ctrl_msg::PING_RESPONSE,
                    field_varint_bytes(1, ping_timestamp(payload@)),
                ),
            ),
    {
        let ts = read_ping_timestamp(payload);
        assert((ts as i64) as u64 == ts) by (bit_vector);
        let buf = field_varint(1, ts as i64);
        send_out(out, ch::CONTROL, frame_flags::PLAINTEXT, ctrl_msg::PING_RESPONSE, buf);
    }

    fn on_audio_focus_request(&self, payload: &[u8], out: &mut Vec<OutFrame>)
        ensures
            out_view(final(out)@) == out_view(old(out)@) + control_step(
                ctrl_msg::AUDIO_FOCUS_REQUEST,
                payload@,
            ).1,
    {
        let focus_type = match read_field1_varint_byte(payload) {
            Some(b) => b,
            None => 0,
        };
        let focus_state: u8 = if focus_type == 1 {
            1
        } else if focus_type == 2 || focus_type == 3 {
            2
        } else {
            3
        };
        let ghost before = out_view(out@);
        send_out(
            out,
            ch::CONTROL,
            frame_flags::ENC_SIGNAL,
            ctrl_msg::AUDIO_FOCUS_RESPONSE,
            vec![0x08u8, focus_state],
        );
        proof {
            assert(out_view(out@) =~= before + control_step(ctrl_msg::AUDIO_FOCUS_REQUEST, payload@).1);
        }
    }

    fn on_binding_request(&self, payload: &[u8], out: &mut Vec<OutFrame>)
        ensures
            out_view(final(out)@) == out_view(old(out)@) + control_step(
                ctrl_msg::BINDING_REQUEST,
                payload@,
            ).1,
    {
        let ghost before = out_view(out@);
        send_out(
            out,
            ch::CONTROL,
            frame_flags::ENC_SIGNAL,
            ctrl_msg::BINDING_RESPONSE,
            vec![0x08u8, 0x00u8],
        );
        proof {
            assert(out_view(out@) =~= before + control_step(ctrl_msg::BINDING_REQUEST, payload@).1);
        }
    }
}

/// Reads the value byte of a minimal `[tag = 0x08][value]` field-1 encoding, as several
/// one-field control messages carry it.
fn read_field1_varint_byte(payload: &[u8]) -> (r: Option<u8>)
    ensures
        r == field1_byte(payload@),
{
    if payload.len() >= 2 && payload[0] == 0x08 {
        Some(payload[1])
    } else {
        None
    }
}

fn read_open_request_service_id(payload: &[u8]) -> (id: i32)
    requires
        payload@.len() < usize::MAX,
    ensures
        id as int == open_request_service_id(payload@),
{
    let fields = decode_fields(payload);
    let ghost fs = fields_view(fields@);
    let mut raw: u32 = 0;
    let mut i: usize = 0;
    proof {
        assert(fs.take(0) =~= Seq::<ProtoFieldView>::empty());
    }
    while i < fields.len()
        invariant
            i <= fields@.len(),
            fs == fields_view(fields@),
            fs == decode_fields_spec(payload@),
            forall|k: int| 0 <= k < fields@.len() ==> (#[trigger] fields@[k]).bytes@.len()
                < payload@.len(),
            payload@.len() < usize::MAX,
            raw == fs.take(i as int).fold_left(
                0u32,
                |acc: u32, f: ProtoFieldView|
                    if f.field == 2 && f.wire == 0 {
                        varint_of(f)
                    } else {
                        acc
                    },
            ),
        decreases fields@.len() - i,
    {
        let f = &fields[i];
        proof {
            assert(fs.take(i + 1).drop_last() =~= fs.take(i as int));
            assert(fs.take(i + 1).last() == f@);
        }
        if f.field == 2 && f.wire == 0 {
            raw = decode_varint_value(f.bytes.as_slice());
        }
        i = i + 1;
    }
    proof {
        assert(fs.take(fields@.len() as int) =~= fs);
    }
    u32_to_i32(raw)
}

fn read_ping_timestamp(payload: &[u8]) -> (ts: u64)
    requires
        payload@.len() < usize::MAX,
    ensures
        ts == ping_timestamp(payload@),
{
    let fields = decode_fields(payload);
    let ghost fs = fields_view(fields@);
    let mut ts: u64 = 0;
    let mut i: usize = 0;
    proof {
        assert(fs.take(0) =~= Seq::<ProtoFieldView>::empty());
    }
    while i < fields.len()
        invariant
            i <= fields@.len(),
            fs == fields_view(fields@),
            fs == decode_fields_spec(payload@),
            ts == fs.take(i as int).fold_left(
                0u64,
                |acc: u64, f: ProtoFieldView|
                    if f.field == 1 && f.wire == 0 {
                        varint64_value(f.bytes)
                    } else {
                        acc
                    },
            ),
        decreases fields@.len() - i,
    {
        let f = &fields[i];
        proof {
            assert(fs.take(i + 1).drop_last() =~= fs.take(i as int));
            assert(fs.take(i + 1).last() == f@);
        }
        if f.field == 1 && f.wire == 0 {
            ts = decode_varint64_value(f.bytes.as_slice());
        }
        i = i + 1;
    }
    proof {
        assert(fs.take(fields@.len() as int) =~= fs);
    }
    ts
}

} // verus!
