//! The decisions of one Android Auto session, from version exchange to shutdown.
//!
//! State: Init -> Version -> TlsHandshake -> Auth -> ServiceDiscovery -> ChannelSetup -> Running
//!        -> Closed
//!
//! The session holds no socket and no TLS engine. Its owner reads the socket, feeds the TLS
//! engine and writes frames; the session is told what arrived and answers with what to do:
//!
//!   * Before authentication every chunk goes through `parse_raw`, and each frame through
//!     `on_raw_frame`, which asks to start TLS, to feed a handshake record, or to decrypt a
//!     frame.
//!   * After it, `split_post_auth` cuts chunks into frames; clear ones go to
//!     `handle_decrypted_message`, encrypted ones are decrypted and go to `on_decrypted`.
//!   * Every message to send is an `OutFrame`; `outgoing` says whether it goes out as is or
//!     through the TLS engine, and `encrypted_frame` frames the ciphertext.
//!   * `on_ping_tick` runs on the ping interval; `handle_command` applies input from the UI.

use vstd::prelude::*;
use vstd::slice::slice_to_vec;
use crate::channels::audio_channel::{audio_step, AudioChannel, AudioChannelType, AudioChannelView};
use crate::channels::input_channel::{
    build_button_report, build_rotary_report, build_touch_report, input_msg, input_report_bytes,
    key_event_bytes, rotary_event_bytes, touch_event_bytes, TouchPointer,
};
use crate::channels::audio_channel::{AudioEvent, AudioEventView};
use crate::channels::media_info_channel::{
    self, media_info_spec, MediaInfoEvent, MediaInfoEventView, MediaPlaybackMetadata,
    MediaPlaybackStatus, MetadataView, StatusView,
};
use crate::channels::mic_channel::{mic_push, mic_step, MicChannel, MicEvent, MicEventKind, MicView};
use crate::channels::navigation_channel::{
    self, nav_event_spec, NavEvent, NavEventView, NavigationDistanceUpdate,
    NavigationPositionUpdate, NavigationStateUpdate, NavigationStatusUpdate,
    NavigationTurnUpdate, PositionView, StateView, TurnView,
};
use crate::channels::video_channel::{video_step, VideoChannel, VideoChannelView, VideoEvent, VideoEventView};
use crate::constants::{
    av_msg, av_setup_status, ch, ctrl_msg, frame_flags, media_codec, version,
    STATUS_BLUETOOTH_UNAVAILABLE, STATUS_OK,
};
use crate::frame::{
    be16, drain_spec, encode_raw_frame, frame_ready, frame_total, frames_view, header_len,
    out_frame, out_view, raw_frame_bytes, send_out, FrameParser, OutFrame, OutFrameView,
    ParserView, RawFrame, CHANNEL_SLOTS, FRAME_HEADER_EXTENDED, FRAME_HEADER_SHORT,
};
use crate::proto::{field_varint, field_varint_bytes};
use crate::text::opt_text;
use crate::session::config::{ConfigView, SessionConfig, VideoCodec};
use crate::session::control_channel::{
    channel_open_response, control_step, field1_byte, ControlChannel, ControlEvent,
    ControlEventView,
};
use crate::session::service_discovery::{build_service_discovery_response, sdr_fits, sdr_spec};
use crate::session::discovery_message::sdr_message;
use crate::proto::{decode_fields, decode_fields_spec, decode_varint_value, fields_view, u32_as_i32, u32_to_i32, varint_of, ProtoFieldView};

verus! {

#[derive(Clone, Copy, PartialEq, Eq, Structural, Debug)]
pub enum SessionState {
    Init,
    Version,
    TlsHandshake,
    Auth,
    ServiceDiscovery,
    ChannelSetup,
    Running,
    Closed,
}

/// The position of a state in the session's progression.
pub open spec fn rank(s: SessionState) -> u8 {
    match s {
        SessionState::Init => 0,
        SessionState::Version => 1,
        SessionState::TlsHandshake => 2,
        SessionState::Auth => 3,
        SessionState::ServiceDiscovery => 4,
        SessionState::ChannelSetup => 5,
        SessionState::Running => 6,
        SessionState::Closed => 7,
    }
}

fn state_rank(s: SessionState) -> (r: u8)
    ensures
        r == rank(s),
{
    match s {
        SessionState::Init => 0,
        SessionState::Version => 1,
        SessionState::TlsHandshake => 2,
        SessionState::Auth => 3,
        SessionState::ServiceDiscovery => 4,
        SessionState::ChannelSetup => 5,
        SessionState::Running => 6,
        SessionState::Closed => 7,
    }
}

/// The two clocks a session reads: a monotonic one for liveness, and the wall clock for
/// timestamps.
#[derive(Clone, Copy, Debug)]
pub struct Clock {
    pub mono_ms: u64,
    pub wall_ns: u64,
}

/// Commands sent into a running session from outside (input captured by the UI).
pub enum SessionCommand {
    /// Single-pointer touch in advertised touchscreen pixels.
    Touch { action: u32, x: u32, y: u32 },
    /// Hardware button or key event.
    Button { key_codes: Vec<u32>, down: bool, longpress: bool },
    /// Rotary-encoder delta.
    Rotary { direction: i32 },
    /// Resume projected content after the phone asked for the host UI.
    RequestVideoFocus,
}

/// What the owner does with a frame that arrived before authentication.
pub enum RawFrameAction {
    Nothing,
    /// Create the TLS engine, then call `on_tls_started` with its first handshake bytes.
    StartTls,
    /// Feed the record to the TLS engine, then call `on_handshake_output`.
    FeedHandshake(Vec<u8>),
    /// Feed the record to the TLS engine, then call `on_decrypted` with the plaintext.
    Decrypt { channel_id: u8, flags: u8, raw_payload: Vec<u8> },
}

pub enum RawFrameActionView {
    Nothing,
    StartTls,
    FeedHandshake(Seq<u8>),
    Decrypt { channel_id: u8, flags: u8, raw_payload: Seq<u8> },
}

impl View for RawFrameAction {
    type V = RawFrameActionView;

    open spec fn view(&self) -> RawFrameActionView {
        match self {
            RawFrameAction::Nothing => RawFrameActionView::Nothing,
            RawFrameAction::StartTls => RawFrameActionView::StartTls,
            RawFrameAction::FeedHandshake(b) => RawFrameActionView::FeedHandshake(b@),
            RawFrameAction::Decrypt { channel_id, flags, raw_payload } => RawFrameActionView::Decrypt {
                channel_id: *channel_id,
                flags: *flags,
                raw_payload: raw_payload@,
            },
        }
    }
}

/// How a queued message leaves: as a finished frame, or as cleartext for the TLS engine.
pub enum Outgoing {
    Wire(Vec<u8>),
    /// Encrypt `cleartext` and frame the ciphertext with `encrypted_frame`.
    Encrypt { channel_id: u8, flags: u8, cleartext: Vec<u8> },
    /// Encrypted message while no TLS engine exists: dropped.
    Drop,
}

pub enum OutgoingView {
    Wire(Seq<u8>),
    Encrypt { channel_id: u8, flags: u8, cleartext: Seq<u8> },
    Drop,
}

impl View for Outgoing {
    type V = OutgoingView;

    open spec fn view(&self) -> OutgoingView {
        match self {
            Outgoing::Wire(b) => OutgoingView::Wire(b@),
            Outgoing::Encrypt { channel_id, flags, cleartext } => OutgoingView::Encrypt {
                channel_id: *channel_id,
                flags: *flags,
                cleartext: cleartext@,
            },
            Outgoing::Drop => OutgoingView::Drop,
        }
    }
}

/// A frame cut from the post-authentication byte stream.
pub enum PostAuthFrame {
    /// An unencrypted frame: message id and body.
    Clear { channel_id: u8, flags: u8, msg_id: u16, payload: Vec<u8> },
    /// An encrypted frame: its TLS record, to be decrypted and passed to `on_decrypted`.
    Encrypted { channel_id: u8, flags: u8, raw_payload: Vec<u8> },
}

pub enum PostAuthFrameView {
    Clear { channel_id: u8, flags: u8, msg_id: u16, payload: Seq<u8> },
    Encrypted { channel_id: u8, flags: u8, raw_payload: Seq<u8> },
}

impl View for PostAuthFrame {
    type V = PostAuthFrameView;

    open spec fn view(&self) -> PostAuthFrameView {
        match self {
            PostAuthFrame::Clear { channel_id, flags, msg_id, payload } => PostAuthFrameView::Clear {
                channel_id: *channel_id,
                flags: *flags,
                msg_id: *msg_id,
                payload: payload@,
            },
            PostAuthFrame::Encrypted { channel_id, flags, raw_payload } => PostAuthFrameView::Encrypted {
                channel_id: *channel_id,
                flags: *flags,
                raw_payload: raw_payload@,
            },
        }
    }
}

pub open spec fn post_auth_view(v: Seq<PostAuthFrame>) -> Seq<PostAuthFrameView> {
    v.map_values(|f: PostAuthFrame| f@)
}

/// What one whole frame yields: an encrypted frame its record; a clear frame its message id
/// and body, unless it is too short to hold a message id.
pub open spec fn post_auth_item(channel_id: u8, flags: u8, raw: Seq<u8>) -> Seq<PostAuthFrameView> {
    if flags & 0x08 != 0 {
        seq![PostAuthFrameView::Encrypted { channel_id, flags, raw_payload: raw }]
    } else if raw.len() < 2 {
        Seq::empty()
    } else {
        seq![
            PostAuthFrameView::Clear {
                channel_id,
                flags,
                msg_id: be16(raw[0], raw[1]) as u16,
                payload: raw.skip(2),
            },
        ]
    }
}

/// Cut every whole frame off the front of `buf`: the bytes left over, and what the frames
/// yield, in order.
pub open spec fn post_auth_split(buf: Seq<u8>) -> (Seq<u8>, Seq<PostAuthFrameView>)
    decreases buf.len(),
{
    if !frame_ready(buf) {
        (buf, Seq::empty())
    } else {
        let t = frame_total(buf);
        let raw = buf.subrange(header_len(buf[1]) as int, t as int);
        let (r, out) = post_auth_split(buf.skip(t as int));
        (r, post_auth_item(buf[0], buf[1], raw) + out)
    }
}

/// However the byte stream is cut into chunks, the same frames come out: splitting `x` and
/// then the leftover followed by `y` gives what splitting `x + y` gives.
pub proof fn lemma_post_auth_split_append(x: Seq<u8>, y: Seq<u8>)
    ensures
        ({
            let (r1, o1) = post_auth_split(x);
            let (r2, o2) = post_auth_split(r1 + y);
            post_auth_split(x + y) == (r2, o1 + o2)
        }),
    decreases x.len(),
{
    if frame_ready(x) {
        let xy = x + y;
        let t = frame_total(x);
        assert(xy[0] == x[0] && xy[1] == x[1] && xy[2] == x[2] && xy[3] == x[3]);
        assert(frame_ready(xy));
        assert(frame_total(xy) == t);
        let hl = header_len(x[1]);
        assert(xy.subrange(hl as int, t as int) =~= x.subrange(hl as int, t as int));
        assert(xy.skip(t as int) =~= x.skip(t as int) + y);
        lemma_post_auth_split_append(x.skip(t as int), y);
        let item = post_auth_item(x[0], x[1], x.subrange(hl as int, t as int));
        let (rb, ob) = post_auth_split(x.skip(t as int));
        let (r2, o2) = post_auth_split(rb + y);
        assert(item + (ob + o2) =~= (item + ob) + o2);
    } else {
        assert(Seq::<PostAuthFrameView>::empty() + post_auth_split(x + y).1 =~= post_auth_split(
            x + y,
        ).1);
    }
}

#[derive(Clone, Copy, PartialEq, Eq, Structural, Debug)]
pub enum PingOutcome {
    /// Before service discovery no pings are sent.
    Skipped,
    Sent,
    /// Nothing arrived for longer than the ping timeout: the session is over.
    TimedOut,
}

/// What the session reports to its owner.
pub enum SessionEvent {
    /// The main video channel is set up: the session runs.
    Connected,
    Disconnected,
    Error(String),
    /// An encoded video access unit on VIDEO or CLUSTER_VIDEO, with the codec negotiated for it.
    VideoFrame { channel_id: u8, codec: VideoCodec, data: Vec<u8>, timestamp_ns: u64 },
    /// Once per service discovery: the video tier's full size and the content region within
    /// it (crop out the letterbox bars, scale the rest to the screen).
    VideoGeometry {
        crop_left: u32,
        crop_top: u32,
        vis_width: u32,
        vis_height: u32,
        tier_width: u32,
        tier_height: u32,
    },
    HostUiRequested,
    /// PCM or AAC-LC audio on MEDIA_AUDIO, SPEECH_AUDIO or SYSTEM_AUDIO.
    AudioFrame { channel_id: u8, data: Vec<u8>, timestamp_ns: u64 },
    AudioStart { channel_id: u8 },
    AudioStop { channel_id: u8 },
    /// The phone asked the head unit to begin or stop sending microphone PCM.
    MicStart,
    MicStop,
    NavStart,
    NavStop,
    NavStatus(NavigationStatusUpdate),
    NavTurn(NavigationTurnUpdate),
    NavDistance(NavigationDistanceUpdate),
    NavState(NavigationStateUpdate),
    NavPosition(NavigationPositionUpdate),
    MediaMetadata(MediaPlaybackMetadata),
    MediaStatus(MediaPlaybackStatus),
}

pub enum SessionEventView {
    Connected,
    Disconnected,
    Error(Seq<char>),
    VideoFrame { channel_id: u8, codec: VideoCodec, data: Seq<u8>, timestamp_ns: u64 },
    VideoGeometry {
        crop_left: u32,
        crop_top: u32,
        vis_width: u32,
        vis_height: u32,
        tier_width: u32,
        tier_height: u32,
    },
    HostUiRequested,
    AudioFrame { channel_id: u8, data: Seq<u8>, timestamp_ns: u64 },
    AudioStart { channel_id: u8 },
    AudioStop { channel_id: u8 },
    MicStart,
    MicStop,
    NavStart,
    NavStop,
    NavStatus(NavigationStatusUpdate),
    NavTurn(TurnView),
    NavDistance(NavigationDistanceUpdate),
    NavState(StateView),
    NavPosition(PositionView),
    MediaMetadata(MetadataView),
    MediaStatus(StatusView),
}

impl View for SessionEvent {
    type V = SessionEventView;

    open spec fn view(&self) -> SessionEventView {
        match self {
            SessionEvent::Connected => SessionEventView::Connected,
            SessionEvent::Disconnected => SessionEventView::Disconnected,
            SessionEvent::Error(e) => SessionEventView::Error(e@),
            SessionEvent::VideoFrame { channel_id, codec, data, timestamp_ns } =>
                SessionEventView::VideoFrame {
                channel_id: *channel_id,
                codec: *codec,
                data: data@,
                timestamp_ns: *timestamp_ns,
            },
            SessionEvent::VideoGeometry {
                crop_left,
                crop_top,
                vis_width,
                vis_height,
                tier_width,
                tier_height,
            } => SessionEventView::VideoGeometry {
                crop_left: *crop_left,
                crop_top: *crop_top,
                vis_width: *vis_width,
                vis_height: *vis_height,
                tier_width: *tier_width,
                tier_height: *tier_height,
            },
            SessionEvent::HostUiRequested => SessionEventView::HostUiRequested,
            SessionEvent::AudioFrame { channel_id, data, timestamp_ns } =>
                SessionEventView::AudioFrame {
                channel_id: *channel_id,
                data: data@,
                timestamp_ns: *timestamp_ns,
            },
            SessionEvent::AudioStart { channel_id } => SessionEventView::AudioStart {
                channel_id: *channel_id,
            },
            SessionEvent::AudioStop { channel_id } => SessionEventView::AudioStop {
                channel_id: *channel_id,
            },
            SessionEvent::MicStart => SessionEventView::MicStart,
            SessionEvent::MicStop => SessionEventView::MicStop,
            SessionEvent::NavStart => SessionEventView::NavStart,
            SessionEvent::NavStop => SessionEventView::NavStop,
            SessionEvent::NavStatus(u) => SessionEventView::NavStatus(*u),
            SessionEvent::NavTurn(u) => SessionEventView::NavTurn(u@),
            SessionEvent::NavDistance(u) => SessionEventView::NavDistance(*u),
            SessionEvent::NavState(u) => SessionEventView::NavState(u@),
            SessionEvent::NavPosition(u) => SessionEventView::NavPosition(u@),
            SessionEvent::MediaMetadata(m) => SessionEventView::MediaMetadata(m@),
            SessionEvent::MediaStatus(m) => SessionEventView::MediaStatus(m@),
        }
    }
}

pub open spec fn events_view(v: Seq<SessionEvent>) -> Seq<SessionEventView> {
    v.map_values(|e: SessionEvent| e@)
}


/// A message arriving in encrypted fragments, reassembled per channel.
pub struct CleartextFragment {
    pub parts: Vec<u8>,
    pub flags: u8,
}

pub open spec fn cleartext_slot(o: Option<CleartextFragment>) -> Option<(Seq<u8>, u8)> {
    match o {
        Some(f) => Some((f.parts@, f.flags)),
        None => None,
    }
}

pub open spec fn cleartext_slots(v: Seq<Option<CleartextFragment>>) -> Seq<Option<(Seq<u8>, u8)>> {
    v.map_values(|o: Option<CleartextFragment>| cleartext_slot(o))
}

pub struct Session {
    cfg: SessionConfig,
    state: SessionState,
    raw_parser: FrameParser,
    tls_active: bool,
    tls_buf: Vec<u8>,
    control: ControlChannel,
    video: VideoChannel,
    cluster: VideoChannel,
    media_audio: AudioChannel,
    speech_audio: AudioChannel,
    system_audio: AudioChannel,
    mic: MicChannel,
    video_codec_by_index: Vec<VideoCodec>,
    cluster_codec_by_index: Vec<VideoCodec>,
    video_codec: Option<VideoCodec>,
    cluster_codec: Option<VideoCodec>,
    cleartext_fragments: Vec<Option<CleartextFragment>>,
    last_pong_at_ms: u64,
}

pub struct SessionView {
    pub cfg: ConfigView,
    pub state: SessionState,
    pub parser: ParserView,
    /// Whether the TLS engine exists.
    pub tls_active: bool,
    /// Post-authentication bytes not yet forming a whole frame.
    pub tls_buf: Seq<u8>,
    pub video: VideoChannelView,
    pub cluster: VideoChannelView,
    pub media_audio: AudioChannelView,
    pub speech_audio: AudioChannelView,
    pub system_audio: AudioChannelView,
    pub mic: MicView,
    pub video_codec_by_index: Seq<VideoCodec>,
    pub cluster_codec_by_index: Seq<VideoCodec>,
    pub video_codec: Option<VideoCodec>,
    pub cluster_codec: Option<VideoCodec>,
    /// Per channel: the cleartext gathered so far and the flags of the first fragment.
    pub fragments: Seq<Option<(Seq<u8>, u8)>>,
    pub last_pong_at_ms: u64,
}

impl View for Session {
    type V = SessionView;

    closed spec fn view(&self) -> SessionView {
        SessionView {
            cfg: self.cfg@,
            state: self.state,
            parser: self.raw_parser@,
            tls_active: self.tls_active,
            tls_buf: self.tls_buf@,
            video: self.video@,
            cluster: self.cluster@,
            media_audio: self.media_audio@,
            speech_audio: self.speech_audio@,
            system_audio: self.system_audio@,
            mic: self.mic@,
            video_codec_by_index: self.video_codec_by_index@,
            cluster_codec_by_index: self.cluster_codec_by_index@,
            video_codec: self.video_codec,
            cluster_codec: self.cluster_codec,
            fragments: cleartext_slots(self.cleartext_fragments@),
            last_pong_at_ms: self.last_pong_at_ms,
        }
    }
}

/// The ping request the head unit sends: `PingRequest { timestamp = 1 }` in microseconds.
pub open spec fn ping_request(wall_ns: u64) -> OutFrameView {
    out_frame(
        ch::CONTROL,
        frame_flags::PLAINTEXT,
        ctrl_msg::PING_REQUEST,
        field_varint_bytes(1, wall_ns / 1000),
    )
}

pub open spec fn handshake_frame(bytes: Seq<u8>) -> OutFrameView {
    out_frame(ch::CONTROL, frame_flags::PLAINTEXT, ctrl_msg::SSL_HANDSHAKE, bytes)
}

/// `AuthResponse { status = STATUS_OK }`, in plaintext.
pub open spec fn auth_complete() -> OutFrameView {
    out_frame(
        ch::CONTROL,
        frame_flags::PLAINTEXT,
        ctrl_msg::AUTH_COMPLETE,
        field_varint_bytes(1, (STATUS_OK as i64) as u64),
    )
}

/// The version request: major then minor, both big-endian.
pub open spec fn version_request() -> OutFrameView {
    out_frame(
        ch::CONTROL,
        frame_flags::PLAINTEXT,
        ctrl_msg::VERSION_REQUEST,
        seq![0x00u8, 0x01u8, 0x00u8, 0x07u8],
    )
}

/// What `on_raw_frame` does with a frame that arrived before authentication: the new state and
/// the action asked of the owner.
pub open spec fn raw_frame_step(s: SessionView, msg_id: u16, flags: u8, payload: Seq<u8>, raw: Seq<u8>, channel_id: u8)
    -> (SessionState, RawFrameActionView) {
    if msg_id == ctrl_msg::VERSION_RESPONSE {
        if payload.len() < 6 {
            (s.state, RawFrameActionView::Nothing)
        } else if be16(payload[4], payload[5]) == version::STATUS_MISMATCH {
            (SessionState::Closed, RawFrameActionView::Nothing)
        } else {
            (SessionState::TlsHandshake, RawFrameActionView::StartTls)
        }
    } else if msg_id == ctrl_msg::SSL_HANDSHAKE {
        if s.tls_active {
            (s.state, RawFrameActionView::FeedHandshake(payload))
        } else {
            (s.state, RawFrameActionView::Nothing)
        }
    } else if s.tls_active && flags & 0x08 != 0 {
        // An encrypted frame piggy-backed on the same segment as the TLS Finished record.
        (s.state, RawFrameActionView::Decrypt { channel_id, flags, raw_payload: raw })
    } else {
        (s.state, RawFrameActionView::Nothing)
    }
}

/// How a queued message leaves (see `Outgoing`).
pub open spec fn outgoing_spec(tls_active: bool, f: OutFrameView) -> OutgoingView {
    if f.flags & 0x08 == 0 {
        OutgoingView::Wire(crate::frame::frame_bytes(f.channel_id, f.flags, f.msg_id, f.data))
    } else if !tls_active {
        OutgoingView::Drop
    } else {
        OutgoingView::Encrypt {
            channel_id: f.channel_id,
            flags: f.flags,
            cleartext: seq![
                crate::frame::hi_byte(f.msg_id as nat),
                crate::frame::lo_byte(f.msg_id as nat),
            ] + f.data,
        }
    }
}

impl Session {
    /// The session's invariant: one reassembly slot per channel, a well-formed parser and mic
    /// channel, and a configuration service discovery can advertise.
    pub closed spec fn wf(&self) -> bool {
        &&& self.cleartext_fragments@.len() == CHANNEL_SLOTS
        &&& self.raw_parser.wf()
        &&& self.mic.wf()
        &&& sdr_fits(self.cfg@)
        &&& self.video_codec_by_index@.len() <= 4
        &&& self.cluster_codec_by_index@.len() <= 4
    }

    pub proof fn lemma_wf(&self)
        requires
            self.wf(),
        ensures
            self@.fragments.len() == CHANNEL_SLOTS,
            sdr_fits(self@.cfg),
            self@.video_codec_by_index.len() <= 4,
            self@.cluster_codec_by_index.len() <= 4,
    {
    }

    /// A new session in `Init`, with every channel in its initial state. `cfg` must be one
    /// service discovery can advertise (see `sdr_geometry_fits`).
    pub fn new(cfg: SessionConfig, now: Clock) -> (s: Session)
        requires
            sdr_fits(cfg@),
        ensures
            s.wf(),
            s@.cfg == cfg@,
            s@.state == SessionState::Init,
            !s@.tls_active,
            s@.tls_buf == Seq::<u8>::empty(),
            s@.parser.buf == Seq::<u8>::empty(),
            s@.video_codec_by_index == Seq::<VideoCodec>::empty(),
            s@.cluster_codec_by_index == Seq::<VideoCodec>::empty(),
            s@.video_codec is None,
            s@.cluster_codec is None,
            forall|i: int| 0 <= i < s@.fragments.len() ==> s@.fragments[i] is None,
            s@.last_pong_at_ms == now.mono_ms,
            s@.parser.frags == Seq::new(CHANNEL_SLOTS as nat, |i: int| None::<crate::frame::FragView>),
            s@.video == (VideoChannelView { channel_id: ch::VIDEO, session: 0, frame_count: 0 }),
            s@.cluster == (VideoChannelView {
                channel_id: ch::CLUSTER_VIDEO,
                session: 0,
                frame_count: 0,
            }),
            s@.media_audio == (AudioChannelView {
                channel_id: ch::MEDIA_AUDIO,
                channel_type: AudioChannelType::Media,
                session: 0,
                sample_rate: 48000,
                channel_count: 2,
            }),
            s@.speech_audio == (AudioChannelView {
                channel_id: ch::SPEECH_AUDIO,
                channel_type: AudioChannelType::Speech,
                session: 0,
                sample_rate: 48000,
                channel_count: 2,
            }),
            s@.system_audio == (AudioChannelView {
                channel_id: ch::SYSTEM_AUDIO,
                channel_type: AudioChannelType::System,
                session: 0,
                sample_rate: 48000,
                channel_count: 2,
            }),
            s@.mic == (MicView {
                channel_id: ch::MIC_INPUT,
                sample_rate: 16000,
                channel_count: 1,
                session: 1,
                open: false,
                max_unacked: 1,
                unacked: 0,
                pending: Seq::empty(),
            }),
    {
        let mut cleartext_fragments: Vec<Option<CleartextFragment>> = Vec::new();
        let mut i: usize = 0;
        while i < CHANNEL_SLOTS
            invariant
                i <= CHANNEL_SLOTS,
                cleartext_fragments@.len() == i,
                forall|k: int| 0 <= k < i ==> cleartext_fragments@[k] is None,
            decreases CHANNEL_SLOTS - i,
        {
            cleartext_fragments.push(None);
            i = i + 1;
        }
        Session {
            cfg,
            state: SessionState::Init,
            raw_parser: FrameParser::new(),
            tls_active: false,
            tls_buf: Vec::new(),
            control: ControlChannel,
            video: VideoChannel::new(ch::VIDEO),
            cluster: VideoChannel::new(ch::CLUSTER_VIDEO),
            media_audio: AudioChannel::new(ch::MEDIA_AUDIO, AudioChannelType::Media),
            speech_audio: AudioChannel::new(ch::SPEECH_AUDIO, AudioChannelType::Speech),
            system_audio: AudioChannel::new(ch::SYSTEM_AUDIO, AudioChannelType::System),
            mic: MicChannel::new(ch::MIC_INPUT),
            video_codec_by_index: Vec::new(),
            cluster_codec_by_index: Vec::new(),
            video_codec: None,
            cluster_codec: None,
            cleartext_fragments,
            last_pong_at_ms: now.mono_ms,
        }
    }

    pub fn state(&self) -> (s: SessionState)
        ensures
            s == self@.state,
    {
        self.state
    }

    /// Whether incoming bytes still go through the plaintext frame parser (up to and during
    /// the TLS handshake).
    pub fn pre_auth(&self) -> (b: bool)
        ensures
            b == (rank(self@.state) <= rank(SessionState::TlsHandshake)),
    {
        state_rank(self.state) <= 2
    }

    /// Whether the session is over.
    pub fn is_closed(&self) -> (b: bool)
        ensures
            b == (self@.state == SessionState::Closed),
    {
        self.state == SessionState::Closed
    }

    /// The stall watchdog applies until the session runs: a session not yet `Running` when it
    /// fires is given up.
    pub fn watchdog_armed(&self) -> (b: bool)
        ensures
            b == (rank(self@.state) < rank(SessionState::Running)),
    {
        state_rank(self.state) < 6
    }

    /// Queues the version request and moves to `Version`.
    pub fn send_version_request(&mut self, out: &mut Vec<OutFrame>)
        requires
            old(self).wf(),
        ensures
            final(self).wf(),
            final(self)@ == (SessionView { state: SessionState::Version, ..old(self)@ }),
            out_view(final(out)@) == out_view(old(out)@).push(version_request()),
    {
        let data: Vec<u8> = vec![0x00u8, 0x01u8, 0x00u8, 0x07u8];
        send_out(out, ch::CONTROL, frame_flags::PLAINTEXT, ctrl_msg::VERSION_REQUEST, data);
        self.state = SessionState::Version;
    }

    /// Feeds pre-authentication bytes to the frame parser; returns the frames that completed.
    pub fn parse_raw(&mut self, chunk: &[u8]) -> (frames: Vec<RawFrame>)
        requires
            old(self).wf(),
        ensures
            final(self).wf(),
            ({
                let (r, f, o) = drain_spec(old(self)@.parser.buf + chunk@, old(self)@.parser.frags);
                &&& final(self)@ == (SessionView {
                    parser: ParserView { buf: r, frags: f },
                    ..old(self)@
                })
                &&& frames_view(frames@) == o
            }),
    {
        self.raw_parser.push(chunk)
    }

    /// Decides what a pre-authentication frame asks for: the version response starts TLS (or
    /// closes the session on a version mismatch), handshake records go to the TLS engine, and
    /// an encrypted frame is decrypted once TLS exists.
    pub fn on_raw_frame(&mut self, frame: &RawFrame) -> (a: RawFrameAction)
        requires
            old(self).wf(),
        ensures
            final(self).wf(),
            ({
                let (st, act) = raw_frame_step(
                    old(self)@,
                    frame.msg_id,
                    frame.flags,
                    frame.payload@,
                    frame.raw_payload@,
                    frame.channel_id,
                );
                &&& final(self)@ == (SessionView { state: st, ..old(self)@ })
                &&& a@ == act
            }),
    {
        if frame.msg_id == ctrl_msg::VERSION_RESPONSE {
            let payload = &frame.payload;
            if payload.len() < 6 {
                return RawFrameAction::Nothing;
            }
            let status: u16 = (payload[4] as u16) * 256 + (payload[5] as u16);
            if status == version::STATUS_MISMATCH {
                self.state = SessionState::Closed;
                return RawFrameAction::Nothing;
            }
            self.state = SessionState::TlsHandshake;
            RawFrameAction::StartTls
        } else if frame.msg_id == ctrl_msg::SSL_HANDSHAKE {
            if self.tls_active {
                RawFrameAction::FeedHandshake(slice_to_vec(frame.payload.as_slice()))
            } else {
                RawFrameAction::Nothing
            }
        } else if self.tls_active && frame.flags & 0x08 != 0 {
            RawFrameAction::Decrypt {
                channel_id: frame.channel_id,
                flags: frame.flags,
                raw_payload: slice_to_vec(frame.raw_payload.as_slice()),
            }
        } else {
            RawFrameAction::Nothing
        }
    }

    /// The TLS engine now exists; its first handshake bytes (if any) are queued.
    pub fn on_tls_started(&mut self, initial: &[u8], out: &mut Vec<OutFrame>)
        requires
            old(self).wf(),
        ensures
            final(self).wf(),
            final(self)@ == (SessionView { tls_active: true, ..old(self)@ }),
            out_view(final(out)@) == if initial@.len() == 0 {
                out_view(old(out)@)
            } else {
                out_view(old(out)@).push(handshake_frame(initial@))
            },
    {
        self.tls_active = true;
        if initial.len() > 0 {
            send_out(out, ch::CONTROL, frame_flags::PLAINTEXT, ctrl_msg::SSL_HANDSHAKE, slice_to_vec(initial));
        }
    }

    /// The TLS engine took a handshake record and produced `outbound`; `was_handshaking` and
    /// `still_handshaking` are its handshake state before and after. When the handshake just
    /// completed, the session authenticates and moves on to service discovery.
    pub fn on_handshake_output(
        &mut self,
        outbound: &[u8],
        was_handshaking: bool,
        still_handshaking: bool,
        out: &mut Vec<OutFrame>,
    )
        requires
            old(self).wf(),
        ensures
            final(self).wf(),
            final(self)@ == if was_handshaking && !still_handshaking {
                SessionView { state: SessionState::ServiceDiscovery, ..old(self)@ }
            } else {
                old(self)@
            },
            out_view(final(out)@) == out_view(old(out)@) + (if outbound@.len() == 0 {
                Seq::<OutFrameView>::empty()
            } else {
                seq![handshake_frame(outbound@)]
            }) + (if was_handshaking && !still_handshaking {
                seq![auth_complete()]
            } else {
                Seq::<OutFrameView>::empty()
            }),
    {
        let ghost before = out_view(out@);
        if outbound.len() > 0 {
            send_out(out, ch::CONTROL, frame_flags::PLAINTEXT, ctrl_msg::SSL_HANDSHAKE, slice_to_vec(outbound));
        }
        let ghost mid = out_view(out@);
        if was_handshaking && !still_handshaking {
            self.state = SessionState::Auth;
            let auth = field_varint(1, STATUS_OK as i64);
            send_out(out, ch::CONTROL, frame_flags::PLAINTEXT, ctrl_msg::AUTH_COMPLETE, auth);
            self.state = SessionState::ServiceDiscovery;
        }
        proof {
            assert(out_view(out@) =~= before + (if outbound@.len() == 0 {
                Seq::<OutFrameView>::empty()
            } else {
                seq![handshake_frame(outbound@)]
            }) + (if was_handshaking && !still_handshaking {
                seq![auth_complete()]
            } else {
                Seq::<OutFrameView>::empty()
            }));
        }
    }

    /// How `f` leaves: plaintext frames go out as they are, encrypted ones as cleartext for
    /// the TLS engine (message id, then data), or are dropped while no TLS engine exists.
    pub fn outgoing(&self, f: &OutFrame) -> (o: Outgoing)
        ensures
            o@ == outgoing_spec(self@.tls_active, f@),
    {
        if f.flags & 0x08 == 0 {
            return Outgoing::Wire(crate::frame::encode_frame(f.channel_id, f.flags, f.msg_id, f.data.as_slice()));
        }
        if !self.tls_active {
            return Outgoing::Drop;
        }
        let mut cleartext: Vec<u8> = Vec::new();
        assert((f.msg_id / 256) as u8 == crate::frame::hi_byte(f.msg_id as nat));
        assert((f.msg_id % 256) as u8 == crate::frame::lo_byte(f.msg_id as nat));
        cleartext.push((f.msg_id / 256) as u8);
        cleartext.push((f.msg_id % 256) as u8);
        let ghost head = cleartext@;
        assert(head =~= seq![
            crate::frame::hi_byte(f.msg_id as nat),
            crate::frame::lo_byte(f.msg_id as nat),
        ]);
        cleartext.extend_from_slice(f.data.as_slice());
        proof {
            assert(cleartext@ =~= head + f.data@);
        }
        Outgoing::Encrypt { channel_id: f.channel_id, flags: f.flags, cleartext }
    }

    /// Sends a ping on the ping interval once service discovery is reached, or reports the
    /// session dead when nothing arrived for more than the ping timeout.
    pub fn on_ping_tick(&mut self, now: Clock, out: &mut Vec<OutFrame>) -> (r: PingOutcome)
        requires
            old(self).wf(),
        ensures
            final(self)@ == old(self)@,
            final(self).wf(),
            rank(old(self)@.state) < rank(SessionState::ServiceDiscovery) ==> r == PingOutcome::Skipped
                && out_view(final(out)@) == out_view(old(out)@),
            rank(old(self)@.state) >= rank(SessionState::ServiceDiscovery) && now.mono_ms
                > old(self)@.last_pong_at_ms + 5000 ==> r == PingOutcome::TimedOut && out_view(
                final(out)@,
            ) == out_view(old(out)@),
            rank(old(self)@.state) >= rank(SessionState::ServiceDiscovery) && now.mono_ms
                <= old(self)@.last_pong_at_ms + 5000 ==> r == PingOutcome::Sent && out_view(
                final(out)@,
            ) == out_view(old(out)@).push(ping_request(now.wall_ns)),
    {
        if state_rank(self.state) < 4 {
            return PingOutcome::Skipped;
        }
        let elapsed = if now.mono_ms >= self.last_pong_at_ms {
            now.mono_ms - self.last_pong_at_ms
        } else {
            0
        };
        if elapsed > 5000 {
            return PingOutcome::TimedOut;
        }
        self.send_ping(now, out);
        PingOutcome::Sent
    }

    /// Cuts post-authentication bytes into frames; an incomplete frame waits for more bytes.
    pub fn split_post_auth(&mut self, chunk: &[u8]) -> (frames: Vec<PostAuthFrame>)
        requires
            old(self).wf(),
        ensures
            final(self).wf(),
            ({
                let (r, o) = post_auth_split(old(self)@.tls_buf + chunk@);
                &&& final(self)@ == (SessionView { tls_buf: r, ..old(self)@ })
                &&& post_auth_view(frames@) == o
            }),
    {
        let ghost before = self.tls_buf@;
        self.tls_buf.extend_from_slice(chunk);
        assert(self.tls_buf@ =~= before + chunk@);
        let ghost b0 = self.tls_buf@;
        let ghost d0 = post_auth_split(b0);
        let mut out: Vec<PostAuthFrame> = Vec::new();
        let mut pos: usize = 0;
        let len = self.tls_buf.len();
        proof {
            assert(b0.skip(0) =~= b0);
            assert(post_auth_view(out@) + d0.1 =~= d0.1);
        }
        loop
            invariant_except_break
                len == self.tls_buf@.len(),
                self.tls_buf@ == b0,
                pos <= len,
                ({
                    let d = post_auth_split(b0.skip(pos as int));
                    &&& d.0 == d0.0
                    &&& post_auth_view(out@) + d.1 == d0.1
                }),
            ensures
                self.tls_buf@ == b0,
                pos <= len,
                b0.skip(pos as int) == d0.0,
                post_auth_view(out@) == d0.1,
            decreases len - pos,
        {
            let ghost rest = b0.skip(pos as int);
            let rem = len - pos;
            let mut ready = rem >= FRAME_HEADER_SHORT;
            let mut header: usize = FRAME_HEADER_SHORT;
            let mut total: usize = 0;
            let mut flags: u8 = 0;
            if ready {
                flags = self.tls_buf[pos + 1];
                let is_first = flags % 2 == 1;
                let is_last = (flags / 2) % 2 == 1;
                if is_first && !is_last {
                    header = FRAME_HEADER_EXTENDED;
                }
                let payload_size = (self.tls_buf[pos + 2] as usize) * 256 + (self.tls_buf[pos + 3] as usize);
                total = header + payload_size;
                ready = rem >= total;
                proof {
                    assert(rest[1] == flags && rest[2] == self.tls_buf@[pos + 2] && rest[3]
                        == self.tls_buf@[pos + 3]);
                    assert(header == header_len(flags));
                    assert(ready == frame_ready(rest));
                }
            }
            if !ready {
                proof {
                    assert(!frame_ready(rest));
                    assert(post_auth_view(out@) + Seq::<PostAuthFrameView>::empty() =~= post_auth_view(out@));
                }
                break;
            }
            let channel_id = self.tls_buf[pos];
            let raw = &self.tls_buf.as_slice()[pos + header..pos + total];
            proof {
                assert(rest[0] == channel_id);
                assert(raw@ =~= rest.subrange(header as int, total as int));
                assert(rest.skip(total as int) =~= b0.skip((pos + total) as int));
            }
            let ghost out_before = post_auth_view(out@);
            if flags & 0x08 != 0 {
                out.push(PostAuthFrame::Encrypted { channel_id, flags, raw_payload: slice_to_vec(raw) });
            } else if raw.len() >= 2 {
                let msg_id: u16 = (raw[0] as u16) * 256 + (raw[1] as u16);
                let payload = slice_to_vec(&raw[2..raw.len()]);
                proof {
                    assert(payload@ =~= raw@.skip(2));
                }
                out.push(PostAuthFrame::Clear { channel_id, flags, msg_id, payload });
            }
            proof {
                let item = post_auth_item(channel_id, flags, raw@);
                assert(post_auth_view(out@) =~= out_before + item);
                let dn = post_auth_split(b0.skip((pos + total) as int));
                assert(out_before + item + dn.1 =~= out_before + (item + dn.1));
            }
            pos = pos + total;
        }
        let leftover = slice_to_vec(&self.tls_buf.as_slice()[pos..len]);
        proof {
            assert(leftover@ =~= b0.skip(pos as int));
        }
        self.tls_buf = leftover;
        out
    }

    fn send_ping(&self, now: Clock, out: &mut Vec<OutFrame>)
        ensures
            out_view(final(out)@) == out_view(old(out)@).push(ping_request(now.wall_ns)),
    {
        let us = now.wall_ns / 1000;
        assert((us as i64) as u64 == us) by (bit_vector);
        let buf = field_varint(1, us as i64);
        send_out(out, ch::CONTROL, frame_flags::PLAINTEXT, ctrl_msg::PING_REQUEST, buf);
    }
}

/// The frame around a TLS record of an encrypted message: short header with the record's
/// length kept to 16 bits, then the record. `None` when the TLS engine produced nothing.
pub fn encrypted_frame(channel_id: u8, flags: u8, ciphertext: &[u8]) -> (r: Option<Vec<u8>>)
    ensures
        ciphertext@.len() == 0 <==> r is None,
        r matches Some(b) ==> b@ == raw_frame_bytes(channel_id, flags, ciphertext@),
{
    if ciphertext.len() == 0 {
        None
    } else {
        Some(encode_raw_frame(channel_id, flags, ciphertext))
    }
}

// ---------------------------------------------------------------------------------------
// What a message does to the session
// ---------------------------------------------------------------------------------------

/// The effects of handling one message: the session afterwards, the events reported and the
/// frames queued.
pub struct Effects {
    pub session: SessionView,
    pub events: Seq<SessionEventView>,
    pub sent: Seq<OutFrameView>,
}

pub open spec fn quiet(s: SessionView) -> Effects {
    Effects { session: s, events: Seq::empty(), sent: Seq::empty() }
}

pub open spec fn sending(s: SessionView, sent: Seq<OutFrameView>) -> Effects {
    Effects { session: s, events: Seq::empty(), sent }
}

/// What the session does about a control-channel event.
pub open spec fn control_event_effects(s: SessionView, e: ControlEventView, now: Clock) -> Effects {
    match e {
        ControlEventView::ServiceDiscoveryRequest(_) => {
            let plan = sdr_spec(s.cfg);
            Effects {
                session: SessionView {
                    video_codec_by_index: plan.video_codec_by_index,
                    cluster_codec_by_index: plan.cluster_codec_by_index,
                    last_pong_at_ms: now.mono_ms,
                    state: SessionState::ChannelSetup,
                    ..s
                },
                events: seq![
                    SessionEventView::VideoGeometry {
                        crop_left: plan.video_crop_left,
                        crop_top: plan.video_crop_top,
                        vis_width: plan.video_vis_width,
                        vis_height: plan.video_vis_height,
                        tier_width: plan.video_tier_width,
                        tier_height: plan.video_tier_height,
                    },
                ],
                sent: seq![
                    out_frame(
                        ch::CONTROL,
                        frame_flags::ENC_SIGNAL,
                        ctrl_msg::SERVICE_DISCOVERY_RESPONSE,
                        sdr_message(plan),
                    ),
                    ping_request(now.wall_ns),
                ],
            }
        },
        // A channel open named on the control channel itself is acked on channel 0.
        ControlEventView::ChannelOpenRequest { .. } => sending(s, seq![channel_open_response(STATUS_OK)]),
        ControlEventView::Pong => quiet(SessionView { last_pong_at_ms: now.mono_ms, ..s }),
        ControlEventView::Shutdown { .. } => quiet(SessionView { state: SessionState::Closed, ..s }),
        _ => quiet(s),
    }
}

/// The media codec type an AV setup request asks for: the last varint field 1, or H264.
pub open spec fn requested_codec_type(p: Seq<u8>) -> int {
    decode_fields_spec(p).fold_left(
        media_codec::VIDEO_H264_BP as int,
        |acc: int, f: ProtoFieldView|
            if f.field == 1 && f.wire == 0 {
                u32_as_i32(varint_of(f))
            } else {
                acc
            },
    )
}

pub open spec fn codec_for_type(t: int) -> VideoCodec {
    if t == media_codec::VIDEO_H265 {
        VideoCodec::H265
    } else if t == media_codec::VIDEO_VP9 {
        VideoCodec::Vp9
    } else if t == media_codec::VIDEO_AV1 {
        VideoCodec::Av1
    } else {
        VideoCodec::H264
    }
}

/// The first index of `c` in `s`.
pub open spec fn position_of(s: Seq<VideoCodec>, c: VideoCodec) -> Option<nat>
    decreases s.len(),
{
    if s.len() == 0 {
        None
    } else if s[0] == c {
        Some(0)
    } else {
        match position_of(s.drop_first(), c) {
            Some(i) => Some(i + 1),
            None => None,
        }
    }
}

/// The configuration index answered for a video setup: where the wanted codec was offered,
/// else 0 (always H264).
pub open spec fn config_index(offered: Seq<VideoCodec>, want: VideoCodec) -> nat {
    match position_of(offered, want) {
        Some(i) => i,
        None => 0,
    }
}

pub open spec fn chosen_codec(offered: Seq<VideoCodec>, idx: nat) -> VideoCodec {
    if idx < offered.len() {
        offered[idx as int]
    } else {
        VideoCodec::H264
    }
}

/// `AvChannelSetupResponse { media_status = OK, max_unacked = 1, configs = [idx] }`.
pub open spec fn setup_response(channel_id: u8, idx: nat) -> OutFrameView {
    out_frame(
        channel_id,
        frame_flags::ENC_SIGNAL,
        av_msg::SETUP_RESPONSE,
        field_varint_bytes(1, av_setup_status::OK as u64) + field_varint_bytes(2, 1)
            + field_varint_bytes(3, idx as u64),
    )
}

/// What an AV setup request does: configures the audio or microphone channel it names,
/// picks the video codec configuration, answers, and for the main video channel asks for a
/// keyframe and starts running.
pub open spec fn av_setup_effects(s: SessionView, channel_id: u8, p: Seq<u8>) -> Effects {
    let s1 = if channel_id == ch::MEDIA_AUDIO {
        SessionView {
            media_audio: AudioChannelView { sample_rate: 48000, channel_count: 2, ..s.media_audio },
            ..s
        }
    } else if channel_id == ch::SPEECH_AUDIO {
        SessionView {
            speech_audio: AudioChannelView { sample_rate: 16000, channel_count: 1, ..s.speech_audio },
            ..s
        }
    } else if channel_id == ch::SYSTEM_AUDIO {
        SessionView {
            system_audio: AudioChannelView { sample_rate: 16000, channel_count: 1, ..s.system_audio },
            ..s
        }
    } else if channel_id == ch::MIC_INPUT {
        SessionView { mic: MicView { sample_rate: 16000, channel_count: 1, ..s.mic }, ..s }
    } else {
        s
    };
    if channel_id == ch::VIDEO || channel_id == ch::CLUSTER_VIDEO {
        let offered = if channel_id == ch::VIDEO {
            s.video_codec_by_index
        } else {
            s.cluster_codec_by_index
        };
        let idx = config_index(offered, codec_for_type(requested_codec_type(p)));
        let chosen = chosen_codec(offered, idx);
        if channel_id == ch::VIDEO {
            Effects {
                session: SessionView {
                    video_codec: Some(chosen),
                    state: SessionState::Running,
                    ..s1
                },
                events: seq![SessionEventView::Connected],
                sent: seq![
                    setup_response(channel_id, idx),
                    out_frame(
                        ch::VIDEO,
                        frame_flags::ENC_SIGNAL,
                        av_msg::VIDEO_FOCUS_INDICATION,
                        seq![0x08u8, 0x01u8],
                    ),
                ],
            }
        } else {
            sending(SessionView { cluster_codec: Some(chosen), ..s1 }, seq![setup_response(channel_id, idx)])
        }
    } else {
        sending(s1, seq![setup_response(channel_id, 0)])
    }
}

pub open spec fn video_events(channel_id: u8, codec: Option<VideoCodec>, e: VideoEventView) -> Seq<
    SessionEventView,
> {
    match e {
        VideoEventView::Frame { data, timestamp_ns } => seq![
            SessionEventView::VideoFrame {
                channel_id,
                codec: match codec {
                    Some(c) => c,
                    None => VideoCodec::H264,
                },
                data,
                timestamp_ns,
            },
        ],
        VideoEventView::HostUiRequested => seq![SessionEventView::HostUiRequested],
        _ => Seq::empty(),
    }
}

pub open spec fn video_effects(s: SessionView, channel_id: u8, msg_id: u16, p: Seq<u8>, now: Clock)
    -> Effects {
    if channel_id == ch::VIDEO {
        let (v, e, sent) = video_step(s.video, msg_id, p, now.wall_ns);
        Effects {
            session: SessionView { video: v, ..s },
            events: video_events(channel_id, s.video_codec, e),
            sent,
        }
    } else {
        let (v, e, sent) = video_step(s.cluster, msg_id, p, now.wall_ns);
        Effects {
            session: SessionView { cluster: v, ..s },
            events: video_events(channel_id, s.cluster_codec, e),
            sent,
        }
    }
}

pub open spec fn audio_events(channel_id: u8, e: AudioEventView) -> Seq<SessionEventView> {
    match e {
        AudioEventView::Pcm { data, timestamp_ns } => seq![
            SessionEventView::AudioFrame { channel_id, data, timestamp_ns },
        ],
        AudioEventView::Start => seq![SessionEventView::AudioStart { channel_id }],
        AudioEventView::Stop => seq![SessionEventView::AudioStop { channel_id }],
        AudioEventView::Ignored => Seq::empty(),
    }
}

pub open spec fn audio_effects(s: SessionView, channel_id: u8, msg_id: u16, p: Seq<u8>, now: Clock)
    -> Effects {
    if channel_id == ch::MEDIA_AUDIO {
        let (a, e, sent) = audio_step(s.media_audio, msg_id, p, now.wall_ns);
        Effects {
            session: SessionView { media_audio: a, ..s },
            events: audio_events(channel_id, e),
            sent,
        }
    } else if channel_id == ch::SPEECH_AUDIO {
        let (a, e, sent) = audio_step(s.speech_audio, msg_id, p, now.wall_ns);
        Effects {
            session: SessionView { speech_audio: a, ..s },
            events: audio_events(channel_id, e),
            sent,
        }
    } else {
        let (a, e, sent) = audio_step(s.system_audio, msg_id, p, now.wall_ns);
        Effects {
            session: SessionView { system_audio: a, ..s },
            events: audio_events(channel_id, e),
            sent,
        }
    }
}

pub open spec fn mic_effects(s: SessionView, msg_id: u16, p: Seq<u8>) -> Effects {
    let (m, k, sent) = mic_step(s.mic, msg_id, p);
    Effects {
        session: SessionView { mic: m, ..s },
        events: match k {
            MicEventKind::Start => seq![SessionEventView::MicStart],
            MicEventKind::Stop => seq![SessionEventView::MicStop],
            MicEventKind::Ignored => Seq::empty(),
        },
        sent,
    }
}

pub open spec fn nav_events(e: NavEventView) -> Seq<SessionEventView> {
    match e {
        NavEventView::Start => seq![SessionEventView::NavStart],
        NavEventView::Stop => seq![SessionEventView::NavStop],
        NavEventView::Status(u) => seq![SessionEventView::NavStatus(u)],
        NavEventView::Turn(u) => seq![SessionEventView::NavTurn(u)],
        NavEventView::Distance(u) => seq![SessionEventView::NavDistance(u)],
        NavEventView::State(u) => seq![SessionEventView::NavState(u)],
        NavEventView::Position(u) => seq![SessionEventView::NavPosition(u)],
        NavEventView::Ignored => Seq::empty(),
    }
}

pub open spec fn media_info_events(e: MediaInfoEventView) -> Seq<SessionEventView> {
    match e {
        MediaInfoEventView::Metadata(m) => seq![SessionEventView::MediaMetadata(m)],
        MediaInfoEventView::Status(m) => seq![SessionEventView::MediaStatus(m)],
        MediaInfoEventView::Ignored => Seq::empty(),
    }
}

/// SENSOR_MESSAGE_REQUEST (0x8001) subscribes to a sensor: every type is acked
/// (SensorStartResponse, 0x8002); driving status (13) and night mode (10) also get an
/// initial SensorBatch (0x8003): UNRESTRICTED, and the configured night mode.
pub open spec fn sensor_effects(s: SessionView, msg_id: u16, p: Seq<u8>) -> Effects {
    if msg_id != 0x8001 {
        quiet(s)
    } else {
        let t: u8 = match field1_byte(p) {
            Some(b) => b,
            None => 0,
        };
        let ack = out_frame(ch::SENSOR, frame_flags::ENC_SIGNAL, 0x8002, seq![0x08u8, 0x00u8]);
        if t == 13 {
            sending(
                s,
                seq![ack, out_frame(ch::SENSOR, frame_flags::ENC_SIGNAL, 0x8003, seq![0x6au8, 0x02u8, 0x08u8, 0x00u8])],
            )
        } else if t == 10 {
            sending(
                s,
                seq![
                    ack,
                    out_frame(
                        ch::SENSOR,
                        frame_flags::ENC_SIGNAL,
                        0x8003,
                        seq![0x52u8, 0x02u8, 0x08u8, if s.cfg.initial_night_mode { 1u8 } else { 0u8 }],
                    ),
                ],
            )
        } else {
            sending(s, seq![ack])
        }
    }
}

/// BLUETOOTH_MESSAGE_PAIRING_REQUEST (0x8001) is declined: no Bluetooth stack pairs here.
/// `BluetoothPairingResponse { status = STATUS_BLUETOOTH_UNAVAILABLE, already_paired = false }`.
pub open spec fn bluetooth_effects(s: SessionView, msg_id: u16) -> Effects {
    if msg_id != 0x8001 {
        quiet(s)
    } else {
        sending(
            s,
            seq![
                out_frame(
                    ch::BLUETOOTH,
                    frame_flags::ENC_SIGNAL,
                    0x8002,
                    field_varint_bytes(1, (STATUS_BLUETOOTH_UNAVAILABLE as i64) as u64)
                        + field_varint_bytes(2, 0),
                ),
            ],
        )
    }
}

pub open spec fn is_audio_channel(channel_id: u8) -> bool {
    channel_id == ch::MEDIA_AUDIO || channel_id == ch::SPEECH_AUDIO || channel_id == ch::SYSTEM_AUDIO
}

/// What handling one decrypted (or clear) message does. Any message counts as liveness.
pub open spec fn message_effects(
    s: SessionView,
    channel_id: u8,
    msg_id: u16,
    p: Seq<u8>,
    now: Clock,
) -> Effects {
    let s0 = SessionView { last_pong_at_ms: now.mono_ms, ..s };
    if channel_id == ch::CONTROL {
        let (e, sent) = control_step(msg_id, p);
        let eff = control_event_effects(s0, e, now);
        Effects { sent: sent + eff.sent, ..eff }
    } else if msg_id == ctrl_msg::CHANNEL_OPEN_REQUEST {
        // The phone opens each service channel itself; the ack goes back on that channel.
        sending(
            s0,
            seq![
                out_frame(
                    channel_id,
                    frame_flags::ENC_CONTROL,
                    ctrl_msg::CHANNEL_OPEN_RESPONSE,
                    field_varint_bytes(1, (STATUS_OK as i64) as u64),
                ),
            ],
        )
    } else if msg_id == av_msg::SETUP_REQUEST {
        av_setup_effects(s0, channel_id, p)
    } else if channel_id == ch::VIDEO || channel_id == ch::CLUSTER_VIDEO {
        video_effects(s0, channel_id, msg_id, p, now)
    } else if channel_id == ch::INPUT && msg_id == input_msg::KEY_BINDING_REQUEST {
        // KeyBindingResponse { status = 0 }.
        sending(
            s0,
            seq![
                out_frame(
                    ch::INPUT,
                    frame_flags::ENC_SIGNAL,
                    input_msg::KEY_BINDING_RESPONSE,
                    seq![0x08u8, 0x00u8],
                ),
            ],
        )
    } else if is_audio_channel(channel_id) {
        audio_effects(s0, channel_id, msg_id, p, now)
    } else if channel_id == ch::MIC_INPUT {
        mic_effects(s0, msg_id, p)
    } else if channel_id == ch::NAVIGATION {
        Effects { events: nav_events(nav_event_spec(msg_id, p)), ..quiet(s0) }
    } else if channel_id == ch::MEDIA_INFO {
        Effects { events: media_info_events(media_info_spec(msg_id, p)), ..quiet(s0) }
    } else if channel_id == ch::SENSOR {
        sensor_effects(s0, msg_id, p)
    } else if channel_id == ch::BLUETOOTH {
        bluetooth_effects(s0, msg_id)
    } else {
        // Phone status and WiFi channel bodies are not handled.
        quiet(s0)
    }
}

/// The message a complete cleartext holds: its message id, then its body.
pub open spec fn message_of(cleartext: Seq<u8>) -> Option<(u16, Seq<u8>)> {
    if cleartext.len() < 2 {
        None
    } else {
        Some((be16(cleartext[0], cleartext[1]) as u16, cleartext.skip(2)))
    }
}

/// Reassembly of decrypted fragments per channel: the slots afterwards and the message that
/// completed, if any. A single frame (FIRST and LAST) is a message by itself; a FIRST frame
/// starts (or restarts) a channel's message; a continuation without a started message is
/// dropped; the LAST continuation completes it.
pub open spec fn reassemble(
    frags: Seq<Option<(Seq<u8>, u8)>>,
    channel_id: u8,
    flags: u8,
    pt: Seq<u8>,
) -> (Seq<Option<(Seq<u8>, u8)>>, Option<(u16, Seq<u8>)>) {
    let first = flags & 0x01 != 0;
    let last = flags & 0x02 != 0;
    if pt.len() == 0 {
        (frags, None)
    } else if first && last {
        (frags, message_of(pt))
    } else if first {
        (frags.update(channel_id as int, Some((pt, flags))), None)
    } else {
        match frags[channel_id as int] {
            None => (frags, None),
            Some((parts, f0)) => {
                let all = parts + pt;
                if last {
                    (frags.update(channel_id as int, None), message_of(all))
                } else {
                    (frags.update(channel_id as int, Some((all, f0))), None)
                }
            },
        }
    }
}

/// What `on_decrypted` does: reassemble, then handle the message that completed.
pub open spec fn decrypted_effects(s: SessionView, channel_id: u8, flags: u8, pt: Seq<u8>, now: Clock)
    -> Effects {
    let (frags, msg) = reassemble(s.fragments, channel_id, flags, pt);
    let s1 = SessionView { fragments: frags, ..s };
    match msg {
        Some((msg_id, body)) => message_effects(s1, channel_id, msg_id, body, now),
        None => quiet(s1),
    }
}

// ---------------------------------------------------------------------------------------
// Handling messages
// ---------------------------------------------------------------------------------------

fn emit(events: &mut Vec<SessionEvent>, e: SessionEvent)
    ensures
        events_view(final(events)@) == events_view(old(events)@).push(e@),
{
    let ghost before = events_view(events@);
    events.push(e);
    assert(events_view(events@) =~= before.push(e@));
}

fn handle_nav_message(msg_id: u16, payload: &[u8], events: &mut Vec<SessionEvent>)
    requires
        payload@.len() < usize::MAX,
    ensures
        events_view(final(events)@) == events_view(old(events)@) + nav_events(
            nav_event_spec(msg_id, payload@),
        ),
{
    let ev = navigation_channel::handle_message(msg_id, payload);
    let ghost e0 = events_view(events@);
    match ev {
        NavEvent::Start => emit(events, SessionEvent::NavStart),
        NavEvent::Stop => emit(events, SessionEvent::NavStop),
        NavEvent::Status(u) => emit(events, SessionEvent::NavStatus(u)),
        NavEvent::Turn(u) => emit(events, SessionEvent::NavTurn(u)),
        NavEvent::Distance(u) => emit(events, SessionEvent::NavDistance(u)),
        NavEvent::State(u) => emit(events, SessionEvent::NavState(u)),
        NavEvent::Position(u) => emit(events, SessionEvent::NavPosition(u)),
        NavEvent::Ignored => {},
    }
    proof {
        assert(events_view(events@) =~= e0 + nav_events(nav_event_spec(msg_id, payload@)));
    }
}

fn handle_media_info_message(msg_id: u16, payload: &[u8], events: &mut Vec<SessionEvent>)
    requires
        payload@.len() < usize::MAX,
    ensures
        events_view(final(events)@) == events_view(old(events)@) + media_info_events(
            media_info_spec(msg_id, payload@),
        ),
{
    let ev = media_info_channel::handle_message(msg_id, payload);
    let ghost e0 = events_view(events@);
    match ev {
        MediaInfoEvent::Metadata(m) => emit(events, SessionEvent::MediaMetadata(m)),
        MediaInfoEvent::Status(m) => emit(events, SessionEvent::MediaStatus(m)),
        MediaInfoEvent::Ignored => {},
    }
    proof {
        assert(events_view(events@) =~= e0 + media_info_events(media_info_spec(msg_id, payload@)));
    }
}

fn read_requested_codec_type(payload: &[u8]) -> (t: i32)
    requires
        payload@.len() < usize::MAX,
    ensures
        t as int == requested_codec_type(payload@),
{
    let fields = decode_fields(payload);
    let ghost fs = fields_view(fields@);
    let mut t: i32 = media_codec::VIDEO_H264_BP;
    let mut i: usize = 0;
    proof {
        assert(fs.take(0) =~= Seq::<ProtoFieldView>::empty());
    }
    while i < fields.len()
        invariant
            i <= fields@.len(),
            fs == fields_view(fields@),
            fs == decode_fields_spec(payload@),
            forall|k: int| 0 <= k < fields@.len() ==> (#[trigger] fields@[k]).bytes@.len()
                < payload@.len(),
            payload@.len() < usize::MAX,
            t as int == fs.take(i as int).fold_left(
                media_codec::VIDEO_H264_BP as int,
                |acc: int, f: ProtoFieldView|
                    if f.field == 1 && f.wire == 0 {
                        u32_as_i32(varint_of(f))
                    } else {
                        acc
                    },
            ),
        decreases fields@.len() - i,
    {
        let f = &fields[i];
        proof {
            assert(fs.take(i + 1).drop_last() =~= fs.take(i as int));
            assert(fs.take(i + 1).last() == f@);
        }
        if f.field == 1 && f.wire == 0 {
            t = u32_to_i32(decode_varint_value(f.bytes.as_slice()));
        }
        i = i + 1;
    }
    proof {
        assert(fs.take(fields@.len() as int) =~= fs);
    }
    t
}

fn codec_from_type(t: i32) -> (c: VideoCodec)
    ensures
        c == codec_for_type(t as int),
{
    if t == media_codec::VIDEO_H265 {
        VideoCodec::H265
    } else if t == media_codec::VIDEO_VP9 {
        VideoCodec::Vp9
    } else if t == media_codec::VIDEO_AV1 {
        VideoCodec::Av1
    } else {
        VideoCodec::H264
    }
}

proof fn lemma_position_bound(v: Seq<VideoCodec>, c: VideoCodec)
    ensures
        position_of(v, c) matches Some(j) ==> j < v.len() && v[j as int] == c,
    decreases v.len(),
{
    if v.len() > 0 && v[0] != c {
        lemma_position_bound(v.drop_first(), c);
    }
}

proof fn lemma_position_step(v: Seq<VideoCodec>, c: VideoCodec, i: int)
    requires
        0 <= i < v.len(),
        v[i] != c,
    ensures
        position_of(v.skip(i), c) == match position_of(v.skip(i + 1), c) {
            Some(j) => Some(j + 1),
            None => None::<nat>,
        },
{
    assert(v.skip(i).drop_first() =~= v.skip(i + 1));
}

/// The first index of `c` in `v`.
fn find_codec(v: &Vec<VideoCodec>, c: VideoCodec) -> (r: Option<usize>)
    ensures
        match position_of(v@, c) {
            Some(j) => r == Some(j as usize),
            None => r is None,
        },
{
    let mut i: usize = 0;
    proof {
        assert(v@.skip(0) =~= v@);
    }
    while i < v.len()
        invariant
            i <= v@.len(),
            position_of(v@, c) == match position_of(v@.skip(i as int), c) {
                Some(j) => Some((j + i) as nat),
                None => None::<nat>,
            },
        decreases v@.len() - i,
    {
        if v[i] == c {
            proof {
                assert(v@.skip(i as int)[0] == c);
            }
            return Some(i);
        }
        proof {
            lemma_position_step(v@, c, i as int);
        }
        i = i + 1;
    }
    proof {
        assert(v@.skip(i as int).len() == 0);
    }
    None
}

proof fn lemma_offered_len(c: ConfigView)
    ensures
        crate::session::service_discovery::offered_codecs(c).len() <= 4,
{
}

impl Session {
    /// Whether the video frame counters can count another frame.
    pub fn can_count_frames(&self) -> (b: bool)
        ensures
            b == (self@.video.frame_count < u64::MAX && self@.cluster.frame_count < u64::MAX),
    {
        self.video.frame_count() < u64::MAX && self.cluster.frame_count() < u64::MAX
    }

    /// Reassembles a decrypted record (see `reassemble`) and handles the message it completes.
    pub fn on_decrypted(
        &mut self,
        channel_id: u8,
        flags: u8,
        plaintext: Vec<u8>,
        now: Clock,
        out: &mut Vec<OutFrame>,
        events: &mut Vec<SessionEvent>,
    )
        requires
            old(self).wf(),
            old(self)@.video.frame_count < u64::MAX,
            old(self)@.cluster.frame_count < u64::MAX,
            old(self)@.fragments[channel_id as int] matches Some(f) ==> f.0.len() + plaintext@.len()
                < usize::MAX,
            plaintext@.len() < usize::MAX,
        ensures
            final(self).wf(),
            ({
                let eff = decrypted_effects(old(self)@, channel_id, flags, plaintext@, now);
                &&& final(self)@ == eff.session
                &&& events_view(final(events)@) == events_view(old(events)@) + eff.events
                &&& out_view(final(out)@) == out_view(old(out)@) + eff.sent
            }),
    {
        proof {
            assert(events_view(events@) + Seq::<SessionEventView>::empty() =~= events_view(events@));
            assert(out_view(out@) + Seq::<OutFrameView>::empty() =~= out_view(out@));
        }
        match self.reassemble_record(channel_id, flags, plaintext) {
            Some((msg_id, body)) => self.handle_decrypted_message(
                channel_id,
                flags,
                msg_id,
                body.as_slice(),
                now,
                out,
                events,
            ),
            None => {},
        }
    }

    fn reassemble_record(&mut self, channel_id: u8, flags: u8, plaintext: Vec<u8>) -> (r: Option<
        (u16, Vec<u8>),
    >)
        requires
            old(self).wf(),
            old(self)@.fragments[channel_id as int] matches Some(f) ==> f.0.len() + plaintext@.len()
                < usize::MAX,
            plaintext@.len() < usize::MAX,
        ensures
            final(self).wf(),
            ({
                let (frags, msg) = reassemble(old(self)@.fragments, channel_id, flags, plaintext@);
                &&& final(self)@ == (SessionView { fragments: frags, ..old(self)@ })
                &&& match msg {
                    Some((m, b)) => r matches Some(x) && x.0 == m && x.1@ == b && b.len() < usize::MAX,
                    None => r is None,
                }
            }),
    {
        let ghost s0 = self@;
        if plaintext.len() == 0 {
            return None;
        }
        let first = flags & 0x01 != 0;
        let last = flags & 0x02 != 0;
        let ch = channel_id as usize;
        if first && last {
            if plaintext.len() < 2 {
                return None;
            }
            let msg_id: u16 = (plaintext[0] as u16) * 256 + (plaintext[1] as u16);
            let body = slice_to_vec(&plaintext.as_slice()[2..plaintext.len()]);
            proof {
                assert(body@ =~= plaintext@.skip(2));
            }
            return Some((msg_id, body));
        }
        if first {
            let ghost before = self.cleartext_fragments@;
            let ghost pt = plaintext@;
            self.cleartext_fragments.set(ch, Some(CleartextFragment { parts: plaintext, flags }));
            proof {
                assert(cleartext_slots(self.cleartext_fragments@) =~= cleartext_slots(before).update(
                    ch as int,
                    Some((pt, flags)),
                ));
            }
            return None;
        }
        let ghost before = self.cleartext_fragments@;
        let slot = self.cleartext_fragments.remove(ch);
        self.cleartext_fragments.insert(ch, None);
        proof {
            assert(self.cleartext_fragments@ =~= before.update(ch as int, None));
            assert(cleartext_slot(slot) == s0.fragments[ch as int]);
        }
        match slot {
            None => {
                proof {
                    assert(cleartext_slots(self.cleartext_fragments@) =~= cleartext_slots(before));
                }
                None
            },
            Some(state) => {
                let mut parts = state.parts;
                let f0 = state.flags;
                let ghost old_parts = parts@;
                let ghost pt = plaintext@;
                let mut plaintext = plaintext;
                parts.append(&mut plaintext);
                if last {
                    proof {
                        assert(cleartext_slots(self.cleartext_fragments@) =~= cleartext_slots(
                            before,
                        ).update(ch as int, None));
                    }
                    if parts.len() < 2 {
                        return None;
                    }
                    let msg_id: u16 = (parts[0] as u16) * 256 + (parts[1] as u16);
                    let body = slice_to_vec(&parts.as_slice()[2..parts.len()]);
                    proof {
                        assert(body@ =~= (old_parts + pt).skip(2));
                    }
                    Some((msg_id, body))
                } else {
                    self.cleartext_fragments.set(ch, Some(CleartextFragment { parts, flags: f0 }));
                    proof {
                        assert(cleartext_slots(self.cleartext_fragments@) =~= cleartext_slots(
                            before,
                        ).update(ch as int, Some((old_parts + pt, f0))));
                    }
                    None
                }
            },
        }
    }

    /// Handles one whole message from the phone (see `message_effects`).
    #[verifier::spinoff_prover]
    #[verifier::rlimit(50)]
    pub fn handle_decrypted_message(
        &mut self,
        channel_id: u8,
        flags: u8,
        msg_id: u16,
        payload: &[u8],
        now: Clock,
        out: &mut Vec<OutFrame>,
        events: &mut Vec<SessionEvent>,
    )
        requires
            old(self).wf(),
            old(self)@.video.frame_count < u64::MAX,
            old(self)@.cluster.frame_count < u64::MAX,
            payload@.len() < usize::MAX,
        ensures
            final(self).wf(),
            ({
                let eff = message_effects(old(self)@, channel_id, msg_id, payload@, now);
                &&& final(self)@ == eff.session
                &&& events_view(final(events)@) == events_view(old(events)@) + eff.events
                &&& out_view(final(out)@) == out_view(old(out)@) + eff.sent
            }),
    {
        self.last_pong_at_ms = now.mono_ms;
        proof {
            assert(events_view(events@) + Seq::<SessionEventView>::empty() =~= events_view(events@));
            assert(out_view(out@) + Seq::<OutFrameView>::empty() =~= out_view(out@));
        }
        if channel_id == ch::CONTROL {
            let ghost o0 = out_view(out@);
            let ev = self.control.handle_message(msg_id, payload, out);
            let ghost o1 = out_view(out@);
            self.handle_control_event(ev, now, out, events);
            proof {
                let (_, sent) = control_step(msg_id, payload@);
                assert(out_view(out@) =~= o0 + (sent + (out_view(out@).skip(o1.len() as int))));
            }
            return;
        }
        if msg_id == ctrl_msg::CHANNEL_OPEN_REQUEST {
            let buf = field_varint(1, STATUS_OK as i64);
            let ghost o0 = out_view(out@);
            send_out(out, channel_id, frame_flags::ENC_CONTROL, ctrl_msg::CHANNEL_OPEN_RESPONSE, buf);
            proof {
                assert(out_view(out@) =~= o0 + message_effects(old(self)@, channel_id, msg_id, payload@, now).sent);
            }
            return;
        }
        if msg_id == av_msg::SETUP_REQUEST {
            self.handle_av_setup_request(channel_id, payload, out, events);
            return;
        }
        if channel_id == ch::VIDEO || channel_id == ch::CLUSTER_VIDEO {
            self.handle_video_message(channel_id, msg_id, payload, now, out, events);
            return;
        }
        if channel_id == ch::INPUT && msg_id == input_msg::KEY_BINDING_REQUEST {
            let ghost o0 = out_view(out@);
            send_out(out, ch::INPUT, frame_flags::ENC_SIGNAL, input_msg::KEY_BINDING_RESPONSE, vec![0x08u8, 0x00u8]);
            proof {
                assert(out_view(out@) =~= o0 + message_effects(old(self)@, channel_id, msg_id, payload@, now).sent);
            }
            return;
        }
        if channel_id == ch::MEDIA_AUDIO || channel_id == ch::SPEECH_AUDIO || channel_id == ch::SYSTEM_AUDIO {
            self.handle_audio_message(channel_id, msg_id, payload, now, out, events);
            return;
        }
        if channel_id == ch::MIC_INPUT {
            self.handle_mic_message(msg_id, payload, out, events);
            return;
        }
        if channel_id == ch::NAVIGATION {
            handle_nav_message(msg_id, payload, events);
            return;
        }
        if channel_id == ch::MEDIA_INFO {
            handle_media_info_message(msg_id, payload, events);
            return;
        }
        if channel_id == ch::SENSOR {
            self.handle_sensor_message(msg_id, payload, out);
            return;
        }
        if channel_id == ch::BLUETOOTH {
            self.handle_bluetooth_message(msg_id, out);
            return;
        }
        
    }

    #[verifier::spinoff_prover]
    #[verifier::rlimit(40)]
    fn handle_control_event(
        &mut self,
        event: ControlEvent,
        now: Clock,
        out: &mut Vec<OutFrame>,
        events: &mut Vec<SessionEvent>,
    )
        requires
            old(self).wf(),
        ensures
            final(self).wf(),
            ({
                let eff = control_event_effects(old(self)@, event@, now);
                &&& final(self)@ == eff.session
                &&& events_view(final(events)@) == events_view(old(events)@) + eff.events
                &&& out_view(final(out)@) == out_view(old(out)@) + eff.sent
            }),
    {
        let ghost o0 = out_view(out@);
        let ghost e0 = events_view(events@);
        proof {
            assert(e0 + Seq::<SessionEventView>::empty() =~= e0);
            assert(o0 + Seq::<OutFrameView>::empty() =~= o0);
        }
        match event {
            ControlEvent::ServiceDiscoveryRequest(_) => {
                let sdr = build_service_discovery_response(&self.cfg);
                proof {
                    lemma_offered_len(self.cfg@);
                }
                self.video_codec_by_index = slice_to_vec(sdr.video_codec_by_index.as_slice());
                self.cluster_codec_by_index = slice_to_vec(sdr.cluster_codec_by_index.as_slice());
                emit(
                    events,
                    SessionEvent::VideoGeometry {
                        crop_left: sdr.video_crop_left,
                        crop_top: sdr.video_crop_top,
                        vis_width: sdr.video_vis_width,
                        vis_height: sdr.video_vis_height,
                        tier_width: sdr.video_tier_width,
                        tier_height: sdr.video_tier_height,
                    },
                );
                send_out(
                    out,
                    ch::CONTROL,
                    frame_flags::ENC_SIGNAL,
                    ctrl_msg::SERVICE_DISCOVERY_RESPONSE,
                    sdr.buf,
                );
                self.last_pong_at_ms = now.mono_ms;
                self.send_ping(now, out);
                self.state = SessionState::ChannelSetup;
                proof {
                    assert(events_view(events@) =~= e0 + control_event_effects(old(self)@, event@, now).events);
                    assert(out_view(out@) =~= o0 + control_event_effects(old(self)@, event@, now).sent);
                }
            },
            ControlEvent::ChannelOpenRequest { channel_id: _ } => {
                ControlChannel::send_channel_open_response(STATUS_OK, out);
                proof {
                    assert(out_view(out@) =~= o0 + control_event_effects(old(self)@, event@, now).sent);
                }
            },
            ControlEvent::Pong => {
                self.last_pong_at_ms = now.mono_ms;
            },
            ControlEvent::Shutdown { reason: _ } => {
                self.state = SessionState::Closed;
            },
            _ => {},
        }
    }

    fn handle_av_setup_request(
        &mut self,
        channel_id: u8,
        payload: &[u8],
        out: &mut Vec<OutFrame>,
        events: &mut Vec<SessionEvent>,
    )
        requires
            old(self).wf(),
            payload@.len() < usize::MAX,
        ensures
            final(self).wf(),
            ({
                let eff = av_setup_effects(old(self)@, channel_id, payload@);
                &&& final(self)@ == eff.session
                &&& events_view(final(events)@) == events_view(old(events)@) + eff.events
                &&& out_view(final(out)@) == out_view(old(out)@) + eff.sent
            }),
    {
        let ghost o0 = out_view(out@);
        let ghost e0 = events_view(events@);
        let want_type = read_requested_codec_type(payload);
        if channel_id == ch::MEDIA_AUDIO {
            self.media_audio.handle_setup_request(48000, 2);
        } else if channel_id == ch::SPEECH_AUDIO {
            self.speech_audio.handle_setup_request(16000, 1);
        } else if channel_id == ch::SYSTEM_AUDIO {
            self.system_audio.handle_setup_request(16000, 1);
        } else if channel_id == ch::MIC_INPUT {
            self.mic.handle_setup_request(16000, 1);
        }
        let mut config_idx: u32 = 0;
        if channel_id == ch::VIDEO || channel_id == ch::CLUSTER_VIDEO {
            let want = codec_from_type(want_type);
            let pos = if channel_id == ch::VIDEO {
                find_codec(&self.video_codec_by_index, want)
            } else {
                find_codec(&self.cluster_codec_by_index, want)
            };
            proof {
                if channel_id == ch::VIDEO {
                    lemma_position_bound(self.video_codec_by_index@, want);
                } else {
                    lemma_position_bound(self.cluster_codec_by_index@, want);
                }
            }
            if let Some(i) = pos {
                config_idx = i as u32;
            }
            let offered_len = if channel_id == ch::VIDEO {
                self.video_codec_by_index.len()
            } else {
                self.cluster_codec_by_index.len()
            };
            let chosen = if (config_idx as usize) < offered_len {
                if channel_id == ch::VIDEO {
                    self.video_codec_by_index[config_idx as usize]
                } else {
                    self.cluster_codec_by_index[config_idx as usize]
                }
            } else {
                VideoCodec::H264
            };
            if channel_id == ch::VIDEO {
                self.video_codec = Some(chosen);
            } else {
                self.cluster_codec = Some(chosen);
            }
        }
        let mut resp = field_varint(1, av_setup_status::OK as i64);
        let mut unacked = field_varint(2, 1);
        resp.append(&mut unacked);
        let mut configs = field_varint(3, config_idx as i64);
        resp.append(&mut configs);
        send_out(out, channel_id, frame_flags::ENC_SIGNAL, av_msg::SETUP_RESPONSE, resp);
        if channel_id == ch::VIDEO {
            // VideoFocusIndication(PROJECTED, unsolicited = false): asks for a keyframe.
            send_out(out, ch::VIDEO, frame_flags::ENC_SIGNAL, av_msg::VIDEO_FOCUS_INDICATION, vec![0x08u8, 0x01u8]);
            self.state = SessionState::Running;
            emit(events, SessionEvent::Connected);
        }
        proof {
            let eff = av_setup_effects(old(self)@, channel_id, payload@);
            assert(out_view(out@) =~= o0 + eff.sent);
            assert(events_view(events@) =~= e0 + eff.events);
        }
    }

    fn handle_video_message(
        &mut self,
        channel_id: u8,
        msg_id: u16,
        payload: &[u8],
        now: Clock,
        out: &mut Vec<OutFrame>,
        events: &mut Vec<SessionEvent>,
    )
        requires
            old(self).wf(),
            channel_id == ch::VIDEO || channel_id == ch::CLUSTER_VIDEO,
            old(self)@.video.frame_count < u64::MAX,
            old(self)@.cluster.frame_count < u64::MAX,
            payload@.len() < usize::MAX,
        ensures
            final(self).wf(),
            ({
                let eff = video_effects(old(self)@, channel_id, msg_id, payload@, now);
                &&& final(self)@ == eff.session
                &&& events_view(final(events)@) == events_view(old(events)@) + eff.events
                &&& out_view(final(out)@) == out_view(old(out)@) + eff.sent
            }),
    {
        let ghost e0 = events_view(events@);
        let ev = if channel_id == ch::VIDEO {
            self.video.handle_message(msg_id, payload, now.wall_ns, out)
        } else {
            self.cluster.handle_message(msg_id, payload, now.wall_ns, out)
        };
        let codec = if channel_id == ch::VIDEO {
            self.video_codec
        } else {
            self.cluster_codec
        };
        match ev {
            VideoEvent::Frame { data, timestamp_ns } => {
                let codec = match codec {
                    Some(c) => c,
                    None => VideoCodec::H264,
                };
                emit(events, SessionEvent::VideoFrame { channel_id, codec, data, timestamp_ns });
            },
            VideoEvent::HostUiRequested => emit(events, SessionEvent::HostUiRequested),
            _ => {},
        }
        proof {
            assert(events_view(events@) =~= e0 + video_effects(old(self)@, channel_id, msg_id, payload@, now).events);
        }
    }

    fn handle_audio_message(
        &mut self,
        channel_id: u8,
        msg_id: u16,
        payload: &[u8],
        now: Clock,
        out: &mut Vec<OutFrame>,
        events: &mut Vec<SessionEvent>,
    )
        requires
            old(self).wf(),
            is_audio_channel(channel_id),
            payload@.len() < usize::MAX,
        ensures
            final(self).wf(),
            ({
                let eff = audio_effects(old(self)@, channel_id, msg_id, payload@, now);
                &&& final(self)@ == eff.session
                &&& events_view(final(events)@) == events_view(old(events)@) + eff.events
                &&& out_view(final(out)@) == out_view(old(out)@) + eff.sent
            }),
    {
        let ghost e0 = events_view(events@);
        let ev = if channel_id == ch::MEDIA_AUDIO {
            self.media_audio.handle_message(msg_id, payload, now.wall_ns, out)
        } else if channel_id == ch::SPEECH_AUDIO {
            self.speech_audio.handle_message(msg_id, payload, now.wall_ns, out)
        } else {
            self.system_audio.handle_message(msg_id, payload, now.wall_ns, out)
        };
        match ev {
            AudioEvent::Pcm { data, timestamp_ns } => emit(events, SessionEvent::AudioFrame { channel_id, data, timestamp_ns }),
            AudioEvent::Start => emit(events, SessionEvent::AudioStart { channel_id }),
            AudioEvent::Stop => emit(events, SessionEvent::AudioStop { channel_id }),
            AudioEvent::Ignored => {},
        }
        proof {
            assert(events_view(events@) =~= e0 + audio_effects(old(self)@, channel_id, msg_id, payload@, now).events);
        }
    }

    fn handle_mic_message(
        &mut self,
        msg_id: u16,
        payload: &[u8],
        out: &mut Vec<OutFrame>,
        events: &mut Vec<SessionEvent>,
    )
        requires
            old(self).wf(),
            payload@.len() < usize::MAX,
        ensures
            final(self).wf(),
            ({
                let eff = mic_effects(old(self)@, msg_id, payload@);
                &&& final(self)@ == eff.session
                &&& events_view(final(events)@) == events_view(old(events)@) + eff.events
                &&& out_view(final(out)@) == out_view(old(out)@) + eff.sent
            }),
    {
        let ghost e0 = events_view(events@);
        let ev = self.mic.handle_message(msg_id, payload, out);
        match ev {
            MicEvent::Start => emit(events, SessionEvent::MicStart),
            MicEvent::Stop => emit(events, SessionEvent::MicStop),
            MicEvent::Ignored => {},
        }
        proof {
            assert(events_view(events@) =~= e0 + mic_effects(old(self)@, msg_id, payload@).events);
        }
    }

    fn handle_sensor_message(&self, msg_id: u16, payload: &[u8], out: &mut Vec<OutFrame>)
        ensures
            out_view(final(out)@) == out_view(old(out)@) + sensor_effects(self@, msg_id, payload@).sent,
    {
        let ghost o0 = out_view(out@);
        proof {
            assert(o0 + Seq::<OutFrameView>::empty() =~= o0);
        }
        if msg_id != 0x8001 {
            return;
        }
        let sensor_type: u8 = if payload.len() >= 2 && payload[0] == 0x08 {
            payload[1]
        } else {
            0
        };
        send_out(out, ch::SENSOR, frame_flags::ENC_SIGNAL, 0x8002, vec![0x08u8, 0x00u8]);
        if sensor_type == 13 {
            send_out(out, ch::SENSOR, frame_flags::ENC_SIGNAL, 0x8003, vec![0x6au8, 0x02u8, 0x08u8, 0x00u8]);
        } else if sensor_type == 10 {
            let night: u8 = if self.cfg.initial_night_mode {
                1
            } else {
                0
            };
            send_out(out, ch::SENSOR, frame_flags::ENC_SIGNAL, 0x8003, vec![0x52u8, 0x02u8, 0x08u8, night]);
        }
        proof {
            assert(out_view(out@) =~= o0 + sensor_effects(self@, msg_id, payload@).sent);
        }
    }

    fn handle_bluetooth_message(&self, msg_id: u16, out: &mut Vec<OutFrame>)
        ensures
            out_view(final(out)@) == out_view(old(out)@) + bluetooth_effects(self@, msg_id).sent,
    {
        let ghost o0 = out_view(out@);
        proof {
            assert(o0 + Seq::<OutFrameView>::empty() =~= o0);
        }
        if msg_id != 0x8001 {
            return;
        }
        let mut resp = field_varint(1, STATUS_BLUETOOTH_UNAVAILABLE as i64);
        let mut paired = field_varint(2, 0);
        resp.append(&mut paired);
        send_out(out, ch::BLUETOOTH, frame_flags::ENC_SIGNAL, 0x8002, resp);
        proof {
            assert(out_view(out@) =~= o0 + bluetooth_effects(self@, msg_id).sent);
        }
    }
}

// ---------------------------------------------------------------------------------------
// Input from the head unit
// ---------------------------------------------------------------------------------------

pub enum SessionCommandView {
    Touch { action: u32, x: u32, y: u32 },
    Button { key_codes: Seq<u32>, down: bool, longpress: bool },
    Rotary { direction: i32 },
    RequestVideoFocus,
}

impl View for SessionCommand {
    type V = SessionCommandView;

    open spec fn view(&self) -> SessionCommandView {
        match self {
            SessionCommand::Touch { action, x, y } => SessionCommandView::Touch {
                action: *action,
                x: *x,
                y: *y,
            },
            SessionCommand::Button { key_codes, down, longpress } => SessionCommandView::Button {
                key_codes: key_codes@,
                down: *down,
                longpress: *longpress,
            },
            SessionCommand::Rotary { direction } => SessionCommandView::Rotary {
                direction: *direction,
            },
            SessionCommand::RequestVideoFocus => SessionCommandView::RequestVideoFocus,
        }
    }
}

/// An input report on the input channel.
pub open spec fn input_report_frame(report: Seq<u8>) -> OutFrameView {
    out_frame(ch::INPUT, frame_flags::ENC_SIGNAL, input_msg::INPUT_REPORT, report)
}

/// `VideoFocusRequest { mode = PROJECTED, reason = UNKNOWN }` on the main video channel.
pub open spec fn video_focus_request() -> OutFrameView {
    out_frame(
        ch::VIDEO,
        frame_flags::ENC_SIGNAL,
        av_msg::VIDEO_FOCUS_REQUEST,
        seq![0x10u8, 0x01u8, 0x18u8, 0x00u8],
    )
}

/// The frames a touch sends: one touch report while running with at least one pointer.
pub open spec fn touch_frames(
    s: SessionView,
    action: u32,
    pointers: Seq<TouchPointer>,
    action_index: u32,
    timestamp_us: u64,
) -> Seq<OutFrameView> {
    if s.state == SessionState::Running && pointers.len() > 0 {
        seq![
            input_report_frame(
                input_report_bytes(timestamp_us, 3, touch_event_bytes(action, pointers, action_index)),
            ),
        ]
    } else {
        Seq::empty()
    }
}

pub open spec fn button_frames(
    s: SessionView,
    key_codes: Seq<u32>,
    down: bool,
    longpress: bool,
    timestamp_us: u64,
) -> Seq<OutFrameView> {
    if s.state == SessionState::Running && key_codes.len() > 0 {
        seq![
            input_report_frame(
                input_report_bytes(timestamp_us, 4, key_event_bytes(key_codes, down, longpress)),
            ),
        ]
    } else {
        Seq::empty()
    }
}

pub open spec fn rotary_frames(s: SessionView, direction: i32, timestamp_us: u64) -> Seq<OutFrameView> {
    if s.state == SessionState::Running {
        seq![input_report_frame(input_report_bytes(timestamp_us, 6, rotary_event_bytes(direction)))]
    } else {
        Seq::empty()
    }
}

pub open spec fn focus_frames(s: SessionView) -> Seq<OutFrameView> {
    if s.state == SessionState::Running {
        seq![video_focus_request()]
    } else {
        Seq::empty()
    }
}

/// The frames a command sends; a touch is a single pointer with id 0 and action index 0.
pub open spec fn command_frames(s: SessionView, c: SessionCommandView, timestamp_us: u64) -> Seq<
    OutFrameView,
> {
    match c {
        SessionCommandView::Touch { action, x, y } => touch_frames(
            s,
            action,
            seq![TouchPointer { x, y, id: 0 }],
            0,
            timestamp_us,
        ),
        SessionCommandView::Button { key_codes, down, longpress } => button_frames(
            s,
            key_codes,
            down,
            longpress,
            timestamp_us,
        ),
        SessionCommandView::Rotary { direction } => rotary_frames(s, direction, timestamp_us),
        SessionCommandView::RequestVideoFocus => focus_frames(s),
    }
}

impl Session {
    /// Touch event in advertised touchscreen pixels, stamped `timestamp_us`. Nothing is sent
    /// outside `Running`.
    pub fn send_touch(
        &self,
        action: u32,
        pointers: &[TouchPointer],
        action_index: u32,
        timestamp_us: u64,
        out: &mut Vec<OutFrame>,
    )
        ensures
            out_view(final(out)@) == out_view(old(out)@) + touch_frames(
                self@,
                action,
                pointers@,
                action_index,
                timestamp_us,
            ),
    {
        let ghost o0 = out_view(out@);
        proof {
            assert(o0 + Seq::<OutFrameView>::empty() =~= o0);
        }
        if self.state != SessionState::Running {
            return;
        }
        if let Some(buf) = build_touch_report(action, pointers, action_index, timestamp_us) {
            send_out(out, ch::INPUT, frame_flags::ENC_SIGNAL, input_msg::INPUT_REPORT, buf);
            proof {
                assert(out_view(out@) =~= o0 + touch_frames(self@, action, pointers@, action_index, timestamp_us));
            }
        }
    }

    /// Hardware key event for `key_codes` (see `button_key`). Nothing is sent outside
    /// `Running`.
    pub fn send_button(
        &self,
        key_codes: &[u32],
        down: bool,
        longpress: bool,
        timestamp_us: u64,
        out: &mut Vec<OutFrame>,
    )
        ensures
            out_view(final(out)@) == out_view(old(out)@) + button_frames(
                self@,
                key_codes@,
                down,
                longpress,
                timestamp_us,
            ),
    {
        let ghost o0 = out_view(out@);
        proof {
            assert(o0 + Seq::<OutFrameView>::empty() =~= o0);
        }
        if self.state != SessionState::Running {
            return;
        }
        if let Some(buf) = build_button_report(key_codes, down, longpress, timestamp_us) {
            send_out(out, ch::INPUT, frame_flags::ENC_SIGNAL, input_msg::INPUT_REPORT, buf);
            proof {
                assert(out_view(out@) =~= o0 + button_frames(self@, key_codes@, down, longpress, timestamp_us));
            }
        }
    }

    /// Rotary-encoder delta (-1 = previous, +1 = next). Nothing is sent outside `Running`.
    pub fn send_rotary(&self, direction: i32, timestamp_us: u64, out: &mut Vec<OutFrame>)
        ensures
            out_view(final(out)@) == out_view(old(out)@) + rotary_frames(self@, direction, timestamp_us),
    {
        let ghost o0 = out_view(out@);
        proof {
            assert(o0 + Seq::<OutFrameView>::empty() =~= o0);
        }
        if self.state != SessionState::Running {
            return;
        }
        let buf = build_rotary_report(direction, timestamp_us);
        send_out(out, ch::INPUT, frame_flags::ENC_SIGNAL, input_msg::INPUT_REPORT, buf);
        proof {
            assert(out_view(out@) =~= o0 + rotary_frames(self@, direction, timestamp_us));
        }
    }

    /// Captured microphone PCM for the phone (see `mic_push`). Nothing happens outside
    /// `Running`.
    pub fn push_mic_pcm(&mut self, data: Vec<u8>, timestamp_ns: u64, out: &mut Vec<OutFrame>)
        requires
            old(self).wf(),
        ensures
            final(self).wf(),
            old(self)@.state != SessionState::Running ==> final(self)@ == old(self)@ && out_view(
                final(out)@,
            ) == out_view(old(out)@),
            old(self)@.state == SessionState::Running ==> ({
                let (m, sent) = mic_push(old(self)@.mic, data@, timestamp_ns);
                &&& final(self)@ == (SessionView { mic: m, ..old(self)@ })
                &&& out_view(final(out)@) == out_view(old(out)@) + sent
            }),
    {
        if self.state != SessionState::Running {
            return;
        }
        self.mic.push_pcm(data, timestamp_ns, out);
    }

    /// Asks the phone to show projected content again (mode PROJECTED, reason UNKNOWN) after
    /// it handed the screen to the host UI. Nothing is sent outside `Running`.
    pub fn request_video_focus(&self, out: &mut Vec<OutFrame>)
        ensures
            out_view(final(out)@) == out_view(old(out)@) + focus_frames(self@),
    {
        let ghost o0 = out_view(out@);
        proof {
            assert(o0 + Seq::<OutFrameView>::empty() =~= o0);
        }
        if self.state != SessionState::Running {
            return;
        }
        send_out(out, ch::VIDEO, frame_flags::ENC_SIGNAL, av_msg::VIDEO_FOCUS_REQUEST, vec![0x10u8, 0x01u8, 0x18u8, 0x00u8]);
        proof {
            assert(out_view(out@) =~= o0 + focus_frames(self@));
        }
    }

    /// Applies a command from the UI, stamped `timestamp_us`.
    pub fn handle_command(&self, command: SessionCommand, timestamp_us: u64, out: &mut Vec<OutFrame>)
        ensures
            out_view(final(out)@) == out_view(old(out)@) + command_frames(self@, command@, timestamp_us),
    {
        match command {
            SessionCommand::Touch { action, x, y } => {
                let pointers = [TouchPointer { x, y, id: 0 }];
                proof {
                    assert(pointers@ =~= seq![TouchPointer { x, y, id: 0 }]);
                }
                self.send_touch(action, &pointers, 0, timestamp_us, out);
            },
            SessionCommand::Button { key_codes, down, longpress } => {
                self.send_button(key_codes.as_slice(), down, longpress, timestamp_us, out);
            },
            SessionCommand::Rotary { direction } => {
                self.send_rotary(direction, timestamp_us, out);
            },
            SessionCommand::RequestVideoFocus => {
                self.request_video_focus(out);
            },
        }
    }
}

// ---------------------------------------------------------------------------------------
// Laws
// ---------------------------------------------------------------------------------------

/// A plaintext message that `outgoing` puts on the wire as a single frame is read back by
/// `split_post_auth` as that message, and reading goes on with whatever follows.
pub proof fn lemma_plain_frame_roundtrip(f: OutFrameView, rest: Seq<u8>)
    requires
        f.flags & 0x08 == 0,
        f.flags & 0x01 != 0,
        f.flags & 0x02 != 0,
        f.data.len() + 2 <= 0xffff,
    ensures
        outgoing_spec(false, f) matches OutgoingView::Wire(bytes) && ({
            let (r, o) = post_auth_split(rest);
            post_auth_split(bytes + rest) == (
                r,
                seq![
                    PostAuthFrameView::Clear {
                        channel_id: f.channel_id,
                        flags: f.flags,
                        msg_id: f.msg_id,
                        payload: f.data,
                    },
                ] + o,
            )
        }),
{
    let raw = seq![crate::frame::hi_byte(f.msg_id as nat), crate::frame::lo_byte(f.msg_id as nat)]
        + f.data;
    let e = crate::frame::frame_bytes(f.channel_id, f.flags, f.msg_id, f.data);
    let b = e + rest;
    let fl = f.flags;
    assert(fl % 2 == 1 && (fl / 2) % 2 == 1) by (bit_vector)
        requires
            fl & 0x01 != 0,
            fl & 0x02 != 0,
    ;
    assert(b[0] == f.channel_id && b[1] == f.flags);
    assert(b[2] == crate::frame::hi_byte(raw.len()) && b[3] == crate::frame::lo_byte(raw.len()));
    assert(be16(b[2], b[3]) == raw.len());
    assert(frame_ready(b));
    assert(frame_total(b) == 4 + raw.len());
    assert(b.subrange(4, 4 + raw.len() as int) =~= raw);
    assert(b.skip(4 + raw.len() as int) =~= rest);
    assert(be16(raw[0], raw[1]) == f.msg_id as nat);
    assert(raw.skip(2) =~= f.data);
}

/// A TLS record framed by `encrypted_frame` is read back by `split_post_auth` as that
/// record, and reading goes on with whatever follows.
pub proof fn lemma_encrypted_frame_roundtrip(channel_id: u8, flags: u8, record: Seq<u8>, rest: Seq<u8>)
    requires
        flags & 0x08 != 0,
        !(flags & 0x01 != 0 && flags & 0x02 == 0),
        record.len() <= 0xffff,
    ensures
        ({
            let (r, o) = post_auth_split(rest);
            post_auth_split(raw_frame_bytes(channel_id, flags, record) + rest) == (
                r,
                seq![PostAuthFrameView::Encrypted { channel_id, flags, raw_payload: record }] + o,
            )
        }),
{
    let b = raw_frame_bytes(channel_id, flags, record) + rest;
    assert(!(flags % 2 == 1 && (flags / 2) % 2 != 1)) by (bit_vector)
        requires
            !(flags & 0x01 != 0 && flags & 0x02 == 0),
    ;
    assert(b[0] == channel_id && b[1] == flags);
    assert(b[2] == crate::frame::hi_byte(record.len()) && b[3] == crate::frame::lo_byte(record.len()));
    assert(be16(b[2], b[3]) == record.len());
    assert(frame_ready(b));
    assert(frame_total(b) == 4 + record.len());
    assert(b.subrange(4, 4 + record.len() as int) =~= record);
    assert(b.skip(4 + record.len() as int) =~= rest);
}

/// Continuation records of one channel, fed one after the other.
pub open spec fn feed_continuations(
    frags: Seq<Option<(Seq<u8>, u8)>>,
    channel_id: u8,
    flags: u8,
    pieces: Seq<Seq<u8>>,
) -> Seq<Option<(Seq<u8>, u8)>>
    decreases pieces.len(),
{
    if pieces.len() == 0 {
        frags
    } else {
        feed_continuations(
            reassemble(frags, channel_id, flags, pieces[0]).0,
            channel_id,
            flags,
            pieces.drop_first(),
        )
    }
}

proof fn lemma_feed_continuations(
    frags: Seq<Option<(Seq<u8>, u8)>>,
    channel_id: u8,
    flags: u8,
    pieces: Seq<Seq<u8>>,
    acc: Seq<u8>,
    f0: u8,
)
    requires
        (channel_id as int) < frags.len(),
        frags[channel_id as int] == Some((acc, f0)),
        flags & 0x01 == 0,
        flags & 0x02 == 0,
        forall|i: int| 0 <= i < pieces.len() ==> (#[trigger] pieces[i]).len() > 0,
    ensures
        feed_continuations(frags, channel_id, flags, pieces) == frags.update(
            channel_id as int,
            Some((acc + pieces.flatten(), f0)),
        ),
    decreases pieces.len(),
{
    if pieces.len() == 0 {
        assert(acc + pieces.flatten() =~= acc);
        assert(frags.update(channel_id as int, Some((acc, f0))) =~= frags);
    } else {
        let p0 = pieces[0];
        assert(p0.len() > 0);
        let f1 = frags.update(channel_id as int, Some((acc + p0, f0)));
        assert(reassemble(frags, channel_id, flags, p0).0 == f1);
        assert forall|i: int| 0 <= i < pieces.drop_first().len() implies (
        #[trigger] pieces.drop_first()[i]).len() > 0 by {
            assert(pieces.drop_first()[i] == pieces[i + 1]);
        }
        lemma_feed_continuations(f1, channel_id, flags, pieces.drop_first(), acc + p0, f0);
        assert(acc + p0 + pieces.drop_first().flatten() =~= acc + pieces.flatten());
        assert(f1.update(channel_id as int, Some((acc + p0 + pieces.drop_first().flatten(), f0)))
            =~= frags.update(channel_id as int, Some((acc + pieces.flatten(), f0))));
    }
}

/// A message sent as a FIRST record, any number of continuation records and a LAST record
/// on one channel is reassembled into the concatenation of their cleartexts, whatever was
/// pending on that channel before; the channel's slot is free afterwards and the other
/// channels' slots are untouched.
pub proof fn lemma_fragments_reassemble(
    frags: Seq<Option<(Seq<u8>, u8)>>,
    channel_id: u8,
    first_flags: u8,
    first: Seq<u8>,
    middle_flags: u8,
    middles: Seq<Seq<u8>>,
    last_flags: u8,
    last: Seq<u8>,
)
    requires
        frags.len() == CHANNEL_SLOTS,
        first_flags & 0x01 != 0,
        first_flags & 0x02 == 0,
        middle_flags & 0x01 == 0,
        middle_flags & 0x02 == 0,
        last_flags & 0x01 == 0,
        last_flags & 0x02 != 0,
        first.len() > 0,
        last.len() > 0,
        forall|i: int| 0 <= i < middles.len() ==> (#[trigger] middles[i]).len() > 0,
    ensures
        ({
            let f1 = reassemble(frags, channel_id, first_flags, first);
            let f2 = feed_continuations(f1.0, channel_id, middle_flags, middles);
            let f3 = reassemble(f2, channel_id, last_flags, last);
            &&& f1.1 is None
            &&& f3 == (
                frags.update(channel_id as int, None),
                message_of(first + middles.flatten() + last),
            )
        }),
{
    let f1 = frags.update(channel_id as int, Some((first, first_flags)));
    assert(reassemble(frags, channel_id, first_flags, first) == (f1, None::<(u16, Seq<u8>)>));
    lemma_feed_continuations(f1, channel_id, middle_flags, middles, first, first_flags);
    let f2 = f1.update(channel_id as int, Some((first + middles.flatten(), first_flags)));
    assert(f2[channel_id as int] == Some((first + middles.flatten(), first_flags)));
    assert(f2.update(channel_id as int, None) =~= frags.update(channel_id as int, None));
}

/// A video setup after service discovery picks the codec the phone asked for when the head
/// unit offered it, and H264 (configuration 0) otherwise; the session then runs.
pub proof fn lemma_video_setup_codec(s: SessionView, p: Seq<u8>)
    requires
        s.video_codec_by_index == crate::session::service_discovery::offered_codecs(s.cfg),
    ensures
        ({
            let want = codec_for_type(requested_codec_type(p));
            let offered = s.video_codec_by_index;
            let eff = av_setup_effects(s, ch::VIDEO, p);
            &&& eff.session.video_codec == Some(
                if offered.contains(want) {
                    want
                } else {
                    VideoCodec::H264
                },
            )
            &&& !offered.contains(want) ==> eff.sent[0] == setup_response(ch::VIDEO, 0)
            &&& eff.session.state == SessionState::Running
            &&& eff.events == seq![SessionEventView::Connected]
        }),
{
    let want = codec_for_type(requested_codec_type(p));
    let offered = s.video_codec_by_index;
    lemma_position_bound(offered, want);
    lemma_position_found(offered, want);
    assert(offered[0] == VideoCodec::H264);
}

proof fn lemma_position_found(v: Seq<VideoCodec>, c: VideoCodec)
    ensures
        v.contains(c) <==> position_of(v, c) is Some,
    decreases v.len(),
{
    if v.len() > 0 {
        lemma_position_found(v.drop_first(), c);
        if v[0] != c {
            assert(v.contains(c) ==> v.drop_first().contains(c)) by {
                if v.contains(c) {
                    let k = choose|k: int| 0 <= k < v.len() && v[k] == c;
                    assert(v.drop_first()[k - 1] == c);
                }
            }
            assert(v.drop_first().contains(c) ==> v.contains(c)) by {
                if v.drop_first().contains(c) {
                    let k = choose|k: int| 0 <= k < v.drop_first().len() && v.drop_first()[k] == c;
                    assert(v[k + 1] == c);
                }
            }
        } else {
            assert(v[0] == c);
        }
    }
}

/// Service discovery records the codecs offered per display, so later setups index them.
pub proof fn lemma_discovery_records_codecs(s: SessionView, request: Seq<u8>, now: Clock)
    ensures
        ({
            let eff = control_event_effects(
                s,
                ControlEventView::ServiceDiscoveryRequest(request),
                now,
            );
            &&& eff.session.video_codec_by_index == crate::session::service_discovery::offered_codecs(
                s.cfg,
            )
            &&& eff.session.state == SessionState::ChannelSetup
            &&& eff.sent[0] == out_frame(
                ch::CONTROL,
                frame_flags::ENC_SIGNAL,
                ctrl_msg::SERVICE_DISCOVERY_RESPONSE,
                sdr_message(sdr_spec(s.cfg)),
            )
        }),
{
}

/// Any message from the phone counts as liveness: handling it moves the last-heard time to
/// now.
pub proof fn lemma_message_refreshes_liveness(
    s: SessionView,
    channel_id: u8,
    msg_id: u16,
    p: Seq<u8>,
    now: Clock,
)
    ensures
        message_effects(s, channel_id, msg_id, p, now).session.last_pong_at_ms == now.mono_ms,
{
}

/// Every sensor subscription (SensorRequest { type = t } on the sensor channel) is acked with
/// `0x08 0x00`; a driving-status subscription (13) is then answered with an unrestricted
/// driving status (`0x6a 0x02 0x08 0x00`), and any type other than 13 and 10 gets only the ack.
pub proof fn lemma_sensor_requests_acked(s: SessionView, p: Seq<u8>, now: Clock)
    requires
        p.len() >= 2,
        p[0] == 0x08,
    ensures
        ({
            let sent = message_effects(s, 1, 0x8001, p, now).sent;
            &&& sent.len() >= 1
            &&& sent[0] == (OutFrameView {
                channel_id: 1,
                flags: 0x0b,
                msg_id: 0x8002,
                data: seq![0x08u8, 0x00u8],
            })
            &&& p[1] == 13 ==> sent == seq![
                sent[0],
                OutFrameView {
                    channel_id: 1,
                    flags: 0x0b,
                    msg_id: 0x8003,
                    data: seq![0x6au8, 0x02u8, 0x08u8, 0x00u8],
                },
            ]
            &&& p[1] != 13 && p[1] != 10 ==> sent.len() == 1
        }),
{
}

/// A subscription to the night-mode sensor (SensorRequest { type = 10 } on the sensor channel)
/// is acked, then answered with a SensorBatch whose night-data entry
/// (`0x52 0x02 0x08 <is_night>`) says night exactly when the head unit is configured to start
/// in night mode.
pub proof fn lemma_night_sensor_reports_configured_mode(s: SessionView, p: Seq<u8>, now: Clock)
    requires
        p.len() >= 2,
        p[0] == 0x08,
        p[1] == 10,
    ensures
        ({
            let sent = message_effects(s, 1, 0x8001, p, now).sent;
            &&& sent.len() == 2
            &&& sent[0] == (OutFrameView {
                channel_id: 1,
                flags: 0x0b,
                msg_id: 0x8002,
                data: seq![0x08u8, 0x00u8],
            })
            &&& sent[1].channel_id == 1
            &&& sent[1].flags == 0x0b
            &&& sent[1].msg_id == 0x8003
            &&& sent[1].data.len() == 4
            &&& sent[1].data[0] == 0x52 && sent[1].data[1] == 0x02 && sent[1].data[2] == 0x08
            &&& (sent[1].data[3] == 1) == s.cfg.initial_night_mode
            &&& (sent[1].data[3] == 0) == !s.cfg.initial_night_mode
        }),
{
}

} // verus!
