//! Wired-driver decisions: what the head unit does on screen and on its speakers for each
//! session event. The driver loop performs the actions (window, video pipeline, audio sinks)
//! and feeds the next event back in.

use vstd::prelude::*;
use crate::constants::ch;
use crate::session::config::VideoCodec;
use crate::session::session::{SessionEvent, SessionEventView};
use crate::video::GstVideoCodec;

verus! {

/// Sample rate and channel count of an audio channel's PCM, as the session negotiates them.
pub open spec fn audio_format_spec(channel_id: u8) -> (i32, i32) {
    if channel_id == ch::MEDIA_AUDIO {
        (48000, 2)
    } else {
        (16000, 1)
    }
}

pub fn audio_format_for(channel_id: u8) -> (r: (i32, i32))
    ensures
        r == audio_format_spec(channel_id),
{
    if channel_id == ch::MEDIA_AUDIO {
        (48000, 2)
    } else {
        (16000, 1)
    }
}

pub open spec fn gst_codec_spec(codec: VideoCodec) -> GstVideoCodec {
    match codec {
        VideoCodec::H264 => GstVideoCodec::H264,
        VideoCodec::H265 => GstVideoCodec::H265,
        VideoCodec::Vp9 => GstVideoCodec::VP9,
        VideoCodec::Av1 => GstVideoCodec::AV1,
    }
}

pub fn to_gst_codec(codec: VideoCodec) -> (g: GstVideoCodec)
    ensures
        g == gst_codec_spec(codec),
{
    match codec {
        VideoCodec::H264 => GstVideoCodec::H264,
        VideoCodec::H265 => GstVideoCodec::H265,
        VideoCodec::Vp9 => GstVideoCodec::VP9,
        VideoCodec::Av1 => GstVideoCodec::AV1,
    }
}

/// A little-endian signed 16-bit sample.
pub open spec fn le_i16(lo: u8, hi: u8) -> i16 {
    let v = lo as int + 256 * (hi as int);
    if v < 32768 {
        v as i16
    } else {
        (v - 65536) as i16
    }
}

/// 16-bit little-endian PCM samples of a byte buffer; a trailing odd byte is dropped.
pub open spec fn pcm_samples_spec(data: Seq<u8>) -> Seq<i16> {
    Seq::new(data.len() / 2, |k: int| le_i16(data[2 * k], data[2 * k + 1]))
}

pub fn pcm_samples(data: &Vec<u8>) -> (out: Vec<i16>)
    ensures
        out@ == pcm_samples_spec(data@),
{
    let len = data.len();
    let n = len / 2;
    let mut out: Vec<i16> = Vec::new();
    let mut k: usize = 0;
    while k < n
        invariant
            len == data@.len(),
            n == len / 2,
            k <= n,
            out@ =~= Seq::new(k as nat, |j: int| le_i16(data@[2 * j], data@[2 * j + 1])),
        decreases n - k,
    {
        assert(2 * k + 1 < len) by (nonlinear_arith)
            requires
                k < n,
                n == len / 2,
        ;
        let lo = data[2 * k] as u16;
        let hi = data[2 * k + 1] as u16;
        let v: u16 = lo + 256 * hi;
        let s: i16 = if v < 32768 {
            v as i16
        } else {
            (v as i32 - 65536) as i16
        };
        out.push(s);
        k = k + 1;
    }
    out
}

/// Content region of the video tier: crop out the letterbox bars, scale the rest to the screen.
#[derive(Clone, Copy, Debug, PartialEq, Eq, Structural)]
pub struct Geometry {
    pub crop_left: u32,
    pub crop_top: u32,
    pub vis_width: u32,
    pub vis_height: u32,
    pub tier_width: u32,
    pub tier_height: u32,
}

/// Something the driver does on the head unit.
#[derive(Debug)]
pub enum PresenterAction {
    /// Create the video player on the main window, applying the content region when known.
    CreateVideo { region: Option<Geometry> },
    SetContentRegion(Geometry),
    ShowVideo,
    HideVideo,
    PushVideo { codec: GstVideoCodec, data: Vec<u8> },
    /// Create the touch overlay window if needed, show it and focus it.
    ShowTouchWindow,
    /// Keep reclaiming focus and always-on-top for the overlay while the new video surface
    /// settles.
    KeepTouchOnTop,
    CloseTouchWindow,
    FocusMain,
    StartAudio { channel_id: u8, sample_rate: i32, channels: i32 },
    WriteAudio { channel_id: u8, samples: Vec<i16> },
    StopAudio { channel_id: u8 },
    /// Tell the front end the projection status ("connected", "host-ui", "disconnected").
    EmitStatus(&'static str),
    DisposeVideo,
}

pub enum ActionView {
    CreateVideo { region: Option<Geometry> },
    SetContentRegion(Geometry),
    ShowVideo,
    HideVideo,
    PushVideo { codec: GstVideoCodec, data: Seq<u8> },
    ShowTouchWindow,
    KeepTouchOnTop,
    CloseTouchWindow,
    FocusMain,
    StartAudio { channel_id: u8, sample_rate: i32, channels: i32 },
    WriteAudio { channel_id: u8, samples: Seq<i16> },
    StopAudio { channel_id: u8 },
    EmitStatus(Seq<char>),
    DisposeVideo,
}

impl View for PresenterAction {
    type V = ActionView;

    open spec fn view(&self) -> ActionView {
        match self {
            PresenterAction::CreateVideo { region } => ActionView::CreateVideo { region: *region },
            PresenterAction::SetContentRegion(g) => ActionView::SetContentRegion(*g),
            PresenterAction::ShowVideo => ActionView::ShowVideo,
            PresenterAction::HideVideo => ActionView::HideVideo,
            PresenterAction::PushVideo { codec, data } => ActionView::PushVideo {
                codec: *codec,
                data: data@,
            },
            PresenterAction::ShowTouchWindow => ActionView::ShowTouchWindow,
            PresenterAction::KeepTouchOnTop => ActionView::KeepTouchOnTop,
            PresenterAction::CloseTouchWindow => ActionView::CloseTouchWindow,
            PresenterAction::FocusMain => ActionView::FocusMain,
            PresenterAction::StartAudio { channel_id, sample_rate, channels } =>
                ActionView::StartAudio {
                channel_id: *channel_id,
                sample_rate: *sample_rate,
                channels: *channels,
            },
            PresenterAction::WriteAudio { channel_id, samples } => ActionView::WriteAudio {
                channel_id: *channel_id,
                samples: samples@,
            },
            PresenterAction::StopAudio { channel_id } => ActionView::StopAudio {
                channel_id: *channel_id,
            },
            PresenterAction::EmitStatus(s) => ActionView::EmitStatus(s@),
            PresenterAction::DisposeVideo => ActionView::DisposeVideo,
        }
    }
}

pub open spec fn actions_view(v: Seq<PresenterAction>) -> Seq<ActionView> {
    v.map_values(|a: PresenterAction| a@)
}

/// `s` without the occurrences of `c`, in order.
pub open spec fn without(s: Seq<u8>, c: u8) -> Seq<u8>
    decreases s.len(),
{
    if s.len() == 0 {
        s
    } else if s.last() == c {
        without(s.drop_last(), c)
    } else {
        without(s.drop_last(), c).push(s.last())
    }
}

pub struct PresenterView {
    pub video_created: bool,
    pub video_visible: bool,
    pub audio: Seq<u8>,
    pub pending_geometry: Option<Geometry>,
}

/// The driver's view of the head unit while a session runs: whether the video player exists
/// and is shown, which audio channels have a sink, and the content region to apply.
pub struct Presenter {
    pub video_created: bool,
    pub video_visible: bool,
    /// Audio channels with a running sink, each once, in the order they started.
    pub audio: Vec<u8>,
    pub pending_geometry: Option<Geometry>,
}

impl View for Presenter {
    type V = PresenterView;

    open spec fn view(&self) -> PresenterView {
        PresenterView {
            video_created: self.video_created,
            video_visible: self.video_visible,
            audio: self.audio@,
            pending_geometry: self.pending_geometry,
        }
    }
}

/// What one session event does: the presenter afterwards and the actions, in order.
/// `main_window` says whether the main window exists to host a video player.
pub open spec fn present_spec(s: PresenterView, e: SessionEventView, main_window: bool) -> (
    PresenterView,
    Seq<ActionView>,
) {
    match e {
        SessionEventView::VideoGeometry {
            crop_left,
            crop_top,
            vis_width,
            vis_height,
            tier_width,
            tier_height,
        } => {
            let g = Geometry {
                crop_left,
                crop_top,
                vis_width,
                vis_height,
                tier_width,
                tier_height,
            };
            (
                PresenterView { pending_geometry: Some(g), ..s },
                if s.video_created {
                    seq![ActionView::SetContentRegion(g)]
                } else {
                    Seq::empty()
                },
            )
        },
        SessionEventView::VideoFrame { channel_id, codec, data, .. } => {
            if channel_id != ch::VIDEO || (!s.video_created && !main_window) {
                (s, Seq::empty())
            } else {
                let first = !s.video_created;
                let create = if first {
                    seq![ActionView::CreateVideo { region: s.pending_geometry }]
                } else {
                    Seq::empty()
                };
                let reshow = if !s.video_visible {
                    seq![ActionView::ShowVideo, ActionView::ShowTouchWindow]
                } else {
                    Seq::empty()
                };
                let settle = if first {
                    seq![ActionView::ShowTouchWindow, ActionView::KeepTouchOnTop]
                } else {
                    Seq::empty()
                };
                (
                    PresenterView { video_created: true, video_visible: true, ..s },
                    create + reshow + seq![
                        ActionView::PushVideo { codec: gst_codec_spec(codec), data },
                    ] + settle,
                )
            }
        },
        SessionEventView::AudioStart { channel_id } => (
            PresenterView {
                audio: if s.audio.contains(channel_id) {
                    s.audio
                } else {
                    s.audio.push(channel_id)
                },
                ..s
            },
            seq![
                ActionView::StartAudio {
                    channel_id,
                    sample_rate: audio_format_spec(channel_id).0,
                    channels: audio_format_spec(channel_id).1,
                },
            ],
        ),
        SessionEventView::AudioFrame { channel_id, data, .. } => (
            s,
            if s.audio.contains(channel_id) {
                seq![ActionView::WriteAudio { channel_id, samples: pcm_samples_spec(data) }]
            } else {
                Seq::empty()
            },
        ),
        SessionEventView::AudioStop { channel_id } => if s.audio.contains(channel_id) {
            (
                PresenterView { audio: without(s.audio, channel_id), ..s },
                seq![ActionView::StopAudio { channel_id }],
            )
        } else {
            (s, Seq::empty())
        },
        SessionEventView::Connected => (s, seq![ActionView::EmitStatus("connected"@)]),
        SessionEventView::HostUiRequested => {
            let hide = if s.video_created {
                seq![ActionView::HideVideo]
            } else {
                Seq::empty()
            };
            (
                PresenterView {
                    video_visible: if s.video_created {
                        false
                    } else {
                        s.video_visible
                    },
                    ..s
                },
                seq![ActionView::CloseTouchWindow] + hide + seq![
                    ActionView::FocusMain,
                    ActionView::EmitStatus("host-ui"@),
                ],
            )
        },
        _ => (s, Seq::empty()),
    }
}

/// What ending the session does: report it, dispose of the video player, stop every audio
/// sink, close the touch overlay.
pub open spec fn finish_spec(s: PresenterView) -> Seq<ActionView> {
    seq![ActionView::EmitStatus("disconnected"@)] + (if s.video_created {
        seq![ActionView::DisposeVideo]
    } else {
        Seq::empty()
    }) + s.audio.map_values(|c: u8| ActionView::StopAudio { channel_id: c }) + seq![
        ActionView::CloseTouchWindow,
    ]
}

proof fn lemma_without(s: Seq<u8>, c: u8)
    ensures
        !without(s, c).contains(c),
        forall|x: u8| x != c ==> (without(s, c).contains(x) <==> s.contains(x)),
        s.no_duplicates() ==> without(s, c).no_duplicates(),
    decreases s.len(),
{
    if s.len() > 0 {
        let t = s.drop_last();
        lemma_without(t, c);
        assert forall|x: u8| x != c implies (without(s, c).contains(x) <==> s.contains(x)) by {
            let w = without(t, c);
            if s.contains(x) {
                let k = choose|k: int| 0 <= k < s.len() && s[k] == x;
                if k < s.len() - 1 {
                    assert(t[k] == x);
                    assert(t.contains(x));
                    assert(w.contains(x));
                    let m = choose|m: int| 0 <= m < w.len() && w[m] == x;
                    if s.last() != c {
                        assert(w.push(s.last())[m] == x);
                    }
                } else {
                    assert(s.last() == x);
                    assert(w.push(s.last())[w.len() as int] == x);
                }
            }
            if without(s, c).contains(x) {
                if s.last() == c {
                    assert(w.contains(x));
                    assert(t.contains(x));
                    let j = choose|j: int| 0 <= j < t.len() && t[j] == x;
                    assert(s[j] == x);
                } else {
                    let k = choose|k: int| 0 <= k < w.push(s.last()).len() && w.push(s.last())[k] == x;
                    if k < w.len() {
                        assert(w[k] == x);
                        assert(w.contains(x));
                        assert(t.contains(x));
                        let j = choose|j: int| 0 <= j < t.len() && t[j] == x;
                        assert(s[j] == x);
                    } else {
                        assert(s[s.len() - 1] == x);
                    }
                }
            }
        }
        if s.no_duplicates() {
            assert(t.no_duplicates()) by {
                assert forall|i: int, j: int| 0 <= i < t.len() && 0 <= j < t.len() && i != j implies t[i] != t[j] by {
                    assert(s[i] == t[i] && s[j] == t[j]);
                }
            }
            if s.last() != c {
                let w = without(t, c);
                assert(!t.contains(s.last())) by {
                    if t.contains(s.last()) {
                        let j = choose|j: int| 0 <= j < t.len() && t[j] == s.last();
                        assert(s[j] == s[s.len() - 1]);
                    }
                }
                assert(!w.contains(s.last()));
                assert forall|i: int, j: int| 0 <= i < w.push(s.last()).len() && 0 <= j < w.push(s.last()).len() && i != j implies w.push(s.last())[i] != w.push(s.last())[j] by {
                    if i < w.len() && j < w.len() {
                    } else if i < w.len() {
                        assert(w.contains(w[i]));
                    } else {
                        assert(w.contains(w[j]));
                    }
                }
            }
        }
    }
}

/// The presenter keeps at most one audio sink per channel: whatever the event, the list of
/// channels with a sink stays free of repeats.
pub proof fn lemma_one_sink_per_channel(s: PresenterView, e: SessionEventView, main_window: bool)
    requires
        s.audio.no_duplicates(),
    ensures
        present_spec(s, e, main_window).0.audio.no_duplicates(),
{
    match e {
        SessionEventView::AudioStart { channel_id } => {
            if !s.audio.contains(channel_id) {
                let t = s.audio.push(channel_id);
                assert forall|i: int, j: int| 0 <= i < t.len() && 0 <= j < t.len() && i != j implies t[i] != t[j] by {
                    if i < s.audio.len() && j < s.audio.len() {
                    } else if i < s.audio.len() {
                        assert(s.audio.contains(s.audio[i]));
                    } else {
                        assert(s.audio.contains(s.audio[j]));
                    }
                }
            }
        },
        SessionEventView::AudioStop { channel_id } => {
            lemma_without(s.audio, channel_id);
        },
        _ => {},
    }
}

/// A channel whose audio started and then stopped has no sink left, and the stop is acted on.
pub proof fn lemma_audio_stop_releases(s: PresenterView, channel_id: u8, main_window: bool)
    ensures
        ({
            let started = present_spec(
                s,
                SessionEventView::AudioStart { channel_id },
                main_window,
            ).0;
            let (stopped, actions) = present_spec(
                started,
                SessionEventView::AudioStop { channel_id },
                main_window,
            );
            &&& !stopped.audio.contains(channel_id)
            &&& actions == seq![ActionView::StopAudio { channel_id }]
        }),
{
    let started = present_spec(s, SessionEventView::AudioStart { channel_id }, main_window).0;
    if !s.audio.contains(channel_id) {
        assert(started.audio[started.audio.len() - 1] == channel_id);
    }
    assert(started.audio.contains(channel_id));
    lemma_without(started.audio, channel_id);
}

/// A content region that arrives before any video is applied when the video player is
/// created by the first main-display frame.
pub proof fn lemma_geometry_applied_at_creation(
    s: PresenterView,
    g: Geometry,
    codec: VideoCodec,
    data: Seq<u8>,
    timestamp_ns: u64,
)
    requires
        !s.video_created,
    ensures
        ({
            let after_geometry = present_spec(
                s,
                SessionEventView::VideoGeometry {
                    crop_left: g.crop_left,
                    crop_top: g.crop_top,
                    vis_width: g.vis_width,
                    vis_height: g.vis_height,
                    tier_width: g.tier_width,
                    tier_height: g.tier_height,
                },
                true,
            );
            let (after_frame, actions) = present_spec(
                after_geometry.0,
                SessionEventView::VideoFrame { channel_id: ch::VIDEO, codec, data, timestamp_ns },
                true,
            );
            &&& after_geometry.1.len() == 0
            &&& actions[0] == ActionView::CreateVideo { region: Some(g) }
            &&& after_frame.video_created
        }),
{
}

/// After the phone asks for its own UI the video is hidden, and the next main-display frame
/// shows it again (with the touch overlay) before the frame is pushed.
pub proof fn lemma_host_ui_then_frame_reshows(
    s: PresenterView,
    codec: VideoCodec,
    data: Seq<u8>,
    timestamp_ns: u64,
    main_window: bool,
)
    requires
        s.video_created,
    ensures
        ({
            let (hidden, _) = present_spec(s, SessionEventView::HostUiRequested, main_window);
            let (shown, actions) = present_spec(
                hidden,
                SessionEventView::VideoFrame { channel_id: ch::VIDEO, codec, data, timestamp_ns },
                main_window,
            );
            &&& !hidden.video_visible
            &&& shown.video_visible
            &&& actions == seq![
                ActionView::ShowVideo,
                ActionView::ShowTouchWindow,
                ActionView::PushVideo { codec: gst_codec_spec(codec), data },
            ]
        }),
{
    let (hidden, _) = present_spec(s, SessionEventView::HostUiRequested, main_window);
    let (_, actions) = present_spec(
        hidden,
        SessionEventView::VideoFrame { channel_id: ch::VIDEO, codec, data, timestamp_ns },
        main_window,
    );
    assert(actions =~= seq![
        ActionView::ShowVideo,
        ActionView::ShowTouchWindow,
        ActionView::PushVideo { codec: gst_codec_spec(codec), data },
    ]);
}

fn contains_channel(v: &Vec<u8>, c: u8) -> (b: bool)
    ensures
        b == v@.contains(c),
{
    let mut i: usize = 0;
    while i < v.len()
        invariant
            i <= v@.len(),
            forall|j: int| 0 <= j < i ==> v@[j] != c,
        decreases v@.len() - i,
    {
        if v[i] == c {
            assert(v@[i as int] == c);
            return true;
        }
        i = i + 1;
    }
    false
}

fn remove_channel(v: &Vec<u8>, c: u8) -> (out: Vec<u8>)
    ensures
        out@ == without(v@, c),
{
    let mut out: Vec<u8> = Vec::new();
    let mut i: usize = 0;
    while i < v.len()
        invariant
            i <= v@.len(),
            out@ == without(v@.subrange(0, i as int), c),
        decreases v@.len() - i,
    {
        assert(v@.subrange(0, i as int + 1).drop_last() =~= v@.subrange(0, i as int));
        if v[i] != c {
            out.push(v[i]);
        }
        i = i + 1;
    }
    assert(v@.subrange(0, v@.len() as int) =~= v@);
    out
}

/// The statuses reported to the front end by a run of actions, in order.
pub open spec fn statuses(acts: Seq<ActionView>) -> Seq<Seq<char>>
    decreases acts.len(),
{
    if acts.len() == 0 {
        Seq::empty()
    } else {
        statuses(acts.drop_last()) + match acts.last() {
            ActionView::EmitStatus(t) => seq![t],
            _ => Seq::empty(),
        }
    }
}

/// The status a session event reports: "connected" when the session connects, "host-ui" when
/// the phone hands the screen back.
pub open spec fn status_of(e: SessionEventView) -> Seq<Seq<char>> {
    match e {
        SessionEventView::Connected => seq!["connected"@],
        SessionEventView::HostUiRequested => seq!["host-ui"@],
        _ => Seq::empty(),
    }
}

/// The statuses a stream of events reports, in order.
pub open spec fn event_statuses(events: Seq<(SessionEventView, bool)>) -> Seq<Seq<char>>
    decreases events.len(),
{
    if events.len() == 0 {
        Seq::empty()
    } else {
        event_statuses(events.drop_last()) + status_of(events.last().0)
    }
}

/// The presenter after a stream of events (each with whether the main window exists then),
/// and every action taken, in order.
pub open spec fn present_run(s: PresenterView, events: Seq<(SessionEventView, bool)>) -> (
    PresenterView,
    Seq<ActionView>,
)
    decreases events.len(),
{
    if events.len() == 0 {
        (s, Seq::empty())
    } else {
        let (s1, a1) = present_run(s, events.drop_last());
        let (s2, a2) = present_spec(s1, events.last().0, events.last().1);
        (s2, a1 + a2)
    }
}

proof fn lemma_statuses_concat(a: Seq<ActionView>, b: Seq<ActionView>)
    ensures
        statuses(a + b) == statuses(a) + statuses(b),
    decreases b.len(),
{
    if b.len() == 0 {
        assert(a + b =~= a);
        assert(statuses(a) + Seq::<Seq<char>>::empty() =~= statuses(a));
    } else {
        lemma_statuses_concat(a, b.drop_last());
        assert((a + b).drop_last() =~= a + b.drop_last());
        assert((a + b).last() == b.last());
        let t = match b.last() {
            ActionView::EmitStatus(t) => seq![t],
            _ => Seq::<Seq<char>>::empty(),
        };
        assert(statuses(a) + statuses(b.drop_last()) + t =~= statuses(a) + (statuses(
            b.drop_last(),
        ) + t));
    }
}

proof fn lemma_statuses_none(a: Seq<ActionView>)
    requires
        forall|i: int| 0 <= i < a.len() ==> !(#[trigger] a[i] is EmitStatus),
    ensures
        statuses(a) == Seq::<Seq<char>>::empty(),
    decreases a.len(),
{
    if a.len() > 0 {
        assert(!(a[a.len() - 1] is EmitStatus));
        lemma_statuses_none(a.drop_last());
    }
}

proof fn lemma_one_status(a: Seq<ActionView>, t: Seq<char>)
    requires
        a == seq![ActionView::EmitStatus(t)],
    ensures
        statuses(a) == seq![t],
{
    assert(a.drop_last() =~= Seq::<ActionView>::empty());
    assert(statuses(Seq::<ActionView>::empty()) == Seq::<Seq<char>>::empty());
    assert(a.last() == ActionView::EmitStatus(t));
    assert(Seq::<Seq<char>>::empty() + seq![t] =~= seq![t]);
}

proof fn lemma_present_status(s: PresenterView, e: SessionEventView, main_window: bool)
    ensures
        statuses(present_spec(s, e, main_window).1) == status_of(e),
{
    let acts = present_spec(s, e, main_window).1;
    match e {
        SessionEventView::Connected => {
            lemma_one_status(acts, "connected"@);
        },
        SessionEventView::HostUiRequested => {
            let hide = if s.video_created {
                seq![ActionView::HideVideo]
            } else {
                Seq::empty()
            };
            let front = seq![ActionView::CloseTouchWindow] + hide + seq![ActionView::FocusMain];
            assert(acts =~= front.push(ActionView::EmitStatus("host-ui"@)));
            assert(acts.drop_last() =~= front);
            lemma_statuses_none(front);
            assert(statuses(acts) =~= seq!["host-ui"@]);
        },
        _ => {
            lemma_statuses_none(acts);
        },
    }
}

/// Over a whole session the front end is told, in order, "connected" for each connection and
/// "host-ui" each time the phone hands the screen back, and finally "disconnected", whatever
/// else happened in between.
pub proof fn lemma_session_statuses(s: PresenterView, events: Seq<(SessionEventView, bool)>)
    ensures
        statuses(present_run(s, events).1 + finish_spec(present_run(s, events).0)) == event_statuses(
            events,
        ) + seq!["disconnected"@],
    decreases events.len(),
{
    let (end, acts) = present_run(s, events);
    lemma_run_statuses(s, events);
    lemma_statuses_concat(acts, finish_spec(end));
    let rest = (if end.video_created {
        seq![ActionView::DisposeVideo]
    } else {
        Seq::empty()
    }) + end.audio.map_values(|c: u8| ActionView::StopAudio { channel_id: c }) + seq![
        ActionView::CloseTouchWindow,
    ];
    assert(finish_spec(end) =~= seq![ActionView::EmitStatus("disconnected"@)] + rest);
    lemma_statuses_none(rest);
    lemma_statuses_concat(seq![ActionView::EmitStatus("disconnected"@)], rest);
    let one = seq![ActionView::EmitStatus("disconnected"@)];
    lemma_one_status(one, "disconnected"@);
    assert(statuses(finish_spec(end)) =~= seq!["disconnected"@]);
}

proof fn lemma_run_statuses(s: PresenterView, events: Seq<(SessionEventView, bool)>)
    ensures
        statuses(present_run(s, events).1) == event_statuses(events),
    decreases events.len(),
{
    if events.len() > 0 {
        lemma_run_statuses(s, events.drop_last());
        let (s1, a1) = present_run(s, events.drop_last());
        let a2 = present_spec(s1, events.last().0, events.last().1).1;
        lemma_statuses_concat(a1, a2);
        lemma_present_status(s1, events.last().0, events.last().1);
    }
}

proof fn lemma_push_view(v: Seq<PresenterAction>, a: PresenterAction)
    ensures
        actions_view(v.push(a)) == actions_view(v).push(a@),
{
    assert(actions_view(v.push(a)) =~= actions_view(v).push(a@));
}

impl Presenter {
    /// A session starts: no video player yet (shown once created), no audio sinks.
    pub fn new() -> (p: Self)
        ensures
            p@ == (PresenterView {
                video_created: false,
                video_visible: true,
                audio: Seq::empty(),
                pending_geometry: None,
            }),
    {
        Presenter {
            video_created: false,
            video_visible: true,
            audio: Vec::new(),
            pending_geometry: None,
        }
    }

    /// Decide what a session event does on the head unit.
    #[verifier::rlimit(40)]
    pub fn on_event(&mut self, event: SessionEvent, main_window: bool) -> (actions: Vec<
        PresenterAction,
    >)
        ensures
            (final(self)@, actions_view(actions@)) == present_spec(old(self)@, event@, main_window),
    {
        let ghost e = event@;
        let mut actions: Vec<PresenterAction> = Vec::new();
        match event {
            SessionEvent::VideoGeometry {
                crop_left,
                crop_top,
                vis_width,
                vis_height,
                tier_width,
                tier_height,
            } => {
                let g = Geometry {
                    crop_left,
                    crop_top,
                    vis_width,
                    vis_height,
                    tier_width,
                    tier_height,
                };
                if self.video_created {
                    proof {
                        lemma_push_view(actions@, PresenterAction::SetContentRegion(g));
                    }
                    actions.push(PresenterAction::SetContentRegion(g));
                }
                self.pending_geometry = Some(g);
            },
            SessionEvent::VideoFrame { channel_id, codec, data, .. } => {
                if channel_id != ch::VIDEO || (!self.video_created && !main_window) {
                    assert(actions_view(actions@) =~= Seq::<ActionView>::empty());
                    return actions;
                }
                let first = !self.video_created;
                if first {
                    let a = PresenterAction::CreateVideo { region: self.pending_geometry };
                    proof {
                        lemma_push_view(actions@, a);
                    }
                    actions.push(a);
                    self.video_created = true;
                }
                if !self.video_visible {
                    proof {
                        lemma_push_view(actions@, PresenterAction::ShowVideo);
                    }
                    actions.push(PresenterAction::ShowVideo);
                    proof {
                        lemma_push_view(actions@, PresenterAction::ShowTouchWindow);
                    }
                    actions.push(PresenterAction::ShowTouchWindow);
                    self.video_visible = true;
                }
                let a = PresenterAction::PushVideo { codec: to_gst_codec(codec), data };
                proof {
                    lemma_push_view(actions@, a);
                }
                actions.push(a);
                if first {
                    proof {
                        lemma_push_view(actions@, PresenterAction::ShowTouchWindow);
                    }
                    actions.push(PresenterAction::ShowTouchWindow);
                    proof {
                        lemma_push_view(actions@, PresenterAction::KeepTouchOnTop);
                    }
                    actions.push(PresenterAction::KeepTouchOnTop);
                }
                proof {
                    let s = old(self)@;
                    let create = if first {
                        seq![ActionView::CreateVideo { region: s.pending_geometry }]
                    } else {
                        Seq::empty()
                    };
                    let reshow = if !s.video_visible {
                        seq![ActionView::ShowVideo, ActionView::ShowTouchWindow]
                    } else {
                        Seq::empty()
                    };
                    let settle = if first {
                        seq![ActionView::ShowTouchWindow, ActionView::KeepTouchOnTop]
                    } else {
                        Seq::empty()
                    };
                    assert(actions_view(actions@) =~= create + reshow + seq![
                        ActionView::PushVideo { codec: gst_codec_spec(codec), data: data@ },
                    ] + settle);
                }
            },
            SessionEvent::AudioStart { channel_id } => {
                let (sample_rate, channels) = audio_format_for(channel_id);
                let a = PresenterAction::StartAudio { channel_id, sample_rate, channels };
                proof {
                    lemma_push_view(actions@, a);
                }
                actions.push(a);
                if !contains_channel(&self.audio, channel_id) {
                    self.audio.push(channel_id);
                }
            },
            SessionEvent::AudioFrame { channel_id, data, .. } => {
                if contains_channel(&self.audio, channel_id) {
                    let a = PresenterAction::WriteAudio { channel_id, samples: pcm_samples(&data) };
                    proof {
                        lemma_push_view(actions@, a);
                    }
                    actions.push(a);
                } else {
                    assert(actions_view(actions@) =~= Seq::<ActionView>::empty());
                }
            },
            SessionEvent::AudioStop { channel_id } => {
                if contains_channel(&self.audio, channel_id) {
                    self.audio = remove_channel(&self.audio, channel_id);
                    proof {
                        lemma_push_view(actions@, PresenterAction::StopAudio { channel_id });
                    }
                    actions.push(PresenterAction::StopAudio { channel_id });
                } else {
                    assert(actions_view(actions@) =~= Seq::<ActionView>::empty());
                }
            },
            SessionEvent::Connected => {
                proof {
                    lemma_push_view(actions@, PresenterAction::EmitStatus("connected"));
                }
                actions.push(PresenterAction::EmitStatus("connected"));
            },
            SessionEvent::HostUiRequested => {
                proof {
                    lemma_push_view(actions@, PresenterAction::CloseTouchWindow);
                }
                actions.push(PresenterAction::CloseTouchWindow);
                if self.video_created {
                    proof {
                        lemma_push_view(actions@, PresenterAction::HideVideo);
                    }
                    actions.push(PresenterAction::HideVideo);
                    self.video_visible = false;
                }
                proof {
                    lemma_push_view(actions@, PresenterAction::FocusMain);
                }
                actions.push(PresenterAction::FocusMain);
                proof {
                    lemma_push_view(actions@, PresenterAction::EmitStatus("host-ui"));
                }
                actions.push(PresenterAction::EmitStatus("host-ui"));
                proof {
                    let hide = if old(self).video_created {
                        seq![ActionView::HideVideo]
                    } else {
                        Seq::empty()
                    };
                    assert(actions_view(actions@) =~= seq![ActionView::CloseTouchWindow] + hide
                        + seq![ActionView::FocusMain, ActionView::EmitStatus("host-ui"@)]);
                }
            },
            _ => {
                assert(actions_view(actions@) =~= Seq::<ActionView>::empty());
            },
        }
        actions
    }

    /// The session ended: what is left to do on the head unit.
    pub fn finish(&self) -> (actions: Vec<PresenterAction>)
        ensures
            actions_view(actions@) == finish_spec(self@),
    {
        let mut actions: Vec<PresenterAction> = Vec::new();
        proof {
            lemma_push_view(actions@, PresenterAction::EmitStatus("disconnected"));
        }
        actions.push(PresenterAction::EmitStatus("disconnected"));
        if self.video_created {
            proof {
                lemma_push_view(actions@, PresenterAction::DisposeVideo);
            }
            actions.push(PresenterAction::DisposeVideo);
        }
        let ghost head = actions_view(actions@);
        let mut i: usize = 0;
        while i < self.audio.len()
            invariant
                i <= self.audio@.len(),
                actions_view(actions@) =~= head + self.audio@.subrange(0, i as int).map_values(
                    |c: u8| ActionView::StopAudio { channel_id: c },
                ),
            decreases self.audio@.len() - i,
        {
            let c = self.audio[i];
            proof {
                lemma_push_view(actions@, PresenterAction::StopAudio { channel_id: c });
                assert(self.audio@.subrange(0, i as int + 1).map_values(
                    |c: u8| ActionView::StopAudio { channel_id: c },
                ) =~= self.audio@.subrange(0, i as int).map_values(
                    |c: u8| ActionView::StopAudio { channel_id: c },
                ).push(ActionView::StopAudio { channel_id: c }));
            }
            actions.push(PresenterAction::StopAudio { channel_id: c });
            i = i + 1;
        }
        assert(self.audio@.subrange(0, self.audio@.len() as int) =~= self.audio@);
        proof {
            lemma_push_view(actions@, PresenterAction::CloseTouchWindow);
        }
        actions.push(PresenterAction::CloseTouchWindow);
        actions
    }
}

} // verus!
