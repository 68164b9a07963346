//! The ServiceDiscoveryResponse: the head unit's advertisement of every channel it offers
//! (video, audio, input, sensor, Bluetooth, navigation, ...), sent in reply to the phone's
//! ServiceDiscoveryRequest.
//!
//! `build_service_discovery_response` decides everything the response says: the video tiers
//! and their letterbox margins and insets, the codecs offered per display (and so the codec
//! each configuration index stands for), which channels exist, the touchscreen size, the
//! sensors and key codes. `discovery_message` writes the plan out as the protobuf message.

use vstd::prelude::*;
use crate::constants::{media_codec, video_fps, video_resolution};
use vstd::slice::slice_to_vec;
use crate::proto::{u32_as_i32, u32_to_i32};
use crate::session::config::{ConfigView, SessionConfig, VideoCodec};
use crate::text::opt_text;
use crate::session::discovery_message::{encode_service_discovery_response, sdr_message};

verus! {

// ---------------------------------------------------------------------------------------
// Geometry
// ---------------------------------------------------------------------------------------

/// The resolution tier of an exact tier size, if it is one of the three classic tiers.
pub open spec fn resolution_of(w: u32, h: u32) -> Option<i32> {
    if w == 800 && h == 480 {
        Some(video_resolution::R800X480)
    } else if w == 1280 && h == 720 {
        Some(video_resolution::R1280X720)
    } else if w == 1920 && h == 1080 {
        Some(video_resolution::R1920X1080)
    } else {
        None
    }
}

pub fn resolution_from_dimensions(w: u32, h: u32) -> (r: Option<i32>)
    ensures
        r == resolution_of(w, h),
{
    if w == 800 && h == 480 {
        Some(video_resolution::R800X480)
    } else if w == 1280 && h == 720 {
        Some(video_resolution::R1280X720)
    } else if w == 1920 && h == 1080 {
        Some(video_resolution::R1920X1080)
    } else {
        None
    }
}

/// `n / d` rounded to the nearest integer, halves away from zero.
pub open spec fn round_div(n: nat, d: nat) -> nat {
    (2 * n + d) / (2 * d)
}

/// `v` with its lowest bit cleared.
pub open spec fn even_floor(v: nat) -> nat {
    (v - v % 2) as nat
}

pub open spec fn sat_sub(a: u32, b: nat) -> u32 {
    if b >= a {
        0
    } else {
        (a - b) as u32
    }
}

/// The letterbox bars `(width_margin, height_margin)` that fit content of aspect
/// `content_w:content_h` into a `tier_w x tier_h` tier: the tier side that is too long for the
/// content aspect gets the fitted length (rounded, then made even) taken off it.
pub open spec fn letterbox_spec(content_w: u32, content_h: u32, tier_w: u32, tier_h: u32) -> (
    u32,
    u32,
) {
    if content_w == 0 || content_h == 0 || tier_w == 0 || tier_h == 0 {
        (0, 0)
    } else if content_w * tier_h > tier_w * content_h {
        // Content wider than the tier: bars top and bottom.
        (0, sat_sub(tier_h, even_floor(round_div((tier_w * content_h) as nat, content_w as nat))))
    } else if content_w * tier_h < tier_w * content_h {
        // Content narrower than the tier: bars left and right.
        (sat_sub(tier_w, even_floor(round_div((tier_h * content_w) as nat, content_h as nat))), 0)
    } else {
        (0, 0)
    }
}

/// `round(n / d) & !1` for `d > 0` and `n / d` below 2^32.
fn fitted_even(n: u64, d: u64) -> (r: u64)
    requires
        d > 0,
        n / d < 0x1_0000_0000,
    ensures
        r == even_floor(round_div(n as nat, d as nat)),
        r <= n / d + 1,
{
    let q: u128 = (2 * (n as u128) + (d as u128)) / (2 * (d as u128));
    assert(q <= n / d + 1) by (nonlinear_arith)
        requires
            d > 0,
            q == (2 * (n as int) + (d as int)) / (2 * (d as int)),
    ;
    let q64 = q as u64;
    q64 - q64 % 2
}

fn letterbox_margins(content_w: u32, content_h: u32, tier_w: u32, tier_h: u32) -> (r: (u32, u32))
    ensures
        r == letterbox_spec(content_w, content_h, tier_w, tier_h),
{
    if content_w == 0 || content_h == 0 || tier_w == 0 || tier_h == 0 {
        return (0, 0);
    }
    let cw = content_w as u64;
    let ch = content_h as u64;
    let tw = tier_w as u64;
    let th = tier_h as u64;
    assert(cw * th <= 0xffff_ffff * 0xffff_ffff && tw * ch <= 0xffff_ffff * 0xffff_ffff)
        by (nonlinear_arith)
        requires
            cw <= 0xffff_ffff,
            ch <= 0xffff_ffff,
            tw <= 0xffff_ffff,
            th <= 0xffff_ffff,
    ;
    let lhs = cw * th;
    let rhs = tw * ch;
    if lhs > rhs {
        let n = tw * ch;
        assert(n / cw < th) by (nonlinear_arith)
            requires
                cw * th > n,
                cw > 0,
        ;
        let fit = fitted_even(n, cw);
        let fit32 = fit as u32;
        (0, if fit32 >= tier_h { 0 } else { tier_h - fit32 })
    } else if lhs < rhs {
        let n = th * cw;
        assert(n / ch < tw) by (nonlinear_arith)
            requires
                tw * ch > n,
                ch > 0,
        ;
        let fit = fitted_even(n, ch);
        let fit32 = fit as u32;
        (if fit32 >= tier_w { 0 } else { tier_w - fit32 }, 0)
    } else {
        (0, 0)
    }
}

// ---------------------------------------------------------------------------------------
// The plan
// ---------------------------------------------------------------------------------------

#[derive(Clone, Copy, PartialEq, Eq, Debug)]
pub struct Insets {
    pub top: u32,
    pub bottom: u32,
    pub left: u32,
    pub right: u32,
}

/// One VideoConfiguration of a video sink, repeated once per offered codec.
#[derive(Clone, Copy, PartialEq, Eq, Debug)]
pub struct VideoSinkConfig {
    pub codec_resolution: i32,
    pub frame_rate: i32,
    pub width_margin: u32,
    pub height_margin: u32,
    pub density: u32,
    pub pixel_aspect_ratio_e4: u32,
    /// The letterbox bars split between the two sides, plus the view-area insets.
    pub margins: Insets,
    /// The safe area, advertised as both content insets and stable content insets.
    pub content_insets: Insets,
}

pub struct ServiceDiscoveryResult {
    /// The encoded ServiceDiscoveryResponse (see `sdr_message`).
    pub buf: Vec<u8>,
    /// The codec each main-display configuration index stands for.
    pub video_codec_by_index: Vec<VideoCodec>,
    /// The codec each cluster configuration index stands for (empty without a cluster).
    pub cluster_codec_by_index: Vec<VideoCodec>,
    /// The negotiated video tier: the full encoded frame size, letterbox bars included.
    pub video_tier_width: u32,
    pub video_tier_height: u32,
    /// The content region inside the tier: crop this out and scale it to fill the screen.
    pub video_crop_left: u32,
    pub video_crop_top: u32,
    pub video_vis_width: u32,
    pub video_vis_height: u32,
    /// The main video sink (channel VIDEO).
    pub video: VideoSinkConfig,
    /// The cluster video sink (channels CLUSTER_VIDEO and CLUSTER_INPUT), when enabled.
    pub cluster: Option<VideoSinkConfig>,
    /// Whether the media and speech audio sinks are advertised (the system sink always is).
    pub audio_output: bool,
    pub fuel_types: Vec<i32>,
    pub ev_connector_types: Vec<i32>,
    /// Touchscreen size: the tier minus the margins, at least 1.
    pub touch_width: i32,
    pub touch_height: i32,
    /// Bluetooth car address.
    pub car_address: String,
    /// The WiFi projection channel is advertised when a BSSID is configured.
    pub wifi_bssid: Option<String>,
    pub display_name: String,
    pub driver_position: i32,
}

pub struct SdrView {
    pub video_codec_by_index: Seq<VideoCodec>,
    pub cluster_codec_by_index: Seq<VideoCodec>,
    pub video_tier_width: u32,
    pub video_tier_height: u32,
    pub video_crop_left: u32,
    pub video_crop_top: u32,
    pub video_vis_width: u32,
    pub video_vis_height: u32,
    pub video: VideoSinkConfig,
    pub cluster: Option<VideoSinkConfig>,
    pub audio_output: bool,
    pub fuel_types: Seq<i32>,
    pub ev_connector_types: Seq<i32>,
    pub touch_width: i32,
    pub touch_height: i32,
    pub car_address: Seq<char>,
    pub wifi_bssid: Option<Seq<char>>,
    pub display_name: Seq<char>,
    pub driver_position: i32,
}

impl View for ServiceDiscoveryResult {
    type V = SdrView;

    open spec fn view(&self) -> SdrView {
        SdrView {
            video_codec_by_index: self.video_codec_by_index@,
            cluster_codec_by_index: self.cluster_codec_by_index@,
            video_tier_width: self.video_tier_width,
            video_tier_height: self.video_tier_height,
            video_crop_left: self.video_crop_left,
            video_crop_top: self.video_crop_top,
            video_vis_width: self.video_vis_width,
            video_vis_height: self.video_vis_height,
            video: self.video,
            cluster: self.cluster,
            audio_output: self.audio_output,
            fuel_types: self.fuel_types@,
            ev_connector_types: self.ev_connector_types@,
            touch_width: self.touch_width,
            touch_height: self.touch_height,
            car_address: self.car_address@,
            wifi_bssid: opt_text(self.wifi_bssid),
            display_name: self.display_name@,
            driver_position: self.driver_position,
        }
    }
}

/// SensorSource location characterization: RAW_GPS_ONLY | ACCEL | GYRO | COMPASS | CAR_SPEED.
pub const LOCATION_CHARACTERIZATION: i32 = 334;

/// NavigationStatus service: minimum update interval, type and turn-image options.
pub const NAV_MINIMUM_INTERVAL_MS: i32 = 500;

pub const NAV_TYPE: i32 = 1;

pub const NAV_IMAGE_SIZE: i32 = 256;

pub const NAV_IMAGE_COLOUR_DEPTH_BITS: i32 = 32;

/// Ping configuration advertised in the connection configuration.
pub const PING_TIMEOUT_MS: u32 = 5000;

pub const PING_INTERVAL_MS: u32 = 1500;

pub const PING_HIGH_LATENCY_THRESHOLD_MS: u32 = 500;

pub const PING_TRACKED_COUNT: u32 = 5;

/// AudioStreamType of the three audio sinks.
pub const AUDIO_STREAM_GUIDANCE: i32 = 1;

pub const AUDIO_STREAM_SYSTEM: i32 = 2;

pub const AUDIO_STREAM_MEDIA: i32 = 3;

// ---------------------------------------------------------------------------------------
// What the plan is
// ---------------------------------------------------------------------------------------

pub open spec fn or_u32(o: Option<u32>, d: u32) -> u32 {
    match o {
        Some(v) => v,
        None => d,
    }
}

/// VideoCodecResolutionType by tier width: 800x480 = 1, 1280x720 = 2, 1920x1080 = 3,
/// 2560x1440 = 4, 3840x2160 = 5.
pub open spec fn tier_resolution(w: u32) -> i32 {
    if w >= 3840 {
        5
    } else if w >= 2560 {
        4
    } else if w >= 1920 {
        video_resolution::R1920X1080
    } else if w <= 800 {
        video_resolution::R800X480
    } else {
        video_resolution::R1280X720
    }
}

pub open spec fn main_fps(c: ConfigView) -> i32 {
    if or_u32(c.video_fps, 30) == 60 {
        video_fps::FPS60
    } else {
        video_fps::FPS30
    }
}

pub open spec fn main_tier(c: ConfigView) -> (u32, u32) {
    (or_u32(c.video_width, 1280), or_u32(c.video_height, 720))
}

/// The main display's letterbox bars, when the physical display size is known.
pub open spec fn main_bars(c: ConfigView) -> (u32, u32) {
    if or_u32(c.display_width, 0) > 0 && or_u32(c.display_height, 0) > 0 {
        letterbox_spec(
            or_u32(c.display_width, 0),
            or_u32(c.display_height, 0),
            main_tier(c).0,
            main_tier(c).1,
        )
    } else {
        (0, 0)
    }
}

/// Margins (top, bottom, left, right): each bar split in two (the odd pixel to the bottom or
/// right), plus the view-area inset of that side.
pub open spec fn split_margins(
    width_margin: u32,
    height_margin: u32,
    top: u32,
    bottom: u32,
    left: u32,
    right: u32,
) -> (int, int, int, int) {
    (
        height_margin / 2 + top,
        (height_margin - height_margin / 2) + bottom,
        width_margin / 2 + left,
        (width_margin - width_margin / 2) + right,
    )
}

pub open spec fn fits_u32(m: (int, int, int, int)) -> bool {
    m.0 <= u32::MAX && m.1 <= u32::MAX && m.2 <= u32::MAX && m.3 <= u32::MAX
}

pub open spec fn insets_of(m: (int, int, int, int)) -> Insets {
    Insets { top: m.0 as u32, bottom: m.1 as u32, left: m.2 as u32, right: m.3 as u32 }
}

pub open spec fn main_margins(c: ConfigView) -> (int, int, int, int) {
    split_margins(
        main_bars(c).0,
        main_bars(c).1,
        or_u32(c.main_view_area_top, 0),
        or_u32(c.main_view_area_bottom, 0),
        or_u32(c.main_view_area_left, 0),
        or_u32(c.main_view_area_right, 0),
    )
}

pub open spec fn cluster_tier(c: ConfigView) -> (u32, u32) {
    (or_u32(c.cluster_tier_width, c.cluster_width), or_u32(c.cluster_tier_height, c.cluster_height))
}

pub open spec fn cluster_bars(c: ConfigView) -> (u32, u32) {
    letterbox_spec(c.cluster_width, c.cluster_height, cluster_tier(c).0, cluster_tier(c).1)
}

pub open spec fn cluster_margins(c: ConfigView) -> (int, int, int, int) {
    split_margins(
        cluster_bars(c).0,
        cluster_bars(c).1,
        or_u32(c.cluster_view_area_top, 0),
        or_u32(c.cluster_view_area_bottom, 0),
        or_u32(c.cluster_view_area_left, 0),
        or_u32(c.cluster_view_area_right, 0),
    )
}

/// The margin sums fit in 32 bits (beyond that the advertisement overflows).
pub open spec fn sdr_fits(c: ConfigView) -> bool {
    &&& fits_u32(main_margins(c))
    &&& c.cluster_enabled ==> fits_u32(cluster_margins(c))
}

/// H264 always first, then H265, VP9 and AV1 where the renderer supports them.
pub open spec fn offered_codecs(c: ConfigView) -> Seq<VideoCodec> {
    seq![VideoCodec::H264] + (if c.hevc_supported {
        seq![VideoCodec::H265]
    } else {
        Seq::empty()
    }) + (if c.vp9_supported {
        seq![VideoCodec::Vp9]
    } else {
        Seq::empty()
    }) + (if c.av1_supported {
        seq![VideoCodec::Av1]
    } else {
        Seq::empty()
    })
}

pub open spec fn main_sink(c: ConfigView) -> VideoSinkConfig {
    VideoSinkConfig {
        codec_resolution: tier_resolution(main_tier(c).0),
        frame_rate: main_fps(c),
        width_margin: main_bars(c).0,
        height_margin: main_bars(c).1,
        density: or_u32(c.video_dpi, 140),
        pixel_aspect_ratio_e4: or_u32(c.pixel_aspect_ratio_e4, 10000),
        margins: insets_of(main_margins(c)),
        content_insets: Insets {
            top: or_u32(c.main_safe_area_top, 0),
            bottom: or_u32(c.main_safe_area_bottom, 0),
            left: or_u32(c.main_safe_area_left, 0),
            right: or_u32(c.main_safe_area_right, 0),
        },
    }
}

/// The cluster frame rate: 60 or 30 as configured, otherwise the main display's.
pub open spec fn cluster_fps_of(c: ConfigView) -> i32 {
    if c.cluster_fps == 60 {
        video_fps::FPS60
    } else if c.cluster_fps == 30 {
        video_fps::FPS30
    } else {
        main_fps(c)
    }
}

pub open spec fn cluster_sink(c: ConfigView) -> VideoSinkConfig {
    VideoSinkConfig {
        codec_resolution: match resolution_of(cluster_tier(c).0, cluster_tier(c).1) {
            Some(r) => r,
            None => tier_resolution(main_tier(c).0),
        },
        frame_rate: cluster_fps_of(c),
        width_margin: cluster_bars(c).0,
        height_margin: cluster_bars(c).1,
        density: c.cluster_dpi,
        pixel_aspect_ratio_e4: or_u32(c.cluster_pixel_aspect_ratio_e4, 10000),
        margins: insets_of(cluster_margins(c)),
        content_insets: Insets {
            top: or_u32(c.cluster_safe_area_top, 0),
            bottom: or_u32(c.cluster_safe_area_bottom, 0),
            left: or_u32(c.cluster_safe_area_left, 0),
            right: or_u32(c.cluster_safe_area_right, 0),
        },
    }
}

/// A side of the touchscreen: the tier side minus both margins (saturating), at least 1, as an
/// int32.
pub open spec fn touch_side(tier: u32, m1: u32, m2: u32) -> int {
    let v = sat_sub(sat_sub(tier, m1 as nat), m2 as nat);
    u32_as_i32(
        if v >= 1 {
            v
        } else {
            1
        },
    )
}

pub open spec fn sdr_spec(c: ConfigView) -> SdrView {
    let sink = main_sink(c);
    let (vw, vh) = main_tier(c);
    SdrView {
        video_codec_by_index: offered_codecs(c),
        cluster_codec_by_index: if c.cluster_enabled {
            offered_codecs(c)
        } else {
            Seq::empty()
        },
        video_tier_width: vw,
        video_tier_height: vh,
        video_crop_left: sink.width_margin / 2,
        video_crop_top: sink.height_margin / 2,
        video_vis_width: sat_sub(vw, sink.width_margin as nat),
        video_vis_height: sat_sub(vh, sink.height_margin as nat),
        video: sink,
        cluster: if c.cluster_enabled {
            Some(cluster_sink(c))
        } else {
            None
        },
        audio_output: !c.disable_audio_output,
        fuel_types: if c.fuel_types.len() == 0 {
            seq![1i32]
        } else {
            c.fuel_types
        },
        ev_connector_types: c.ev_connector_types,
        touch_width: touch_side(vw, sink.margins.left, sink.margins.right) as i32,
        touch_height: touch_side(vh, sink.margins.top, sink.margins.bottom) as i32,
        car_address: match c.bt_mac_address {
            Some(a) => a,
            None => "00:00:00:00:00:00"@,
        },
        wifi_bssid: c.wifi_bssid,
        display_name: match c.hu_name {
            Some(n) => n,
            None => "AVIO"@,
        },
        driver_position: c.driver_position as i32,
    }
}

// ---------------------------------------------------------------------------------------
// Building it
// ---------------------------------------------------------------------------------------

fn split_into(
    width_margin: u32,
    height_margin: u32,
    top: u32,
    bottom: u32,
    left: u32,
    right: u32,
) -> (r: Insets)
    requires
        fits_u32(split_margins(width_margin, height_margin, top, bottom, left, right)),
    ensures
        r == insets_of(split_margins(width_margin, height_margin, top, bottom, left, right)),
{
    Insets {
        top: height_margin / 2 + top,
        bottom: (height_margin - height_margin / 2) + bottom,
        left: width_margin / 2 + left,
        right: (width_margin - width_margin / 2) + right,
    }
}

fn offered(c: &SessionConfig) -> (v: Vec<VideoCodec>)
    ensures
        v@ == offered_codecs(c@),
{
    let mut v: Vec<VideoCodec> = Vec::new();
    v.push(VideoCodec::H264);
    if c.hevc_supported {
        v.push(VideoCodec::H265);
    }
    if c.vp9_supported {
        v.push(VideoCodec::Vp9);
    }
    if c.av1_supported {
        v.push(VideoCodec::Av1);
    }
    assert(v@ =~= offered_codecs(c@));
    v
}

fn touch_side_of(tier: u32, m1: u32, m2: u32) -> (r: i32)
    ensures
        r as int == touch_side(tier, m1, m2),
{
    let a = if m1 >= tier {
        0
    } else {
        tier - m1
    };
    let b = if m2 >= a {
        0
    } else {
        a - m2
    };
    u32_to_i32(
        if b >= 1 {
            b
        } else {
            1
        },
    )
}

/// Whether `build_service_discovery_response` can advertise `cfg`: every margin (half a
/// letterbox bar plus the view-area inset) fits in 32 bits.
pub fn sdr_geometry_fits(cfg: &SessionConfig) -> (b: bool)
    ensures
        b == sdr_fits(cfg@),
{
    let (vw, vh) = (cfg.video_width.unwrap_or(1280), cfg.video_height.unwrap_or(720));
    let dw = cfg.display_width.unwrap_or(0);
    let dh = cfg.display_height.unwrap_or(0);
    let (wm, hm) = if dw > 0 && dh > 0 {
        letterbox_margins(dw, dh, vw, vh)
    } else {
        (0, 0)
    };
    let main_ok = fits(
        wm,
        hm,
        cfg.main_view_area_top.unwrap_or(0),
        cfg.main_view_area_bottom.unwrap_or(0),
        cfg.main_view_area_left.unwrap_or(0),
        cfg.main_view_area_right.unwrap_or(0),
    );
    if !cfg.cluster_enabled {
        return main_ok;
    }
    let tw = cfg.cluster_tier_width.unwrap_or(cfg.cluster_width);
    let th = cfg.cluster_tier_height.unwrap_or(cfg.cluster_height);
    let (cwm, chm) = letterbox_margins(cfg.cluster_width, cfg.cluster_height, tw, th);
    main_ok && fits(
        cwm,
        chm,
        cfg.cluster_view_area_top.unwrap_or(0),
        cfg.cluster_view_area_bottom.unwrap_or(0),
        cfg.cluster_view_area_left.unwrap_or(0),
        cfg.cluster_view_area_right.unwrap_or(0),
    )
}

fn fits(width_margin: u32, height_margin: u32, top: u32, bottom: u32, left: u32, right: u32) -> (b:
    bool)
    ensures
        b == fits_u32(split_margins(width_margin, height_margin, top, bottom, left, right)),
{
    let hh = height_margin / 2;
    let wh = width_margin / 2;
    top <= u32::MAX - hh && bottom <= u32::MAX - (height_margin - hh) && left <= u32::MAX - wh
        && right <= u32::MAX - (width_margin - wh)
}

fn plan_main_sink(cfg: &SessionConfig) -> (r: VideoSinkConfig)
    requires
        fits_u32(main_margins(cfg@)),
    ensures
        r == main_sink(cfg@),
{
    let v_w = cfg.video_width.unwrap_or(1280);
    let v_h = cfg.video_height.unwrap_or(720);
    let fps = cfg.video_fps.unwrap_or(30);
    let dw = cfg.display_width.unwrap_or(0);
    let dh = cfg.display_height.unwrap_or(0);
    let (width_margin, height_margin) = if dw > 0 && dh > 0 {
        letterbox_margins(dw, dh, v_w, v_h)
    } else {
        (0, 0)
    };
    let margins = split_into(
        width_margin,
        height_margin,
        cfg.main_view_area_top.unwrap_or(0),
        cfg.main_view_area_bottom.unwrap_or(0),
        cfg.main_view_area_left.unwrap_or(0),
        cfg.main_view_area_right.unwrap_or(0),
    );
    VideoSinkConfig {
        codec_resolution: resolution_for_width(v_w),
        frame_rate: if fps == 60 {
            video_fps::FPS60
        } else {
            video_fps::FPS30
        },
        width_margin,
        height_margin,
        density: cfg.video_dpi.unwrap_or(140),
        pixel_aspect_ratio_e4: cfg.pixel_aspect_ratio_e4.unwrap_or(10000),
        margins,
        content_insets: Insets {
            top: cfg.main_safe_area_top.unwrap_or(0),
            bottom: cfg.main_safe_area_bottom.unwrap_or(0),
            left: cfg.main_safe_area_left.unwrap_or(0),
            right: cfg.main_safe_area_right.unwrap_or(0),
        },
    }
}

fn resolution_for_width(w: u32) -> (r: i32)
    ensures
        r == tier_resolution(w),
{
    if w >= 3840 {
        5
    } else if w >= 2560 {
        4
    } else if w >= 1920 {
        video_resolution::R1920X1080
    } else if w <= 800 {
        video_resolution::R800X480
    } else {
        video_resolution::R1280X720
    }
}

fn plan_cluster_sink(cfg: &SessionConfig, main: VideoSinkConfig) -> (r: VideoSinkConfig)
    requires
        fits_u32(cluster_margins(cfg@)),
        main == main_sink(cfg@),
    ensures
        r == cluster_sink(cfg@),
{
    let c_w = cfg.cluster_width;
    let c_h = cfg.cluster_height;
    let c_tier_w = cfg.cluster_tier_width.unwrap_or(c_w);
    let c_tier_h = cfg.cluster_tier_height.unwrap_or(c_h);
    let cluster_res = match resolution_from_dimensions(c_tier_w, c_tier_h) {
        Some(r) => r,
        None => main.codec_resolution,
    };
    let cluster_fps = if cfg.cluster_fps == 60 {
        video_fps::FPS60
    } else if cfg.cluster_fps == 30 {
        video_fps::FPS30
    } else {
        main.frame_rate
    };
    let (c_w_margin, c_h_margin) = letterbox_margins(c_w, c_h, c_tier_w, c_tier_h);
    let c_margins = split_into(
        c_w_margin,
        c_h_margin,
        cfg.cluster_view_area_top.unwrap_or(0),
        cfg.cluster_view_area_bottom.unwrap_or(0),
        cfg.cluster_view_area_left.unwrap_or(0),
        cfg.cluster_view_area_right.unwrap_or(0),
    );
    VideoSinkConfig {
        codec_resolution: cluster_res,
        frame_rate: cluster_fps,
        width_margin: c_w_margin,
        height_margin: c_h_margin,
        density: cfg.cluster_dpi,
        pixel_aspect_ratio_e4: cfg.cluster_pixel_aspect_ratio_e4.unwrap_or(10000),
        margins: c_margins,
        content_insets: Insets {
            top: cfg.cluster_safe_area_top.unwrap_or(0),
            bottom: cfg.cluster_safe_area_bottom.unwrap_or(0),
            left: cfg.cluster_safe_area_left.unwrap_or(0),
            right: cfg.cluster_safe_area_right.unwrap_or(0),
        },
    }
}

fn text_or(o: &Option<String>, default: &str) -> (s: String)
    ensures
        s@ == match opt_text(*o) {
            Some(t) => t,
            None => default@,
        },
{
    match o {
        Some(a) => a.clone(),
        None => default.to_owned(),
    }
}

/// Plans the ServiceDiscoveryResponse for `cfg` and encodes it.
pub fn build_service_discovery_response(cfg: &SessionConfig) -> (r: ServiceDiscoveryResult)
    requires
        sdr_fits(cfg@),
    ensures
        r@ == sdr_spec(cfg@),
        r.buf@ == sdr_message(sdr_spec(cfg@)),
{
    let v_w = cfg.video_width.unwrap_or(1280);
    let v_h = cfg.video_height.unwrap_or(720);
    let video = plan_main_sink(cfg);
    let video_codec_by_index = offered(cfg);
    let mut cluster: Option<VideoSinkConfig> = None;
    let mut cluster_codec_by_index: Vec<VideoCodec> = Vec::new();
    if cfg.cluster_enabled {
        cluster = Some(plan_cluster_sink(cfg, video));
        cluster_codec_by_index = offered(cfg);
    }
    let fuel_types = if cfg.fuel_types.len() == 0 {
        vec![1i32]
    } else {
        slice_to_vec(cfg.fuel_types.as_slice())
    };
    proof {
        if cfg.fuel_types@.len() == 0 {
            assert(fuel_types@ =~= seq![1i32]);
        }
    }
    let ev_connector_types = slice_to_vec(cfg.ev_connector_types.as_slice());
    let touch_width = touch_side_of(v_w, video.margins.left, video.margins.right);
    let touch_height = touch_side_of(v_h, video.margins.top, video.margins.bottom);
    let car_address = text_or(&cfg.bt_mac_address, "00:00:00:00:00:00");
    let wifi_bssid = match &cfg.wifi_bssid {
        Some(b) => Some(b.clone()),
        None => None,
    };
    let display_name = text_or(&cfg.hu_name, "AVIO");
    let width_margin = video.width_margin;
    let height_margin = video.height_margin;
    let mut r = ServiceDiscoveryResult {
        buf: Vec::new(),
        video_codec_by_index,
        cluster_codec_by_index,
        video_tier_width: v_w,
        video_tier_height: v_h,
        video_crop_left: width_margin / 2,
        video_crop_top: height_margin / 2,
        video_vis_width: if width_margin >= v_w {
            0
        } else {
            v_w - width_margin
        },
        video_vis_height: if height_margin >= v_h {
            0
        } else {
            v_h - height_margin
        },
        video,
        cluster,
        audio_output: !cfg.disable_audio_output,
        fuel_types,
        ev_connector_types,
        touch_width,
        touch_height,
        car_address,
        wifi_bssid,
        display_name,
        driver_position: cfg.driver_position as i32,
    };
    r.buf = encode_service_discovery_response(&r);
    r
}

/// The key codes advertised as supported: a key outside this list never reaches the phone.
pub fn supported_keycodes() -> (v: Vec<u32>)
    ensures
        v@ == seq![
            3u32, 4, 5, 6, 7, 8, 9, 10, 11, 12, 13, 14, 15, 16, 17, 18, 19, 20, 21, 22, 23, 24, 25,
            26, 66, 79, 82, 84, 85, 86, 87, 88, 89, 90, 91, 111, 126, 127, 164, 219, 231, 260, 261,
            262, 263, 65536,
        ],
{
    let v = vec![
        3u32, 4, 5, 6, 7, 8, 9, 10, 11, 12, 13, 14, 15, 16, 17, 18, 19, 20, 21, 22, 23, 24, 25, 26,
        66, 79, 82, 84, 85, 86, 87, 88, 89, 90, 91, 111, 126, 127, 164, 219, 231, 260, 261, 262,
        263, 65536,
    ];
    v
}

/// The sensor types advertised by the sensor source: driving status, GPS location, night data,
/// car speed, gear, parking brake, fuel, odometer, environment, door, light, tire pressure,
/// HVAC, accelerometer, gyroscope, compass, GPS satellites, RPM and the vehicle-energy sensors.
pub fn advertised_sensors() -> (v: Vec<i32>)
    ensures
        v@ == seq![
            13i32, 1, 10, 3, 8, 7, 6, 5, 11, 16, 17, 18, 12, 19, 20, 2, 21, 4, 23, 25, 26,
        ],
{
    let v = vec![13i32, 1, 10, 3, 8, 7, 6, 5, 11, 16, 17, 18, 12, 19, 20, 2, 21, 4, 23, 25, 26];
    v
}

/// The MediaCodecType of a video codec.
pub open spec fn media_type_of(c: VideoCodec) -> i32 {
    match c {
        VideoCodec::H264 => media_codec::VIDEO_H264_BP,
        VideoCodec::H265 => media_codec::VIDEO_H265,
        VideoCodec::Vp9 => media_codec::VIDEO_VP9,
        VideoCodec::Av1 => media_codec::VIDEO_AV1,
    }
}

pub fn codec_media_type(c: VideoCodec) -> (t: i32)
    ensures
        t == media_type_of(c),
{
    match c {
        VideoCodec::H264 => media_codec::VIDEO_H264_BP,
        VideoCodec::H265 => media_codec::VIDEO_H265,
        VideoCodec::Vp9 => media_codec::VIDEO_VP9,
        VideoCodec::Av1 => media_codec::VIDEO_AV1,
    }
}

} // verus!
