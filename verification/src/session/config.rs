//! Per-session configuration: head-unit identity, advertised video and display geometry,
//! sensors, Bluetooth and WiFi projection details.

use vstd::prelude::*;
use crate::text::opt_text;

verus! {

#[derive(Clone, Copy, PartialEq, Eq, Structural, Debug)]
pub enum VideoCodec {
    H264,
    H265,
    Vp9,
    Av1,
}

#[derive(Clone, Debug)]
pub struct SessionConfig {
    /// HU label in service discovery.
    pub hu_name: Option<String>,
    /// Video tier the phone encodes into (800x480, 1280x720, 1920x1080, 2560x1440, 3840x2160).
    pub video_width: Option<u32>,
    pub video_height: Option<u32>,
    pub video_dpi: Option<u32>,
    /// 30 or 60.
    pub video_fps: Option<u32>,
    pub pixel_aspect_ratio_e4: Option<u32>,
    /// Physical display size.
    pub display_width: Option<u32>,
    pub display_height: Option<u32>,
    /// View area: added to the margins.
    pub main_view_area_top: Option<u32>,
    pub main_view_area_bottom: Option<u32>,
    pub main_view_area_left: Option<u32>,
    pub main_view_area_right: Option<u32>,
    /// Safe area: the content insets.
    pub main_safe_area_top: Option<u32>,
    pub main_safe_area_bottom: Option<u32>,
    pub main_safe_area_left: Option<u32>,
    pub main_safe_area_right: Option<u32>,
    /// Driver seat (LHD = 0, RHD = 1).
    pub driver_position: u8,
    /// Bluetooth adapter MAC for the Bluetooth channel.
    pub bt_mac_address: Option<String>,
    /// WiFi access point details.
    pub wifi_bssid: Option<String>,
    pub wifi_ssid: Option<String>,
    pub wifi_password: Option<String>,
    /// FuelType values (UNLEADED = 1, DIESEL_2 = 4, ELECTRIC = 10, ...).
    pub fuel_types: Vec<i32>,
    pub ev_connector_types: Vec<i32>,
    /// Renderer probe results: only codecs flagged true are advertised.
    pub hevc_supported: bool,
    pub vp9_supported: bool,
    pub av1_supported: bool,
    pub initial_night_mode: bool,
    /// When true the secondary (cluster) video sink is advertised.
    pub cluster_enabled: bool,
    pub cluster_width: u32,
    pub cluster_height: u32,
    pub cluster_tier_width: Option<u32>,
    pub cluster_tier_height: Option<u32>,
    pub cluster_pixel_aspect_ratio_e4: Option<u32>,
    pub cluster_fps: u32,
    pub cluster_dpi: u32,
    pub cluster_view_area_top: Option<u32>,
    pub cluster_view_area_bottom: Option<u32>,
    pub cluster_view_area_left: Option<u32>,
    pub cluster_view_area_right: Option<u32>,
    pub cluster_safe_area_top: Option<u32>,
    pub cluster_safe_area_bottom: Option<u32>,
    pub cluster_safe_area_left: Option<u32>,
    pub cluster_safe_area_right: Option<u32>,
    pub disable_audio_output: bool,
}

pub struct ConfigView {
    pub hu_name: Option<Seq<char>>,
    pub video_width: Option<u32>,
    pub video_height: Option<u32>,
    pub video_dpi: Option<u32>,
    pub video_fps: Option<u32>,
    pub pixel_aspect_ratio_e4: Option<u32>,
    pub display_width: Option<u32>,
    pub display_height: Option<u32>,
    pub main_view_area_top: Option<u32>,
    pub main_view_area_bottom: Option<u32>,
    pub main_view_area_left: Option<u32>,
    pub main_view_area_right: Option<u32>,
    pub main_safe_area_top: Option<u32>,
    pub main_safe_area_bottom: Option<u32>,
    pub main_safe_area_left: Option<u32>,
    pub main_safe_area_right: Option<u32>,
    pub driver_position: u8,
    pub bt_mac_address: Option<Seq<char>>,
    pub wifi_bssid: Option<Seq<char>>,
    pub wifi_ssid: Option<Seq<char>>,
    pub wifi_password: Option<Seq<char>>,
    pub fuel_types: Seq<i32>,
    pub ev_connector_types: Seq<i32>,
    pub hevc_supported: bool,
    pub vp9_supported: bool,
    pub av1_supported: bool,
    pub initial_night_mode: bool,
    pub cluster_enabled: bool,
    pub cluster_width: u32,
    pub cluster_height: u32,
    pub cluster_tier_width: Option<u32>,
    pub cluster_tier_height: Option<u32>,
    pub cluster_pixel_aspect_ratio_e4: Option<u32>,
    pub cluster_fps: u32,
    pub cluster_dpi: u32,
    pub cluster_view_area_top: Option<u32>,
    pub cluster_view_area_bottom: Option<u32>,
    pub cluster_view_area_left: Option<u32>,
    pub cluster_view_area_right: Option<u32>,
    pub cluster_safe_area_top: Option<u32>,
    pub cluster_safe_area_bottom: Option<u32>,
    pub cluster_safe_area_left: Option<u32>,
    pub cluster_safe_area_right: Option<u32>,
    pub disable_audio_output: bool,
}

impl View for SessionConfig {
    type V = ConfigView;

    open spec fn view(&self) -> ConfigView {
        ConfigView {
            hu_name: opt_text(self.hu_name),
            video_width: self.video_width,
            video_height: self.video_height,
            video_dpi: self.video_dpi,
            video_fps: self.video_fps,
            pixel_aspect_ratio_e4: self.pixel_aspect_ratio_e4,
            display_width: self.display_width,
            display_height: self.display_height,
            main_view_area_top: self.main_view_area_top,
            main_view_area_bottom: self.main_view_area_bottom,
            main_view_area_left: self.main_view_area_left,
            main_view_area_right: self.main_view_area_right,
            main_safe_area_top: self.main_safe_area_top,
            main_safe_area_bottom: self.main_safe_area_bottom,
            main_safe_area_left: self.main_safe_area_left,
            main_safe_area_right: self.main_safe_area_right,
            driver_position: self.driver_position,
            bt_mac_address: opt_text(self.bt_mac_address),
            wifi_bssid: opt_text(self.wifi_bssid),
            wifi_ssid: opt_text(self.wifi_ssid),
            wifi_password: opt_text(self.wifi_password),
            fuel_types: self.fuel_types@,
            ev_connector_types: self.ev_connector_types@,
            hevc_supported: self.hevc_supported,
            vp9_supported: self.vp9_supported,
            av1_supported: self.av1_supported,
            initial_night_mode: self.initial_night_mode,
            cluster_enabled: self.cluster_enabled,
            cluster_width: self.cluster_width,
            cluster_height: self.cluster_height,
            cluster_tier_width: self.cluster_tier_width,
            cluster_tier_height: self.cluster_tier_height,
            cluster_pixel_aspect_ratio_e4: self.cluster_pixel_aspect_ratio_e4,
            cluster_fps: self.cluster_fps,
            cluster_dpi: self.cluster_dpi,
            cluster_view_area_top: self.cluster_view_area_top,
            cluster_view_area_bottom: self.cluster_view_area_bottom,
            cluster_view_area_left: self.cluster_view_area_left,
            cluster_view_area_right: self.cluster_view_area_right,
            cluster_safe_area_top: self.cluster_safe_area_top,
            cluster_safe_area_bottom: self.cluster_safe_area_bottom,
            cluster_safe_area_left: self.cluster_safe_area_left,
            cluster_safe_area_right: self.cluster_safe_area_right,
            disable_audio_output: self.disable_audio_output,
        }
    }
}

/// Every optional setting unset, no fuel or connector types, no extra codecs, cluster off at
/// 30 fps and 140 dpi.
pub open spec fn default_config() -> ConfigView {
    ConfigView {
        hu_name: None,
        video_width: None,
        video_height: None,
        video_dpi: None,
        video_fps: None,
        pixel_aspect_ratio_e4: None,
        display_width: None,
        display_height: None,
        main_view_area_top: None,
        main_view_area_bottom: None,
        main_view_area_left: None,
        main_view_area_right: None,
        main_safe_area_top: None,
        main_safe_area_bottom: None,
        main_safe_area_left: None,
        main_safe_area_right: None,
        driver_position: 0,
        bt_mac_address: None,
        wifi_bssid: None,
        wifi_ssid: None,
        wifi_password: None,
        fuel_types: Seq::empty(),
        ev_connector_types: Seq::empty(),
        hevc_supported: false,
        vp9_supported: false,
        av1_supported: false,
        initial_night_mode: false,
        cluster_enabled: false,
        cluster_width: 0,
        cluster_height: 0,
        cluster_tier_width: None,
        cluster_tier_height: None,
        cluster_pixel_aspect_ratio_e4: None,
        cluster_fps: 30,
        cluster_dpi: 140,
        cluster_view_area_top: None,
        cluster_view_area_bottom: None,
        cluster_view_area_left: None,
        cluster_view_area_right: None,
        cluster_safe_area_top: None,
        cluster_safe_area_bottom: None,
        cluster_safe_area_left: None,
        cluster_safe_area_right: None,
        disable_audio_output: false,
    }
}

impl Default for SessionConfig {
    fn default() -> (c: SessionConfig)
        ensures
            c@ == default_config(),
    {
        SessionConfig {
            hu_name: None,
            video_width: None,
            video_height: None,
            video_dpi: None,
            video_fps: None,
            pixel_aspect_ratio_e4: None,
            display_width: None,
            display_height: None,
            main_view_area_top: None,
            main_view_area_bottom: None,
            main_view_area_left: None,
            main_view_area_right: None,
            main_safe_area_top: None,
            main_safe_area_bottom: None,
            main_safe_area_left: None,
            main_safe_area_right: None,
            driver_position: 0,
            bt_mac_address: None,
            wifi_bssid: None,
            wifi_ssid: None,
            wifi_password: None,
            fuel_types: Vec::new(),
            ev_connector_types: Vec::new(),
            hevc_supported: false,
            vp9_supported: false,
            av1_supported: false,
            initial_night_mode: false,
            cluster_enabled: false,
            cluster_width: 0,
            cluster_height: 0,
            cluster_tier_width: None,
            cluster_tier_height: None,
            cluster_pixel_aspect_ratio_e4: None,
            cluster_fps: 30,
            cluster_dpi: 140,
            cluster_view_area_top: None,
            cluster_view_area_bottom: None,
            cluster_view_area_left: None,
            cluster_view_area_right: None,
            cluster_safe_area_top: None,
            cluster_safe_area_bottom: None,
            cluster_safe_area_left: None,
            cluster_safe_area_right: None,
            disable_audio_output: false,
        }
    }
}

} // verus!
