use avio::audio::audio_output::pcm_bytes;
use avio::audio::gstreamer::HostOs;
use avio::audio::audio_device_enumerator::{id_from_launch_line, match_prop, parse_device_monitor_output, AudioDeviceType};
use avio::audio::microphone::{capture_args, to_gst_raw_format};
use avio::projection::wired::pcm_samples;
use avio::audio::{extract_bluez_mac, is_bt_audio_cod, mac_to_bluez_id};
use avio::radio::fm_radio_service::{FMRadioService, RecallPlan, StartPlan, FM_BAND_MAX_KHZ, FM_BAND_MIN_KHZ};
use avio::shared::decode_type_map;
use avio::text::{contains, int_text, joined, text_eq, trim};
use avio::usb::constants::is_carlinkit_dongle;
use avio::usb::udev_rule::{
    build_rule_content, lines, parse_hex_u16, phone_vendor_ids_from_template, template_marker,
    udev_rule_is_current,
};
use avio::video::{backdrop_hex, hex_to_rgb255, GstVideoCodec};

#[test]
fn rgb_from_hex() {
    assert_eq!(hex_to_rgb255(Some("#ff8000")), (255, 128, 0));
    assert_eq!(hex_to_rgb255(Some("  #0A0b0C ")), (10, 11, 12));
    assert_eq!(hex_to_rgb255(Some("123456")), (0x12, 0x34, 0x56));
    assert_eq!(hex_to_rgb255(Some("#12345")), (0, 0, 0));
    assert_eq!(hex_to_rgb255(Some("#zz0000")), (0, 0, 0));
    assert_eq!(hex_to_rgb255(None), (0, 0, 0));
}

#[test]
fn backdrop_defaults_per_theme() {
    assert_eq!(backdrop_hex(true, None, Some("#ffffff")), "#000000");
    assert_eq!(backdrop_hex(true, Some("#112233"), None), "#112233");
    assert_eq!(backdrop_hex(false, Some("#112233"), Some("")), backdrop_hex(false, None, None));
}

#[test]
fn gst_codec_names() {
    assert_eq!(GstVideoCodec::H264.as_str(), "h264");
    assert_eq!(GstVideoCodec::H265.as_str(), "h265");
    assert_eq!(GstVideoCodec::VP9.as_str(), "vp9");
    assert_eq!(GstVideoCodec::AV1.as_str(), "av1");
}

#[test]
fn decode_types() {
    let media = decode_type_map(4).unwrap();
    assert_eq!((media.frequency, media.channels, media.bit_depth), (48000, 2, 16));
    let voice = decode_type_map(5).unwrap();
    assert_eq!((voice.frequency, voice.channels), (16000, 1));
    assert_eq!(decode_type_map(1).unwrap().frequency, 44100);
    assert!(decode_type_map(0).is_none());
    assert!(decode_type_map(8).is_none());
}

#[test]
fn bluetooth_class_of_device() {
    assert!(is_bt_audio_cod(0x240404));
    assert!(!is_bt_audio_cod(0x5a020c));
}

#[test]
fn bluez_ids() {
    assert_eq!(mac_to_bluez_id("aa:bb:cc:dd:ee:ff").unwrap(), "AA_BB_CC_DD_EE_FF");
    assert_eq!(
        extract_bluez_mac("bluez_output.aa_bb_cc_dd_ee_ff.1").unwrap(),
        "AA:BB:CC:DD:EE:FF"
    );
    assert!(extract_bluez_mac("alsa_output.pci-0000_00_1f.3").is_none());
}

#[test]
fn carlinkit_ids() {
    assert!(is_carlinkit_dongle(Some(0x1314), Some(0x1520)));
    assert!(is_carlinkit_dongle(Some(0x1314), Some(0x1521)));
    assert!(!is_carlinkit_dongle(Some(0x1314), Some(0x1522)));
    assert!(!is_carlinkit_dongle(None, Some(0x1520)));
}

#[test]
fn text_helpers() {
    assert_eq!(trim("  a b \n"), "a b");
    assert!(contains("gst-launch-1.0 pulsesrc", "pulse"));
    assert!(!contains("abc", "abd"));
    assert!(text_eq("abc", "abc"));
    assert!(!text_eq("abc", "ab"));
    assert_eq!(joined("ab", "cd"), "abcd");
    assert_eq!(int_text(0), "0");
    assert_eq!(int_text(-42), "-42");
    assert_eq!(int_text(2147483647), "2147483647");
}

#[test]
fn hex_and_lines() {
    assert_eq!(parse_hex_u16("18d1"), Some(0x18d1));
    assert_eq!(parse_hex_u16("FFFF"), Some(0xffff));
    assert_eq!(parse_hex_u16("10000"), None);
    assert_eq!(parse_hex_u16("xyz"), None);
    assert_eq!(lines("a\nb\r\nc"), vec!["a", "b", "c"]);
    assert_eq!(lines("a\n"), vec!["a"]);
}

const TEMPLATE: &str = "# LIVI-RULE-VERSION=3\n\
SUBSYSTEM==\"usb\", ATTR{idVendor}==\"18d1\", OWNER=\"__USERNAME__\"\n\
SUBSYSTEM==\"usb\", ATTR{idVendor}==\"04e8\", OWNER=\"__USERNAME__\"\n\
SUBSYSTEM==\"usb\", ATTR{idVendor}==\"18d1\", MODE=\"0660\"\n\
SUBSYSTEM==\"usb\", ATTR{idVendor}==\"1314\", ATTR{idProduct}==\"1520\"\n";

#[test]
fn udev_template_vendors_skip_dongles() {
    assert_eq!(phone_vendor_ids_from_template(TEMPLATE), vec![0x18d1, 0x04e8]);
}

#[test]
fn udev_template_marker_and_currency() {
    assert_eq!(template_marker(TEMPLATE), "# LIVI-RULE-VERSION=3");
    assert_eq!(template_marker("no marker"), "# LIVI-RULE-VERSION=0");
    let content = build_rule_content(TEMPLATE, "pi");
    assert!(content.contains("OWNER=\"pi\""));
    assert!(!content.contains("__USERNAME__"));
    assert!(udev_rule_is_current(Some(&content), TEMPLATE));
    assert!(!udev_rule_is_current(Some("# LIVI-RULE-VERSION=2\n"), TEMPLATE));
    assert!(!udev_rule_is_current(None, TEMPLATE));
}

#[test]
fn fm_band_clamping_and_stepping() {
    let mut fm = FMRadioService::new();
    assert_eq!(fm.clamp_frequency(50_000), FM_BAND_MIN_KHZ);
    assert_eq!(fm.clamp_frequency(200_000), FM_BAND_MAX_KHZ);
    assert_eq!(fm.clamp_frequency(99_500), 99_500);
    fm.set_frequency(100_000);
    fm.step(1, false);
    assert_eq!(fm.get_state().frequency, 100_050);
    fm.step(-1, true);
    assert_eq!(fm.get_state().frequency, 99_050);
    fm.set_frequency(107_900);
    fm.step(1, true);
    assert_eq!(fm.get_state().frequency, FM_BAND_MAX_KHZ);
}

#[test]
fn fm_tune_reaches_hardware_only_when_running() {
    let mut fm = FMRadioService::new();
    let idle = fm.set_frequency(95_000);
    assert!(idle.hardware_hz.is_none());
}

#[test]
fn microphone_capture_pipeline() {
    let args = capture_args(HostOs::Linux, None, 5);
    assert_eq!(
        args,
        vec![
            "-q", "pulsesrc", "!", "queue", "max-size-time=20000000", "max-size-bytes=0",
            "max-size-buffers=0", "leaky=downstream", "!", "audioconvert", "!", "audioresample", "!",
            "S16LE,rate=16000,channels=1", "!", "fdsink", "fd=1",
        ]
    );
    let mac = capture_args(HostOs::MacOs, Some("BuiltInMic"), 4);
    assert_eq!(mac[1], "osxaudiosrc");
    assert_eq!(mac[2], "unique-id=BuiltInMic");
    assert_eq!(mac[14], "S16LE,rate=48000,channels=2");
    let fallback = capture_args(HostOs::Windows, None, 99);
    assert_eq!(fallback[1], "wasapisrc");
    assert_eq!(fallback[13], "S16LE,rate=16000,channels=1");
}

#[test]
fn pcm_bytes_roundtrip() {
    let samples = vec![0i16, 1, -1, 258, i16::MIN, i16::MAX];
    let bytes = pcm_bytes(&samples);
    assert_eq!(bytes, vec![0, 0, 1, 0, 0xff, 0xff, 2, 1, 0x00, 0x80, 0xff, 0x7f]);
    assert_eq!(pcm_samples(&bytes), samples);
}

const MONITOR_OUTPUT: &str = "Device found:\n\n\tname  : Built-in Audio Analog Stereo\n\tclass : Audio/Sink\n\tcaps  : audio/x-raw\n\tproperties:\n\t\tdevice.class = sound\n\t\tis-default = true\n\tgst-launch-1.0 ... ! pulsesink device=alsa_output.pci.analog-stereo\n\nDevice found:\n\n\tname  : Monitor of Built-in\n\tclass : Audio/Source\n\tproperties:\n\t\tdevice.class = monitor\n\tgst-launch-1.0 pulsesrc device=alsa_output.pci.analog-stereo.monitor ! fakesink\n";

#[test]
fn device_monitor_sinks_and_sources() {
    let sinks = parse_device_monitor_output(MONITOR_OUTPUT, AudioDeviceType::Sink);
    assert_eq!(sinks.len(), 1);
    assert_eq!(sinks[0].id, "alsa_output.pci.analog-stereo");
    assert_eq!(sinks[0].name, "Built-in Audio Analog Stereo");
    assert!(sinks[0].is_default);
    assert_eq!(sinks[0].offline, None);
    assert!(parse_device_monitor_output(MONITOR_OUTPUT, AudioDeviceType::Source).is_empty());
}

#[test]
fn quoted_launch_line_ids() {
    let block = "\tclass : Audio/Sink\n\tgst-launch-1.0 ... ! 'pulsesink device=\"bluez_output.AA_BB\"'\n";
    assert_eq!(id_from_launch_line(block).as_deref(), Some("bluez_output.AA_BB"));
    assert_eq!(match_prop("\tname = \"Quoted Name\"\n", "name").as_deref(), Some("Quoted Name"));
    assert_eq!(match_prop("\tclass : Audio/Sink\n", "name"), None);
}

#[test]
fn raw_format_names() {
    let mut f = decode_type_map(5).unwrap();
    assert_eq!(to_gst_raw_format(&f), "S16LE");
    f.format = Some("S16_LE".to_string());
    assert_eq!(to_gst_raw_format(&f), "S16LE");
    f.format = Some("f32le".to_string());
    assert_eq!(to_gst_raw_format(&f), "F32LE");
    f.format = None;
    assert_eq!(to_gst_raw_format(&f), "S16LE");
}

#[test]
fn fm_favorite_store_and_recall() {
    let mut fm = FMRadioService::new();
    fm.set_frequency(95_500);
    assert!(fm.set_favorite(2));
    assert_eq!(fm.get_state().favorites, Some(vec![0, 0, 95_500, 0, 0]));
    assert!(!fm.set_favorite(5));
    assert!(matches!(fm.recall_favorite(2), RecallPlan::Start(StartPlan::Open { frequency: 95_500 })));
    fm.device_opened();
    fm.started();
    fm.set_frequency(100_000);
    match fm.recall_favorite(2) {
        RecallPlan::Retune(t) => assert_eq!(t.hardware_hz, Some(95_500_000)),
        _ => panic!("expected a retune"),
    }
    assert_eq!(fm.get_state().frequency, 95_500);
    assert!(matches!(FMRadioService::new().recall_favorite(0), RecallPlan::Nothing));
}
