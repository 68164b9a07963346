use avio::channels::mic_channel::MicChannel;
use avio::channels::navigation_channel::{handle_message as nav_message, NavEvent};
use avio::constants::{ch, ctrl_msg, frame_flags};
use avio::projection::wired::{Presenter, PresenterAction};
use avio::proto::{decode_fields, decode_start, decode_varint_value, encode_varint, field_len_delim, field_varint, ProtoField};
use avio::session::config::SessionConfig;
use avio::session::discovery_message::encode_service_discovery_response;
use avio::session::service_discovery::{build_service_discovery_response, sdr_geometry_fits};
use avio::session::session::{Clock, Session, SessionEvent};
use avio::usb::udev_rule::{udev_after_attempt, UdevStep};

fn fields_numbered(fs: &[ProtoField], n: u32) -> Vec<Vec<u8>> {
    fs.iter().filter(|f| f.field == n).map(|f| f.bytes.clone()).collect()
}

fn varint_of(fs: &[ProtoField], n: u32) -> Option<u32> {
    fs.iter().find(|f| f.field == n && f.wire == 0).map(|f| decode_varint_value(&f.bytes))
}

fn channel_ids(buf: &[u8]) -> Vec<u32> {
    let top = decode_fields(buf);
    fields_numbered(&top, 1)
        .iter()
        .map(|svc| varint_of(&decode_fields(svc), 1).unwrap())
        .collect()
}

/// The video configurations of the sink on channel `id`: (resolution, frame rate, codec type).
fn video_configs(buf: &[u8], id: u32) -> Vec<(u32, u32, u32)> {
    let top = decode_fields(buf);
    let svc = fields_numbered(&top, 1)
        .into_iter()
        .find(|svc| varint_of(&decode_fields(svc), 1) == Some(id))
        .unwrap();
    let sink = fields_numbered(&decode_fields(&svc), 3).remove(0);
    fields_numbered(&decode_fields(&sink), 4)
        .iter()
        .map(|c| {
            let f = decode_fields(c);
            (varint_of(&f, 1).unwrap(), varint_of(&f, 2).unwrap(), varint_of(&f, 10).unwrap())
        })
        .collect()
}

#[test]
fn discovery_lists_the_default_channels() {
    let cfg = SessionConfig::default();
    let sdr = build_service_discovery_response(&cfg);
    assert_eq!(channel_ids(&sdr.buf), vec![3, 4, 5, 6, 9, 1, 8, 10, 12, 13, 14]);
    assert_eq!(video_configs(&sdr.buf, 3), vec![(2, 2, 3)]);
}

#[test]
fn discovery_buf_is_the_encoded_plan() {
    let cfg = SessionConfig::default();
    let sdr = build_service_discovery_response(&cfg);
    assert_eq!(sdr.buf, encode_service_discovery_response(&sdr));
    // channels = 1, a length-delimited field; the first service is VIDEO (id = 3).
    assert_eq!(sdr.buf[0], 0x0a);
    let top = decode_fields(&sdr.buf);
    let strings: Vec<(u32, Vec<u8>)> = top.iter().filter(|f| f.field != 1).map(|f| (f.field, f.bytes.clone())).collect();
    assert_eq!(strings[0], (2, b"AVIO".to_vec()));
    assert_eq!(strings[1], (3, b"Universal".to_vec()));
    assert_eq!(strings[2], (4, b"2026".to_vec()));
    assert_eq!(strings[3], (5, b"avio-001".to_vec()));
    assert_eq!(varint_of(&top, 15), Some(0));
    assert_eq!(varint_of(&top, 11), Some(1));
    assert_eq!(fields_numbered(&top, 14), vec![b"AVIO".to_vec()]);
}

#[test]
fn discovery_advertises_every_supported_codec_on_both_displays() {
    let mut cfg = SessionConfig::default();
    cfg.hevc_supported = true;
    cfg.av1_supported = true;
    cfg.cluster_enabled = true;
    cfg.cluster_width = 800;
    cfg.cluster_height = 480;
    cfg.video_width = Some(1920);
    cfg.video_height = Some(1080);
    cfg.video_fps = Some(60);
    cfg.disable_audio_output = true;
    cfg.wifi_bssid = Some("aa:bb:cc:dd:ee:ff".to_string());
    assert!(sdr_geometry_fits(&cfg));
    let sdr = build_service_discovery_response(&cfg);
    assert_eq!(channel_ids(&sdr.buf), vec![3, 19, 20, 6, 9, 1, 8, 10, 12, 13, 14, 18]);
    // 1920 wide: resolution 3; 60 fps: frame rate 1; H.264 = 3, H.265 = 7, AV1 = 6.
    assert_eq!(video_configs(&sdr.buf, 3), vec![(3, 1, 3), (3, 1, 7), (3, 1, 6)]);
    // The cluster's 800x480 tier is resolution 1 at its own 30 fps; its codecs follow the
    // main display's.
    assert_eq!(video_configs(&sdr.buf, 19), vec![(1, 2, 3), (1, 2, 7), (1, 2, 6)]);
}

#[test]
fn discovery_resolution_tiers() {
    for (w, res) in [(800u32, 1u32), (1280, 2), (1920, 3), (2560, 4), (3840, 5)] {
        let mut cfg = SessionConfig::default();
        cfg.video_width = Some(w);
        let sdr = build_service_discovery_response(&cfg);
        assert_eq!(video_configs(&sdr.buf, 3)[0].0, res);
    }
}

#[test]
fn session_answers_discovery_before_pinging() {
    let cfg = SessionConfig::default();
    let expected = build_service_discovery_response(&cfg).buf;
    let mut s = Session::new(cfg, Clock { mono_ms: 1_000, wall_ns: 1_000_000_000 });
    let mut out = Vec::new();
    let mut events = Vec::new();
    s.handle_decrypted_message(
        ch::CONTROL,
        frame_flags::ENC_SIGNAL,
        ctrl_msg::SERVICE_DISCOVERY_REQUEST,
        &[],
        Clock { mono_ms: 2_000, wall_ns: 2_000_000_000 },
        &mut out,
        &mut events,
    );
    assert_eq!(out.len(), 2);
    assert_eq!(out[0].channel_id, ch::CONTROL);
    assert_eq!(out[0].flags, frame_flags::ENC_SIGNAL);
    assert_eq!(out[0].msg_id, ctrl_msg::SERVICE_DISCOVERY_RESPONSE);
    assert_eq!(out[0].data, expected);
    assert_eq!(out[1].msg_id, ctrl_msg::PING_REQUEST);
    assert!(matches!(events[0], SessionEvent::VideoGeometry { .. }));
}

#[test]
fn varint_of_the_largest_value_takes_ten_bytes() {
    let e = encode_varint(-1);
    assert_eq!(e.len(), 10);
    assert!(e[..9].iter().all(|b| *b >= 0x80));
    assert_eq!(e[9], 0x01);
    assert_eq!(encode_varint(0), vec![0x00]);
    assert_eq!(encode_varint(300), vec![0xac, 0x02]);
}

#[test]
fn two_fields_decode_in_either_order() {
    let d = vec![9u8, 8, 7];
    let mut a = field_varint(3, 150);
    a.extend(field_len_delim(4, &d));
    let fs = decode_fields(&a);
    assert_eq!(fs.len(), 2);
    assert_eq!((fs[0].field, fs[0].wire, fs[0].bytes.clone()), (3, 0, vec![0x96, 0x01]));
    assert_eq!((fs[1].field, fs[1].wire, fs[1].bytes.clone()), (4, 2, d.clone()));
    let mut b = field_len_delim(4, &d);
    b.extend(field_varint(3, 150));
    let fs = decode_fields(&b);
    assert_eq!((fs[0].field, fs[0].wire, fs[0].bytes.clone()), (4, 2, d));
    assert_eq!((fs[1].field, fs[1].wire, fs[1].bytes.clone()), (3, 0, vec![0x96, 0x01]));
}

#[test]
fn decoded_fields_keep_their_sizes() {
    // fixed64 (wire 1) and fixed32 (wire 5) values, then a truncated fixed32.
    let p = vec![0x09, 1, 2, 3, 4, 5, 6, 7, 8, 0x15, 1, 2, 3, 4, 0x1d, 1];
    let fs = decode_fields(&p);
    assert_eq!(fs.len(), 2);
    assert_eq!((fs[0].wire, fs[0].bytes.len()), (1, 8));
    assert_eq!((fs[1].wire, fs[1].bytes.len()), (5, 4));
}

#[test]
fn start_message_in_either_order() {
    let mut a = field_varint(1, 7);
    a.extend(field_varint(2, 2));
    let m = decode_start(&a).unwrap();
    assert_eq!((m.session_id, m.config_index), (7, 2));
    let mut b = field_varint(2, 2);
    b.extend(field_varint(1, 7));
    let m = decode_start(&b).unwrap();
    assert_eq!((m.session_id, m.config_index), (7, 2));
    assert!(decode_start(&field_varint(1, -2)).is_none());
}

#[test]
fn closed_mic_sends_nothing() {
    let mut mic = MicChannel::new(ch::MIC_INPUT);
    let mut out = Vec::new();
    mic.push_pcm(vec![1, 2, 3, 4], 5, &mut out);
    assert!(out.is_empty());
    mic.handle_message(0x8004, &[], &mut out);
    assert!(out.is_empty());
}

#[test]
fn mic_window_holds_back_frames_until_acked() {
    let mut mic = MicChannel::new(ch::MIC_INPUT);
    let mut out = Vec::new();
    // MicrophoneRequest { open = true, max_unacked = 2 }
    let mut req = field_varint(1, 1);
    req.extend(field_varint(4, 2));
    mic.handle_message(0x8005, &req, &mut out);
    out.clear();
    for ts in 0..4u64 {
        mic.push_pcm(vec![ts as u8], ts, &mut out);
    }
    assert_eq!(out.len(), 2);
    out.clear();
    mic.handle_message(0x8004, &[], &mut out);
    assert_eq!(out.len(), 1);
    assert_eq!(out[0].data, vec![0, 0, 0, 0, 0, 0, 0, 2, 2]);
}

fn statuses(actions: &[PresenterAction]) -> Vec<&'static str> {
    actions
        .iter()
        .filter_map(|a| match a {
            PresenterAction::EmitStatus(s) => Some(*s),
            _ => None,
        })
        .collect()
}

#[test]
fn presenter_reports_statuses_in_order() {
    let mut p = Presenter::new();
    let mut all = Vec::new();
    for e in [
        SessionEvent::Connected,
        SessionEvent::AudioStart { channel_id: ch::MEDIA_AUDIO },
        SessionEvent::HostUiRequested,
        SessionEvent::AudioStop { channel_id: ch::MEDIA_AUDIO },
        SessionEvent::HostUiRequested,
    ] {
        all.extend(p.on_event(e, true));
    }
    all.extend(p.finish());
    assert_eq!(statuses(&all), vec!["connected", "host-ui", "host-ui", "disconnected"]);
}

#[test]
fn navigation_ids_pick_the_event() {
    let junk = [0xffu8, 0x01];
    assert!(matches!(nav_message(0x8001, &junk), NavEvent::Start));
    assert!(matches!(nav_message(0x8002, &junk), NavEvent::Stop));
    assert!(matches!(nav_message(0x8003, &junk), NavEvent::Status(_)));
    assert!(matches!(nav_message(0x8004, &junk), NavEvent::Turn(_)));
    assert!(matches!(nav_message(0x8005, &junk), NavEvent::Distance(_)));
    assert!(matches!(nav_message(0x8006, &junk), NavEvent::State(_)));
    assert!(matches!(nav_message(0x8007, &junk), NavEvent::Position(_)));
    assert!(matches!(nav_message(0x8000, &junk), NavEvent::Ignored));
    assert!(matches!(nav_message(0x8008, &junk), NavEvent::Ignored));
}

#[test]
fn udev_retry_only_after_a_failure() {
    assert_eq!(udev_after_attempt(false, true), UdevStep::TryAgain);
    assert_eq!(udev_after_attempt(false, false), UdevStep::Finish);
    assert_eq!(udev_after_attempt(true, true), UdevStep::Finish);
    assert_eq!(udev_after_attempt(true, false), UdevStep::Finish);
}
