use avio::constants::{ch, ctrl_msg, frame_flags};
use avio::frame::encode_frame;
use avio::proto::field_varint;
use avio::session::config::SessionConfig;
use avio::session::service_discovery::{build_service_discovery_response, resolution_from_dimensions, sdr_geometry_fits};
use avio::session::session::{encrypted_frame, Clock, PingOutcome, PostAuthFrame, RawFrameAction, Session, SessionState};

fn clock(mono_ms: u64) -> Clock {
    Clock { mono_ms, wall_ns: mono_ms * 1_000_000 }
}

fn new_session() -> Session {
    let cfg = SessionConfig::default();
    assert!(sdr_geometry_fits(&cfg));
    Session::new(cfg, clock(1_000))
}

#[test]
fn session_starts_with_version_request() {
    let mut s = new_session();
    assert_eq!(s.state(), SessionState::Init);
    assert!(s.pre_auth());
    let mut out = Vec::new();
    s.send_version_request(&mut out);
    assert_eq!(s.state(), SessionState::Version);
    assert_eq!(out.len(), 1);
    assert_eq!(out[0].channel_id, ch::CONTROL);
    assert_eq!(out[0].flags, frame_flags::PLAINTEXT);
    assert_eq!(out[0].msg_id, ctrl_msg::VERSION_REQUEST);
    assert_eq!(out[0].data, vec![0, 1, 0, 7]);
}

#[test]
fn version_response_starts_tls_then_handshake_authenticates() {
    let mut s = new_session();
    let mut out = Vec::new();
    s.send_version_request(&mut out);
    let wire = encode_frame(ch::CONTROL, frame_flags::PLAINTEXT, ctrl_msg::VERSION_RESPONSE, &[0, 1, 0, 7, 0, 0]);
    let frames = s.parse_raw(&wire);
    assert_eq!(frames.len(), 1);
    assert!(matches!(s.on_raw_frame(&frames[0]), RawFrameAction::StartTls));
    assert_eq!(s.state(), SessionState::TlsHandshake);

    let mut out = Vec::new();
    s.on_tls_started(&[0x16, 0x03, 0x01], &mut out);
    assert_eq!(out.len(), 1);
    assert_eq!(out[0].msg_id, ctrl_msg::SSL_HANDSHAKE);
    assert_eq!(out[0].data, vec![0x16, 0x03, 0x01]);

    let wire = encode_frame(ch::CONTROL, frame_flags::PLAINTEXT, ctrl_msg::SSL_HANDSHAKE, &[0x16, 0x03, 0x03]);
    let frames = s.parse_raw(&wire);
    match s.on_raw_frame(&frames[0]) {
        RawFrameAction::FeedHandshake(record) => assert_eq!(record, vec![0x16, 0x03, 0x03]),
        _ => panic!("expected the handshake record to be fed to TLS"),
    }

    let mut out = Vec::new();
    s.on_handshake_output(&[0x14], true, false, &mut out);
    assert_eq!(s.state(), SessionState::ServiceDiscovery);
    assert_eq!(out.len(), 2);
    assert_eq!(out[0].msg_id, ctrl_msg::SSL_HANDSHAKE);
    assert_eq!(out[1].msg_id, ctrl_msg::AUTH_COMPLETE);
}

#[test]
fn version_mismatch_closes_session() {
    let mut s = new_session();
    let mut out = Vec::new();
    s.send_version_request(&mut out);
    let wire = encode_frame(ch::CONTROL, frame_flags::PLAINTEXT, ctrl_msg::VERSION_RESPONSE, &[0, 1, 0, 7, 0xff, 0xff]);
    let frames = s.parse_raw(&wire);
    assert!(matches!(s.on_raw_frame(&frames[0]), RawFrameAction::Nothing));
    assert_eq!(s.state(), SessionState::Closed);
    assert!(s.is_closed());
}

#[test]
fn handshake_still_running_sends_only_its_flight() {
    let mut s = new_session();
    let mut out = Vec::new();
    s.on_handshake_output(&[1, 2], true, true, &mut out);
    assert_eq!(out.len(), 1);
    assert_eq!(out[0].data, vec![1, 2]);
    assert_eq!(s.state(), SessionState::Init);
}

#[test]
fn pings_only_after_authentication_and_time_out() {
    let mut s = new_session();
    let mut out = Vec::new();
    assert!(matches!(s.on_ping_tick(clock(2_000), &mut out), PingOutcome::Skipped));
    assert!(out.is_empty());
    s.on_handshake_output(&[], true, false, &mut out);
    out.clear();
    assert!(matches!(s.on_ping_tick(clock(3_000), &mut out), PingOutcome::Sent));
    assert_eq!(out.len(), 1);
    assert_eq!(out[0].msg_id, ctrl_msg::PING_REQUEST);
    assert_eq!(out[0].data, field_varint(1, 3_000_000));
    let mut out = Vec::new();
    assert!(matches!(s.on_ping_tick(clock(6_001), &mut out), PingOutcome::TimedOut));
    assert!(out.is_empty());
}

#[test]
fn resolution_tiers() {
    assert_eq!(resolution_from_dimensions(800, 480), Some(1));
    assert_eq!(resolution_from_dimensions(1280, 720), Some(2));
    assert_eq!(resolution_from_dimensions(1920, 1080), Some(3));
    assert_eq!(resolution_from_dimensions(1024, 600), None);
}

#[test]
fn discovery_without_display_size_has_no_bars() {
    let sdr = build_service_discovery_response(&SessionConfig::default());
    assert_eq!((sdr.video_tier_width, sdr.video_tier_height), (1280, 720));
    assert_eq!((sdr.video_crop_left, sdr.video_crop_top), (0, 0));
    assert_eq!((sdr.video_vis_width, sdr.video_vis_height), (1280, 720));
    assert_eq!((sdr.touch_width, sdr.touch_height), (1280, 720));
}

#[test]
fn discovery_letterboxes_a_taller_display() {
    let cfg = SessionConfig { display_width: Some(1920), display_height: Some(1200), ..SessionConfig::default() };
    assert!(sdr_geometry_fits(&cfg));
    let sdr = build_service_discovery_response(&cfg);
    assert_eq!((sdr.video_tier_width, sdr.video_tier_height), (1280, 720));
    assert_eq!((sdr.video_crop_left, sdr.video_crop_top), (64, 0));
    assert_eq!((sdr.video_vis_width, sdr.video_vis_height), (1152, 720));
    assert_eq!((sdr.touch_width, sdr.touch_height), (1152, 720));
}

#[test]
fn discovery_letterboxes_a_wider_display() {
    let cfg = SessionConfig { display_width: Some(2560), display_height: Some(1080), ..SessionConfig::default() };
    let sdr = build_service_discovery_response(&cfg);
    assert_eq!((sdr.video_crop_left, sdr.video_crop_top), (0, 90));
    assert_eq!((sdr.video_vis_width, sdr.video_vis_height), (1280, 540));
}

#[test]
fn encrypted_frames_split_back_out() {
    let mut s = new_session();
    let record = vec![0x17, 0x03, 0x03, 0x00, 0x02, 0xaa, 0xbb];
    let mut wire = encrypted_frame(ch::VIDEO, frame_flags::ENC_SIGNAL, &record).unwrap();
    assert_eq!(&wire[..4], &[ch::VIDEO, frame_flags::ENC_SIGNAL, 0x00, 0x07]);
    assert!(encrypted_frame(ch::VIDEO, frame_flags::ENC_SIGNAL, &[]).is_none());
    wire.extend(encode_frame(ch::CONTROL, frame_flags::PLAINTEXT, ctrl_msg::PING_REQUEST, &[1, 2]));
    let frames = s.split_post_auth(&wire[..5]);
    assert!(frames.is_empty());
    let frames = s.split_post_auth(&wire[5..]);
    assert_eq!(frames.len(), 2);
    match &frames[0] {
        PostAuthFrame::Encrypted { channel_id, flags, raw_payload } => {
            assert_eq!((*channel_id, *flags), (ch::VIDEO, frame_flags::ENC_SIGNAL));
            assert_eq!(*raw_payload, record);
        }
        _ => panic!("expected an encrypted frame"),
    }
    match &frames[1] {
        PostAuthFrame::Clear { channel_id, msg_id, payload, .. } => {
            assert_eq!((*channel_id, *msg_id), (ch::CONTROL, ctrl_msg::PING_REQUEST));
            assert_eq!(*payload, vec![1, 2]);
        }
        _ => panic!("expected a clear frame"),
    }
}
