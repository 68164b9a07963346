use avio::constants::ch;
use avio::projection::aoap::{
    accessory_pids, identification, is_accessory_mode, protocol_version, string_payload, AoapHandshake,
    ControlRequest, HandshakeError, AOAP_MANUFACTURER, AOAP_MODEL, AOAP_SERIAL, GOOGLE_VID,
    STRING_MANUFACTURER, STRING_MODEL, STRING_SERIAL,
};
use avio::projection::commands::{resume_commands, touch_phase_action};
use avio::projection::status::AndroidWorkMode;
use avio::projection::transport::{
    attach_decision, find_bulk_endpoints, needs_set_configuration, AttachDecision, BridgeError,
    EndpointDesc, HotplugOutcome, InterfaceDesc,
};
use avio::projection::wired::{audio_format_for, pcm_samples, to_gst_codec, Geometry, Presenter, PresenterAction};
use avio::session::config::VideoCodec;
use avio::session::session::{SessionCommand, SessionEvent};
use avio::channels::input_channel::{button_key, touch_action};
use avio::video::GstVideoCodec;
use nusb::transfer::TransferError;

#[test]
fn accessory_mode_ids() {
    assert_eq!(accessory_pids(), vec![0x2d00, 0x2d01, 0x2d02, 0x2d03, 0x2d04, 0x2d05]);
    for pid in accessory_pids() {
        assert!(is_accessory_mode(GOOGLE_VID, pid));
    }
    assert!(!is_accessory_mode(GOOGLE_VID, 0x2d06));
    assert!(!is_accessory_mode(GOOGLE_VID, 0x4ee7));
    assert!(!is_accessory_mode(0x04e8, 0x2d00));
}

#[test]
fn string_payload_is_nul_terminated() {
    assert_eq!(string_payload("Android"), b"Android\0".to_vec());
    assert_eq!(string_payload(""), vec![0]);
}

#[test]
fn protocol_version_reply() {
    assert_eq!(protocol_version(&[2, 0]).unwrap(), 2);
    assert_eq!(protocol_version(&[1, 1, 9]).unwrap(), 257);
    assert!(matches!(protocol_version(&[1]), Err(HandshakeError::ShortProtocolReply)));
    assert!(matches!(protocol_version(&[]), Err(HandshakeError::ShortProtocolReply)));
}

#[test]
fn handshake_issues_requests_in_order() {
    let mut h = AoapHandshake::new();
    assert!(matches!(h.next_request(), Some(ControlRequest::GetProtocol)));
    h.on_protocol_reply(Ok(vec![2, 0])).unwrap();
    let mut sent = Vec::new();
    while let Some(req) = h.next_request() {
        match req {
            ControlRequest::SendString { index, data } => sent.push((index, data)),
            ControlRequest::Start => {}
            ControlRequest::GetProtocol => panic!("protocol asked twice"),
        }
        h.on_transfer_done(Ok(())).unwrap();
    }
    assert!(h.is_done());
    assert_eq!(sent.len(), 6);
    assert_eq!(sent[0], (STRING_MANUFACTURER, string_payload(AOAP_MANUFACTURER)));
    assert_eq!(sent[1], (STRING_MODEL, string_payload(AOAP_MODEL)));
    assert_eq!(sent[5], (STRING_SERIAL, string_payload(AOAP_SERIAL)));
    for (i, (index, data)) in sent.iter().enumerate() {
        let (want_index, text) = identification(i as u8);
        assert_eq!(*index, want_index);
        assert_eq!(*data, string_payload(text));
    }
}

#[test]
fn handshake_ends_with_start() {
    let mut h = AoapHandshake::new();
    h.on_protocol_reply(Ok(vec![1, 0])).unwrap();
    for _ in 0..6 {
        h.on_transfer_done(Ok(())).unwrap();
    }
    assert!(matches!(h.next_request(), Some(ControlRequest::Start)));
    h.on_transfer_done(Ok(())).unwrap();
    assert!(h.next_request().is_none());
}

#[test]
fn handshake_refuses_protocol_zero() {
    let mut h = AoapHandshake::new();
    assert!(matches!(h.on_protocol_reply(Ok(vec![0, 0])), Err(HandshakeError::ProtocolTooOld(0))));
    assert_eq!(h.stage, 0);
}

#[test]
fn handshake_short_reply_and_transfer_error() {
    let mut h = AoapHandshake::new();
    assert!(matches!(h.on_protocol_reply(Ok(vec![1])), Err(HandshakeError::ShortProtocolReply)));
    assert!(matches!(
        h.on_protocol_reply(Err(TransferError::Stall)),
        Err(HandshakeError::Transfer(TransferError::Stall))
    ));
    let mut h = AoapHandshake::new();
    h.on_protocol_reply(Ok(vec![2, 0])).unwrap();
    assert!(matches!(
        h.on_transfer_done(Err(TransferError::Disconnected)),
        Err(HandshakeError::Transfer(TransferError::Disconnected))
    ));
    assert_eq!(h.stage, 1);
}

fn ep(address: u8, bulk: bool, direction_in: bool) -> EndpointDesc {
    EndpointDesc { address, bulk, direction_in }
}

#[test]
fn bulk_endpoints_first_complete_interface() {
    let interfaces = vec![
        InterfaceDesc { number: 0, endpoints: vec![ep(0x81, false, true), ep(0x02, true, false)] },
        InterfaceDesc { number: 1, endpoints: vec![ep(0x83, true, true), ep(0x04, true, false)] },
        InterfaceDesc { number: 2, endpoints: vec![ep(0x85, true, true), ep(0x06, true, false)] },
    ];
    assert_eq!(find_bulk_endpoints(&interfaces).unwrap(), (1, 0x83, 0x04));
}

#[test]
fn bulk_endpoints_later_endpoint_replaces_earlier() {
    let interfaces = vec![InterfaceDesc {
        number: 3,
        endpoints: vec![ep(0x81, true, true), ep(0x01, true, false), ep(0x82, true, true)],
    }];
    assert_eq!(find_bulk_endpoints(&interfaces).unwrap(), (3, 0x82, 0x01));
}

#[test]
fn bulk_endpoints_missing() {
    let interfaces = vec![InterfaceDesc { number: 0, endpoints: vec![ep(0x81, true, true)] }];
    assert!(matches!(find_bulk_endpoints(&interfaces), Err(BridgeError::NoBulkEndpoints)));
    assert!(matches!(find_bulk_endpoints(&Vec::new()), Err(BridgeError::NoBulkEndpoints)));
}

#[test]
fn configuration_selection() {
    assert!(!needs_set_configuration(Some(1)));
    assert!(needs_set_configuration(Some(2)));
    assert!(needs_set_configuration(None));
}

#[test]
fn hotplug_decisions() {
    assert!(matches!(
        attach_decision(HotplugOutcome::Connected { vendor_id: GOOGLE_VID, product_id: 0x2d01 }),
        AttachDecision::Accept
    ));
    assert!(matches!(
        attach_decision(HotplugOutcome::Connected { vendor_id: 0x04e8, product_id: 0x6860 }),
        AttachDecision::KeepWaiting
    ));
    assert!(matches!(attach_decision(HotplugOutcome::Other), AttachDecision::KeepWaiting));
    assert!(matches!(
        attach_decision(HotplugOutcome::WatcherEnded),
        AttachDecision::Fail(BridgeError::WatcherClosed)
    ));
    assert!(matches!(
        attach_decision(HotplugOutcome::TimedOut),
        AttachDecision::Fail(BridgeError::ReenumerateTimeout)
    ));
}

#[test]
fn touch_phases() {
    assert_eq!(touch_phase_action("down").unwrap(), touch_action::DOWN);
    assert_eq!(touch_phase_action("move").unwrap(), touch_action::MOVED);
    assert_eq!(touch_phase_action("up").unwrap(), touch_action::UP);
    assert_eq!(touch_phase_action("hover").unwrap_err(), "unknown touch phase: hover");
}

#[test]
fn resume_sends_home_press_release_then_focus() {
    let cmds = resume_commands();
    assert_eq!(cmds.len(), 3);
    assert!(matches!(&cmds[0], SessionCommand::Button { key_codes, down: true, longpress: false }
        if *key_codes == vec![button_key::HOME]));
    assert!(matches!(&cmds[1], SessionCommand::Button { key_codes, down: false, longpress: false }
        if *key_codes == vec![button_key::HOME]));
    assert!(matches!(&cmds[2], SessionCommand::RequestVideoFocus));
}

#[test]
fn work_mode_numbers() {
    assert_eq!(AndroidWorkMode::Off.value(), 0);
    assert_eq!(AndroidWorkMode::AndroidAuto.value(), 1);
    assert_eq!(AndroidWorkMode::CarLife.value(), 2);
    assert_eq!(AndroidWorkMode::AndroidMirror.value(), 3);
    assert_eq!(AndroidWorkMode::Search.value(), 7);
}

#[test]
fn audio_formats_per_channel() {
    assert_eq!(audio_format_for(ch::MEDIA_AUDIO), (48000, 2));
    assert_eq!(audio_format_for(ch::SPEECH_AUDIO), (16000, 1));
    assert_eq!(audio_format_for(ch::SYSTEM_AUDIO), (16000, 1));
}

#[test]
fn codec_mapping() {
    assert_eq!(to_gst_codec(VideoCodec::H264), GstVideoCodec::H264);
    assert_eq!(to_gst_codec(VideoCodec::H265), GstVideoCodec::H265);
    assert_eq!(to_gst_codec(VideoCodec::Vp9), GstVideoCodec::VP9);
    assert_eq!(to_gst_codec(VideoCodec::Av1), GstVideoCodec::AV1);
}

#[test]
fn pcm_little_endian_samples() {
    let data = vec![0x01, 0x00, 0xff, 0xff, 0x00, 0x80, 0xff, 0x7f, 0x42];
    assert_eq!(pcm_samples(&data), vec![1, -1, i16::MIN, i16::MAX]);
    assert!(pcm_samples(&vec![7]).is_empty());
}

fn frame(data: Vec<u8>) -> SessionEvent {
    SessionEvent::VideoFrame { channel_id: ch::VIDEO, codec: VideoCodec::H264, data, timestamp_ns: 0 }
}

fn geometry_event() -> SessionEvent {
    SessionEvent::VideoGeometry {
        crop_left: 0,
        crop_top: 60,
        vis_width: 1280,
        vis_height: 600,
        tier_width: 1280,
        tier_height: 720,
    }
}

#[test]
fn presenter_applies_early_geometry_at_creation() {
    let mut p = Presenter::new();
    assert!(p.on_event(geometry_event(), true).is_empty());
    let actions = p.on_event(frame(vec![1, 2, 3]), true);
    let g = Geometry { crop_left: 0, crop_top: 60, vis_width: 1280, vis_height: 600, tier_width: 1280, tier_height: 720 };
    assert_eq!(actions.len(), 4);
    assert!(matches!(actions[0], PresenterAction::CreateVideo { region: Some(r) } if r == g));
    assert!(matches!(&actions[1], PresenterAction::PushVideo { codec: GstVideoCodec::H264, data } if *data == vec![1, 2, 3]));
    assert!(matches!(actions[2], PresenterAction::ShowTouchWindow));
    assert!(matches!(actions[3], PresenterAction::KeepTouchOnTop));
    let later = p.on_event(frame(vec![4]), true);
    assert_eq!(later.len(), 1);
    assert!(matches!(&later[0], PresenterAction::PushVideo { .. }));
}

#[test]
fn presenter_skips_cluster_frames_and_missing_window() {
    let mut p = Presenter::new();
    let cluster = SessionEvent::VideoFrame { channel_id: 19, codec: VideoCodec::H264, data: vec![1], timestamp_ns: 0 };
    assert!(p.on_event(cluster, true).is_empty());
    assert!(p.on_event(frame(vec![1]), false).is_empty());
    assert!(!p.video_created);
}

#[test]
fn presenter_host_ui_hides_until_next_frame() {
    let mut p = Presenter::new();
    p.on_event(frame(vec![1]), true);
    let host = p.on_event(SessionEvent::HostUiRequested, true);
    assert_eq!(host.len(), 4);
    assert!(matches!(host[0], PresenterAction::CloseTouchWindow));
    assert!(matches!(host[1], PresenterAction::HideVideo));
    assert!(matches!(host[2], PresenterAction::FocusMain));
    assert!(matches!(host[3], PresenterAction::EmitStatus("host-ui")));
    let again = p.on_event(frame(vec![2]), true);
    assert_eq!(again.len(), 3);
    assert!(matches!(again[0], PresenterAction::ShowVideo));
    assert!(matches!(again[1], PresenterAction::ShowTouchWindow));
    assert!(matches!(&again[2], PresenterAction::PushVideo { data, .. } if *data == vec![2]));
}

#[test]
fn presenter_audio_sinks_follow_start_and_stop() {
    let mut p = Presenter::new();
    let started = p.on_event(SessionEvent::AudioStart { channel_id: ch::MEDIA_AUDIO }, true);
    assert!(matches!(started[0], PresenterAction::StartAudio { channel_id: 4, sample_rate: 48000, channels: 2 }));
    p.on_event(SessionEvent::AudioStart { channel_id: ch::MEDIA_AUDIO }, true);
    assert_eq!(p.audio, vec![ch::MEDIA_AUDIO]);
    let written = p.on_event(
        SessionEvent::AudioFrame { channel_id: ch::MEDIA_AUDIO, data: vec![0x02, 0x00], timestamp_ns: 0 },
        true,
    );
    assert!(matches!(&written[0], PresenterAction::WriteAudio { channel_id: 4, samples } if *samples == vec![2]));
    let ignored = p.on_event(
        SessionEvent::AudioFrame { channel_id: ch::SPEECH_AUDIO, data: vec![0x02, 0x00], timestamp_ns: 0 },
        true,
    );
    assert!(ignored.is_empty());
    let stopped = p.on_event(SessionEvent::AudioStop { channel_id: ch::MEDIA_AUDIO }, true);
    assert!(matches!(stopped[0], PresenterAction::StopAudio { channel_id: 4 }));
    assert!(p.audio.is_empty());
    assert!(p.on_event(SessionEvent::AudioStop { channel_id: ch::MEDIA_AUDIO }, true).is_empty());
}

#[test]
fn presenter_finish_releases_everything() {
    let mut p = Presenter::new();
    assert!(matches!(p.on_event(SessionEvent::Connected, true)[0], PresenterAction::EmitStatus("connected")));
    p.on_event(frame(vec![1]), true);
    p.on_event(SessionEvent::AudioStart { channel_id: ch::SPEECH_AUDIO }, true);
    p.on_event(SessionEvent::AudioStart { channel_id: ch::SYSTEM_AUDIO }, true);
    let end = p.finish();
    assert_eq!(end.len(), 5);
    assert!(matches!(end[0], PresenterAction::EmitStatus("disconnected")));
    assert!(matches!(end[1], PresenterAction::DisposeVideo));
    assert!(matches!(end[2], PresenterAction::StopAudio { channel_id: 5 }));
    assert!(matches!(end[3], PresenterAction::StopAudio { channel_id: 6 }));
    assert!(matches!(end[4], PresenterAction::CloseTouchWindow));
}
