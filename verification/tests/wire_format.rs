use avio::channels::input_channel::{build_button_report, build_rotary_report, build_touch_report, button_key, touch_action, TouchPointer};
use avio::channels::media::{read_be64, split_media, write_be64};
use avio::channels::media_info_channel::{self, MediaInfoEvent, MediaPlaybackState};
use avio::constants::{ch, ctrl_msg, frame_flags};
use avio::frame::{encode_frame, encode_raw_frame, FrameParser};
use avio::proto::{decode_fields, decode_varint_value, encode_varint, field_len_delim, field_varint, read_varint};
use avio::session::control_channel::{ControlChannel, ControlEvent};

#[test]
fn varint_known_encodings() {
    assert_eq!(encode_varint(0), vec![0x00]);
    assert_eq!(encode_varint(1), vec![0x01]);
    assert_eq!(encode_varint(127), vec![0x7f]);
    assert_eq!(encode_varint(128), vec![0x80, 0x01]);
    assert_eq!(encode_varint(300), vec![0xac, 0x02]);
}

#[test]
fn varint_negative_uses_64_bit_pattern() {
    let v = encode_varint(-1);
    assert_eq!(v.len(), 10);
    assert_eq!(v[9], 0x01);
    assert!(v[..9].iter().all(|b| *b == 0xff));
}

#[test]
fn varint_roundtrip_through_reader() {
    for value in [0i64, 1, 127, 128, 300, 65535, 1_000_000, 0x7fff_ffff] {
        let bytes = encode_varint(value);
        let (read, used) = read_varint(&bytes, 0);
        assert_eq!(read as i64, value);
        assert_eq!(used, bytes.len());
        assert_eq!(decode_varint_value(&bytes) as i64, value);
    }
}

#[test]
fn read_varint_at_offset() {
    let buf = [0x99, 0xac, 0x02, 0x07];
    assert_eq!(read_varint(&buf, 1), (300, 2));
}

#[test]
fn field_encodings() {
    assert_eq!(field_varint(1, 150), vec![0x08, 0x96, 0x01]);
    assert_eq!(field_len_delim(2, b"hi"), vec![0x12, 0x02, b'h', b'i']);
}

#[test]
fn decode_fields_reads_back_encoded_fields() {
    let mut payload = field_varint(1, 150);
    payload.extend(field_len_delim(2, b"hi"));
    payload.extend(field_varint(5, 3));
    let fields = decode_fields(&payload);
    assert_eq!(fields.len(), 3);
    assert_eq!((fields[0].field, fields[0].wire), (1, 0));
    assert_eq!(decode_varint_value(&fields[0].bytes), 150);
    assert_eq!((fields[1].field, fields[1].wire), (2, 2));
    assert_eq!(fields[1].bytes, b"hi".to_vec());
    assert_eq!((fields[2].field, fields[2].wire), (5, 0));
    assert_eq!(decode_varint_value(&fields[2].bytes), 3);
}

#[test]
fn decode_fields_stops_at_truncated_value() {
    let mut payload = field_varint(1, 7);
    payload.extend([0x12, 0x05, b'a']);
    let fields = decode_fields(&payload);
    assert_eq!(fields.len(), 1);
    assert_eq!(fields[0].field, 1);
}

#[test]
fn decode_fields_of_empty_payload() {
    assert!(decode_fields(&[]).is_empty());
}

#[test]
fn frame_header_layout() {
    let f = encode_frame(ch::VIDEO, frame_flags::ENC_SIGNAL, 0x8001, &[1, 2]);
    assert_eq!(f, vec![3, 0x0b, 0x00, 0x04, 0x80, 0x01, 1, 2]);
    let raw = encode_raw_frame(ch::CONTROL, frame_flags::PLAINTEXT, &[9, 8, 7]);
    assert_eq!(raw, vec![0, 0x03, 0x00, 0x03, 9, 8, 7]);
}

#[test]
fn parser_reads_back_encoded_frame() {
    let bytes = encode_frame(ch::CONTROL, frame_flags::PLAINTEXT, ctrl_msg::VERSION_RESPONSE, &[0, 1, 0, 7]);
    let mut parser = FrameParser::new();
    let frames = parser.push(&bytes);
    assert_eq!(frames.len(), 1);
    assert_eq!(frames[0].channel_id, ch::CONTROL);
    assert_eq!(frames[0].flags, frame_flags::PLAINTEXT);
    assert_eq!(frames[0].msg_id, ctrl_msg::VERSION_RESPONSE);
    assert_eq!(frames[0].payload, vec![0, 1, 0, 7]);
    assert_eq!(frames[0].raw_payload, vec![0x00, 0x02, 0, 1, 0, 7]);
}

#[test]
fn parser_waits_for_split_frame_then_yields_both() {
    let mut bytes = encode_frame(ch::CONTROL, frame_flags::PLAINTEXT, 1, &[5, 6, 7]);
    bytes.extend(encode_frame(ch::VIDEO, frame_flags::PLAINTEXT, 2, &[8]));
    let mut parser = FrameParser::new();
    assert!(parser.push(&bytes[..5]).is_empty());
    let frames = parser.push(&bytes[5..]);
    assert_eq!(frames.len(), 2);
    assert_eq!((frames[0].channel_id, frames[0].msg_id), (ch::CONTROL, 1));
    assert_eq!(frames[0].payload, vec![5, 6, 7]);
    assert_eq!((frames[1].channel_id, frames[1].msg_id), (ch::VIDEO, 2));
    assert_eq!(frames[1].payload, vec![8]);
}

#[test]
fn be64_roundtrip() {
    for v in [0u64, 1, 0x0102_0304_0506_0708, u64::MAX] {
        let bytes = write_be64(v);
        assert_eq!(bytes.len(), 8);
        assert_eq!(read_be64(&bytes), v);
    }
    assert_eq!(write_be64(0x0102_0304_0506_0708), vec![1, 2, 3, 4, 5, 6, 7, 8]);
}

#[test]
fn media_split_with_and_without_timestamp() {
    let mut stamped = write_be64(42);
    stamped.extend([0xaa, 0xbb]);
    assert_eq!(split_media(&stamped, true, 7), (42, vec![0xaa, 0xbb]));
    assert_eq!(split_media(&[0xaa, 0xbb], false, 7), (7, vec![0xaa, 0xbb]));
}

#[test]
fn control_ping_request_is_echoed() {
    let mut control = ControlChannel;
    let mut out = Vec::new();
    let payload = field_varint(1, 123_456);
    let ev = control.handle_message(ctrl_msg::PING_REQUEST, &payload, &mut out);
    assert!(matches!(ev, ControlEvent::Ignored));
    assert_eq!(out.len(), 1);
    assert_eq!(out[0].channel_id, ch::CONTROL);
    assert_eq!(out[0].msg_id, ctrl_msg::PING_RESPONSE);
    assert_eq!(out[0].data, field_varint(1, 123_456));
}

#[test]
fn control_audio_focus_answers_by_focus_type() {
    let mut control = ControlChannel;
    for (request, granted) in [(1u8, 1u8), (2, 2), (3, 2), (4, 3)] {
        let mut out = Vec::new();
        let ev = control.handle_message(ctrl_msg::AUDIO_FOCUS_REQUEST, &[0x08, request], &mut out);
        assert!(matches!(ev, ControlEvent::Ignored));
        assert_eq!(out.len(), 1);
        assert_eq!(out[0].msg_id, ctrl_msg::AUDIO_FOCUS_RESPONSE);
        assert_eq!(out[0].flags, frame_flags::ENC_SIGNAL);
        assert_eq!(out[0].data, vec![0x08, granted]);
    }
}

#[test]
fn control_service_discovery_request_is_handed_up() {
    let mut control = ControlChannel;
    let mut out = Vec::new();
    let body = field_len_delim(4, b"Pixel");
    let ev = control.handle_message(ctrl_msg::SERVICE_DISCOVERY_REQUEST, &body, &mut out);
    match ev {
        ControlEvent::ServiceDiscoveryRequest(raw) => assert_eq!(raw, body),
        _ => panic!("expected a service discovery request"),
    }
    assert!(out.is_empty());
}

#[test]
fn control_shutdown_reason_is_big_endian() {
    let mut control = ControlChannel;
    let mut out = Vec::new();
    let ev = control.handle_message(ctrl_msg::SHUTDOWN_REQUEST, &[0, 0, 0, 2], &mut out);
    assert!(matches!(ev, ControlEvent::Shutdown { reason: 2 }));
}

#[test]
fn touch_report_bytes() {
    let p = [TouchPointer { x: 100, y: 200, id: 0 }];
    let r = build_touch_report(touch_action::DOWN, &p, 0, 5).unwrap();
    assert_eq!(
        r,
        vec![0x08, 0x05, 0x1a, 0x0d, 0x0a, 0x07, 0x08, 0x64, 0x10, 0xc8, 0x01, 0x18, 0x00, 0x10, 0x00, 0x18, 0x00]
    );
    assert!(build_touch_report(touch_action::DOWN, &[], 0, 5).is_none());
}

#[test]
fn button_report_bytes() {
    let r = build_button_report(&[button_key::HOME], true, false, 7).unwrap();
    assert_eq!(r, vec![0x08, 0x07, 0x22, 0x0a, 0x0a, 0x08, 0x08, 0x03, 0x10, 0x01, 0x18, 0x00, 0x20, 0x00]);
    assert!(build_button_report(&[], true, false, 7).is_none());
}

#[test]
fn rotary_report_bytes() {
    let r = build_rotary_report(-1, 9);
    let mut expected = vec![0x08, 0x09, 0x32, 0x11, 0x0a, 0x0f, 0x08, 0x80, 0x80, 0x04, 0x10];
    expected.extend([0xff; 9]);
    expected.push(0x01);
    assert_eq!(r, expected);
}

#[test]
fn media_metadata_decoding() {
    let mut payload = field_len_delim(1, b"Song");
    payload.extend(field_len_delim(2, b"Artist"));
    payload.extend(field_len_delim(4, &[0xff, 0xd8]));
    payload.extend(field_varint(6, 215));
    payload.extend(field_varint(7, -1));
    match media_info_channel::handle_message(media_info_channel::MEDIA_PLAYBACK_METADATA, &payload) {
        MediaInfoEvent::Metadata(m) => {
            assert_eq!(m.song.as_deref(), Some("Song"));
            assert_eq!(m.artist.as_deref(), Some("Artist"));
            assert_eq!(m.album, None);
            assert_eq!(m.album_art, Some(vec![0xff, 0xd8]));
            assert_eq!(m.duration_seconds, Some(215));
            assert_eq!(m.rating, Some(-1));
        }
        _ => panic!("expected metadata"),
    }
}

#[test]
fn media_status_decoding() {
    let mut payload = field_varint(1, 2);
    payload.extend(field_len_delim(2, b"Spotify"));
    payload.extend(field_varint(3, 42));
    payload.extend(field_varint(4, 1));
    payload.extend(field_varint(5, 0));
    match media_info_channel::handle_message(media_info_channel::MEDIA_PLAYBACK_STATUS, &payload) {
        MediaInfoEvent::Status(s) => {
            assert_eq!(s.state, MediaPlaybackState::Playing);
            assert_eq!(s.media_source.as_deref(), Some("Spotify"));
            assert_eq!(s.playback_seconds, Some(42));
            assert_eq!(s.shuffle, Some(true));
            assert_eq!(s.repeat, Some(false));
            assert_eq!(s.repeat_one, None);
        }
        _ => panic!("expected status"),
    }
    assert!(matches!(media_info_channel::handle_message(0x8002, &payload), MediaInfoEvent::Ignored));
}
