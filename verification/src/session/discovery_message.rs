//! The ServiceDiscoveryResponse as it goes on the wire: the plan of `service_discovery`
//! written out as a protobuf message (fields in tag order, proto2 presence: every field the
//! head unit sets is written, optional ones only when set, repeated scalars unpacked).
//!
//! Field numbers follow the `aap_protobuf` schema of the Android Auto protocol:
//! ServiceDiscoveryResponse { channels = 1, make = 2, model = 3, year = 4, vehicle_id = 5,
//! driver_position = 6, head_unit_make = 7, head_unit_model = 8, head_unit_software_build = 9,
//! head_unit_software_version = 10, can_play_native_media_during_vr = 11, display_name = 14,
//! probe_for_support = 15, connection_configuration = 16, headunit_info = 17 } and
//! Service { id = 1, sensor_source_service = 2, media_sink_service = 3,
//! input_source_service = 4, media_source_service = 5, bluetooth_service = 6,
//! navigation_status_service = 8, media_playback_service = 9, phone_status_service = 10,
//! wifi_projection_service = 14 }.

use vstd::prelude::*;
use vstd::string::StringSliceAdditionalSpecFns;
use vstd::utf8::encode_utf8;
use crate::constants::{bt_pairing_method, ch, display_type, media_codec};
use crate::proto::{
    decode_fields_spec, field_len_delim, field_len_delim_bytes, field_varint, field_varint_bytes,
    len_delim_fields, lemma_decode_empty, lemma_decode_len_delim_field,
    lemma_decode_repeated_len_delim, lemma_decode_two_fields, lemma_decode_varint_field,
    lemma_repeated_len_delim_push, lemma_varint_form, lemma_varint_len_small,
    repeated_len_delim_bytes, tag_value, two32, varint_bytes, varint_field, ProtoFieldView,
};
use crate::session::config::{ConfigView, VideoCodec};
use crate::session::service_discovery::{
    advertised_sensors, cluster_sink, codec_media_type, main_sink, media_type_of, offered_codecs,
    sdr_spec, supported_keycodes, Insets, SdrView,
    ServiceDiscoveryResult, VideoSinkConfig, AUDIO_STREAM_GUIDANCE, AUDIO_STREAM_MEDIA,
    AUDIO_STREAM_SYSTEM, LOCATION_CHARACTERIZATION, NAV_IMAGE_COLOUR_DEPTH_BITS, NAV_IMAGE_SIZE,
    NAV_MINIMUM_INTERVAL_MS, NAV_TYPE, PING_HIGH_LATENCY_THRESHOLD_MS, PING_INTERVAL_MS,
    PING_TIMEOUT_MS, PING_TRACKED_COUNT,
};

verus! {

// ---------------------------------------------------------------------------------------
// Field shapes
// ---------------------------------------------------------------------------------------

/// An int32 or enum field (a negative value as its 64-bit two's complement).
pub open spec fn i32_field(n: u32, v: i32) -> Seq<u8> {
    field_varint_bytes(n, v as u64)
}

/// A uint32 field.
pub open spec fn u32_field(n: u32, v: u32) -> Seq<u8> {
    field_varint_bytes(n, v as u64)
}

/// A bool field: 1 or 0.
pub open spec fn bool_field(n: u32, b: bool) -> Seq<u8> {
    field_varint_bytes(n, if b { 1 } else { 0 })
}

/// A string field: its UTF-8 bytes, length-delimited.
pub open spec fn str_field(n: u32, s: Seq<char>) -> Seq<u8> {
    field_len_delim_bytes(n, encode_utf8(s))
}

/// A repeated scalar field, unpacked: one varint field per value, in order.
pub open spec fn repeated_varint_bytes(n: u32, vals: Seq<u64>) -> Seq<u8>
    decreases vals.len(),
{
    if vals.len() == 0 {
        Seq::empty()
    } else {
        repeated_varint_bytes(n, vals.drop_last()) + field_varint_bytes(n, vals.last())
    }
}

pub open spec fn i32s(v: Seq<i32>) -> Seq<u64> {
    v.map_values(|x: i32| x as u64)
}

pub open spec fn u32s(v: Seq<u32>) -> Seq<u64> {
    v.map_values(|x: u32| x as u64)
}

// ---------------------------------------------------------------------------------------
// The messages
// ---------------------------------------------------------------------------------------

/// Insets { top = 1, bottom = 2, left = 3, right = 4 }.
pub open spec fn insets_bytes(i: Insets) -> Seq<u8> {
    u32_field(1, i.top) + u32_field(2, i.bottom) + u32_field(3, i.left) + u32_field(4, i.right)
}

/// UiConfig { margins = 1, content_insets = 2, stable_content_insets = 3 }: the safe area is
/// both the content insets and the stable ones.
pub open spec fn ui_config_bytes(s: VideoSinkConfig) -> Seq<u8> {
    field_len_delim_bytes(1, insets_bytes(s.margins)) + field_len_delim_bytes(
        2,
        insets_bytes(s.content_insets),
    ) + field_len_delim_bytes(3, insets_bytes(s.content_insets))
}

/// VideoConfiguration { codec_resolution = 1, frame_rate = 2, width_margin = 3,
/// height_margin = 4, density = 5, pixel_aspect_ratio_e4 = 8, video_codec_type = 10,
/// ui_config = 11 } for one offered codec.
pub open spec fn video_config_bytes(s: VideoSinkConfig, codec: VideoCodec) -> Seq<u8> {
    i32_field(1, s.codec_resolution) + i32_field(2, s.frame_rate) + u32_field(3, s.width_margin)
        + u32_field(4, s.height_margin) + u32_field(5, s.density) + u32_field(
        8,
        s.pixel_aspect_ratio_e4,
    ) + i32_field(10, media_type_of(codec)) + field_len_delim_bytes(11, ui_config_bytes(s))
}

/// One VideoConfiguration per offered codec, in the order of the codec list.
pub open spec fn video_configs(s: VideoSinkConfig, codecs: Seq<VideoCodec>) -> Seq<Seq<u8>> {
    codecs.map_values(|c: VideoCodec| video_config_bytes(s, c))
}

/// MediaSinkService of a video display { available_type = 1 (H.264), video_configs = 4,
/// available_while_in_call = 5 }; the cluster display adds display_id = 6 (1) and
/// display_type = 7 (CLUSTER).
pub open spec fn video_sink_bytes(s: VideoSinkConfig, codecs: Seq<VideoCodec>, cluster: bool) -> Seq<
    u8,
> {
    i32_field(1, media_codec::VIDEO_H264_BP) + repeated_len_delim_bytes(4, video_configs(s, codecs))
        + bool_field(5, true) + if cluster {
        u32_field(6, 1) + i32_field(7, display_type::CLUSTER)
    } else {
        Seq::empty()
    }
}

/// AudioConfiguration { sampling_rate = 1, number_of_bits = 2, number_of_channels = 3 }.
pub open spec fn audio_config_bytes(rate: u32, bits: u32, channels: u32) -> Seq<u8> {
    u32_field(1, rate) + u32_field(2, bits) + u32_field(3, channels)
}

/// MediaSinkService of a PCM audio sink { available_type = 1, audio_type = 2,
/// audio_configs = 3 (16-bit), available_while_in_call = 5 }.
pub open spec fn audio_sink_bytes(stream: i32, rate: u32, channels: u32) -> Seq<u8> {
    i32_field(1, media_codec::AUDIO_PCM) + i32_field(2, stream) + field_len_delim_bytes(
        3,
        audio_config_bytes(rate, 16, channels),
    ) + bool_field(5, true)
}

/// MediaSourceService of the microphone { available_type = 1, audio_config = 2 (16 kHz,
/// 16-bit, mono), available_while_in_call = 3 }.
pub open spec fn mic_source_bytes() -> Seq<u8> {
    i32_field(1, media_codec::AUDIO_PCM) + field_len_delim_bytes(2, audio_config_bytes(16000, 16, 1))
        + bool_field(3, true)
}

/// Sensor { sensor_type = 1 }.
pub open spec fn sensor_bytes(t: i32) -> Seq<u8> {
    i32_field(1, t)
}

pub open spec fn advertised_sensor_types() -> Seq<i32> {
    seq![13i32, 1, 10, 3, 8, 7, 6, 5, 11, 16, 17, 18, 12, 19, 20, 2, 21, 4, 23, 25, 26]
}

pub open spec fn supported_keycode_list() -> Seq<u32> {
    seq![
        3u32, 4, 5, 6, 7, 8, 9, 10, 11, 12, 13, 14, 15, 16, 17, 18, 19, 20, 21, 22, 23, 24, 25, 26,
        66, 79, 82, 84, 85, 86, 87, 88, 89, 90, 91, 111, 126, 127, 164, 219, 231, 260, 261, 262,
        263, 65536,
    ]
}

/// SensorSourceService { sensors = 1, location_characterization = 2,
/// supported_fuel_types = 3, supported_ev_connector_types = 4 }.
pub open spec fn sensor_source_bytes(fuel: Seq<i32>, ev: Seq<i32>) -> Seq<u8> {
    repeated_len_delim_bytes(1, advertised_sensor_types().map_values(|t: i32| sensor_bytes(t)))
        + u32_field(2, LOCATION_CHARACTERIZATION as u32) + repeated_varint_bytes(3, i32s(fuel))
        + repeated_varint_bytes(4, i32s(ev))
}

/// InputSourceService { keycodes_supported = 1, touchscreen = 2 { width = 1, height = 2 } }.
pub open spec fn input_source_bytes(w: i32, h: i32) -> Seq<u8> {
    repeated_varint_bytes(1, u32s(supported_keycode_list())) + field_len_delim_bytes(
        2,
        i32_field(1, w) + i32_field(2, h),
    )
}

/// InputSourceService of the cluster display { display_id = 5 (1) }.
pub open spec fn cluster_input_bytes() -> Seq<u8> {
    u32_field(5, 1)
}

/// BluetoothService { car_address = 1, supported_pairing_methods = 2 (PIN, numeric
/// comparison) }.
pub open spec fn bluetooth_bytes(car_address: Seq<char>) -> Seq<u8> {
    str_field(1, car_address) + i32_field(2, bt_pairing_method::PIN) + i32_field(
        2,
        bt_pairing_method::NUMERIC_COMPARISON,
    )
}

/// NavigationStatusService { minimum_interval_ms = 1, type = 2, image_options = 3 { width = 1,
/// height = 2, colour_depth_bits = 3 } }.
pub open spec fn navigation_bytes() -> Seq<u8> {
    i32_field(1, NAV_MINIMUM_INTERVAL_MS) + i32_field(2, NAV_TYPE) + field_len_delim_bytes(
        3,
        i32_field(1, NAV_IMAGE_SIZE) + i32_field(2, NAV_IMAGE_SIZE) + i32_field(
            3,
            NAV_IMAGE_COLOUR_DEPTH_BITS,
        ),
    )
}

/// WifiProjectionService { car_wifi_bssid = 1 }.
pub open spec fn wifi_bytes(bssid: Seq<char>) -> Seq<u8> {
    str_field(1, bssid)
}

/// Service { id = 1, <the service's own field> = kind }.
pub open spec fn service_bytes(id: u8, kind: u32, body: Seq<u8>) -> Seq<u8> {
    i32_field(1, id as i32) + field_len_delim_bytes(kind, body)
}

/// The display channels: video, then the cluster's video and input when there is a cluster.
pub open spec fn display_channels(p: SdrView) -> Seq<Seq<u8>> {
    seq![service_bytes(ch::VIDEO, 3, video_sink_bytes(p.video, p.video_codec_by_index, false))]
        + match p.cluster {
        Some(cs) => seq![
            service_bytes(
                ch::CLUSTER_VIDEO,
                3,
                video_sink_bytes(cs, p.cluster_codec_by_index, true),
            ),
            service_bytes(ch::CLUSTER_INPUT, 4, cluster_input_bytes()),
        ],
        None => Seq::empty(),
    }
}

/// Media and speech audio, unless audio output is disabled.
pub open spec fn output_audio_channels(p: SdrView) -> Seq<Seq<u8>> {
    if p.audio_output {
        seq![
            service_bytes(ch::MEDIA_AUDIO, 3, audio_sink_bytes(AUDIO_STREAM_MEDIA, 48000, 2)),
            service_bytes(ch::SPEECH_AUDIO, 3, audio_sink_bytes(AUDIO_STREAM_GUIDANCE, 16000, 1)),
        ]
    } else {
        Seq::empty()
    }
}

/// The channels every head unit offers: system audio, microphone, sensors, input, Bluetooth,
/// navigation status, media playback status and phone status.
pub open spec fn fixed_channels(p: SdrView) -> Seq<Seq<u8>> {
    seq![
        service_bytes(ch::SYSTEM_AUDIO, 3, audio_sink_bytes(AUDIO_STREAM_SYSTEM, 16000, 1)),
        service_bytes(ch::MIC_INPUT, 5, mic_source_bytes()),
        service_bytes(ch::SENSOR, 2, sensor_source_bytes(p.fuel_types, p.ev_connector_types)),
        service_bytes(ch::INPUT, 4, input_source_bytes(p.touch_width, p.touch_height)),
        service_bytes(ch::BLUETOOTH, 6, bluetooth_bytes(p.car_address)),
        service_bytes(ch::NAVIGATION, 8, navigation_bytes()),
        service_bytes(ch::MEDIA_INFO, 9, Seq::empty()),
        service_bytes(ch::PHONE_STATUS, 10, Seq::empty()),
    ]
}

/// WiFi projection, when a BSSID is configured.
pub open spec fn wifi_channels(p: SdrView) -> Seq<Seq<u8>> {
    match p.wifi_bssid {
        Some(b) => seq![service_bytes(ch::WIFI, 14, wifi_bytes(b))],
        None => Seq::empty(),
    }
}

/// Every advertised channel, in the order the head unit lists them.
pub open spec fn sdr_channels(p: SdrView) -> Seq<Seq<u8>> {
    display_channels(p) + output_audio_channels(p) + fixed_channels(p) + wifi_channels(p)
}

/// PingConfiguration { timeout_ms = 1, interval_ms = 2, high_latency_threshold_ms = 3,
/// tracked_ping_count = 4 }, inside ConnectionConfiguration { ping_configuration = 1 }.
pub open spec fn connection_config_bytes() -> Seq<u8> {
    field_len_delim_bytes(
        1,
        u32_field(1, PING_TIMEOUT_MS) + u32_field(2, PING_INTERVAL_MS) + u32_field(
            3,
            PING_HIGH_LATENCY_THRESHOLD_MS,
        ) + u32_field(4, PING_TRACKED_COUNT),
    )
}

/// HeadUnitInfo { make = 1, model = 2, year = 3, vehicle_id = 4, head_unit_make = 5,
/// head_unit_model = 6, head_unit_software_build = 7, head_unit_software_version = 8 }.
pub open spec fn headunit_info_bytes() -> Seq<u8> {
    str_field(1, "AVIO"@) + str_field(2, "Universal"@) + str_field(3, "2026"@) + str_field(
        4,
        "avio-001"@,
    ) + str_field(5, "AVIO"@) + str_field(6, "AVIO Head Unit"@) + str_field(7, "1"@) + str_field(
        8,
        "1.0"@,
    )
}

/// make = 2, model = 3, year = 4, vehicle_id = 5.
pub open spec fn vehicle_fields() -> Seq<u8> {
    str_field(2, "AVIO"@) + str_field(3, "Universal"@) + str_field(4, "2026"@) + str_field(
        5,
        "avio-001"@,
    )
}

/// head_unit_make = 7, head_unit_model = 8, head_unit_software_build = 9,
/// head_unit_software_version = 10, can_play_native_media_during_vr = 11.
pub open spec fn head_unit_fields() -> Seq<u8> {
    str_field(7, "AVIO"@) + str_field(8, "AVIO Head Unit"@) + str_field(9, "1"@) + str_field(
        10,
        "1.0"@,
    ) + bool_field(11, true)
}

/// The identification fields after the channel list.
pub open spec fn sdr_tail(p: SdrView) -> Seq<u8> {
    vehicle_fields() + i32_field(6, p.driver_position) + head_unit_fields() + str_field(
        14,
        p.display_name,
    ) + bool_field(15, false) + field_len_delim_bytes(16, connection_config_bytes())
        + field_len_delim_bytes(17, headunit_info_bytes())
}

/// The encoded ServiceDiscoveryResponse for a plan.
pub open spec fn sdr_message(p: SdrView) -> Seq<u8> {
    repeated_len_delim_bytes(1, sdr_channels(p)) + sdr_tail(p)
}

// ---------------------------------------------------------------------------------------
// What the phone reads back
// ---------------------------------------------------------------------------------------

/// The advertised services as (channel id, service field, service body), in order.
pub open spec fn sdr_services(p: SdrView) -> Seq<(u8, u32, Seq<u8>)> {
    seq![(ch::VIDEO, 3u32, video_sink_bytes(p.video, p.video_codec_by_index, false))]
        + match p.cluster {
        Some(cs) => seq![
            (ch::CLUSTER_VIDEO, 3u32, video_sink_bytes(cs, p.cluster_codec_by_index, true)),
            (ch::CLUSTER_INPUT, 4u32, cluster_input_bytes()),
        ],
        None => Seq::empty(),
    } + if p.audio_output {
        seq![
            (ch::MEDIA_AUDIO, 3u32, audio_sink_bytes(AUDIO_STREAM_MEDIA, 48000, 2)),
            (ch::SPEECH_AUDIO, 3u32, audio_sink_bytes(AUDIO_STREAM_GUIDANCE, 16000, 1)),
        ]
    } else {
        Seq::empty()
    } + seq![
        (ch::SYSTEM_AUDIO, 3u32, audio_sink_bytes(AUDIO_STREAM_SYSTEM, 16000, 1)),
        (ch::MIC_INPUT, 5u32, mic_source_bytes()),
        (ch::SENSOR, 2u32, sensor_source_bytes(p.fuel_types, p.ev_connector_types)),
        (ch::INPUT, 4u32, input_source_bytes(p.touch_width, p.touch_height)),
        (ch::BLUETOOTH, 6u32, bluetooth_bytes(p.car_address)),
        (ch::NAVIGATION, 8u32, navigation_bytes()),
        (ch::MEDIA_INFO, 9u32, Seq::empty()),
        (ch::PHONE_STATUS, 10u32, Seq::empty()),
    ] + match p.wifi_bssid {
        Some(b) => seq![(ch::WIFI, 14u32, wifi_bytes(b))],
        None => Seq::empty(),
    }
}

/// The advertised channel ids, in order: VIDEO; CLUSTER_VIDEO and CLUSTER_INPUT with a
/// cluster; MEDIA_AUDIO and SPEECH_AUDIO unless audio output is disabled; SYSTEM_AUDIO,
/// MIC_INPUT, SENSOR, INPUT, BLUETOOTH, NAVIGATION, MEDIA_INFO, PHONE_STATUS; WIFI with a
/// BSSID.
pub open spec fn sdr_channel_ids(p: SdrView) -> Seq<u8> {
    sdr_services(p).map_values(|t: (u8, u32, Seq<u8>)| t.0)
}

#[verifier::spinoff_prover]
#[verifier::rlimit(40)]
proof fn lemma_channels_are_services(p: SdrView)
    ensures
        sdr_channels(p) == sdr_services(p).map_values(
            |t: (u8, u32, Seq<u8>)| service_bytes(t.0, t.1, t.2),
        ),
{
    let f = |t: (u8, u32, Seq<u8>)| service_bytes(t.0, t.1, t.2);
    let d = seq![(ch::VIDEO, 3u32, video_sink_bytes(p.video, p.video_codec_by_index, false))]
        + match p.cluster {
        Some(cs) => seq![
            (ch::CLUSTER_VIDEO, 3u32, video_sink_bytes(cs, p.cluster_codec_by_index, true)),
            (ch::CLUSTER_INPUT, 4u32, cluster_input_bytes()),
        ],
        None => Seq::empty(),
    };
    let a = if p.audio_output {
        seq![
            (ch::MEDIA_AUDIO, 3u32, audio_sink_bytes(AUDIO_STREAM_MEDIA, 48000, 2)),
            (ch::SPEECH_AUDIO, 3u32, audio_sink_bytes(AUDIO_STREAM_GUIDANCE, 16000, 1)),
        ]
    } else {
        Seq::empty()
    };
    let x = seq![
        (ch::SYSTEM_AUDIO, 3u32, audio_sink_bytes(AUDIO_STREAM_SYSTEM, 16000, 1)),
        (ch::MIC_INPUT, 5u32, mic_source_bytes()),
        (ch::SENSOR, 2u32, sensor_source_bytes(p.fuel_types, p.ev_connector_types)),
        (ch::INPUT, 4u32, input_source_bytes(p.touch_width, p.touch_height)),
        (ch::BLUETOOTH, 6u32, bluetooth_bytes(p.car_address)),
        (ch::NAVIGATION, 8u32, navigation_bytes()),
        (ch::MEDIA_INFO, 9u32, Seq::empty()),
        (ch::PHONE_STATUS, 10u32, Seq::empty()),
    ];
    let w = match p.wifi_bssid {
        Some(b) => seq![(ch::WIFI, 14u32, wifi_bytes(b))],
        None => Seq::empty(),
    };
    assert(display_channels(p) =~= d.map_values(f));
    assert(output_audio_channels(p) =~= a.map_values(f));
    assert(fixed_channels(p) =~= x.map_values(f));
    assert(wifi_channels(p) =~= w.map_values(f));
    assert(sdr_services(p) == d + a + x + w);
    assert((d + a + x + w).map_values(f) =~= d.map_values(f) + a.map_values(f) + x.map_values(f)
        + w.map_values(f));
}

proof fn lemma_repeated_part_len(n: u32, items: Seq<Seq<u8>>, i: int)
    requires
        0 <= i < items.len(),
    ensures
        items[i].len() < repeated_len_delim_bytes(n, items).len(),
    decreases items.len(),
{
    if i > 0 {
        lemma_repeated_part_len(n, items.drop_first(), i - 1);
        assert(items.drop_first()[i - 1] == items[i]);
    }
}

#[verifier::spinoff_prover]
#[verifier::rlimit(40)]
proof fn lemma_service_kinds_small(p: SdrView)
    ensures
        forall|i: int| 0 <= i < sdr_services(p).len() ==> (#[trigger] sdr_services(p)[i]).1 < 16,
{
    let d = seq![(ch::VIDEO, 3u32, video_sink_bytes(p.video, p.video_codec_by_index, false))]
        + match p.cluster {
        Some(cs) => seq![
            (ch::CLUSTER_VIDEO, 3u32, video_sink_bytes(cs, p.cluster_codec_by_index, true)),
            (ch::CLUSTER_INPUT, 4u32, cluster_input_bytes()),
        ],
        None => Seq::empty(),
    };
    let a = if p.audio_output {
        seq![
            (ch::MEDIA_AUDIO, 3u32, audio_sink_bytes(AUDIO_STREAM_MEDIA, 48000, 2)),
            (ch::SPEECH_AUDIO, 3u32, audio_sink_bytes(AUDIO_STREAM_GUIDANCE, 16000, 1)),
        ]
    } else {
        Seq::empty()
    };
    let x = seq![
        (ch::SYSTEM_AUDIO, 3u32, audio_sink_bytes(AUDIO_STREAM_SYSTEM, 16000, 1)),
        (ch::MIC_INPUT, 5u32, mic_source_bytes()),
        (ch::SENSOR, 2u32, sensor_source_bytes(p.fuel_types, p.ev_connector_types)),
        (ch::INPUT, 4u32, input_source_bytes(p.touch_width, p.touch_height)),
        (ch::BLUETOOTH, 6u32, bluetooth_bytes(p.car_address)),
        (ch::NAVIGATION, 8u32, navigation_bytes()),
        (ch::MEDIA_INFO, 9u32, Seq::empty()),
        (ch::PHONE_STATUS, 10u32, Seq::empty()),
    ];
    let w = match p.wifi_bssid {
        Some(b) => seq![(ch::WIFI, 14u32, wifi_bytes(b))],
        None => Seq::empty(),
    };
    assert(forall|j: int| 0 <= j < d.len() ==> (#[trigger] d[j]).1 < 16);
    assert(forall|j: int| 0 <= j < a.len() ==> (#[trigger] a[j]).1 < 16);
    assert(forall|j: int| 0 <= j < x.len() ==> (#[trigger] x[j]).1 < 16);
    assert(forall|j: int| 0 <= j < w.len() ==> (#[trigger] w[j]).1 < 16);
    let all = d + a + x + w;
    assert(sdr_services(p) == all);
    assert forall|i: int| 0 <= i < all.len() implies (#[trigger] all[i]).1 < 16 by {
        if i < d.len() {
            assert(all[i] == d[i]);
        } else if i < d.len() + a.len() {
            assert(all[i] == a[i - d.len()]);
        } else if i < d.len() + a.len() + x.len() {
            assert(all[i] == x[i - d.len() - a.len()]);
        } else {
            assert(all[i] == w[i - d.len() - a.len() - x.len()]);
        }
    }
}

/// A Service decodes to its channel id, then its service field.
#[verifier::spinoff_prover]
#[verifier::rlimit(40)]
pub proof fn lemma_service_decodes(id: u8, kind: u32, body: Seq<u8>)
    requires
        kind < 0x2000_0000,
        body.len() < two32(),
    ensures
        decode_fields_spec(service_bytes(id, kind, body)) == seq![
            varint_field(1, (id as i32) as u64),
            ProtoFieldView { field: kind, wire: 2, bytes: body },
        ],
{
    lemma_decode_two_fields(1, (id as i32) as u64, kind, body);
}

#[verifier::spinoff_prover]
#[verifier::rlimit(40)]
proof fn lemma_services_decode(svcs: Seq<(u8, u32, Seq<u8>)>, chans: Seq<Seq<u8>>, tail: Seq<u8>)
    requires
        chans == svcs.map_values(|t: (u8, u32, Seq<u8>)| service_bytes(t.0, t.1, t.2)),
        forall|i: int| 0 <= i < svcs.len() ==> (#[trigger] svcs[i]).1 < 16,
        (repeated_len_delim_bytes(1, chans) + tail).len() < two32(),
    ensures
        decode_fields_spec(repeated_len_delim_bytes(1, chans) + tail).take(chans.len() as int)
            == len_delim_fields(1, chans),
        forall|i: int|
            0 <= i < chans.len() ==> decode_fields_spec(#[trigger] chans[i]) == seq![
                varint_field(1, (svcs[i].0 as i32) as u64),
                ProtoFieldView { field: svcs[i].1, wire: 2, bytes: svcs[i].2 },
            ],
{
    assert forall|i: int| 0 <= i < chans.len() implies (#[trigger] chans[i]).len() < two32() by {
        lemma_repeated_part_len(1, chans, i);
    }
    lemma_decode_repeated_len_delim(1, chans, tail);
    assert(decode_fields_spec(repeated_len_delim_bytes(1, chans) + tail).take(chans.len() as int)
        =~= len_delim_fields(1, chans));
    assert forall|i: int| 0 <= i < chans.len() implies decode_fields_spec(#[trigger] chans[i])
        == seq![
        varint_field(1, (svcs[i].0 as i32) as u64),
        ProtoFieldView { field: svcs[i].1, wire: 2, bytes: svcs[i].2 },
    ] by {
        let t = svcs[i];
        assert(chans[i] == service_bytes(t.0, t.1, t.2));
        assert(t.2.len() < chans[i].len());
        lemma_service_decodes(t.0, t.1, t.2);
    }
}

/// The message the phone receives lists every advertised service as a `channels` field, in
/// order, ahead of the identification fields; each service decodes to its channel id, then
/// the length-delimited body of its service field.
#[verifier::spinoff_prover]
#[verifier::rlimit(40)]
pub proof fn lemma_sdr_decodes_to_channels(p: SdrView)
    requires
        sdr_message(p).len() < two32(),
    ensures
        decode_fields_spec(sdr_message(p)).take(sdr_channels(p).len() as int) == len_delim_fields(
            1,
            sdr_channels(p),
        ),
        sdr_channels(p).len() == sdr_channel_ids(p).len(),
        forall|i: int|
            0 <= i < sdr_channels(p).len() ==> decode_fields_spec(#[trigger] sdr_channels(p)[i])
                == seq![
                varint_field(1, (sdr_channel_ids(p)[i] as i32) as u64),
                ProtoFieldView {
                    field: sdr_services(p)[i].1,
                    wire: 2,
                    bytes: sdr_services(p)[i].2,
                },
            ],
{
    lemma_channels_are_services(p);
    lemma_service_kinds_small(p);
    lemma_services_decode(sdr_services(p), sdr_channels(p), sdr_tail(p));
}

/// The fields a VideoConfiguration decodes to.
pub open spec fn video_config_fields(s: VideoSinkConfig, codec: VideoCodec) -> Seq<ProtoFieldView> {
    seq![
        varint_field(1, s.codec_resolution as u64),
        varint_field(2, s.frame_rate as u64),
        varint_field(3, s.width_margin as u64),
        varint_field(4, s.height_margin as u64),
        varint_field(5, s.density as u64),
        varint_field(8, s.pixel_aspect_ratio_e4 as u64),
        varint_field(10, media_type_of(codec) as u64),
        ProtoFieldView { field: 11, wire: 2, bytes: ui_config_bytes(s) },
    ]
}

proof fn lemma_small_field_len(n: u32, v: u64)
    requires
        n < 16,
    ensures
        field_varint_bytes(n, v).len() <= 11,
{
    lemma_varint_form(v);
    assert(tag_value(n, 0) < 128);
    assert(varint_bytes(tag_value(n, 0)).len() == 1);
}

#[verifier::spinoff_prover]
#[verifier::rlimit(40)]
proof fn lemma_ui_config_len(s: VideoSinkConfig)
    ensures
        ui_config_bytes(s).len() < 200,
{
    lemma_small_field_len(1, s.margins.top as u64);
    lemma_small_field_len(2, s.margins.bottom as u64);
    lemma_small_field_len(3, s.margins.left as u64);
    lemma_small_field_len(4, s.margins.right as u64);
    lemma_small_field_len(1, s.content_insets.top as u64);
    lemma_small_field_len(2, s.content_insets.bottom as u64);
    lemma_small_field_len(3, s.content_insets.left as u64);
    lemma_small_field_len(4, s.content_insets.right as u64);
    let m = insets_bytes(s.margins);
    let c = insets_bytes(s.content_insets);
    assert(m.len() <= 44 && c.len() <= 44);
    assert(varint_bytes(tag_value(1, 2)).len() == 1);
    assert(varint_bytes(tag_value(2, 2)).len() == 1);
    assert(varint_bytes(tag_value(3, 2)).len() == 1);
    assert(varint_bytes(m.len()).len() == 1);
    assert(varint_bytes(c.len()).len() == 1);
}

/// The varint fields of a VideoConfiguration, in order.
pub open spec fn video_config_varints(s: VideoSinkConfig, codec: VideoCodec) -> Seq<(u32, u64)> {
    seq![
        (1u32, s.codec_resolution as u64),
        (2u32, s.frame_rate as u64),
        (3u32, s.width_margin as u64),
        (4u32, s.height_margin as u64),
        (5u32, s.density as u64),
        (8u32, s.pixel_aspect_ratio_e4 as u64),
        (10u32, media_type_of(codec) as u64),
    ]
}

#[verifier::spinoff_prover]
#[verifier::rlimit(40)]
proof fn lemma_video_config_layout(s: VideoSinkConfig, codec: VideoCodec)
    ensures
        video_config_bytes(s, codec) == varint_fields_bytes(video_config_varints(s, codec))
            + field_len_delim_bytes(11, ui_config_bytes(s)),
{
    reveal_with_fuel(varint_fields_bytes, 8);
    assert(video_config_bytes(s, codec) =~= varint_fields_bytes(video_config_varints(s, codec))
        + field_len_delim_bytes(11, ui_config_bytes(s)));
}

#[verifier::spinoff_prover]
#[verifier::rlimit(40)]
proof fn lemma_ui_field_decodes(s: VideoSinkConfig)
    ensures
        decode_fields_spec(field_len_delim_bytes(11, ui_config_bytes(s))) == seq![
            ProtoFieldView { field: 11, wire: 2, bytes: ui_config_bytes(s) },
        ],
{
    let ui = ui_config_bytes(s);
    let f11 = field_len_delim_bytes(11, ui);
    let last = ProtoFieldView { field: 11, wire: 2, bytes: ui };
    lemma_ui_config_len(s);
    lemma_decode_empty();
    lemma_decode_len_delim_field(11, ui, Seq::empty());
    assert(f11 + Seq::<u8>::empty() =~= f11);
    assert(seq![last] + Seq::<ProtoFieldView>::empty() =~= seq![last]);
}

/// A VideoConfiguration decodes to its resolution, frame rate, margins, density, pixel aspect
/// ratio, the media type of its codec, and its UI config, in that order.
#[verifier::spinoff_prover]
#[verifier::rlimit(40)]
pub proof fn lemma_video_config_decodes(s: VideoSinkConfig, codec: VideoCodec)
    ensures
        decode_fields_spec(video_config_bytes(s, codec)) == video_config_fields(s, codec),
{
    let ns = video_config_varints(s, codec);
    let f11 = field_len_delim_bytes(11, ui_config_bytes(s));
    lemma_video_config_layout(s, codec);
    lemma_ui_field_decodes(s);
    lemma_decode_varint_prefix(ns, f11);
    assert(ns.map_values(|t: (u32, u64)| varint_field(t.0, t.1)) + seq![
        ProtoFieldView { field: 11, wire: 2, bytes: ui_config_bytes(s) },
    ] =~= video_config_fields(s, codec));
}

/// Varint fields one after the other.
pub open spec fn varint_fields_bytes(ns: Seq<(u32, u64)>) -> Seq<u8>
    decreases ns.len(),
{
    if ns.len() == 0 {
        Seq::empty()
    } else {
        field_varint_bytes(ns[0].0, ns[0].1) + varint_fields_bytes(ns.drop_first())
    }
}

#[verifier::spinoff_prover]
#[verifier::rlimit(40)]
proof fn lemma_decode_varint_prefix(ns: Seq<(u32, u64)>, rest: Seq<u8>)
    requires
        forall|i: int| 0 <= i < ns.len() ==> (#[trigger] ns[i]).0 < 0x2000_0000,
    ensures
        decode_fields_spec(varint_fields_bytes(ns) + rest) == ns.map_values(
            |t: (u32, u64)| varint_field(t.0, t.1),
        ) + decode_fields_spec(rest),
    decreases ns.len(),
{
    let f = |t: (u32, u64)| varint_field(t.0, t.1);
    if ns.len() == 0 {
        assert(varint_fields_bytes(ns) + rest =~= rest);
        assert(ns.map_values(f) + decode_fields_spec(rest) =~= decode_fields_spec(rest));
    } else {
        let tl = ns.drop_first();
        assert forall|i: int| 0 <= i < tl.len() implies (#[trigger] tl[i]).0 < 0x2000_0000 by {
            assert(tl[i] == ns[i + 1]);
        }
        lemma_decode_varint_prefix(tl, rest);
        let head = field_varint_bytes(ns[0].0, ns[0].1);
        assert(varint_fields_bytes(ns) + rest =~= head + (varint_fields_bytes(tl) + rest));
        lemma_decode_varint_field(ns[0].0, ns[0].1, varint_fields_bytes(tl) + rest);
        assert(ns.map_values(f) =~= seq![f(ns[0])] + tl.map_values(f));
        assert(ns.map_values(f) + decode_fields_spec(rest) =~= seq![f(ns[0])] + (tl.map_values(f)
            + decode_fields_spec(rest)));
    }
}

/// A video sink decodes to its available type (H.264), one video configuration per offered
/// codec in order, available-while-in-call, and for the cluster its display id and type.
#[verifier::spinoff_prover]
#[verifier::rlimit(40)]
pub proof fn lemma_video_sink_decodes(s: VideoSinkConfig, codecs: Seq<VideoCodec>, cluster: bool)
    ensures
        decode_fields_spec(video_sink_bytes(s, codecs, cluster)) == seq![
            varint_field(1, media_codec::VIDEO_H264_BP as u64),
        ] + len_delim_fields(4, video_configs(s, codecs)) + seq![varint_field(5, 1)] + if cluster {
            seq![varint_field(6, 1), varint_field(7, display_type::CLUSTER as u64)]
        } else {
            Seq::empty()
        },
        forall|i: int|
            0 <= i < codecs.len() ==> decode_fields_spec(#[trigger] video_configs(s, codecs)[i])
                == video_config_fields(s, codecs[i]),
{
    let cfgs = video_configs(s, codecs);
    assert forall|i: int| 0 <= i < codecs.len() implies decode_fields_spec(
        #[trigger] video_configs(s, codecs)[i],
    ) == video_config_fields(s, codecs[i]) by {
        lemma_video_config_decodes(s, codecs[i]);
    }
    assert forall|i: int| 0 <= i < cfgs.len() implies (#[trigger] cfgs[i]).len() < two32() by {
        lemma_ui_config_len(s);
        lemma_small_field_len(1, s.codec_resolution as u64);
        lemma_small_field_len(2, s.frame_rate as u64);
        lemma_small_field_len(3, s.width_margin as u64);
        lemma_small_field_len(4, s.height_margin as u64);
        lemma_small_field_len(5, s.density as u64);
        lemma_small_field_len(8, s.pixel_aspect_ratio_e4 as u64);
        lemma_small_field_len(10, media_type_of(codecs[i]) as u64);
        let ui = ui_config_bytes(s);
        assert(varint_bytes(tag_value(11, 2)).len() == 1);
        assert(varint_bytes(ui.len()).len() <= 2) by {
            lemma_varint_len_small(ui.len());
            assert(ui.len() < 16384);
            lemma_varint_form(ui.len() as u64);
            assert(varint_bytes(ui.len()).len() <= 2) by {
                let v = ui.len();
                if v >= 128 {
                    assert(varint_bytes(v) =~= seq![((v % 128) + 128) as u8] + varint_bytes(v / 128));
                    assert(v / 128 < 128);
                }
            }
        }
    }
    let tail = bool_field(5, true) + if cluster {
        u32_field(6, 1) + i32_field(7, display_type::CLUSTER)
    } else {
        Seq::empty()
    };
    let tail_fields = seq![varint_field(5, 1)] + if cluster {
        seq![varint_field(6, 1), varint_field(7, display_type::CLUSTER as u64)]
    } else {
        Seq::<ProtoFieldView>::empty()
    };
    assert(decode_fields_spec(tail) == tail_fields) by {
        lemma_decode_empty();
        if cluster {
            let c7 = i32_field(7, display_type::CLUSTER);
            lemma_decode_varint_field(7, display_type::CLUSTER as u64, Seq::empty());
            assert(c7 + Seq::<u8>::empty() =~= c7);
            lemma_decode_varint_field(6, 1, c7);
            let c67 = u32_field(6, 1) + c7;
            lemma_decode_varint_field(5, 1, c67);
            assert(tail =~= bool_field(5, true) + c67);
            assert(decode_fields_spec(tail) =~= tail_fields);
        } else {
            lemma_decode_varint_field(5, 1, Seq::empty());
            assert(tail =~= bool_field(5, true) + Seq::<u8>::empty());
            assert(decode_fields_spec(tail) =~= tail_fields);
        }
    }
    lemma_decode_repeated_len_delim(4, cfgs, tail);
    let head = i32_field(1, media_codec::VIDEO_H264_BP);
    lemma_decode_varint_field(1, media_codec::VIDEO_H264_BP as u64, repeated_len_delim_bytes(4, cfgs) + tail);
    assert(video_sink_bytes(s, codecs, cluster) =~= head + (repeated_len_delim_bytes(4, cfgs) + tail));
    assert(decode_fields_spec(video_sink_bytes(s, codecs, cluster)) =~= seq![
        varint_field(1, media_codec::VIDEO_H264_BP as u64),
    ] + len_delim_fields(4, cfgs) + tail_fields);
}

/// In the message for a configuration, the first service is the main display's video sink
/// (channel VIDEO) and, with a cluster, the second is the cluster's (CLUSTER_VIDEO); each
/// carries one VideoConfiguration per offered codec, in order, which decodes to the display's
/// resolution tier and frame rate and that codec's media type.
#[verifier::spinoff_prover]
#[verifier::rlimit(40)]
pub proof fn lemma_sdr_video_sinks(c: ConfigView)
    ensures
        ({
            let p = sdr_spec(c);
            let codecs = offered_codecs(c);
            &&& sdr_channel_ids(p)[0] == ch::VIDEO
            &&& sdr_services(p)[0].2 == video_sink_bytes(main_sink(c), codecs, false)
            &&& forall|i: int|
                0 <= i < codecs.len() ==> decode_fields_spec(
                    #[trigger] video_configs(main_sink(c), codecs)[i],
                ) == video_config_fields(main_sink(c), codecs[i])
            &&& c.cluster_enabled ==> {
                &&& sdr_channel_ids(p)[1] == ch::CLUSTER_VIDEO
                &&& sdr_services(p)[1].2 == video_sink_bytes(cluster_sink(c), codecs, true)
                &&& forall|i: int|
                    0 <= i < codecs.len() ==> decode_fields_spec(
                        #[trigger] video_configs(cluster_sink(c), codecs)[i],
                    ) == video_config_fields(cluster_sink(c), codecs[i])
            }
        }),
{
    let p = sdr_spec(c);
    let codecs = offered_codecs(c);
    lemma_video_sink_decodes(main_sink(c), codecs, false);
    lemma_video_sink_decodes(cluster_sink(c), codecs, true);
    assert(sdr_services(p)[0] == (ch::VIDEO, 3u32, video_sink_bytes(main_sink(c), codecs, false)));
    if c.cluster_enabled {
        assert(sdr_services(p)[1] == (
            ch::CLUSTER_VIDEO,
            3u32,
            video_sink_bytes(cluster_sink(c), codecs, true),
        ));
    }
}

// ---------------------------------------------------------------------------------------
// Writing fields
// ---------------------------------------------------------------------------------------

fn put_i32(out: &mut Vec<u8>, n: u32, v: i32)
    ensures
        final(out)@ == old(out)@ + i32_field(n, v),
{
    let mut b = field_varint(n, v as i64);
    out.append(&mut b);
}

fn put_u32(out: &mut Vec<u8>, n: u32, v: u32)
    ensures
        final(out)@ == old(out)@ + u32_field(n, v),
{
    let mut b = field_varint(n, v as i64);
    out.append(&mut b);
}

fn put_bool(out: &mut Vec<u8>, n: u32, v: bool)
    ensures
        final(out)@ == old(out)@ + bool_field(n, v),
{
    let mut b = field_varint(n, if v { 1 } else { 0 });
    out.append(&mut b);
}

fn put_str(out: &mut Vec<u8>, n: u32, s: &str)
    ensures
        final(out)@ == old(out)@ + str_field(n, s@),
{
    let mut b = field_len_delim(n, s.as_bytes());
    out.append(&mut b);
}

fn put_msg(out: &mut Vec<u8>, n: u32, body: &[u8])
    ensures
        final(out)@ == old(out)@ + field_len_delim_bytes(n, body@),
{
    let mut b = field_len_delim(n, body);
    out.append(&mut b);
}

fn put_repeated_i32(out: &mut Vec<u8>, n: u32, vals: &Vec<i32>)
    ensures
        final(out)@ == old(out)@ + repeated_varint_bytes(n, i32s(vals@)),
{
    let ghost o0 = out@;
    let mut i: usize = 0;
    proof {
        assert(i32s(vals@.take(0)) =~= Seq::<u64>::empty());
        assert(o0 + Seq::<u8>::empty() =~= o0);
    }
    while i < vals.len()
        invariant
            i <= vals.len(),
            out@ == o0 + repeated_varint_bytes(n, i32s(vals@.take(i as int))),
        decreases vals.len() - i,
    {
        let ghost before = i32s(vals@.take(i as int));
        put_i32(out, n, vals[i]);
        proof {
            let after = i32s(vals@.take(i + 1));
            assert(after =~= before.push(vals@[i as int] as u64));
            assert(after.drop_last() =~= before);
            assert(out@ =~= o0 + repeated_varint_bytes(n, after));
        }
        i = i + 1;
    }
    proof {
        assert(vals@.take(i as int) =~= vals@);
    }
}

fn put_repeated_u32(out: &mut Vec<u8>, n: u32, vals: &Vec<u32>)
    ensures
        final(out)@ == old(out)@ + repeated_varint_bytes(n, u32s(vals@)),
{
    let ghost o0 = out@;
    let mut i: usize = 0;
    proof {
        assert(u32s(vals@.take(0)) =~= Seq::<u64>::empty());
        assert(o0 + Seq::<u8>::empty() =~= o0);
    }
    while i < vals.len()
        invariant
            i <= vals.len(),
            out@ == o0 + repeated_varint_bytes(n, u32s(vals@.take(i as int))),
        decreases vals.len() - i,
    {
        let ghost before = u32s(vals@.take(i as int));
        put_u32(out, n, vals[i]);
        proof {
            let after = u32s(vals@.take(i + 1));
            assert(after =~= before.push(vals@[i as int] as u64));
            assert(after.drop_last() =~= before);
            assert(out@ =~= o0 + repeated_varint_bytes(n, after));
        }
        i = i + 1;
    }
    proof {
        assert(vals@.take(i as int) =~= vals@);
    }
}

// ---------------------------------------------------------------------------------------
// Writing the messages
// ---------------------------------------------------------------------------------------

fn insets(i: &Insets) -> (out: Vec<u8>)
    ensures
        out@ == insets_bytes(*i),
{
    let mut out: Vec<u8> = Vec::new();
    put_u32(&mut out, 1, i.top);
    put_u32(&mut out, 2, i.bottom);
    put_u32(&mut out, 3, i.left);
    put_u32(&mut out, 4, i.right);
    proof {
        assert(out@ =~= insets_bytes(*i));
    }
    out
}

fn video_config(s: &VideoSinkConfig, codec: VideoCodec) -> (out: Vec<u8>)
    ensures
        out@ == video_config_bytes(*s, codec),
{
    let mut ui: Vec<u8> = Vec::new();
    put_msg(&mut ui, 1, insets(&s.margins).as_slice());
    let content = insets(&s.content_insets);
    put_msg(&mut ui, 2, content.as_slice());
    put_msg(&mut ui, 3, content.as_slice());
    proof {
        assert(ui@ =~= ui_config_bytes(*s));
    }
    let mut out: Vec<u8> = Vec::new();
    put_i32(&mut out, 1, s.codec_resolution);
    put_i32(&mut out, 2, s.frame_rate);
    put_u32(&mut out, 3, s.width_margin);
    put_u32(&mut out, 4, s.height_margin);
    put_u32(&mut out, 5, s.density);
    put_u32(&mut out, 8, s.pixel_aspect_ratio_e4);
    put_i32(&mut out, 10, codec_media_type(codec));
    put_msg(&mut out, 11, ui.as_slice());
    proof {
        assert(out@ =~= video_config_bytes(*s, codec));
    }
    out
}

fn video_sink(s: &VideoSinkConfig, codecs: &Vec<VideoCodec>, cluster: bool) -> (out: Vec<u8>)
    ensures
        out@ == video_sink_bytes(*s, codecs@, cluster),
{
    let mut out: Vec<u8> = Vec::new();
    put_i32(&mut out, 1, media_codec::VIDEO_H264_BP);
    let ghost head = out@;
    let mut i: usize = 0;
    proof {
        assert(video_configs(*s, codecs@.take(0)) =~= Seq::<Seq<u8>>::empty());
        assert(out@ =~= head + repeated_len_delim_bytes(4, video_configs(*s, codecs@.take(0))));
    }
    while i < codecs.len()
        invariant
            i <= codecs.len(),
            head == i32_field(1, media_codec::VIDEO_H264_BP),
            out@ == head + repeated_len_delim_bytes(4, video_configs(*s, codecs@.take(i as int))),
        decreases codecs.len() - i,
    {
        let ghost before = video_configs(*s, codecs@.take(i as int));
        let c = video_config(s, codecs[i]);
        put_msg(&mut out, 4, c.as_slice());
        proof {
            lemma_repeated_len_delim_push(4, before, c@);
            assert(video_configs(*s, codecs@.take(i + 1)) =~= before.push(c@));
            assert(out@ =~= head + repeated_len_delim_bytes(4, video_configs(*s, codecs@.take(i + 1))));
        }
        i = i + 1;
    }
    proof {
        assert(codecs@.take(i as int) =~= codecs@);
    }
    put_bool(&mut out, 5, true);
    if cluster {
        put_u32(&mut out, 6, 1);
        put_i32(&mut out, 7, display_type::CLUSTER);
    }
    proof {
        assert(out@ =~= video_sink_bytes(*s, codecs@, cluster));
    }
    out
}

fn audio_config(rate: u32, bits: u32, channels: u32) -> (out: Vec<u8>)
    ensures
        out@ == audio_config_bytes(rate, bits, channels),
{
    let mut out: Vec<u8> = Vec::new();
    put_u32(&mut out, 1, rate);
    put_u32(&mut out, 2, bits);
    put_u32(&mut out, 3, channels);
    proof {
        assert(out@ =~= audio_config_bytes(rate, bits, channels));
    }
    out
}

fn audio_sink(stream: i32, rate: u32, channels: u32) -> (out: Vec<u8>)
    ensures
        out@ == audio_sink_bytes(stream, rate, channels),
{
    let mut out: Vec<u8> = Vec::new();
    put_i32(&mut out, 1, media_codec::AUDIO_PCM);
    put_i32(&mut out, 2, stream);
    put_msg(&mut out, 3, audio_config(rate, 16, channels).as_slice());
    put_bool(&mut out, 5, true);
    proof {
        assert(out@ =~= audio_sink_bytes(stream, rate, channels));
    }
    out
}

fn mic_source() -> (out: Vec<u8>)
    ensures
        out@ == mic_source_bytes(),
{
    let mut out: Vec<u8> = Vec::new();
    put_i32(&mut out, 1, media_codec::AUDIO_PCM);
    put_msg(&mut out, 2, audio_config(16000, 16, 1).as_slice());
    put_bool(&mut out, 3, true);
    proof {
        assert(out@ =~= mic_source_bytes());
    }
    out
}

fn sensor_source(fuel: &Vec<i32>, ev: &Vec<i32>) -> (out: Vec<u8>)
    ensures
        out@ == sensor_source_bytes(fuel@, ev@),
{
    let sensors = advertised_sensors();
    let ghost items = sensors@.map_values(|t: i32| sensor_bytes(t));
    let mut out: Vec<u8> = Vec::new();
    let mut i: usize = 0;
    proof {
        assert(sensors@.take(0).map_values(|t: i32| sensor_bytes(t)) =~= Seq::<Seq<u8>>::empty());
    }
    while i < sensors.len()
        invariant
            i <= sensors.len(),
            sensors@ == advertised_sensor_types(),
            out@ == repeated_len_delim_bytes(
                1,
                sensors@.take(i as int).map_values(|t: i32| sensor_bytes(t)),
            ),
        decreases sensors.len() - i,
    {
        let ghost before = sensors@.take(i as int).map_values(|t: i32| sensor_bytes(t));
        let mut one: Vec<u8> = Vec::new();
        put_i32(&mut one, 1, sensors[i]);
        proof {
            assert(one@ =~= sensor_bytes(sensors@[i as int]));
        }
        put_msg(&mut out, 1, one.as_slice());
        proof {
            lemma_repeated_len_delim_push(1, before, one@);
            assert(sensors@.take(i + 1).map_values(|t: i32| sensor_bytes(t)) =~= before.push(one@));
        }
        i = i + 1;
    }
    proof {
        assert(sensors@.take(i as int) =~= sensors@);
    }
    put_u32(&mut out, 2, LOCATION_CHARACTERIZATION as u32);
    put_repeated_i32(&mut out, 3, fuel);
    put_repeated_i32(&mut out, 4, ev);
    proof {
        assert(out@ =~= sensor_source_bytes(fuel@, ev@));
    }
    out
}

fn input_source(w: i32, h: i32) -> (out: Vec<u8>)
    ensures
        out@ == input_source_bytes(w, h),
{
    let mut out: Vec<u8> = Vec::new();
    put_repeated_u32(&mut out, 1, &supported_keycodes());
    let mut touch: Vec<u8> = Vec::new();
    put_i32(&mut touch, 1, w);
    put_i32(&mut touch, 2, h);
    put_msg(&mut out, 2, touch.as_slice());
    proof {
        assert(out@ =~= input_source_bytes(w, h));
    }
    out
}

fn navigation() -> (out: Vec<u8>)
    ensures
        out@ == navigation_bytes(),
{
    let mut image: Vec<u8> = Vec::new();
    put_i32(&mut image, 1, NAV_IMAGE_SIZE);
    put_i32(&mut image, 2, NAV_IMAGE_SIZE);
    put_i32(&mut image, 3, NAV_IMAGE_COLOUR_DEPTH_BITS);
    let mut out: Vec<u8> = Vec::new();
    put_i32(&mut out, 1, NAV_MINIMUM_INTERVAL_MS);
    put_i32(&mut out, 2, NAV_TYPE);
    put_msg(&mut out, 3, image.as_slice());
    proof {
        assert(out@ =~= navigation_bytes());
    }
    out
}

/// Appends one Service to the channel list written so far.
fn put_service(
    out: &mut Vec<u8>,
    Ghost(listed): Ghost<Seq<Seq<u8>>>,
    id: u8,
    kind: u32,
    body: &[u8],
) -> (now_listed: Ghost<Seq<Seq<u8>>>)
    requires
        old(out)@ == repeated_len_delim_bytes(1, listed),
    ensures
        now_listed@ == listed.push(service_bytes(id, kind, body@)),
        final(out)@ == repeated_len_delim_bytes(1, now_listed@),
{
    let mut svc: Vec<u8> = Vec::new();
    put_i32(&mut svc, 1, id as i32);
    put_msg(&mut svc, kind, body);
    proof {
        assert(svc@ =~= service_bytes(id, kind, body@));
        lemma_repeated_len_delim_push(1, listed, svc@);
    }
    put_msg(out, 1, svc.as_slice());
    Ghost(listed.push(svc@))
}

fn put_display_channels(out: &mut Vec<u8>, r: &ServiceDiscoveryResult) -> (listed: Ghost<
    Seq<Seq<u8>>,
>)
    requires
        old(out)@ == Seq::<u8>::empty(),
    ensures
        listed@ == display_channels(r@),
        final(out)@ == repeated_len_delim_bytes(1, listed@),
{
    proof {
        assert(repeated_len_delim_bytes(1, Seq::<Seq<u8>>::empty()) == Seq::<u8>::empty());
    }
    let listed = put_service(
        out,
        Ghost(Seq::empty()),
        ch::VIDEO,
        3,
        video_sink(&r.video, &r.video_codec_by_index, false).as_slice(),
    );
    match &r.cluster {
        Some(cs) => {
            let l = put_service(
                out,
                listed,
                ch::CLUSTER_VIDEO,
                3,
                video_sink(cs, &r.cluster_codec_by_index, true).as_slice(),
            );
            let mut input: Vec<u8> = Vec::new();
            put_u32(&mut input, 5, 1);
            let l = put_service(out, l, ch::CLUSTER_INPUT, 4, input.as_slice());
            proof {
                assert(l@ =~= display_channels(r@));
            }
            l
        },
        None => {
            proof {
                assert(listed@ =~= display_channels(r@));
            }
            listed
        },
    }
}

fn put_other_channels(
    out: &mut Vec<u8>,
    Ghost(listed): Ghost<Seq<Seq<u8>>>,
    r: &ServiceDiscoveryResult,
) -> (now_listed: Ghost<Seq<Seq<u8>>>)
    requires
        old(out)@ == repeated_len_delim_bytes(1, listed),
    ensures
        now_listed@ == listed + output_audio_channels(r@) + fixed_channels(r@) + wifi_channels(r@),
        final(out)@ == repeated_len_delim_bytes(1, now_listed@),
{
    let l0 = Ghost(listed);
    let l1 = if r.audio_output {
        let l = put_service(
            out,
            l0,
            ch::MEDIA_AUDIO,
            3,
            audio_sink(AUDIO_STREAM_MEDIA, 48000, 2).as_slice(),
        );
        put_service(out, l, ch::SPEECH_AUDIO, 3, audio_sink(AUDIO_STREAM_GUIDANCE, 16000, 1).as_slice())
    } else {
        l0
    };
    proof {
        assert(l1@ =~= listed + output_audio_channels(r@));
    }
    let l = put_service(out, l1, ch::SYSTEM_AUDIO, 3, audio_sink(AUDIO_STREAM_SYSTEM, 16000, 1).as_slice());
    let l = put_service(out, l, ch::MIC_INPUT, 5, mic_source().as_slice());
    let l = put_service(
        out,
        l,
        ch::SENSOR,
        2,
        sensor_source(&r.fuel_types, &r.ev_connector_types).as_slice(),
    );
    let l = put_service(out, l, ch::INPUT, 4, input_source(r.touch_width, r.touch_height).as_slice());
    let mut bt: Vec<u8> = Vec::new();
    put_str(&mut bt, 1, r.car_address.as_str());
    put_i32(&mut bt, 2, bt_pairing_method::PIN);
    put_i32(&mut bt, 2, bt_pairing_method::NUMERIC_COMPARISON);
    proof {
        assert(bt@ =~= bluetooth_bytes(r@.car_address));
    }
    let l = put_service(out, l, ch::BLUETOOTH, 6, bt.as_slice());
    let l = put_service(out, l, ch::NAVIGATION, 8, navigation().as_slice());
    let nothing: Vec<u8> = Vec::new();
    let l = put_service(out, l, ch::MEDIA_INFO, 9, nothing.as_slice());
    let l2 = put_service(out, l, ch::PHONE_STATUS, 10, nothing.as_slice());
    proof {
        assert(l2@ =~= l1@ + fixed_channels(r@));
    }
    let l3 = match &r.wifi_bssid {
        Some(b) => {
            let mut wifi: Vec<u8> = Vec::new();
            put_str(&mut wifi, 1, b.as_str());
            put_service(out, l2, ch::WIFI, 14, wifi.as_slice())
        },
        None => l2,
    };
    proof {
        assert(l3@ =~= l2@ + wifi_channels(r@));
    }
    l3
}

fn vehicle() -> (out: Vec<u8>)
    ensures
        out@ == vehicle_fields(),
{
    let mut out: Vec<u8> = Vec::new();
    put_str(&mut out, 2, "AVIO");
    put_str(&mut out, 3, "Universal");
    put_str(&mut out, 4, "2026");
    put_str(&mut out, 5, "avio-001");
    proof {
        assert(out@ =~= vehicle_fields());
    }
    out
}

fn head_unit() -> (out: Vec<u8>)
    ensures
        out@ == head_unit_fields(),
{
    let mut out: Vec<u8> = Vec::new();
    put_str(&mut out, 7, "AVIO");
    put_str(&mut out, 8, "AVIO Head Unit");
    put_str(&mut out, 9, "1");
    put_str(&mut out, 10, "1.0");
    put_bool(&mut out, 11, true);
    proof {
        assert(out@ =~= head_unit_fields());
    }
    out
}

fn connection_config() -> (out: Vec<u8>)
    ensures
        out@ == connection_config_bytes(),
{
    let mut ping: Vec<u8> = Vec::new();
    put_u32(&mut ping, 1, PING_TIMEOUT_MS);
    put_u32(&mut ping, 2, PING_INTERVAL_MS);
    put_u32(&mut ping, 3, PING_HIGH_LATENCY_THRESHOLD_MS);
    put_u32(&mut ping, 4, PING_TRACKED_COUNT);
    let mut out: Vec<u8> = Vec::new();
    put_msg(&mut out, 1, ping.as_slice());
    proof {
        assert(out@ =~= connection_config_bytes());
    }
    out
}

fn headunit_info() -> (out: Vec<u8>)
    ensures
        out@ == headunit_info_bytes(),
{
    let mut out: Vec<u8> = Vec::new();
    put_str(&mut out, 1, "AVIO");
    put_str(&mut out, 2, "Universal");
    put_str(&mut out, 3, "2026");
    put_str(&mut out, 4, "avio-001");
    put_str(&mut out, 5, "AVIO");
    put_str(&mut out, 6, "AVIO Head Unit");
    put_str(&mut out, 7, "1");
    put_str(&mut out, 8, "1.0");
    proof {
        assert(out@ =~= headunit_info_bytes());
    }
    out
}

fn put_tail(out: &mut Vec<u8>, r: &ServiceDiscoveryResult)
    ensures
        final(out)@ == old(out)@ + sdr_tail(r@),
{
    let ghost o0 = out@;
    let mut v = vehicle();
    out.append(&mut v);
    put_i32(out, 6, r.driver_position);
    let mut h = head_unit();
    out.append(&mut h);
    put_str(out, 14, r.display_name.as_str());
    put_bool(out, 15, false);
    put_msg(out, 16, connection_config().as_slice());
    put_msg(out, 17, headunit_info().as_slice());
    proof {
        assert(out@ =~= o0 + sdr_tail(r@));
    }
}

/// Encodes the ServiceDiscoveryResponse for the plan `r` (see `sdr_message`).
pub fn encode_service_discovery_response(r: &ServiceDiscoveryResult) -> (buf: Vec<u8>)
    ensures
        buf@ == sdr_message(r@),
{
    let mut out: Vec<u8> = Vec::new();
    let listed = put_display_channels(&mut out, r);
    let listed = put_other_channels(&mut out, listed, r);
    proof {
        assert(listed@ =~= sdr_channels(r@));
    }
    put_tail(&mut out, r);
    out
}

} // verus!
