use avio::video::{codec_probe_from, ProbeEntry};
use avio::video::control::CompositorMessages;
use avio::video::compositor::{
    compositor_launch, control_socket_name, detect_output_size, mode_size, parse_u32, should_bootstrap, DrmOutput,
};

#[test]
fn bootstrap_only_outside_and_not_opted_out() {
    assert!(should_bootstrap(None, None));
    assert!(should_bootstrap(Some("0"), None));
    assert!(!should_bootstrap(Some("1"), None));
    assert!(!should_bootstrap(None, Some("1")));
}

#[test]
fn decimal_parsing() {
    assert_eq!(parse_u32("1920"), Some(1920));
    assert_eq!(parse_u32("+5"), Some(5));
    assert_eq!(parse_u32("4294967295"), Some(u32::MAX));
    assert_eq!(parse_u32("4294967296"), None);
    assert_eq!(parse_u32(""), None);
    assert_eq!(parse_u32("+"), None);
    assert_eq!(parse_u32("12a"), None);
}

#[test]
fn mode_lines() {
    assert_eq!(mode_size("1920x1080"), Some((1920, 1080)));
    assert_eq!(mode_size("1920x1080i"), None);
    assert_eq!(mode_size("1920"), None);
    assert_eq!(mode_size("x480"), None);
}

#[test]
fn first_connected_output_size() {
    let outputs = vec![
        DrmOutput { status: "disconnected\n".to_string(), modes: Some("800x480\n".to_string()) },
        DrmOutput { status: "connected\n".to_string(), modes: None },
        DrmOutput { status: "connected\n".to_string(), modes: Some("1280x800\n1024x768\n".to_string()) },
        DrmOutput { status: "connected\n".to_string(), modes: Some("1920x1080\n".to_string()) },
    ];
    assert_eq!(detect_output_size(&outputs), Some((1280, 800)));
    assert_eq!(detect_output_size(&Vec::new()), None);
}

#[test]
fn control_socket_names() {
    assert_eq!(control_socket_name(42), "avio-compositor-42.sock");
}

#[test]
fn compositor_command_line() {
    let bare = compositor_launch("/usr/bin/avio", "/tmp/c.sock", "avio", false, Some((1280, 800)), None);
    assert_eq!(bare.args, vec!["-s", "AVIO_COMPOSITOR=1 GDK_BACKEND=wayland '/usr/bin/avio'"]);
    let env: Vec<(&str, &str)> = bare.env.iter().map(|(k, v)| (k.as_str(), v.as_str())).collect();
    assert_eq!(
        env,
        vec![
            ("AVIO_COMPOSITOR_CTRL", "/tmp/c.sock"),
            ("AVIO_SCREENS", "main"),
            ("AVIO_OUTPUT_APP_ID", "avio"),
            ("AVIO_OUTPUT_SIZE", "1280x800"),
        ]
    );
    let nested = compositor_launch("/usr/bin/avio", "/tmp/c.sock", "avio", true, Some((1280, 800)), Some("wayland-0"));
    let env: Vec<(&str, &str)> = nested.env.iter().map(|(k, v)| (k.as_str(), v.as_str())).collect();
    assert_eq!(env.len(), 4);
    assert_eq!(env[3], ("AVIO_HOST_WAYLAND_DISPLAY", "wayland-0"));
}

#[test]
fn control_messages_keep_latest_settings_and_send_one_shots_once() {
    let mut m = CompositorMessages::new();
    m.claim("android-auto");
    m.videocfg("android-auto", "main", 0, 60, 1280, 600, 1280, 720);
    m.videoshow("android-auto", true);
    m.videoshow("android-auto", false);
    m.set_backdrop("#102030");
    m.screen("cluster", true, Some((800, 480)));
    m.screen("dash", false, Some((0, 480)));
    m.restart();
    let first = m.flush();
    assert_eq!(
        first,
        vec![
            "claim android-auto\n",
            "restart\n",
            "videocfg android-auto main 0 60 1280 600 1280 720\n",
            "videoshow android-auto 0\n",
            "backdrop 16 32 48\n",
            "screen cluster 1 800 480\n",
            "screen dash 0\n",
        ]
    );
    let again = m.flush();
    assert_eq!(again, first[2..].to_vec());
}

#[test]
fn codec_probe_reads_the_reported_rows() {
    let rows = vec![
        ProbeEntry { codec: "h264".to_string(), hw: true, sw: true },
        ProbeEntry { codec: "vp9".to_string(), hw: false, sw: true },
        ProbeEntry { codec: "mpeg2".to_string(), hw: true, sw: true },
    ];
    let p = codec_probe_from(&rows);
    assert!(p.h264.hw && p.h264.sw);
    assert!(!p.h265.hw && !p.h265.sw);
    assert!(!p.vp9.hw && p.vp9.sw);
    assert!(!p.av1.hw && !p.av1.sw);
}
