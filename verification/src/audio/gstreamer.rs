//! GStreamer element and environment choices per platform.

use vstd::prelude::*;
use crate::text::text_eq;

verus! {

/// The platform the pipelines run on.
#[derive(Clone, Copy, PartialEq, Eq, Structural, Debug)]
pub enum HostOs {
    MacOs,
    Linux,
    Windows,
    Other,
}

pub open spec fn host_os_spec(name: Seq<char>) -> HostOs {
    if name == "macos"@ {
        HostOs::MacOs
    } else if name == "linux"@ {
        HostOs::Linux
    } else if name == "windows"@ {
        HostOs::Windows
    } else {
        HostOs::Other
    }
}


/// The platform named as `std::env::consts::OS` names it.
pub fn host_os(name: &str) -> (os: HostOs)
    ensures
        os == host_os_spec(name@),
{
    if text_eq(name, "macos") {
        HostOs::MacOs
    } else if text_eq(name, "linux") {
        HostOs::Linux
    } else if text_eq(name, "windows") {
        HostOs::Windows
    } else {
        HostOs::Other
    }
}

/// The bundled GStreamer directory for an OS and architecture (`std::env::consts` names).
pub fn platform_dir(os: &str, arch: &str) -> (d: Option<&'static str>)
    ensures
        d matches Some(s) ==> (os@ == "macos"@ && arch@ == "aarch64"@ && s@ == "macos-arm64"@)
            || (os@ == "linux"@ && arch@ == "aarch64"@ && s@ == "linux-arm64"@) || (os@
            == "linux"@ && arch@ == "x86_64"@ && s@ == "linux-x64"@) || (os@ == "windows"@
            && arch@ == "x86_64"@ && s@ == "windows-x64"@),
        d is None ==> !((os@ == "macos"@ && arch@ == "aarch64"@) || (os@ == "linux"@ && arch@
            == "aarch64"@) || (os@ == "linux"@ && arch@ == "x86_64"@) || (os@ == "windows"@
            && arch@ == "x86_64"@)),
{
    if text_eq(os, "macos") && text_eq(arch, "aarch64") {
        Some("macos-arm64")
    } else if text_eq(os, "linux") && text_eq(arch, "aarch64") {
        Some("linux-arm64")
    } else if text_eq(os, "linux") && text_eq(arch, "x86_64") {
        Some("linux-x64")
    } else if text_eq(os, "windows") && text_eq(arch, "x86_64") {
        Some("windows-x64")
    } else {
        None
    }
}

#[derive(Clone, Copy, PartialEq, Eq, Structural, Debug)]
pub enum VideoCodec {
    H264,
    H265,
}

pub fn video_parse_element(codec: VideoCodec) -> (e: &'static str)
    ensures
        e@ == match codec {
            VideoCodec::H264 => "h264parse"@,
            VideoCodec::H265 => "h265parse"@,
        },
{
    match codec {
        VideoCodec::H264 => "h264parse",
        VideoCodec::H265 => "h265parse",
    }
}

/// The hardware decoder: VideoToolbox on macOS, D3D11 on Windows, V4L2 stateless elsewhere.
pub fn video_decoder_element(os: HostOs, codec: VideoCodec) -> (e: &'static str)
    ensures
        e@ == if os == HostOs::MacOs {
            "vtdec"@
        } else if os == HostOs::Windows {
            match codec {
                VideoCodec::H264 => "d3d11h264dec"@,
                VideoCodec::H265 => "d3d11h265dec"@,
            }
        } else {
            match codec {
                VideoCodec::H264 => "v4l2slh264dec"@,
                VideoCodec::H265 => "v4l2slh265dec"@,
            }
        },
{
    if os == HostOs::MacOs {
        "vtdec"
    } else if os == HostOs::Windows {
        match codec {
            VideoCodec::H264 => "d3d11h264dec",
            VideoCodec::H265 => "d3d11h265dec",
        }
    } else {
        match codec {
            VideoCodec::H264 => "v4l2slh264dec",
            VideoCodec::H265 => "v4l2slh265dec",
        }
    }
}

pub fn video_sink_element(os: HostOs) -> (e: &'static str)
    ensures
        e@ == if os == HostOs::Windows {
            "d3d11videosink"@
        } else {
            "glimagesink"@
        },
{
    if os == HostOs::Windows {
        "d3d11videosink"
    } else {
        "glimagesink"
    }
}

pub open spec fn audio_sink_spec(os: HostOs) -> Seq<char> {
    match os {
        HostOs::MacOs => "osxaudiosink"@,
        HostOs::Linux => "pulsesink"@,
        HostOs::Windows => "wasapisink"@,
        HostOs::Other => "autoaudiosink"@,
    }
}

pub fn audio_sink_element(os: HostOs) -> (e: &'static str)
    ensures
        e@ == audio_sink_spec(os),
{
    match os {
        HostOs::MacOs => "osxaudiosink",
        HostOs::Linux => "pulsesink",
        HostOs::Windows => "wasapisink",
        HostOs::Other => "autoaudiosink",
    }
}

pub open spec fn audio_source_spec(os: HostOs) -> Seq<char> {
    match os {
        HostOs::MacOs => "osxaudiosrc"@,
        HostOs::Linux => "pulsesrc"@,
        HostOs::Windows => "wasapisrc"@,
        HostOs::Other => "autoaudiosrc"@,
    }
}

pub fn audio_source_element(os: HostOs) -> (e: &'static str)
    ensures
        e@ == audio_source_spec(os),
{
    match os {
        HostOs::MacOs => "osxaudiosrc",
        HostOs::Linux => "pulsesrc",
        HostOs::Windows => "wasapisrc",
        HostOs::Other => "autoaudiosrc",
    }
}

/// The sink property that selects a device.
pub open spec fn device_prop_spec(os: HostOs) -> Seq<char> {
    match os {
        HostOs::MacOs => "unique-id"@,
        HostOs::Windows => "device-name"@,
        _ => "device"@,
    }
}

pub fn audio_device_prop(os: HostOs) -> (p: &'static str)
    ensures
        p@ == device_prop_spec(os),
{
    match os {
        HostOs::MacOs => "unique-id",
        HostOs::Windows => "device-name",
        _ => "device",
    }
}

/// Bundled-GStreamer locations the environment points at.
pub struct GstPaths {
    pub plugin_path: String,
    pub plugin_scanner: String,
    pub registry: String,
    pub lib_dir: String,
    pub bin_dir: String,
}

fn pair(k: &str, v: &str) -> (p: (String, String))
    ensures
        p.0@ == k@ && p.1@ == v@,
{
    (k.to_owned(), v.to_owned())
}

pub open spec fn env_view(env: Seq<(String, String)>) -> Seq<(Seq<char>, Seq<char>)> {
    env.map_values(|e: (String, String)| (e.0@, e.1@))
}

/// Plugin path and scanner under one variable suffix, the system plugin path blanked first
/// inside an AppImage.
pub open spec fn plugin_vars(
    suffix_plain: bool,
    in_appimage: bool,
    paths: GstPaths,
) -> Seq<(Seq<char>, Seq<char>)> {
    (if in_appimage {
        seq![
            (if suffix_plain {
                "GST_PLUGIN_SYSTEM_PATH"@
            } else {
                "GST_PLUGIN_SYSTEM_PATH_1_0"@
            }, ""@),
        ]
    } else {
        Seq::empty()
    }) + seq![
        (if suffix_plain {
            "GST_PLUGIN_PATH"@
        } else {
            "GST_PLUGIN_PATH_1_0"@
        }, paths.plugin_path@),
        (if suffix_plain {
            "GST_PLUGIN_SCANNER"@
        } else {
            "GST_PLUGIN_SCANNER_1_0"@
        }, paths.plugin_scanner@),
    ]
}

pub open spec fn gst_env_spec(os: HostOs, in_appimage: bool, paths: GstPaths) -> Seq<
    (Seq<char>, Seq<char>),
> {
    plugin_vars(true, in_appimage, paths) + plugin_vars(false, in_appimage, paths) + seq![
        ("GST_REGISTRY"@, paths.registry@),
    ] + match os {
        HostOs::MacOs => seq![("DYLD_LIBRARY_PATH"@, paths.lib_dir@)],
        HostOs::Linux => seq![("LD_LIBRARY_PATH"@, paths.lib_dir@)],
        HostOs::Windows => seq![("PATH"@, paths.bin_dir@)],
        HostOs::Other => Seq::empty(),
    }
}

/// The variables set on top of the inherited environment for a bundled GStreamer: plugin
/// path and scanner in both the plain and the `_1_0` form (with the system plugin path
/// blanked inside an AppImage), the registry, and the library search path of the platform.
pub fn gst_env_overrides(os: HostOs, in_appimage: bool, paths: &GstPaths) -> (env: Vec<(String, String)>)
    ensures
        env_view(env@) == gst_env_spec(os, in_appimage, *paths),
{
    let mut env: Vec<(String, String)> = Vec::new();
    if in_appimage {
        env.push(pair("GST_PLUGIN_SYSTEM_PATH", ""));
    }
    env.push(pair("GST_PLUGIN_PATH", paths.plugin_path.as_str()));
    env.push(pair("GST_PLUGIN_SCANNER", paths.plugin_scanner.as_str()));
    if in_appimage {
        env.push(pair("GST_PLUGIN_SYSTEM_PATH_1_0", ""));
    }
    env.push(pair("GST_PLUGIN_PATH_1_0", paths.plugin_path.as_str()));
    env.push(pair("GST_PLUGIN_SCANNER_1_0", paths.plugin_scanner.as_str()));
    env.push(pair("GST_REGISTRY", paths.registry.as_str()));
    match os {
        HostOs::MacOs => env.push(pair("DYLD_LIBRARY_PATH", paths.lib_dir.as_str())),
        HostOs::Linux => env.push(pair("LD_LIBRARY_PATH", paths.lib_dir.as_str())),
        HostOs::Windows => env.push(pair("PATH", paths.bin_dir.as_str())),
        HostOs::Other => {},
    }
    assert(env_view(env@) =~= gst_env_spec(os, in_appimage, *paths));
    env
}

} // verus!
