//! Per-channel message handlers.

pub mod audio_channel;
pub mod media;
pub mod video_channel;
pub mod mic_channel;
pub mod media_info_channel;
pub mod navigation_channel;
pub mod input_channel;
