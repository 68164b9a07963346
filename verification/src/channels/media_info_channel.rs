//! Media playback status channel handler (MEDIA_INFO = 13). Phone -> HU only.
//!
//!   MEDIA_PLAYBACK_STATUS   = 0x8001 -> MediaPlaybackStatus { state, media_source, position, .. }
//!   MEDIA_PLAYBACK_INPUT    = 0x8002 -> playback control (HU -> phone; ignored if echoed)
//!   MEDIA_PLAYBACK_METADATA = 0x8003 -> MediaPlaybackMetadata { song, artist, album, art, .. }

use vstd::prelude::*;
use vstd::slice::slice_to_vec;
use crate::proto::{
    decode_fields, decode_fields_spec, decode_varint_value, fields_view, u32_as_i32, varint_of,
    ProtoFieldView,
};
use crate::text::{opt_bytes, opt_text, utf8_lossy, utf8_lossy_spec};

verus! {

pub const MEDIA_PLAYBACK_STATUS: u16 = 0x8001;

pub const MEDIA_PLAYBACK_INPUT: u16 = 0x8002;

pub const MEDIA_PLAYBACK_METADATA: u16 = 0x8003;

pub struct MediaPlaybackMetadata {
    pub song: Option<String>,
    pub artist: Option<String>,
    pub album: Option<String>,
    pub playlist: Option<String>,
    pub duration_seconds: Option<u32>,
    pub rating: Option<i32>,
    /// Raw album-art bytes (typically JPEG/PNG), passed through as-is.
    pub album_art: Option<Vec<u8>>,
}

pub struct MetadataView {
    pub song: Option<Seq<char>>,
    pub artist: Option<Seq<char>>,
    pub album: Option<Seq<char>>,
    pub playlist: Option<Seq<char>>,
    pub duration_seconds: Option<u32>,
    pub rating: Option<i32>,
    pub album_art: Option<Seq<u8>>,
}

impl View for MediaPlaybackMetadata {
    type V = MetadataView;

    open spec fn view(&self) -> MetadataView {
        MetadataView {
            song: opt_text(self.song),
            artist: opt_text(self.artist),
            album: opt_text(self.album),
            playlist: opt_text(self.playlist),
            duration_seconds: self.duration_seconds,
            rating: self.rating,
            album_art: opt_bytes(self.album_art),
        }
    }
}

#[derive(Clone, Copy, PartialEq, Eq, Debug)]
pub enum MediaPlaybackState {
    Unknown,
    Stopped,
    Playing,
    Paused,
}

pub struct MediaPlaybackStatus {
    pub state: MediaPlaybackState,
    pub media_source: Option<String>,
    pub playback_seconds: Option<u32>,
    pub shuffle: Option<bool>,
    pub repeat: Option<bool>,
    pub repeat_one: Option<bool>,
}

pub struct StatusView {
    pub state: MediaPlaybackState,
    pub media_source: Option<Seq<char>>,
    pub playback_seconds: Option<u32>,
    pub shuffle: Option<bool>,
    pub repeat: Option<bool>,
    pub repeat_one: Option<bool>,
}

impl View for MediaPlaybackStatus {
    type V = StatusView;

    open spec fn view(&self) -> StatusView {
        StatusView {
            state: self.state,
            media_source: opt_text(self.media_source),
            playback_seconds: self.playback_seconds,
            shuffle: self.shuffle,
            repeat: self.repeat,
            repeat_one: self.repeat_one,
        }
    }
}

pub enum MediaInfoEvent {
    Metadata(MediaPlaybackMetadata),
    Status(MediaPlaybackStatus),
    Ignored,
}

pub enum MediaInfoEventView {
    Metadata(MetadataView),
    Status(StatusView),
    Ignored,
}

impl View for MediaInfoEvent {
    type V = MediaInfoEventView;

    open spec fn view(&self) -> MediaInfoEventView {
        match self {
            MediaInfoEvent::Metadata(m) => MediaInfoEventView::Metadata(m@),
            MediaInfoEvent::Status(s) => MediaInfoEventView::Status(s@),
            MediaInfoEvent::Ignored => MediaInfoEventView::Ignored,
        }
    }
}

pub open spec fn empty_metadata() -> MetadataView {
    MetadataView {
        song: None,
        artist: None,
        album: None,
        playlist: None,
        duration_seconds: None,
        rating: None,
        album_art: None,
    }
}

/// MediaPlaybackMetadata { song = 1, artist = 2, album = 3, album_art = 4, playlist = 5,
/// duration_seconds = 6, rating = 7 }; a repeated field keeps its last value.
pub open spec fn metadata_field(m: MetadataView, f: ProtoFieldView) -> MetadataView {
    if f.field == 1 {
        MetadataView { song: Some(utf8_lossy_spec(f.bytes)), ..m }
    } else if f.field == 2 {
        MetadataView { artist: Some(utf8_lossy_spec(f.bytes)), ..m }
    } else if f.field == 3 {
        MetadataView { album: Some(utf8_lossy_spec(f.bytes)), ..m }
    } else if f.field == 4 {
        MetadataView { album_art: Some(f.bytes), ..m }
    } else if f.field == 5 {
        MetadataView { playlist: Some(utf8_lossy_spec(f.bytes)), ..m }
    } else if f.field == 6 {
        MetadataView { duration_seconds: Some(varint_of(f)), ..m }
    } else if f.field == 7 {
        MetadataView { rating: Some(u32_as_i32(varint_of(f)) as i32), ..m }
    } else {
        m
    }
}

pub open spec fn decode_metadata_spec(payload: Seq<u8>) -> MetadataView {
    decode_fields_spec(payload).fold_left(
        empty_metadata(),
        |m: MetadataView, f: ProtoFieldView| metadata_field(m, f),
    )
}

pub open spec fn empty_status() -> StatusView {
    StatusView {
        state: MediaPlaybackState::Unknown,
        media_source: None,
        playback_seconds: None,
        shuffle: None,
        repeat: None,
        repeat_one: None,
    }
}

pub open spec fn playback_state_of(v: u32) -> MediaPlaybackState {
    if v == 1 {
        MediaPlaybackState::Stopped
    } else if v == 2 {
        MediaPlaybackState::Playing
    } else if v == 3 {
        MediaPlaybackState::Paused
    } else {
        MediaPlaybackState::Unknown
    }
}

/// MediaPlaybackStatus { state = 1, media_source = 2, playback_seconds = 3, shuffle = 4,
/// repeat = 5, repeat_one = 6 }; a repeated field keeps its last value.
pub open spec fn status_field(s: StatusView, f: ProtoFieldView) -> StatusView {
    if f.field == 1 {
        StatusView { state: playback_state_of(varint_of(f)), ..s }
    } else if f.field == 2 {
        StatusView { media_source: Some(utf8_lossy_spec(f.bytes)), ..s }
    } else if f.field == 3 {
        StatusView { playback_seconds: Some(varint_of(f)), ..s }
    } else if f.field == 4 {
        StatusView { shuffle: Some(varint_of(f) != 0), ..s }
    } else if f.field == 5 {
        StatusView { repeat: Some(varint_of(f) != 0), ..s }
    } else if f.field == 6 {
        StatusView { repeat_one: Some(varint_of(f) != 0), ..s }
    } else {
        s
    }
}

pub open spec fn decode_status_spec(payload: Seq<u8>) -> StatusView {
    decode_fields_spec(payload).fold_left(
        empty_status(),
        |s: StatusView, f: ProtoFieldView| status_field(s, f),
    )
}

pub open spec fn media_info_spec(msg_id: u16, payload: Seq<u8>) -> MediaInfoEventView {
    if msg_id == MEDIA_PLAYBACK_METADATA {
        MediaInfoEventView::Metadata(decode_metadata_spec(payload))
    } else if msg_id == MEDIA_PLAYBACK_STATUS {
        MediaInfoEventView::Status(decode_status_spec(payload))
    } else {
        MediaInfoEventView::Ignored
    }
}

pub fn handle_message(msg_id: u16, payload: &[u8]) -> (ev: MediaInfoEvent)
    requires
        payload@.len() < usize::MAX,
    ensures
        ev@ == media_info_spec(msg_id, payload@),
{
    if msg_id == MEDIA_PLAYBACK_METADATA {
        MediaInfoEvent::Metadata(decode_metadata(payload))
    } else if msg_id == MEDIA_PLAYBACK_STATUS {
        MediaInfoEvent::Status(decode_status(payload))
    } else {
        MediaInfoEvent::Ignored
    }
}

fn decode_metadata(payload: &[u8]) -> (m: MediaPlaybackMetadata)
    requires
        payload@.len() < usize::MAX,
    ensures
        m@ == decode_metadata_spec(payload@),
{
    let fields = decode_fields(payload);
    let ghost fs = fields_view(fields@);
    let mut out = MediaPlaybackMetadata {
        song: None,
        artist: None,
        album: None,
        playlist: None,
        duration_seconds: None,
        rating: None,
        album_art: None,
    };
    let mut i: usize = 0;
    proof {
        assert(fs.take(0) =~= Seq::<ProtoFieldView>::empty());
    }
    while i < fields.len()
        invariant
            i <= fields@.len(),
            fs == fields_view(fields@),
            fs == decode_fields_spec(payload@),
            forall|k: int| 0 <= k < fields@.len() ==> (#[trigger] fields@[k]).bytes@.len()
                < payload@.len(),
            payload@.len() < usize::MAX,
            out@ == fs.take(i as int).fold_left(
                empty_metadata(),
                |m: MetadataView, f: ProtoFieldView| metadata_field(m, f),
            ),
        decreases fields@.len() - i,
    {
        let f = &fields[i];
        proof {
            assert(fs.take(i + 1).drop_last() =~= fs.take(i as int));
            assert(fs.take(i + 1).last() == f@);
        }
        let b = f.bytes.as_slice();
        if f.field == 1 {
            out.song = Some(utf8_lossy(b));
        } else if f.field == 2 {
            out.artist = Some(utf8_lossy(b));
        } else if f.field == 3 {
            out.album = Some(utf8_lossy(b));
        } else if f.field == 4 {
            out.album_art = Some(slice_to_vec(b));
        } else if f.field == 5 {
            out.playlist = Some(utf8_lossy(b));
        } else if f.field == 6 {
            out.duration_seconds = Some(decode_varint_value(b));
        } else if f.field == 7 {
            out.rating = Some(crate::proto::u32_to_i32(decode_varint_value(b)));
        }
        i = i + 1;
    }
    proof {
        assert(fs.take(fields@.len() as int) =~= fs);
    }
    out
}

fn decode_status(payload: &[u8]) -> (s: MediaPlaybackStatus)
    requires
        payload@.len() < usize::MAX,
    ensures
        s@ == decode_status_spec(payload@),
{
    let fields = decode_fields(payload);
    let ghost fs = fields_view(fields@);
    let mut out = MediaPlaybackStatus {
        state: MediaPlaybackState::Unknown,
        media_source: None,
        playback_seconds: None,
        shuffle: None,
        repeat: None,
        repeat_one: None,
    };
    let mut i: usize = 0;
    proof {
        assert(fs.take(0) =~= Seq::<ProtoFieldView>::empty());
    }
    while i < fields.len()
        invariant
            i <= fields@.len(),
            fs == fields_view(fields@),
            fs == decode_fields_spec(payload@),
            forall|k: int| 0 <= k < fields@.len() ==> (#[trigger] fields@[k]).bytes@.len()
                < payload@.len(),
            payload@.len() < usize::MAX,
            out@ == fs.take(i as int).fold_left(
                empty_status(),
                |s: StatusView, f: ProtoFieldView| status_field(s, f),
            ),
        decreases fields@.len() - i,
    {
        let f = &fields[i];
        proof {
            assert(fs.take(i + 1).drop_last() =~= fs.take(i as int));
            assert(fs.take(i + 1).last() == f@);
        }
        let b = f.bytes.as_slice();
        if f.field == 1 {
            let v = decode_varint_value(b);
            out.state = if v == 1 {
                MediaPlaybackState::Stopped
            } else if v == 2 {
                MediaPlaybackState::Playing
            } else if v == 3 {
                MediaPlaybackState::Paused
            } else {
                MediaPlaybackState::Unknown
            };
        } else if f.field == 2 {
            out.media_source = Some(utf8_lossy(b));
        } else if f.field == 3 {
            out.playback_seconds = Some(decode_varint_value(b));
        } else if f.field == 4 {
            out.shuffle = Some(decode_varint_value(b) != 0);
        } else if f.field == 5 {
            out.repeat = Some(decode_varint_value(b) != 0);
        } else if f.field == 6 {
            out.repeat_one = Some(decode_varint_value(b) != 0);
        }
        i = i + 1;
    }
    proof {
        assert(fs.take(fields@.len() as int) =~= fs);
    }
    out
}

} // verus!
