//! The vocabulary of a call: the kinds of media that a participant shares,
//! the devices they come from, and the codec that the participants use for
//! each kind.

use vstd::prelude::*;
use crate::mime::MimeType;
use crate::types::{CodecCapability, PeerId};

verus! {

/// The kinds of media stream of a call. The camera and the shared screen use
/// the same kind of codec.
#[derive(Clone, Copy, Debug, PartialEq, Eq, Structural)]
pub enum MediaType {
    Audio,
    Camera,
    ScreenShare,
}

/// The device from which a media stream originates.
#[derive(Clone, Copy, Debug, PartialEq, Eq, Structural)]
pub enum MediaSource {
    /// Audio.
    Microphone,
    /// Video.
    Camera,
    /// Video.
    Screen,
}

impl MediaSource {
    /// The kind of stream that the device produces.
    pub fn media_type(&self) -> (kind: MediaType)
        ensures
            kind == self.spec_media_type(),
    {
        match self {
            MediaSource::Microphone => MediaType::Audio,
            MediaSource::Camera => MediaType::Camera,
            MediaSource::Screen => MediaType::ScreenShare,
        }
    }

    /// The kind of stream that the device produces.
    pub open spec fn spec_media_type(self) -> MediaType {
        match self {
            MediaSource::Microphone => MediaType::Audio,
            MediaSource::Camera => MediaType::Camera,
            MediaSource::Screen => MediaType::ScreenShare,
        }
    }
}

/// A codec with the clock rate and the number of channels that it runs at.
#[derive(Clone, Copy, Debug, PartialEq, Eq, Structural)]
pub struct MediaCodec {
    mime: MimeType,
    clock_rate: u32,
    channels: u8,
}

impl MediaCodec {
    /// The MIME type of the codec.
    pub closed spec fn spec_mime(self) -> MimeType {
        self.mime
    }

    /// The clock rate in ticks per second.
    pub closed spec fn spec_clock_rate(self) -> u32 {
        self.clock_rate
    }

    /// The number of channels.
    pub closed spec fn spec_channels(self) -> u8 {
        self.channels
    }

    /// A codec description.
    pub fn new(mime: MimeType, clock_rate: u32, channels: u8) -> (codec: MediaCodec)
        ensures
            codec.spec_mime() == mime,
            codec.spec_clock_rate() == clock_rate,
            codec.spec_channels() == channels,
    {
        MediaCodec { mime, clock_rate, channels }
    }

    /// The MIME type of the codec.
    pub fn mime(&self) -> (mime: MimeType)
        ensures
            mime == self.spec_mime(),
    {
        self.mime
    }

    /// The clock rate in ticks per second.
    pub fn clock_rate(&self) -> (rate: u32)
        ensures
            rate == self.spec_clock_rate(),
    {
        self.clock_rate
    }

    /// The number of channels.
    pub fn channels(&self) -> (channels: u8)
        ensures
            channels == self.spec_channels(),
    {
        self.channels
    }

    /// The capability that a media source with this codec announces.
    pub fn capability(&self) -> (capability: CodecCapability)
        ensures
            capability.mime_type@ == self.spec_mime().spec_text(),
            capability.clock_rate == self.spec_clock_rate(),
            capability.channels == self.spec_channels(),
    {
        CodecCapability {
            mime_type: self.mime.to_string(),
            clock_rate: self.clock_rate,
            channels: self.channels as u16,
        }
    }
}

/// The codecs of a call, one for each kind of stream.
#[derive(Clone, Copy, Debug, PartialEq, Eq, Structural)]
pub struct CallConfig {
    audio_codec: MediaCodec,
    camera_codec: MediaCodec,
    screen_share_codec: MediaCodec,
}

impl CallConfig {
    /// The codec that the call uses for a kind of stream.
    pub closed spec fn spec_codec(self, media: MediaType) -> MediaCodec {
        match media {
            MediaType::Audio => self.audio_codec,
            MediaType::Camera => self.camera_codec,
            MediaType::ScreenShare => self.screen_share_codec,
        }
    }

    /// The configuration of a call.
    pub fn new(audio_codec: MediaCodec, camera_codec: MediaCodec, screen_share_codec: MediaCodec) -> (config:
        CallConfig)
        ensures
            config.spec_codec(MediaType::Audio) == audio_codec,
            config.spec_codec(MediaType::Camera) == camera_codec,
            config.spec_codec(MediaType::ScreenShare) == screen_share_codec,
    {
        CallConfig { audio_codec, camera_codec, screen_share_codec }
    }

    /// The codec that the call uses for a kind of stream.
    pub fn codec(&self, media: MediaType) -> (codec: MediaCodec)
        ensures
            codec == self.spec_codec(media),
    {
        match media {
            MediaType::Audio => self.audio_codec,
            MediaType::Camera => self.camera_codec,
            MediaType::ScreenShare => self.screen_share_codec,
        }
    }
}

/// Names a track of a peer. Track names of different peers may coincide, so
/// the peer's id is part of the key.
#[derive(Clone, Debug, PartialEq, Eq)]
pub struct TrackKey {
    pub peer_id: PeerId,
    pub track_name: String,
}

impl TrackKey {
    /// Whether two keys name the same track of the same peer.
    pub fn same(&self, other: &TrackKey) -> (same: bool)
        ensures
            same == (self.peer_id@ == other.peer_id@ && self.track_name@ == other.track_name@),
    {
        self.peer_id == other.peer_id && self.track_name == other.track_name
    }
}

/// Announces a track to a peer before media is sent on it.
#[derive(Clone, Debug, PartialEq, Eq)]
pub struct TrackDescription {
    track_id: String,
    media_source: MediaSource,
    mime_type: MimeType,
    peer_id: PeerId,
}

impl TrackDescription {
    /// The track that the description announces, as a key.
    pub closed spec fn spec_key(&self) -> TrackKey {
        TrackKey { peer_id: self.peer_id, track_name: self.track_id }
    }

    /// The device that the track comes from.
    pub closed spec fn spec_media_source(&self) -> MediaSource {
        self.media_source
    }

    /// The codec of the track.
    pub closed spec fn spec_mime_type(&self) -> MimeType {
        self.mime_type
    }

    /// The description of a track.
    pub fn new(track_id: String, media_source: MediaSource, mime_type: MimeType, peer_id: PeerId) -> (description:
        TrackDescription)
        ensures
            description.spec_key() == (TrackKey { peer_id, track_name: track_id }),
            description.spec_media_source() == media_source,
            description.spec_mime_type() == mime_type,
    {
        TrackDescription { track_id, media_source, mime_type, peer_id }
    }

    /// The track that the description announces, as a key.
    pub fn key(&self) -> (key: TrackKey)
        ensures
            key == self.spec_key(),
    {
        TrackKey { peer_id: self.peer_id.clone(), track_name: self.track_id.clone() }
    }

    /// The device that the track comes from.
    pub fn media_source(&self) -> (source: MediaSource)
        ensures
            source == self.spec_media_source(),
    {
        self.media_source
    }

    /// The codec of the track.
    pub fn mime_type(&self) -> (mime: MimeType)
        ensures
            mime == self.spec_mime_type(),
    {
        self.mime_type
    }
}

} // verus!
