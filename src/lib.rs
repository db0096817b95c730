//! A verified streaming engine for video stored in a content-addressed
//! object store: on-demand playback by timecode, live playback from a
//! chain of announced segments, adaptive bitrate, buffer management and
//! the authentication of signed messages.

pub mod text;
pub mod signature;
pub mod content_id;
pub mod timecode;
pub mod media;
pub mod abr;
pub mod live;
pub mod video_player;
pub mod components;
