//! Container and codec compatibility rules for media conversion.
//!
//! A [`rules::MediaRules`] table is built once from a [`rules::RuleSource`]
//! and then answers three questions: whether a container is audio-only, and
//! whether a video or an audio codec may be placed in a container. Container
//! names match without regard to ASCII case; codec names match exactly.
pub mod ascii;
pub mod laws;
pub mod rules;

pub use rules::{
    is_audio_codec_allowed, is_audio_only_container, is_video_codec_allowed, MediaRules,
    RuleSource,
};
