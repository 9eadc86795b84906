use media_rules::{
    is_audio_codec_allowed, is_audio_only_container, is_video_codec_allowed, MediaRules,
    RuleSource,
};

fn names(items: &[&str]) -> Vec<String> {
    items.iter().map(|s| s.to_string()).collect()
}

fn entries(items: &[(&str, &[&str])]) -> Vec<(String, Vec<String>)> {
    items
        .iter()
        .map(|(container, codecs)| (container.to_string(), names(codecs)))
        .collect()
}

fn rules(
    audio_only: &[&str],
    video: &[(&str, &[&str])],
    audio: &[(&str, &[&str])],
) -> MediaRules {
    MediaRules::from_source(RuleSource {
        audio_only_containers: names(audio_only),
        container_video_codec_compatibility: entries(video),
        container_audio_codec_compatibility: entries(audio),
    })
}

#[test]
fn audio_only_scenario() {
    let r = rules(&["mp3", "flac"], &[], &[]);
    assert!(is_audio_only_container(&r, "MP3"));
    assert!(!is_audio_only_container(&r, "mp4"));
    assert!(is_audio_only_container(&r, "flac"));
}

#[test]
fn video_scenario() {
    let r = rules(&[], &[("mp4", &["h264", "hevc"])], &[]);
    assert!(is_video_codec_allowed(&r, "MP4", "h264"));
    assert!(!is_video_codec_allowed(&r, "mp4", "vp9"));
    assert!(is_video_codec_allowed(&r, "mkv", "vp9"));
}

#[test]
fn audio_wildcard_scenario() {
    let r = rules(&[], &[], &[("ogg", &["*"])]);
    assert!(is_audio_codec_allowed(&r, "ogg", "opus"));
    assert!(is_audio_codec_allowed(&r, "ogg", "anything_unrecognized"));
}

#[test]
fn audio_only_ignores_container_case() {
    let r = rules(&["mp3", "flac"], &[], &[]);
    for c in ["mp3", "Mp3", "MP3", "fLaC", "wav", "WAV", "é", "É"] {
        let a = is_audio_only_container(&r, c);
        assert_eq!(a, is_audio_only_container(&r, &c.to_ascii_uppercase()));
        assert_eq!(a, is_audio_only_container(&r, &c.to_ascii_lowercase()));
    }
}

#[test]
fn audio_only_source_names_are_lowered() {
    let r = rules(&["OGG"], &[], &[]);
    assert!(is_audio_only_container(&r, "ogg"));
    assert!(is_audio_only_container(&r, "Ogg"));
}

#[test]
fn audio_only_needs_exact_name() {
    let r = rules(&["mp3"], &[], &[]);
    assert!(!is_audio_only_container(&r, "mp"));
    assert!(!is_audio_only_container(&r, "mp33"));
    assert!(!is_audio_only_container(&r, ""));
    assert!(!is_audio_only_container(&r, " mp3"));
}

#[test]
fn unlisted_video_container_allows_every_codec() {
    let r = rules(&[], &[("mp4", &["h264"])], &[]);
    for codec in ["h264", "vp9", "", "AV1"] {
        assert!(is_video_codec_allowed(&r, "webm", codec));
    }
}

#[test]
fn listed_video_container_is_exact() {
    let r = rules(&[], &[("mp4", &["h264", "hevc"]), ("webm", &["*"])], &[]);
    assert!(is_video_codec_allowed(&r, "mp4", "hevc"));
    assert!(!is_video_codec_allowed(&r, "mp4", "H264"));
    assert!(!is_video_codec_allowed(&r, "mp4", "*"));
    assert!(is_video_codec_allowed(&r, "WEBM", "*"));
    assert!(!is_video_codec_allowed(&r, "webm", "vp9"));
}

#[test]
fn empty_video_list_allows_nothing() {
    let r = rules(&[], &[("gif", &[])], &[]);
    assert!(!is_video_codec_allowed(&r, "gif", "h264"));
    assert!(!is_video_codec_allowed(&r, "GIF", ""));
}

#[test]
fn audio_wildcard_covers_unseen_codecs() {
    let r = rules(&[], &[], &[("mkv", &["aac", "*"])]);
    for codec in ["aac", "opus", "", "never seen", "AAC"] {
        assert!(is_audio_codec_allowed(&r, "MKV", codec));
    }
}

#[test]
fn listed_audio_container_is_exact() {
    let r = rules(&[], &[], &[("mp4", &["aac", "mp3"])]);
    assert!(is_audio_codec_allowed(&r, "Mp4", "aac"));
    assert!(!is_audio_codec_allowed(&r, "mp4", "opus"));
    assert!(!is_audio_codec_allowed(&r, "mp4", "AAC"));
    assert!(is_audio_codec_allowed(&r, "wav", "opus"));
}

#[test]
fn video_and_audio_tables_are_separate() {
    let r = rules(&[], &[("mp4", &["h264"])], &[("mp4", &["aac"])]);
    assert!(!is_video_codec_allowed(&r, "mp4", "aac"));
    assert!(!is_audio_codec_allowed(&r, "mp4", "h264"));
    assert!(!is_audio_only_container(&r, "mp4"));
}

#[test]
fn source_container_names_are_lowered() {
    let r = rules(&[], &[("MOV", &["prores"])], &[("MOV", &["pcm"])]);
    assert!(is_video_codec_allowed(&r, "mov", "prores"));
    assert!(!is_video_codec_allowed(&r, "mov", "h264"));
    assert!(!is_audio_codec_allowed(&r, "mov", "aac"));
}

#[test]
fn later_entry_for_same_container_holds() {
    let r = rules(&[], &[("AVI", &["xvid"]), ("avi", &["mjpeg"])], &[]);
    assert!(is_video_codec_allowed(&r, "avi", "mjpeg"));
    assert!(!is_video_codec_allowed(&r, "avi", "xvid"));
}

#[test]
fn empty_rules_allow_everything() {
    let r = rules(&[], &[], &[]);
    assert!(!is_audio_only_container(&r, "mp3"));
    assert!(is_video_codec_allowed(&r, "mp4", "h264"));
    assert!(is_audio_codec_allowed(&r, "mp4", "aac"));
}

#[test]
fn repeated_queries_agree() {
    let a = rules(&["mp3"], &[("mp4", &["h264"])], &[("ogg", &["*"])]);
    let b = rules(&["mp3"], &[("mp4", &["h264"])], &[("ogg", &["*"])]);
    for (container, codec) in [("mp3", "h264"), ("MP4", "h264"), ("mp4", "vp9"), ("ogg", "x")] {
        let first = is_video_codec_allowed(&a, container, codec);
        assert_eq!(first, is_video_codec_allowed(&a, container, codec));
        assert_eq!(first, is_video_codec_allowed(&b, container, codec));
        let first = is_audio_codec_allowed(&a, container, codec);
        assert_eq!(first, is_audio_codec_allowed(&a, container, codec));
        assert_eq!(first, is_audio_codec_allowed(&b, container, codec));
        let first = is_audio_only_container(&a, container);
        assert_eq!(first, is_audio_only_container(&a, container));
        assert_eq!(first, is_audio_only_container(&b, container));
    }
}
