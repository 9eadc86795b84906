use vstd::prelude::*;

use crate::ascii::{ascii_lower, ascii_upper, lemma_ascii_lower_absorbs_case};
use crate::rules::{
    any_codec, audio_codec_allowed, container_is_audio_only, rules_of, video_codec_allowed,
    MediaRules, MediaRulesView, RuleSource,
};

verus! {

/// Whether a container is audio-only does not depend on the ASCII case in
/// which its name is written.
pub proof fn lemma_audio_only_ignores_case(rules: MediaRulesView, container: Seq<char>)
    ensures
        container_is_audio_only(rules, container) == container_is_audio_only(
            rules,
            ascii_upper(container),
        ),
        container_is_audio_only(rules, container) == container_is_audio_only(
            rules,
            ascii_lower(container),
        ),
{
    lemma_ascii_lower_absorbs_case(container);
}

/// A container with no video entry accepts every video codec.
pub proof fn lemma_video_unlisted_container_allows_all(
    rules: MediaRulesView,
    container: Seq<char>,
    codec: Seq<char>,
)
    requires
        !rules.video_compat.contains_key(ascii_lower(container)),
    ensures
        video_codec_allowed(rules, container, codec),
{
}

/// A container with a video entry accepts exactly the codecs of that entry;
/// no entry acts as a wildcard.
pub proof fn lemma_video_listed_container_is_exact(
    rules: MediaRulesView,
    container: Seq<char>,
    codec: Seq<char>,
)
    requires
        rules.video_compat.contains_key(ascii_lower(container)),
    ensures
        video_codec_allowed(rules, container, codec) == rules.video_compat[ascii_lower(
            container,
        )].contains(codec),
{
}

/// A container whose audio entry holds the wildcard accepts every audio codec.
pub proof fn lemma_audio_wildcard_allows_all(
    rules: MediaRulesView,
    container: Seq<char>,
    codec: Seq<char>,
)
    requires
        rules.audio_compat.contains_key(ascii_lower(container)),
        rules.audio_compat[ascii_lower(container)].contains(any_codec()),
    ensures
        audio_codec_allowed(rules, container, codec),
{
}

/// Two tables built from one rule document are the same table, and so give
/// the same answer to every query.
pub proof fn lemma_one_source_one_table(source: RuleSource, a: MediaRules, b: MediaRules)
    requires
        a@ == rules_of(source@),
        b@ == rules_of(source@),
    ensures
        a@ == b@,
        forall|container: Seq<char>|
            container_is_audio_only(a@, container) == container_is_audio_only(b@, container),
        forall|container: Seq<char>, codec: Seq<char>|
            video_codec_allowed(a@, container, codec) == video_codec_allowed(
                b@,
                container,
                codec,
            ),
        forall|container: Seq<char>, codec: Seq<char>|
            audio_codec_allowed(a@, container, codec) == audio_codec_allowed(
                b@,
                container,
                codec,
            ),
{
}

} // verus!
