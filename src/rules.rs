use vstd::prelude::*;

use crate::ascii::{ascii_lower, to_ascii_lowercase};

verus! {

/// Within an audio codec list, the entry that admits every codec.
pub const ANY_CODEC_TOKEN: &'static str = "*";

/// The wildcard entry of an audio codec list, as a sequence of characters.
pub open spec fn any_codec() -> Seq<char> {
    seq!['*']
}

/// A container's codec list as written in a rule document.
pub type CodecEntry = (String, Vec<String>);

/// The rule document as read: names as written, in document order.
pub struct RuleSource {
    pub audio_only_containers: Vec<String>,
    pub container_video_codec_compatibility: Vec<CodecEntry>,
    pub container_audio_codec_compatibility: Vec<CodecEntry>,
}

/// A rule document as sequences of character sequences.
pub ghost struct RuleSourceView {
    pub audio_only_containers: Seq<Seq<char>>,
    pub video_entries: Seq<(Seq<char>, Seq<Seq<char>>)>,
    pub audio_entries: Seq<(Seq<char>, Seq<Seq<char>>)>,
}

pub open spec fn names_view(v: Seq<String>) -> Seq<Seq<char>> {
    v.map_values(|s: String| s@)
}

pub open spec fn entries_view(v: Seq<CodecEntry>) -> Seq<(Seq<char>, Seq<Seq<char>>)> {
    v.map_values(|e: CodecEntry| (e.0@, names_view(e.1@)))
}

impl View for RuleSource {
    type V = RuleSourceView;

    open spec fn view(&self) -> RuleSourceView {
        RuleSourceView {
            audio_only_containers: names_view(self.audio_only_containers@),
            video_entries: entries_view(self.container_video_codec_compatibility@),
            audio_entries: entries_view(self.container_audio_codec_compatibility@),
        }
    }
}

/// The normalized rules: container names in ASCII lower case, each codec
/// list as a set.
pub ghost struct MediaRulesView {
    pub audio_only_containers: Set<Seq<char>>,
    pub video_compat: Map<Seq<char>, Set<Seq<char>>>,
    pub audio_compat: Map<Seq<char>, Set<Seq<char>>>,
}

/// The map from container to codec set that a list of entries describes; an
/// entry overrides every earlier one with the same container.
pub open spec fn table_of(entries: Seq<(Seq<char>, Seq<Seq<char>>)>) -> Map<
    Seq<char>,
    Set<Seq<char>>,
>
    decreases entries.len(),
{
    if entries.len() == 0 {
        Map::empty()
    } else {
        let e = entries.last();
        table_of(entries.drop_last()).insert(e.0, e.1.to_set())
    }
}

/// Entries with each container name in ASCII lower case.
pub open spec fn lower_keys(entries: Seq<(Seq<char>, Seq<Seq<char>>)>) -> Seq<
    (Seq<char>, Seq<Seq<char>>),
> {
    entries.map_values(|e: (Seq<char>, Seq<Seq<char>>)| (ascii_lower(e.0), e.1))
}

/// The rules that a document describes.
pub open spec fn rules_of(src: RuleSourceView) -> MediaRulesView {
    MediaRulesView {
        audio_only_containers: src.audio_only_containers.map_values(
            |c: Seq<char>| ascii_lower(c),
        ).to_set(),
        video_compat: table_of(lower_keys(src.video_entries)),
        audio_compat: table_of(lower_keys(src.audio_entries)),
    }
}

pub open spec fn container_is_audio_only(r: MediaRulesView, container: Seq<char>) -> bool {
    r.audio_only_containers.contains(ascii_lower(container))
}

/// A container without an entry takes every video codec; one with an entry
/// takes exactly the codecs listed.
pub open spec fn video_codec_allowed(
    r: MediaRulesView,
    container: Seq<char>,
    codec: Seq<char>,
) -> bool {
    let key = ascii_lower(container);
    r.video_compat.contains_key(key) ==> r.video_compat[key].contains(codec)
}

/// As for video, except that a list holding the wildcard takes every codec.
pub open spec fn audio_codec_allowed(
    r: MediaRulesView,
    container: Seq<char>,
    codec: Seq<char>,
) -> bool {
    let key = ascii_lower(container);
    r.audio_compat.contains_key(key) ==> (r.audio_compat[key].contains(any_codec())
        || r.audio_compat[key].contains(codec))
}

/// The normalized rule table.
pub struct MediaRules {
    audio_only_containers: Vec<String>,
    video_compat: Vec<CodecEntry>,
    audio_compat: Vec<CodecEntry>,
}

impl View for MediaRules {
    type V = MediaRulesView;

    closed spec fn view(&self) -> MediaRulesView {
        MediaRulesView {
            audio_only_containers: names_view(self.audio_only_containers@).to_set(),
            video_compat: table_of(entries_view(self.video_compat@)),
            audio_compat: table_of(entries_view(self.audio_compat@)),
        }
    }
}

/// Each name in ASCII lower case, in the same order.
fn lower_names(names: &Vec<String>) -> (r: Vec<String>)
    ensures
        r@.len() == names@.len(),
        forall|i: int| 0 <= i < names@.len() ==> r@[i]@ == ascii_lower(names@[i]@),
{
    let mut out: Vec<String> = Vec::new();
    let mut i: usize = 0;
    while i < names.len()
        invariant
            i <= names@.len(),
            out@.len() == i,
            forall|k: int| 0 <= k < i ==> out@[k]@ == ascii_lower(names@[k]@),
        decreases names@.len() - i,
    {
        out.push(to_ascii_lowercase(names[i].as_str()));
        i = i + 1;
    }
    out
}

/// The entries with each container name in ASCII lower case, in the same
/// order, each with its codec list as it was.
fn lower_container_keys(entries: Vec<CodecEntry>) -> (r: Vec<CodecEntry>)
    ensures
        r@.len() == entries@.len(),
        forall|i: int|
            0 <= i < entries@.len() ==> r@[i].0@ == ascii_lower(entries@[i].0@) && r@[i].1
                == entries@[i].1,
{
    let ghost orig = entries@;
    let mut rest = entries;
    // The entries taken off the end of `rest`, last one first.
    let mut pending: Vec<CodecEntry> = Vec::new();
    while rest.len() > 0
        invariant
            rest@ == orig.subrange(0, rest@.len() as int),
            pending@.len() + rest@.len() == orig.len(),
            forall|k: int| 0 <= k < pending@.len() ==> pending@[k] == orig[orig.len() - 1 - k],
        decreases rest@.len(),
    {
        let e = rest.pop().unwrap();
        pending.push(e);
    }
    let mut out: Vec<CodecEntry> = Vec::new();
    while pending.len() > 0
        invariant
            pending@.len() + out@.len() == orig.len(),
            forall|k: int| 0 <= k < pending@.len() ==> pending@[k] == orig[orig.len() - 1 - k],
            forall|i: int|
                0 <= i < out@.len() ==> out@[i].0@ == ascii_lower(orig[i].0@) && out@[i].1
                    == orig[i].1,
        decreases pending@.len(),
    {
        let (container, codecs) = pending.pop().unwrap();
        out.push((to_ascii_lowercase(container.as_str()), codecs));
    }
    out
}

impl MediaRules {
    /// Builds the table from a rule document: every container name is brought
    /// to ASCII lower case and each codec list becomes a set. Where two entries
    /// of one mapping name the same container, the later one holds.
    pub fn from_source(source: RuleSource) -> (r: MediaRules)
        ensures
            r@ == rules_of(source@),
    {
        let ghost src = source@;
        let RuleSource {
            audio_only_containers,
            container_video_codec_compatibility,
            container_audio_codec_compatibility,
        } = source;
        let audio_only = lower_names(&audio_only_containers);
        let video = lower_container_keys(container_video_codec_compatibility);
        let audio = lower_container_keys(container_audio_codec_compatibility);
        assert(names_view(audio_only@) =~= src.audio_only_containers.map_values(
            |c: Seq<char>| ascii_lower(c),
        ));
        assert(entries_view(video@) =~= lower_keys(src.video_entries));
        assert(entries_view(audio@) =~= lower_keys(src.audio_entries));
        MediaRules { audio_only_containers: audio_only, video_compat: video, audio_compat: audio }
    }
}

/// The binding of `key` in `table_of(entries)` comes from the last entry for
/// `key`, and there is none where no entry names it.
proof fn lemma_table_lookup(entries: Seq<(Seq<char>, Seq<Seq<char>>)>, key: Seq<char>, j: int)
    requires
        -1 <= j < entries.len(),
        j >= 0 ==> entries[j].0 == key,
        forall|i: int| j < i < entries.len() ==> entries[i].0 != key,
    ensures
        table_of(entries).contains_key(key) == (j >= 0),
        j >= 0 ==> table_of(entries)[key] == entries[j].1.to_set(),
    decreases entries.len(),
{
    if entries.len() > 0 && j < entries.len() - 1 {
        lemma_table_lookup(entries.drop_last(), key, j);
    }
}

/// The index of the last entry for `key`, if any.
fn find_last(table: &Vec<CodecEntry>, key: &String) -> (r: Option<usize>)
    ensures
        match r {
            Some(j) => j < table@.len() && table@[j as int].0@ == key@ && forall|i: int|
                j < i < table@.len() ==> table@[i].0@ != key@,
            None => forall|i: int| 0 <= i < table@.len() ==> table@[i].0@ != key@,
        },
{
    let mut n: usize = table.len();
    while n > 0
        invariant
            n <= table@.len(),
            forall|i: int| n <= i < table@.len() ==> table@[i].0@ != key@,
        decreases n,
    {
        n = n - 1;
        if table[n].0 == *key {
            return Some(n);
        }
    }
    None
}

/// Whether `names` holds `name`.
fn contains_name(names: &Vec<String>, name: &String) -> (r: bool)
    ensures
        r == names_view(names@).contains(name@),
{
    let mut i: usize = 0;
    while i < names.len()
        invariant
            i <= names@.len(),
            forall|k: int| 0 <= k < i ==> names@[k]@ != name@,
        decreases names@.len() - i,
    {
        if names[i] == *name {
            assert(names_view(names@)[i as int] == name@);
            return true;
        }
        i = i + 1;
    }
    assert(!names_view(names@).contains(name@)) by {
        if names_view(names@).contains(name@) {
            let k = choose|k: int| 0 <= k < names@.len() && names_view(names@)[k] == name@;
            assert(names@[k]@ == name@);
        }
    }
    false
}

/// Whether `container`, in any ASCII case, is an audio-only container.
pub fn is_audio_only_container(rules: &MediaRules, container: &str) -> (r: bool)
    ensures
        r == container_is_audio_only(rules@, container@),
{
    let key = to_ascii_lowercase(container);
    contains_name(&rules.audio_only_containers, &key)
}

/// Whether video in `codec` may be placed in `container`.
pub fn is_video_codec_allowed(rules: &MediaRules, container: &str, codec: &str) -> (r: bool)
    ensures
        r == video_codec_allowed(rules@, container@, codec@),
{
    let key = to_ascii_lowercase(container);
    let found = find_last(&rules.video_compat, &key);
    let ghost entries = entries_view(rules.video_compat@);
    match found {
        Some(j) => {
            proof {
                lemma_table_lookup(entries, key@, j as int);
            }
            contains_name(&rules.video_compat[j].1, &codec.to_owned())
        },
        None => {
            proof {
                lemma_table_lookup(entries, key@, -1);
            }
            true
        },
    }
}

/// Whether audio in `codec` may be placed in `container`.
pub fn is_audio_codec_allowed(rules: &MediaRules, container: &str, codec: &str) -> (r: bool)
    ensures
        r == audio_codec_allowed(rules@, container@, codec@),
{
    let key = to_ascii_lowercase(container);
    let found = find_last(&rules.audio_compat, &key);
    let ghost entries = entries_view(rules.audio_compat@);
    match found {
        Some(j) => {
            proof {
                lemma_table_lookup(entries, key@, j as int);
                reveal_strlit("*");
            }
            let codecs = &rules.audio_compat[j].1;
            let any = ANY_CODEC_TOKEN.to_owned();
            assert(any@ == any_codec());
            contains_name(codecs, &any) || contains_name(
                codecs,
                &codec.to_owned(),
            )
        },
        None => {
            proof {
                lemma_table_lookup(entries, key@, -1);
            }
            true
        },
    }
}

} // verus!
