use vstd::prelude::*;
use crate::text::{string_views, str_eq};

verus! {

// ---------------------------------------------------------------------------
// Grapheme clusters (unicode-segmentation)
// ---------------------------------------------------------------------------

/// The extended grapheme clusters of a text, in order, as `unicode_segmentation` cuts it.
pub uninterp spec fn grapheme_clusters(s: Seq<char>) -> Seq<Seq<char>>;

/// The pieces put one after another.
pub open spec fn concat_all(parts: Seq<Seq<char>>) -> Seq<char>
    decreases parts.len(),
{
    if parts.len() == 0 {
        Seq::empty()
    } else {
        concat_all(parts.drop_last()) + parts.last()
    }
}

/// Cuts a text into its extended grapheme clusters with
/// `UnicodeSegmentation::graphemes(s, true)`. The result is named by `grapheme_clusters`;
/// the clusters are consecutive slices of the text, so put together they give the text back.
#[verifier::external_body]
fn graphemes(s: &str) -> (r: Vec<String>)
    ensures
        string_views(r@) == grapheme_clusters(s@),
        concat_all(string_views(r@)) == s@,
{
    unicode_segmentation::UnicodeSegmentation::graphemes(s, true).map(|g| g.to_string()).collect()
}

// ---------------------------------------------------------------------------
// Emoji names (emoji)
// ---------------------------------------------------------------------------

/// A localized annotation of an emoji: its language and, when there is one, its spoken name.
pub struct EmojiAnnotation {
    pub lang: String,
    pub tts: Option<String>,
}

/// An emoji that a glyph was found to be: its English name and its annotations.
pub struct EmojiInfo {
    pub name: String,
    pub annotations: Vec<EmojiAnnotation>,
}

/// The view of an emoji: its name and its annotations as (language, spoken name).
pub struct EmojiView {
    pub name: Seq<char>,
    pub annotations: Seq<(Seq<char>, Option<Seq<char>>)>,
}

/// The views of a list of annotations.
pub open spec fn annotation_views(a: Seq<EmojiAnnotation>) -> Seq<(Seq<char>, Option<Seq<char>>)> {
    a.map_values(
        |x: EmojiAnnotation|
            (
                x.lang@,
                match x.tts {
                    Some(t) => Some(t@),
                    None => None,
                },
            ),
    )
}

impl View for EmojiInfo {
    type V = EmojiView;

    open spec fn view(&self) -> EmojiView {
        EmojiView { name: self.name@, annotations: annotation_views(self.annotations@) }
    }
}

/// The emoji that `emoji::lookup_by_glyph::lookup` finds for a glyph, if any.
pub uninterp spec fn emoji_for_glyph(glyph: Seq<char>) -> Option<EmojiView>;

/// Looks a glyph up with `emoji::lookup_by_glyph::lookup` and copies out the emoji's name
/// and annotations; the result is named by `emoji_for_glyph`.
#[verifier::external_body]
fn lookup_emoji(glyph: &str) -> (r: Option<EmojiInfo>)
    ensures
        match r {
            Some(e) => emoji_for_glyph(glyph@) == Some(e@),
            None => emoji_for_glyph(glyph@) is None,
        },
{
    emoji::lookup_by_glyph::lookup(glyph).map(
        |e| EmojiInfo {
            name: e.name.to_string(),
            annotations: e.annotations.iter().map(
                |a| EmojiAnnotation { lang: a.lang.to_string(), tts: a.tts.map(|t| t.to_string()) },
            ).collect(),
        },
    )
}

/// The spoken name of the first Japanese annotation, if there is a Japanese annotation.
pub open spec fn ja_tts(a: Seq<(Seq<char>, Option<Seq<char>>)>) -> Option<Option<Seq<char>>>
    decreases a.len(),
{
    if a.len() == 0 {
        None
    } else if a[0].0 == "ja"@ {
        Some(a[0].1)
    } else {
        ja_tts(a.drop_first())
    }
}

/// How an emoji is read: the spoken name of its first Japanese annotation, or its English
/// name when that annotation is missing or has none.
pub open spec fn emoji_reading(e: EmojiView) -> Seq<char> {
    match ja_tts(e.annotations) {
        Some(Some(t)) => t,
        _ => e.name,
    }
}

proof fn lemma_ja_tts_first(a: Seq<(Seq<char>, Option<Seq<char>>)>, k: int)
    requires
        0 <= k < a.len(),
        a[k].0 == "ja"@,
        forall|j: int| 0 <= j < k ==> (#[trigger] a[j]).0 != "ja"@,
    ensures
        ja_tts(a) == Some(a[k].1),
    decreases k,
{
    if k > 0 {
        let d = a.drop_first();
        assert forall|j: int| 0 <= j < k - 1 implies (#[trigger] d[j]).0 != "ja"@ by {
            assert(d[j] == a[j + 1]);
        }
        assert(a[0].0 != "ja"@);
        lemma_ja_tts_first(d, k - 1);
    }
}

proof fn lemma_ja_tts_none(a: Seq<(Seq<char>, Option<Seq<char>>)>)
    requires
        forall|j: int| 0 <= j < a.len() ==> (#[trigger] a[j]).0 != "ja"@,
    ensures
        ja_tts(a) is None,
    decreases a.len(),
{
    if a.len() > 0 {
        let d = a.drop_first();
        assert forall|j: int| 0 <= j < d.len() implies (#[trigger] d[j]).0 != "ja"@ by {
            assert(d[j] == a[j + 1]);
        }
        assert(a[0].0 != "ja"@);
        lemma_ja_tts_none(d);
    }
}

/// An emoji whose first Japanese annotation (the first whose language is `ja`) has the spoken
/// name `t` is read as `t`, between spaces; its English name is not used.
pub proof fn law_japanese_name_is_read(g: Seq<char>, e: EmojiView, k: int, t: Seq<char>)
    requires
        emoji_for_glyph(g) == Some(e),
        0 <= k < e.annotations.len(),
        e.annotations[k].0 == "ja"@,
        forall|j: int| 0 <= j < k ==> (#[trigger] e.annotations[j]).0 != "ja"@,
        e.annotations[k].1 == Some(t),
    ensures
        emoji_reading(e) == t,
        cluster_reading(g) == " "@ + t + " "@,
{
    lemma_ja_tts_first(e.annotations, k);
}

/// An emoji is read by its English name only where it has no Japanese spoken name: either no
/// annotation is in Japanese, or the first Japanese one has no spoken name.
pub proof fn law_english_name_only_without_japanese(g: Seq<char>, e: EmojiView)
    requires
        emoji_for_glyph(g) == Some(e),
    ensures
        (forall|j: int| 0 <= j < e.annotations.len() ==> (#[trigger] e.annotations[j]).0 != "ja"@)
            ==> cluster_reading(g) == " "@ + e.name + " "@,
        forall|k: int|
            0 <= k < e.annotations.len() && (#[trigger] e.annotations[k]).0 == "ja"@ && e.annotations[k].1
                is None && (forall|j: int| 0 <= j < k ==> (#[trigger] e.annotations[j]).0 != "ja"@)
                ==> cluster_reading(g) == " "@ + e.name + " "@,
{
    if forall|j: int| 0 <= j < e.annotations.len() ==> (#[trigger] e.annotations[j]).0 != "ja"@ {
        lemma_ja_tts_none(e.annotations);
    }
    assert forall|k: int|
        0 <= k < e.annotations.len() && (#[trigger] e.annotations[k]).0 == "ja"@ && e.annotations[k].1
            is None && (forall|j: int| 0 <= j < k ==> (#[trigger] e.annotations[j]).0 != "ja"@)
        implies cluster_reading(g) == " "@ + e.name + " "@ by {
        lemma_ja_tts_first(e.annotations, k);
    }
}

fn reading_of(e: &EmojiInfo) -> (r: String)
    ensures
        r@ == emoji_reading(e@),
{
    let ghost a = annotation_views(e.annotations@);
    let mut i: usize = 0;
    assert(a.skip(0) == a);
    while i < e.annotations.len()
        invariant
            i <= e.annotations.len(),
            a == annotation_views(e.annotations@),
            ja_tts(a) == ja_tts(a.skip(i as int)),
        decreases e.annotations.len() - i,
    {
        assert(a.skip(i as int)[0] == a[i as int]);
        assert(a.skip(i as int).drop_first() =~= a.skip(i + 1));
        if str_eq(e.annotations[i].lang.as_str(), "ja") {
            return match &e.annotations[i].tts {
                Some(t) => t.clone(),
                None => e.name.clone(),
            };
        }
        i = i + 1;
    }
    e.name.clone()
}

/// What a grapheme cluster is read as: an emoji by its name between spaces, anything else as
/// it is.
pub open spec fn cluster_reading(g: Seq<char>) -> Seq<char> {
    match emoji_for_glyph(g) {
        Some(e) => " "@ + emoji_reading(e) + " "@,
        None => g,
    }
}

/// The clusters read one after another.
pub open spec fn demojized(gs: Seq<Seq<char>>) -> Seq<char>
    decreases gs.len(),
{
    if gs.len() == 0 {
        Seq::empty()
    } else {
        demojized(gs.drop_last()) + cluster_reading(gs.last())
    }
}

/// A text with each emoji replaced by its name.
pub open spec fn without_emoji(s: Seq<char>) -> Seq<char> {
    demojized(grapheme_clusters(s))
}

/// Replaces each emoji of a text by its (Japanese, where the emoji data has it) name between
/// spaces.
pub fn demojize(text: &str) -> (r: String)
    ensures
        r@ == without_emoji(text@),
{
    let gs = graphemes(text);
    let ghost g = string_views(gs@);
    let mut out = String::new();
    let mut i: usize = 0;
    while i < gs.len()
        invariant
            i <= gs.len(),
            g == string_views(gs@),
            out@ == demojized(g.take(i as int)),
        decreases gs.len() - i,
    {
        assert(g.take(i + 1).drop_last() =~= g.take(i as int));
        assert(g.take(i + 1).last() == gs@[i as int]@);
        match lookup_emoji(gs[i].as_str()) {
            Some(e) => {
                out.append(" ");
                let name = reading_of(&e);
                out.append(name.as_str());
                out.append(" ");
            },
            None => {
                out.append(gs[i].as_str());
            },
        }
        i = i + 1;
    }
    assert(g.take(gs.len() as int) =~= g);
    out
}

/// A text in which no grapheme cluster is an emoji is read unchanged.
pub proof fn law_text_without_emoji_is_unchanged(s: Seq<char>)
    requires
        forall|i: int| 0 <= i < grapheme_clusters(s).len() ==> emoji_for_glyph(#[trigger] grapheme_clusters(s)[i]) is None,
        concat_all(grapheme_clusters(s)) == s,
    ensures
        without_emoji(s) == s,
{
    lemma_demojized_plain(grapheme_clusters(s));
}

proof fn lemma_demojized_plain(gs: Seq<Seq<char>>)
    requires
        forall|i: int| 0 <= i < gs.len() ==> emoji_for_glyph(#[trigger] gs[i]) is None,
    ensures
        demojized(gs) == concat_all(gs),
    decreases gs.len(),
{
    if gs.len() > 0 {
        let d = gs.drop_last();
        assert forall|i: int| 0 <= i < d.len() implies emoji_for_glyph(#[trigger] d[i]) is None by {
            assert(d[i] == gs[i]);
        }
        lemma_demojized_plain(d);
        assert(emoji_for_glyph(gs[gs.len() - 1]) is None);
    }
}

} // verus!
