use vstd::prelude::*;
use crate::text::{parse_u32, parse_u32_spec, dec, push_decimal, decimal_string, contains_seq, str_contains};

verus! {

// ---------------------------------------------------------------------------
// The speaking styles of the loaded voice models
// ---------------------------------------------------------------------------

/// A speaking style of a voice model: the character, the style's name, its id, and the
/// label that lists show for it.
pub struct VoiceStyleInfo {
    pub character_name: String,
    pub style_name: String,
    pub style_id: u32,
    pub display_label: String,
}

/// The label of a style: the character's name with the style's name in full-width brackets.
pub open spec fn style_label_text(character: Seq<char>, style: Seq<char>) -> Seq<char> {
    character + "（"@ + style + "）"@
}

impl VoiceStyleInfo {
    /// The label is the one made from the character's and the style's names.
    pub open spec fn well_formed(&self) -> bool {
        self.display_label@ == style_label_text(self.character_name@, self.style_name@)
    }

    /// The style `style_name` of `character_name`, with id `style_id`.
    pub fn new(character_name: String, style_name: String, style_id: u32) -> (s: Self)
        ensures
            s.character_name@ == character_name@,
            s.style_name@ == style_name@,
            s.style_id == style_id,
            s.well_formed(),
    {
        let mut label = character_name.clone();
        label.append("（");
        label.append(style_name.as_str());
        label.append("）");
        VoiceStyleInfo { character_name, style_name, style_id, display_label: label }
    }
}

/// The id of a style read from the text that the model's metadata gives for it; 0 where
/// that text is no `u32`.
pub fn style_id_of(text: &str) -> (id: u32)
    ensures
        id == match parse_u32_spec(text@) {
            Some(v) => v,
            None => 0u32,
        },
{
    match parse_u32(text) {
        Some(v) => v,
        None => 0,
    }
}

// ---------------------------------------------------------------------------
// Ordering styles by id
// ---------------------------------------------------------------------------

/// The styles of `s` with id `k`, in their order in `s`.
pub open spec fn with_id(s: Seq<VoiceStyleInfo>, k: u32) -> Seq<VoiceStyleInfo>
    decreases s.len(),
{
    if s.len() == 0 {
        Seq::empty()
    } else if s.last().style_id == k {
        with_id(s.drop_last(), k).push(s.last())
    } else {
        with_id(s.drop_last(), k)
    }
}

/// The ids of `s` never go down.
pub open spec fn sorted_by_id(s: Seq<VoiceStyleInfo>) -> bool {
    forall|i: int, j: int| 0 <= i < j < s.len() ==> s[i].style_id <= s[j].style_id
}

proof fn lemma_with_id_add(a: Seq<VoiceStyleInfo>, b: Seq<VoiceStyleInfo>, k: u32)
    ensures
        with_id(a + b, k) == with_id(a, k) + with_id(b, k),
    decreases b.len(),
{
    if b.len() == 0 {
        assert(a + b =~= a);
        assert(with_id(a, k) + with_id(b, k) =~= with_id(a, k));
    } else {
        assert((a + b).drop_last() =~= a + b.drop_last());
        assert((a + b).last() == b.last());
        lemma_with_id_add(a, b.drop_last(), k);
        if b.last().style_id == k {
            assert(with_id(a, k) + with_id(b.drop_last(), k).push(b.last()) =~= (with_id(a, k)
                + with_id(b.drop_last(), k)).push(b.last()));
        }
    }
}

proof fn lemma_with_id_none(s: Seq<VoiceStyleInfo>, k: u32)
    requires
        forall|i: int| 0 <= i < s.len() ==> s[i].style_id != k,
    ensures
        with_id(s, k) == Seq::<VoiceStyleInfo>::empty(),
    decreases s.len(),
{
    if s.len() > 0 {
        lemma_with_id_none(s.drop_last(), k);
    }
}

proof fn lemma_with_id_single(x: VoiceStyleInfo, k: u32)
    ensures
        with_id(seq![x], k) == (if x.style_id == k {
            seq![x]
        } else {
            Seq::<VoiceStyleInfo>::empty()
        }),
{
    let e = Seq::<VoiceStyleInfo>::empty();
    assert(seq![x].drop_last() =~= e);
    assert(seq![x].last() == x);
    assert(with_id(e, k) == e);
    assert(seq![x].len() == 1);
    if x.style_id == k {
        assert(Seq::<VoiceStyleInfo>::empty().push(x) =~= seq![x]);
    }
}

/// Orders styles by id, keeping the order of styles with the same id (a stable sort by
/// id): the result is ordered by id, and for every id it holds the styles of the input with
/// that id, in their order there.
pub fn sort_styles(styles: Vec<VoiceStyleInfo>) -> (r: Vec<VoiceStyleInfo>)
    ensures
        sorted_by_id(r@),
        forall|k: u32| #[trigger] with_id(r@, k) == with_id(styles@, k),
        r@.len() == styles@.len(),
{
    let ghost orig = styles@;
    let mut rest = styles;
    let mut r: Vec<VoiceStyleInfo> = Vec::new();
    let mut i: usize = 0;
    let n = rest.len();
    while rest.len() > 0
        invariant
            n == orig.len(),
            i + rest@.len() == n,
            rest@ == orig.skip(i as int),
            r@.len() == i,
            sorted_by_id(r@),
            forall|k: u32| #[trigger] with_id(r@, k) == with_id(orig.take(i as int), k),
        decreases rest.len(),
    {
        let x = rest.remove(0);
        assert(x == orig[i as int]);
        let mut p: usize = 0;
        while p < r.len() && r[p].style_id <= x.style_id
            invariant
                p <= r.len(),
                forall|j: int| 0 <= j < p ==> r@[j].style_id <= x.style_id,
            decreases r.len() - p,
        {
            p = p + 1;
        }
        let ghost before = r@;
        proof {
            assert forall|j: int| p <= j < before.len() implies before[j].style_id > x.style_id by {
                assert(before[p as int].style_id > x.style_id);
            }
        }
        r.insert(p, x);
        proof {
            let a = before.take(p as int);
            let b = before.skip(p as int);
            assert(before =~= a + b);
            assert(r@ =~= a + seq![x] + b);
            assert(orig.take(i + 1) =~= orig.take(i as int) + seq![x]);
            assert forall|k: u32| #[trigger] with_id(r@, k) == with_id(orig.take(i + 1), k) by {
                lemma_with_id_add(a + seq![x], b, k);
                lemma_with_id_add(a, seq![x], k);
                lemma_with_id_add(a, b, k);
                lemma_with_id_add(orig.take(i as int), seq![x], k);
                lemma_with_id_single(x, k);
                if x.style_id == k {
                    lemma_with_id_none(b, k);
                    assert(with_id(a, k) + seq![x] + Seq::<VoiceStyleInfo>::empty() =~= with_id(a, k)
                        + seq![x]);
                    assert(with_id(a, k) + Seq::<VoiceStyleInfo>::empty() =~= with_id(a, k));
                } else {
                    assert(with_id(a, k) + Seq::<VoiceStyleInfo>::empty() =~= with_id(a, k));
                    assert(with_id(orig.take(i as int), k) + Seq::<VoiceStyleInfo>::empty()
                        =~= with_id(orig.take(i as int), k));
                }
            }
            assert forall|s: int, t: int| 0 <= s < t < r@.len() implies r@[s].style_id
                <= r@[t].style_id by {
                if t < p {
                } else if t == p {
                } else if s < p {
                    assert(r@[s] == before[s]);
                    assert(r@[t] == before[t - 1]);
                } else if s == p {
                    assert(r@[t] == before[t - 1]);
                } else {
                    assert(r@[s] == before[s - 1]);
                    assert(r@[t] == before[t - 1]);
                }
            }
            assert(rest@ =~= orig.skip(i + 1));
        }
        i = i + 1;
    }
    assert(orig.take(n as int) =~= orig);
    r
}

// ---------------------------------------------------------------------------
// Looking styles up
// ---------------------------------------------------------------------------

/// Some style of `s` has id `id`.
pub open spec fn has_style(s: Seq<VoiceStyleInfo>, id: u32) -> bool {
    exists|i: int| 0 <= i < s.len() && s[i].style_id == id
}

/// The label of the first style of `s` with id `id`.
pub open spec fn label_for(s: Seq<VoiceStyleInfo>, id: u32) -> Option<Seq<char>>
    decreases s.len(),
{
    if s.len() == 0 {
        None
    } else if s[0].style_id == id {
        Some(s[0].display_label@)
    } else {
        label_for(s.drop_first(), id)
    }
}

/// A style has a label to show exactly where some style has the id.
pub proof fn lemma_label_for_has_style(s: Seq<VoiceStyleInfo>, id: u32)
    ensures
        label_for(s, id) is Some <==> has_style(s, id),
    decreases s.len(),
{
    if s.len() > 0 {
        lemma_label_for_has_style(s.drop_first(), id);
        if has_style(s, id) && s[0].style_id != id {
            let i = choose|i: int| 0 <= i < s.len() && s[i].style_id == id;
            assert(s.drop_first()[i - 1].style_id == id);
        }
        if has_style(s.drop_first(), id) {
            let i = choose|i: int| 0 <= i < s.len() - 1 && s.drop_first()[i].style_id == id;
            assert(s[i + 1].style_id == id);
        }
    }
}

/// Whether some style has id `id`.
pub fn style_exists(styles: &Vec<VoiceStyleInfo>, id: u32) -> (b: bool)
    ensures
        b == has_style(styles@, id),
{
    let mut i: usize = 0;
    while i < styles.len()
        invariant
            i <= styles.len(),
            forall|j: int| 0 <= j < i ==> styles@[j].style_id != id,
        decreases styles.len() - i,
    {
        if styles[i].style_id == id {
            return true;
        }
        i = i + 1;
    }
    false
}

/// The label of the first style with id `id`, if there is one.
pub fn find_style_label(styles: &Vec<VoiceStyleInfo>, id: u32) -> (r: Option<String>)
    ensures
        match label_for(styles@, id) {
            Some(l) => r matches Some(x) && x@ == l,
            None => r is None,
        },
{
    let mut i: usize = 0;
    assert(styles@.skip(0) =~= styles@);
    while i < styles.len()
        invariant
            i <= styles.len(),
            label_for(styles@, id) == label_for(styles@.skip(i as int), id),
        decreases styles.len() - i,
    {
        assert(styles@.skip(i as int)[0] == styles@[i as int]);
        assert(styles@.skip(i as int).drop_first() =~= styles@.skip(i + 1));
        if styles[i].style_id == id {
            return Some(styles[i].display_label.clone());
        }
        i = i + 1;
    }
    None
}

/// The label shown for id `id`: that of the first style with it, or the word for unknown.
pub open spec fn label_or_unknown(s: Seq<VoiceStyleInfo>, id: u32) -> Seq<char> {
    match label_for(s, id) {
        Some(l) => l,
        None => "不明"@,
    }
}

/// The label shown for id `id`: that of the first style with it, or the word for unknown.
pub fn style_label(styles: &Vec<VoiceStyleInfo>, id: u32) -> (r: String)
    ensures
        r@ == label_or_unknown(styles@, id),
{
    match find_style_label(styles, id) {
        Some(l) => l,
        None => String::from_str("不明"),
    }
}

// ---------------------------------------------------------------------------
// The list of styles, page by page
// ---------------------------------------------------------------------------

/// How many styles a page of the list shows.
pub const STYLES_PER_PAGE: usize = 24;

/// The number of pages that list `n` styles.
pub open spec fn page_count(n: nat) -> nat {
    (n + 23) / 24
}

/// The footer of page `i` (counted from 0) of `total`.
pub open spec fn page_footer_text(i: nat, total: nat) -> Seq<char> {
    dec(i + 1) + "/"@ + dec(total) + " ページ　下のリストから話者を選択すると設定されます。"@
}

/// A page of the list of styles: its footer, a field per style (the label, and the id in
/// backquotes), and an option per style for the menu (the label, and the id).
pub struct StylePage {
    pub footer: String,
    pub fields: Vec<(String, String)>,
    pub options: Vec<(String, String)>,
}

/// The number of styles on page `i` of the list of `n` styles.
pub open spec fn page_len(n: nat, i: nat) -> int {
    if n - 24 * i >= 24 {
        24
    } else {
        n - 24 * i
    }
}

/// The field of a style: its label, and its id in backquotes.
pub open spec fn style_field(s: VoiceStyleInfo) -> (Seq<char>, Seq<char>) {
    (s.display_label@, "`"@ + dec(s.style_id as nat) + "`"@)
}

/// The menu option of a style: its label, and its id.
pub open spec fn style_option(s: VoiceStyleInfo) -> (Seq<char>, Seq<char>) {
    (s.display_label@, dec(s.style_id as nat))
}

/// Page `i` of `total` lists, in order, the styles of `s` from the `24 * i`-th on.
pub open spec fn page_ok(p: StylePage, s: Seq<VoiceStyleInfo>, i: nat, total: nat) -> bool {
    let len = page_len(s.len(), i);
    &&& p.footer@ == page_footer_text(i, total)
    &&& p.fields@.len() == len
    &&& p.options@.len() == len
    &&& forall|j: int|
        0 <= j < len ==> (#[trigger] p.fields@[j]).0@ == style_field(s[24 * i + j]).0
            && p.fields@[j].1@ == style_field(s[24 * i + j]).1
            && p.options@[j].0@ == style_option(s[24 * i + j]).0
            && p.options@[j].1@ == style_option(s[24 * i + j]).1
}

fn backquoted_id(id: u32) -> (r: String)
    ensures
        r@ == "`"@ + dec(id as nat) + "`"@,
{
    let mut s = String::from_str("`");
    push_decimal(&mut s, id as u64);
    s.append("`");
    s
}

fn page_footer(i: usize, total: usize) -> (r: String)
    requires
        i < total,
    ensures
        r@ == page_footer_text(i as nat, total as nat),
{
    let mut s = String::new();
    push_decimal(&mut s, (i + 1) as u64);
    s.append("/");
    push_decimal(&mut s, total as u64);
    s.append(" ページ　下のリストから話者を選択すると設定されます。");
    s
}

/// Lays the styles out in pages of 24, each with its footer, fields and menu options.
pub fn build_voice_style_page_with_select(styles: &Vec<VoiceStyleInfo>) -> (pages: Vec<StylePage>)
    ensures
        pages@.len() == page_count(styles@.len()),
        forall|i: int|
            0 <= i < pages@.len() ==> page_ok(
                #[trigger] pages@[i],
                styles@,
                i as nat,
                page_count(styles@.len()),
            ),
{
    let n = styles.len();
    let total: usize = n / STYLES_PER_PAGE + if n % STYLES_PER_PAGE > 0 {
        1
    } else {
        0
    };
    assert(total == page_count(n as nat));
    let mut pages: Vec<StylePage> = Vec::new();
    let mut i: usize = 0;
    let mut start: usize = 0;
    while i < total
        invariant
            n == styles@.len(),
            total == page_count(n as nat),
            i < total ==> start == 24 * i,
            i <= total,
            pages@.len() == i,
            forall|q: int| 0 <= q < i ==> page_ok(#[trigger] pages@[q], styles@, q as nat, total as nat),
        decreases total - i,
    {
        assert(start < n);
        let end: usize = if n - start >= STYLES_PER_PAGE {
            start + STYLES_PER_PAGE
        } else {
            n
        };
        assert(end - start == page_len(n as nat, i as nat));
        let mut fields: Vec<(String, String)> = Vec::new();
        let mut options: Vec<(String, String)> = Vec::new();
        let mut k: usize = start;
        while k < end
            invariant
                start <= k <= end <= n,
                n == styles@.len(),
                fields@.len() == k - start,
                options@.len() == k - start,
                forall|j: int|
                    0 <= j < k - start ==> (#[trigger] fields@[j]).0@ == style_field(
                        styles@[start + j],
                    ).0 && fields@[j].1@ == style_field(styles@[start + j]).1
                        && options@[j].0@ == style_option(styles@[start + j]).0
                        && options@[j].1@ == style_option(styles@[start + j]).1,
            decreases end - k,
        {
            let st = &styles[k];
            fields.push((st.display_label.clone(), backquoted_id(st.style_id)));
            options.push((st.display_label.clone(), decimal_string(st.style_id as u64)));
            k = k + 1;
        }
        let ghost fv = fields@;
        let ghost ov = options@;
        let page = StylePage { footer: page_footer(i, total), fields, options };
        assert(start == 24 * i);
        assert forall|j: int| 0 <= j < page_len(n as nat, i as nat) implies (
        #[trigger] page.fields@[j]).0@ == style_field(styles@[24 * i + j]).0
            && page.fields@[j].1@ == style_field(styles@[24 * i + j]).1
            && page.options@[j].0@ == style_option(styles@[24 * i + j]).0
            && page.options@[j].1@ == style_option(styles@[24 * i + j]).1 by {
            assert(page.fields@[j] == fv[j]);
            assert(page.options@[j] == ov[j]);
            assert(fv[j] == fv[j]);
        }
        assert(page_ok(page, styles@, i as nat, total as nat));
        let ghost old_pages = pages@;
        pages.push(page);
        assert forall|q: int| 0 <= q < i + 1 implies page_ok(
            #[trigger] pages@[q],
            styles@,
            q as nat,
            total as nat,
        ) by {
            if q < i {
                assert(pages@[q] == old_pages[q]);
            }
        }
        i = i + 1;
        if i < total {
            start = start + STYLES_PER_PAGE;
        }
    }
    pages
}

// ---------------------------------------------------------------------------
// Completing a style from what was typed
// ---------------------------------------------------------------------------

/// What was typed picks out a style's label: nothing was typed, or the label holds it.
pub open spec fn style_matches(label: Seq<char>, partial: Seq<char>) -> bool {
    partial.len() == 0 || contains_seq(label, partial)
}

/// The labels and ids of the styles of `s` that `partial` picks out, in order.
pub open spec fn matching_styles(s: Seq<VoiceStyleInfo>, partial: Seq<char>) -> Seq<(Seq<char>, u32)>
    decreases s.len(),
{
    if s.len() == 0 {
        Seq::empty()
    } else if style_matches(s.last().display_label@, partial) {
        matching_styles(s.drop_last(), partial).push((s.last().display_label@, s.last().style_id))
    } else {
        matching_styles(s.drop_last(), partial)
    }
}

/// At most how many choices a completion offers.
pub const MAX_CHOICES: usize = 25;

/// The first `n` items of `s`, or all of them where there are fewer.
pub open spec fn at_most<T>(s: Seq<T>, n: nat) -> Seq<T> {
    if s.len() <= n {
        s
    } else {
        s.take(n as int)
    }
}

/// The views of a list of choices.
pub open spec fn choice_views(v: Seq<(String, u32)>) -> Seq<(Seq<char>, u32)> {
    v.map_values(|p: (String, u32)| (p.0@, p.1))
}

/// The choices offered for what was typed: the first 25 styles whose label holds it (all
/// styles, up to 25, where nothing was typed), each as its label and id.
pub fn autocomplete_voice_style(styles: &Vec<VoiceStyleInfo>, partial: &str) -> (r: Vec<(String, u32)>)
    ensures
        choice_views(r@) == at_most(matching_styles(styles@, partial@), 25),
{
    let mut r: Vec<(String, u32)> = Vec::new();
    let mut i: usize = 0;
    let empty = partial.is_empty();
    while i < styles.len()
        invariant
            i <= styles.len(),
            empty == (partial@.len() == 0),
            r@.len() <= 25,
            choice_views(r@) == at_most(matching_styles(styles@.take(i as int), partial@), 25),
        decreases styles.len() - i,
    {
        let st = &styles[i];
        let ghost before = matching_styles(styles@.take(i as int), partial@);
        assert(styles@.take(i + 1).drop_last() =~= styles@.take(i as int));
        assert(styles@.take(i + 1).last() == styles@[i as int]);
        let hit = empty || str_contains(st.display_label.as_str(), partial);
        if hit {
            if r.len() < 25 {
                let ghost rv = r@;
                r.push((st.display_label.clone(), st.style_id));
                assert(choice_views(r@) =~= choice_views(rv).push((st.display_label@, st.style_id)));
            } else {
                assert(before.push((st.display_label@, st.style_id)).take(25) =~= before.take(25));
            }
        }
        i = i + 1;
    }
    assert(styles@.take(styles.len() as int) =~= styles@);
    r
}

// ---------------------------------------------------------------------------
// Choosing a speaker
// ---------------------------------------------------------------------------

/// What becomes of a request to set a speaker: the id names no style (with the reply that
/// says so), or the setting is saved (the new speaker, none to clear it, and the reply).
pub enum SpeakerUpdate {
    Unknown(String),
    Saved { speaker: Option<u32>, message: String },
}

/// The reply to a member who names an id that no style has.
pub open spec fn unknown_id_text(id: u32) -> Seq<char> {
    "ID `"@ + dec(id as nat) + "` は存在しません。/voice_stylesで確認してください。"@
}

/// The reply to a member who sets their speaker (`Some`) or clears it (`None`).
pub open spec fn speaker_set_text(s: Seq<VoiceStyleInfo>, id: Option<u32>) -> Seq<char> {
    match id {
        Some(i) => "話者を`"@ + label_or_unknown(s, i) + "`に設定しました。"@,
        None => "話者の設定を解除しました。\n（サーバーの既定値が使用されます。）"@,
    }
}

fn wrapped(head: &str, middle: &str, tail: &str) -> (r: String)
    ensures
        r@ == head@ + middle@ + tail@,
{
    let mut s = String::from_str(head);
    s.append(middle);
    s.append(tail);
    s
}

fn wrapped_id(head: &str, id: u32, tail: &str) -> (r: String)
    ensures
        r@ == head@ + dec(id as nat) + tail@,
{
    let mut s = String::from_str(head);
    push_decimal(&mut s, id as u64);
    s.append(tail);
    s
}

/// A member sets their own speaker: an id that no style has is refused; otherwise the
/// setting becomes the id given (none clears it), and the reply names the style.
pub fn user_speaker_update(styles: &Vec<VoiceStyleInfo>, style_id: Option<u32>) -> (u: SpeakerUpdate)
    ensures
        match style_id {
            Some(id) if !has_style(styles@, id) => u matches SpeakerUpdate::Unknown(m) && m@
                == unknown_id_text(id),
            _ => u matches SpeakerUpdate::Saved { speaker, message } && speaker == style_id
                && message@ == speaker_set_text(styles@, style_id),
        },
{
    match style_id {
        Some(id) => {
            if !style_exists(styles, id) {
                return SpeakerUpdate::Unknown(
                    wrapped_id("ID `", id, "` は存在しません。/voice_stylesで確認してください。"),
                );
            }
            let label = style_label(styles, id);
            SpeakerUpdate::Saved {
                speaker: Some(id),
                message: wrapped("話者を`", label.as_str(), "`に設定しました。"),
            }
        },
        None => SpeakerUpdate::Saved {
            speaker: None,
            message: String::from_str("話者の設定を解除しました。\n（サーバーの既定値が使用されます。）"),
        },
    }
}

/// An administrator sets the guild's default speaker: an id that no style has is refused;
/// otherwise the default becomes that id, and the reply names the style.
pub fn server_speaker_update(styles: &Vec<VoiceStyleInfo>, style_id: u32) -> (u: SpeakerUpdate)
    ensures
        !has_style(styles@, style_id) ==> (u matches SpeakerUpdate::Unknown(m) && m@ == "`"@
            + dec(style_id as nat) + "`は存在しません。/voice_stylesで確認してください。"@),
        has_style(styles@, style_id) ==> (u matches SpeakerUpdate::Saved { speaker, message }
            && speaker == Some(style_id) && message@ == "サーバーのデフォルト話者を`"@
            + label_or_unknown(styles@, style_id) + "`に設定しました。"@),
{
    if !style_exists(styles, style_id) {
        return SpeakerUpdate::Unknown(
            wrapped_id("`", style_id, "`は存在しません。/voice_stylesで確認してください。"),
        );
    }
    let label = style_label(styles, style_id);
    SpeakerUpdate::Saved {
        speaker: Some(style_id),
        message: wrapped("サーバーのデフォルト話者を`", label.as_str(), "`に設定しました。"),
    }
}

/// What an administrator's request to set another member's speaker comes to: clear it, set
/// it, refuse an id that no style has (with the reply), or show the list to choose from.
pub enum ManagedSpeaker {
    Clear,
    Choose(u32),
    Unknown(String),
    ShowList,
}

/// Decides an administrator's request to set another member's speaker: a reset clears it;
/// else an id is set if some style has it and refused if none does; with neither, the list
/// is shown.
pub fn managed_speaker_choice(
    styles: &Vec<VoiceStyleInfo>,
    reset: Option<bool>,
    style_id: Option<u32>,
) -> (c: ManagedSpeaker)
    ensures
        reset == Some(true) ==> c is Clear,
        reset != Some(true) ==> match style_id {
            Some(id) => if has_style(styles@, id) {
                c == ManagedSpeaker::Choose(id)
            } else {
                c matches ManagedSpeaker::Unknown(m) && m@ == "ID`"@ + dec(id as nat)
                    + "`は存在しません。一覧を確認するにはstyle_idを指定せずにコマンドを実行してください。"@
            },
            None => c is ShowList,
        },
{
    let reset_on = match reset {
        Some(b) => b,
        None => false,
    };
    if reset_on {
        return ManagedSpeaker::Clear;
    }
    match style_id {
        Some(id) => {
            if style_exists(styles, id) {
                ManagedSpeaker::Choose(id)
            } else {
                ManagedSpeaker::Unknown(
                    wrapped_id(
                        "ID`",
                        id,
                        "`は存在しません。一覧を確認するにはstyle_idを指定せずにコマンドを実行してください。",
                    ),
                )
            }
        },
        None => ManagedSpeaker::ShowList,
    }
}

/// The style chosen from the list: the value of the chosen option, read as an id.
pub fn chosen_style(selected: Option<String>) -> (r: Option<u32>)
    ensures
        r == match selected {
            Some(v) => parse_u32_spec(v@),
            None => None,
        },
{
    match selected {
        Some(v) => parse_u32(v.as_str()),
        None => None,
    }
}

/// The reply after an administrator set (`Some`) or cleared (`None`) a member's speaker.
pub open spec fn managed_speaker_text(s: Seq<VoiceStyleInfo>, target: Seq<char>, id: Option<u32>) -> Seq<char> {
    match id {
        Some(i) => target + "の話者を`"@ + label_or_unknown(s, i) + "`に設定しました。"@,
        None => target + "の話者の設定を解除しました。"@,
    }
}

/// The reply after an administrator set (`Some`) or cleared (`None`) a member's speaker.
pub fn managed_speaker_message(styles: &Vec<VoiceStyleInfo>, target: &str, id: Option<u32>) -> (r: String)
    ensures
        r@ == managed_speaker_text(styles@, target@, id),
{
    match id {
        Some(i) => {
            let label = style_label(styles, i);
            let mut s = String::from_str(target);
            s.append("の話者を`");
            s.append(label.as_str());
            s.append("`に設定しました。");
            s
        },
        None => {
            let mut s = String::from_str(target);
            s.append("の話者の設定を解除しました。");
            s
        },
    }
}

/// The speaker shown in a member's settings: the label of the style stored (the first
/// with that id), or the word for unset where none is stored or no style has it.
pub open spec fn shown_speaker_text(s: Seq<VoiceStyleInfo>, speaker: Option<i32>) -> Seq<char> {
    match speaker {
        Some(id) => match label_for(s, id as u32) {
            Some(l) => l,
            None => "（未設定）"@,
        },
        None => "（未設定）"@,
    }
}

/// The speaker shown in a member's settings.
pub fn shown_speaker(styles: &Vec<VoiceStyleInfo>, speaker: Option<i32>) -> (r: String)
    ensures
        r@ == shown_speaker_text(styles@, speaker),
{
    match speaker {
        Some(id) => match find_style_label(styles, id as u32) {
            Some(l) => l,
            None => String::from_str("（未設定）"),
        },
        None => String::from_str("（未設定）"),
    }
}

} // verus!
