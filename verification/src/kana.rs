use vstd::prelude::*;
use crate::text::{chars_of, string_of, extend_chars, str_eq};
use crate::settings::{label_of, pair_views};

verus! {

/// `c` is an ASCII letter.
pub open spec fn is_letter(c: char) -> bool {
    ('a' <= c <= 'z') || ('A' <= c <= 'Z')
}

/// `c` is an ASCII capital letter.
pub open spec fn is_capital(c: char) -> bool {
    'A' <= c <= 'Z'
}

/// `c` in lower case, for ASCII letters.
pub open spec fn lower(c: char) -> char {
    if is_capital(c) {
        ((c as u32) + 32) as char
    } else {
        c
    }
}

/// The end of the run of ASCII letters that starts at `i`.
pub open spec fn letters_end(s: Seq<char>, i: int) -> int
    decreases s.len() - i,
{
    if i < 0 || i >= s.len() || !is_letter(s[i]) {
        i
    } else {
        letters_end(s, i + 1)
    }
}

pub proof fn lemma_letters_end(s: Seq<char>, i: int)
    requires
        0 <= i <= s.len(),
    ensures
        i <= letters_end(s, i) <= s.len(),
        i < s.len() && is_letter(s[i]) ==> letters_end(s, i) > i,
        forall|k: int| i <= k < letters_end(s, i) ==> is_letter(#[trigger] s[k]),
    decreases s.len() - i,
{
    if i < s.len() && is_letter(s[i]) {
        lemma_letters_end(s, i + 1);
    }
}

/// Every character of the word is a capital letter (an acronym, which is kept as it is).
pub open spec fn all_capitals(w: Seq<char>) -> bool {
    forall|k: int| 0 <= k < w.len() ==> is_capital(#[trigger] w[k])
}

/// How an English word is read: an acronym as it is; any other word by the reading that the
/// table gives for it in lower case, or as it is when the table has none.
pub open spec fn word_reading(w: Seq<char>, table: Seq<(Seq<char>, Seq<char>)>) -> Seq<char> {
    if all_capitals(w) {
        w
    } else {
        match label_of(table, w.map_values(|c: char| lower(c))) {
            Some(k) => k,
            None => w,
        }
    }
}

/// `s[i..]` with each run of ASCII letters (`[a-zA-Z]+`) replaced by its reading.
pub open spec fn kana_from(s: Seq<char>, i: int, table: Seq<(Seq<char>, Seq<char>)>) -> Seq<char>
    decreases s.len() - i,
{
    if i < 0 || i >= s.len() {
        Seq::empty()
    } else if is_letter(s[i]) {
        proof {
            lemma_letters_end(s, i);
        }
        word_reading(s.subrange(i, letters_end(s, i)), table) + kana_from(s, letters_end(s, i), table)
    } else {
        seq![s[i]] + kana_from(s, i + 1, table)
    }
}

/// The words of `s[i..]`, in lower case, that need a reading: every run of ASCII letters that
/// is not an acronym.
pub open spec fn words_from(s: Seq<char>, i: int) -> Seq<Seq<char>>
    decreases s.len() - i,
{
    if i < 0 || i >= s.len() {
        Seq::empty()
    } else if is_letter(s[i]) {
        proof {
            lemma_letters_end(s, i);
        }
        let w = s.subrange(i, letters_end(s, i));
        (if all_capitals(w) {
            Seq::empty()
        } else {
            seq![w.map_values(|c: char| lower(c))]
        }) + words_from(s, letters_end(s, i))
    } else {
        words_from(s, i + 1)
    }
}

fn letter(c: char) -> (b: bool)
    ensures
        b == is_letter(c),
{
    ('a' <= c && c <= 'z') || ('A' <= c && c <= 'Z')
}

fn find_letters_end(v: &Vec<char>, i: usize) -> (e: usize)
    requires
        i <= v.len(),
    ensures
        e == letters_end(v@, i as int),
        i <= e <= v.len(),
        i < v.len() && is_letter(v@[i as int]) ==> e > i,
{
    let mut e = i;
    while e < v.len() && letter(v[e])
        invariant
            i <= e <= v.len(),
            letters_end(v@, e as int) == letters_end(v@, i as int),
        decreases v.len() - e,
    {
        e = e + 1;
    }
    e
}

/// The word `v[i..e]`, whether it is an acronym, and the word in lower case.
fn word_at(v: &Vec<char>, i: usize, e: usize) -> (r: (Vec<char>, bool, Vec<char>))
    requires
        i <= e <= v.len(),
    ensures
        r.0@ == v@.subrange(i as int, e as int),
        r.1 == all_capitals(v@.subrange(i as int, e as int)),
        r.2@ == v@.subrange(i as int, e as int).map_values(|c: char| lower(c)),
{
    let mut w: Vec<char> = Vec::new();
    let mut low: Vec<char> = Vec::new();
    let mut caps = true;
    let mut k = i;
    while k < e
        invariant
            i <= k <= e <= v.len(),
            w@ == v@.subrange(i as int, k as int),
            low@ == v@.subrange(i as int, k as int).map_values(|c: char| lower(c)),
            caps == all_capitals(v@.subrange(i as int, k as int)),
        decreases e - k,
    {
        let c = v[k];
        let l = if 'A' <= c && c <= 'Z' {
            let b: u8 = (c as u32 - 'A' as u32) as u8 + 97u8;
            b as char
        } else {
            c
        };
        w.push(c);
        low.push(l);
        if !('A' <= c && c <= 'Z') {
            caps = false;
        }
        k = k + 1;
        assert(v@.subrange(i as int, k as int) == v@.subrange(i as int, k - 1).push(c));
        proof {
            let prev = v@.subrange(i as int, k - 1);
            let next = prev.push(c);
            if all_capitals(prev) && is_capital(c) {
                assert forall|j: int| 0 <= j < next.len() implies is_capital(#[trigger] next[j]) by {
                    if j < prev.len() {
                        assert(next[j] == prev[j]);
                    }
                }
            }
            if all_capitals(next) {
                assert forall|j: int| 0 <= j < prev.len() implies is_capital(#[trigger] prev[j]) by {
                    assert(next[j] == prev[j]);
                }
                assert(next[prev.len() as int] == c);
            }
        }
        assert(v@.subrange(i as int, k as int).map_values(|c: char| lower(c)) =~= v@.subrange(
            i as int,
            k - 1,
        ).map_values(|c: char| lower(c)).push(lower(c)));
    }
    (w, caps, low)
}

/// The lower-case English words of a text that need a reading, in order: the runs of ASCII
/// letters that are not acronyms.
pub fn kana_targets(text: &str) -> (r: Vec<String>)
    ensures
        crate::text::string_views(r@) == words_from(text@, 0),
{
    let v = chars_of(text);
    let mut out: Vec<String> = Vec::new();
    let mut i: usize = 0;
    while i < v.len()
        invariant
            i <= v.len(),
            crate::text::string_views(out@) + words_from(v@, i as int) == words_from(v@, 0),
        decreases v.len() - i,
    {
        let ghost before = crate::text::string_views(out@);
        if letter(v[i]) {
            let e = find_letters_end(&v, i);
            let (_w, caps, low) = word_at(&v, i, e);
            if !caps {
                let s = string_of(&low);
                out.push(s);
                assert(crate::text::string_views(out@) =~= before.push(s@));
            }
            assert(crate::text::string_views(out@) + words_from(v@, e as int) =~= before + words_from(v@, i as int));
            i = e;
        } else {
            i = i + 1;
        }
    }
    assert(crate::text::string_views(out@) + Seq::<Seq<char>>::empty() =~= crate::text::string_views(out@));
    out
}

fn table_lookup(table: &Vec<(String, String)>, key: &Vec<char>) -> (r: Option<String>)
    ensures
        match label_of(pair_views(table@), key@) {
            Some(l) => r matches Some(x) && x@ == l,
            None => r is None,
        },
{
    let ghost t = pair_views(table@);
    let k = string_of(key);
    let mut i: usize = 0;
    assert(t.skip(0) == t);
    while i < table.len()
        invariant
            i <= table.len(),
            t == pair_views(table@),
            k@ == key@,
            label_of(t, key@) == label_of(t.skip(i as int), key@),
        decreases table.len() - i,
    {
        assert(t.skip(i as int)[0] == (table@[i as int].0@, table@[i as int].1@));
        assert(t.skip(i as int).drop_first() =~= t.skip(i + 1));
        if str_eq(table[i].0.as_str(), k.as_str()) {
            return Some(table[i].1.clone());
        }
        i = i + 1;
    }
    None
}

/// Replaces each English word of a text by its reading: an acronym is kept; any other word
/// is replaced by the reading that `table` (lower-case word, reading) gives for it in lower
/// case, and is kept when the table has none.
pub fn apply_kanalizer(text: &str, table: &Vec<(String, String)>) -> (r: String)
    ensures
        r@ == kana_from(text@, 0, pair_views(table@)),
{
    let v = chars_of(text);
    let ghost t = pair_views(table@);
    let mut out: Vec<char> = Vec::new();
    let mut i: usize = 0;
    while i < v.len()
        invariant
            i <= v.len(),
            t == pair_views(table@),
            out@ + kana_from(v@, i as int, t) == kana_from(v@, 0, t),
        decreases v.len() - i,
    {
        let ghost before = out@;
        if letter(v[i]) {
            let e = find_letters_end(&v, i);
            let (w, caps, low) = word_at(&v, i, e);
            if caps {
                extend_chars(&mut out, &w);
            } else {
                match table_lookup(table, &low) {
                    Some(k) => {
                        let kv = chars_of(k.as_str());
                        extend_chars(&mut out, &kv);
                    },
                    None => extend_chars(&mut out, &w),
                }
            }
            assert(out@ + kana_from(v@, e as int, t) =~= before + kana_from(v@, i as int, t));
            i = e;
        } else {
            out.push(v[i]);
            assert(out@ + kana_from(v@, i + 1, t) =~= before + kana_from(v@, i as int, t));
            i = i + 1;
        }
    }
    assert(out@ + Seq::<char>::empty() == out@);
    string_of(&out)
}

/// With no readings at hand, a text is left as it is.
pub proof fn law_no_readings_keep_text(s: Seq<char>)
    ensures
        kana_from(s, 0, Seq::empty()) == s,
{
    lemma_no_readings_from(s, 0);
    assert(s.subrange(0, s.len() as int) == s);
}

proof fn lemma_no_readings_from(s: Seq<char>, i: int)
    requires
        0 <= i <= s.len(),
    ensures
        kana_from(s, i, Seq::empty()) == s.subrange(i, s.len() as int),
    decreases s.len() - i,
{
    if i < s.len() {
        if is_letter(s[i]) {
            lemma_letters_end(s, i);
            let e = letters_end(s, i);
            lemma_no_readings_from(s, e);
            assert(label_of(Seq::<(Seq<char>, Seq<char>)>::empty(), s.subrange(i, e).map_values(|c: char| lower(c))) is None);
            assert(s.subrange(i, e) + s.subrange(e, s.len() as int) =~= s.subrange(i, s.len() as int));
        } else {
            lemma_no_readings_from(s, i + 1);
            assert(seq![s[i]] + s.subrange(i + 1, s.len() as int) =~= s.subrange(i, s.len() as int));
        }
    } else {
        assert(s.subrange(i, s.len() as int) =~= Seq::<char>::empty());
    }
}

/// `w` is the lower-case word `l` with any of its letters written as capitals.
pub open spec fn case_variant_of(w: Seq<char>, l: Seq<char>) -> bool {
    &&& w.len() == l.len()
    &&& forall|k: int| 0 <= k < l.len() ==> 'a' <= #[trigger] l[k] <= 'z'
    &&& forall|k: int|
        0 <= k < w.len() ==> #[trigger] w[k] == l[k] || (w[k] as int) + 32 == (l[k] as int)
}

proof fn lemma_lowered_variant(w: Seq<char>, l: Seq<char>)
    requires
        case_variant_of(w, l),
    ensures
        w.map_values(|c: char| lower(c)) == l,
        forall|k: int| 0 <= k < w.len() ==> is_letter(#[trigger] w[k]),
{
    let lw = w.map_values(|c: char| lower(c));
    assert forall|k: int| 0 <= k < w.len() implies #[trigger] lw[k] == l[k] && is_letter(w[k]) by {
        assert('a' <= l[k] <= 'z');
        if w[k] != l[k] {
            assert((w[k] as int) + 32 == (l[k] as int));
            assert(is_capital(w[k]));
            assert(((w[k] as u32) + 32) as char == l[k]);
        }
    }
    assert(lw =~= l);
}

/// The reading of a word that is not an acronym does not depend on how its letters are
/// cased: it is the table's reading of the whole word in lower case.
pub proof fn law_reading_ignores_case(w: Seq<char>, l: Seq<char>, table: Seq<(Seq<char>, Seq<char>)>, k: Seq<char>)
    requires
        case_variant_of(w, l),
        !all_capitals(w),
        label_of(table, l) == Some(k),
    ensures
        word_reading(w, table) == k,
{
    lemma_lowered_variant(w, l);
}

/// A text that is one word, not an acronym, asks for the reading of the word in lower case,
/// and, where the table holds that reading, is read as it.
pub proof fn law_word_asked_for_is_read(w: Seq<char>, l: Seq<char>, table: Seq<(Seq<char>, Seq<char>)>, k: Seq<char>)
    requires
        w.len() > 0,
        case_variant_of(w, l),
        !all_capitals(w),
        label_of(table, l) == Some(k),
    ensures
        words_from(w, 0) == seq![l],
        kana_from(w, 0, table) == k,
{
    lemma_lowered_variant(w, l);
    lemma_letters_run(w, 0);
    assert(w.subrange(0, w.len() as int) == w);
    assert(words_from(w, w.len() as int) == Seq::<Seq<char>>::empty());
    assert(kana_from(w, w.len() as int, table) == Seq::<char>::empty());
    assert(seq![l] + Seq::<Seq<char>>::empty() =~= seq![l]);
    assert(k + Seq::<char>::empty() =~= k);
}

proof fn lemma_letters_run(w: Seq<char>, i: int)
    requires
        0 <= i <= w.len(),
        forall|k: int| 0 <= k < w.len() ==> is_letter(#[trigger] w[k]),
    ensures
        letters_end(w, i) == w.len(),
    decreases w.len() - i,
{
    if i < w.len() {
        assert(is_letter(w[i]));
        lemma_letters_run(w, i + 1);
    }
}

/// An acronym is read as it is, whatever readings are at hand.
pub proof fn law_acronyms_are_kept(w: Seq<char>, table: Seq<(Seq<char>, Seq<char>)>)
    requires
        all_capitals(w),
    ensures
        word_reading(w, table) == w,
{
}

} // verus!
