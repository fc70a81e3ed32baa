use vstd::prelude::*;
use crate::text::{is_ws, is_whitespace, chars_of, string_of, extend_str};

verus! {

// ---------------------------------------------------------------------------
// Runs of characters
// ---------------------------------------------------------------------------

/// The end of the run of non-whitespace characters that starts at `i`.
pub open spec fn nonws_end(s: Seq<char>, i: int) -> int
    decreases s.len() - i,
{
    if i < 0 || i >= s.len() || is_ws(s[i]) {
        i
    } else {
        nonws_end(s, i + 1)
    }
}

/// The end of the run of whitespace characters that starts at `i`.
pub open spec fn ws_end(s: Seq<char>, i: int) -> int
    decreases s.len() - i,
{
    if i < 0 || i >= s.len() || !is_ws(s[i]) {
        i
    } else {
        ws_end(s, i + 1)
    }
}

pub proof fn lemma_nonws_end(s: Seq<char>, i: int)
    requires
        0 <= i <= s.len(),
    ensures
        i <= nonws_end(s, i) <= s.len(),
        forall|k: int| i <= k < nonws_end(s, i) ==> !is_ws(#[trigger] s[k]),
        nonws_end(s, i) == s.len() || is_ws(s[nonws_end(s, i)]),
    decreases s.len() - i,
{
    if i < s.len() && !is_ws(s[i]) {
        lemma_nonws_end(s, i + 1);
    }
}

pub proof fn lemma_ws_end(s: Seq<char>, i: int)
    requires
        0 <= i <= s.len(),
    ensures
        i <= ws_end(s, i) <= s.len(),
    decreases s.len() - i,
{
    if i < s.len() && is_ws(s[i]) {
        lemma_ws_end(s, i + 1);
    }
}

fn find_nonws_end(v: &Vec<char>, i: usize) -> (r: usize)
    requires
        i <= v.len(),
    ensures
        r as int == nonws_end(v@, i as int),
        i <= r <= v.len(),
{
    let mut j = i;
    while j < v.len() && !is_whitespace(v[j])
        invariant
            i <= j <= v.len(),
            nonws_end(v@, j as int) == nonws_end(v@, i as int),
        decreases v.len() - j,
    {
        j = j + 1;
    }
    j
}

fn find_ws_end(v: &Vec<char>, i: usize) -> (r: usize)
    requires
        i <= v.len(),
    ensures
        r as int == ws_end(v@, i as int),
        i <= r <= v.len(),
{
    let mut j = i;
    while j < v.len() && is_whitespace(v[j])
        invariant
            i <= j <= v.len(),
            ws_end(v@, j as int) == ws_end(v@, i as int),
        decreases v.len() - j,
    {
        j = j + 1;
    }
    j
}

// ---------------------------------------------------------------------------
// Code blocks: ```lang ... ```
// ---------------------------------------------------------------------------

/// Three backticks start at `j`.
pub open spec fn triple_at(s: Seq<char>, j: int) -> bool {
    0 <= j && j + 3 <= s.len() && s[j] == '`' && s[j + 1] == '`' && s[j + 2] == '`'
}

/// The first place at or after `j` where three backticks start.
pub open spec fn first_triple(s: Seq<char>, j: int) -> Option<int>
    decreases s.len() - j,
{
    if j < 0 || j + 3 > s.len() {
        None
    } else if triple_at(s, j) {
        Some(j)
    } else {
        first_triple(s, j + 1)
    }
}

/// The last place in `lo..=hi` where three backticks start.
pub open spec fn last_triple(s: Seq<char>, lo: int, hi: int) -> Option<int>
    decreases hi - lo + 1,
{
    if hi < lo {
        None
    } else if triple_at(s, hi) {
        Some(hi)
    } else {
        last_triple(s, lo, hi - 1)
    }
}

pub proof fn lemma_first_triple(s: Seq<char>, j: int)
    requires
        0 <= j,
    ensures
        first_triple(s, j) matches Some(k) ==> j <= k && triple_at(s, k),
    decreases s.len() - j,
{
    if j + 3 <= s.len() && !triple_at(s, j) {
        lemma_first_triple(s, j + 1);
    }
}

pub proof fn lemma_last_triple(s: Seq<char>, lo: int, hi: int)
    ensures
        last_triple(s, lo, hi) matches Some(t) ==> lo <= t <= hi && triple_at(s, t),
    decreases hi - lo + 1,
{
    if hi >= lo && !triple_at(s, hi) {
        lemma_last_triple(s, lo, hi - 1);
    }
}

/// A code block starting at `i`, as the pattern ```` ```(?P<lang>[^\n\s]*)\s*\n?.*?``` ````
/// (dot matching newlines) matches it, leftmost-first: the end of the match and the end of
/// the language name (which starts right after the opening backticks).
///
/// The language name takes the whole run of non-whitespace characters when a closing
/// ```` ``` ```` follows the whitespace after it; otherwise it gives back characters up to
/// the last ```` ``` ```` inside the run, which then closes the block.
pub open spec fn codeblock_at(s: Seq<char>, i: int) -> Option<(int, int)> {
    if !triple_at(s, i) {
        None
    } else {
        let q = nonws_end(s, i + 3);
        let p = ws_end(s, q);
        match first_triple(s, p) {
            Some(j) => Some((j + 3, q)),
            None => match last_triple(s, i + 3, q - 3) {
                Some(t) => Some((t + 3, t)),
                None => None,
            },
        }
    }
}

pub proof fn lemma_codeblock_at(s: Seq<char>, i: int)
    requires
        0 <= i <= s.len(),
    ensures
        codeblock_at(s, i) matches Some((e, l)) ==> i + 3 <= l && l + 3 <= e <= s.len(),
{
    if triple_at(s, i) {
        let q = nonws_end(s, i + 3);
        lemma_nonws_end(s, i + 3);
        lemma_ws_end(s, q);
        let p = ws_end(s, q);
        lemma_first_triple(s, p);
        lemma_last_triple(s, i + 3, q - 3);
    }
}

/// What a code block is read as: "コードブロック", followed by its language when it names one.
pub open spec fn codeblock_text(lang: Seq<char>) -> Seq<char> {
    if lang.len() == 0 {
        "コードブロック"@
    } else {
        "コードブロック "@ + lang
    }
}

/// `s[i..]` with every code block replaced by what it is read as.
pub open spec fn replace_codeblocks(s: Seq<char>, i: int) -> Seq<char>
    decreases s.len() - i,
{
    if i < 0 || i >= s.len() {
        Seq::empty()
    } else {
        match codeblock_at(s, i) {
            Some((e, l)) => {
                proof {
                    lemma_codeblock_at(s, i);
                }
                codeblock_text(s.subrange(i + 3, l)) + replace_codeblocks(s, e)
            },
            None => seq![s[i]] + replace_codeblocks(s, i + 1),
        }
    }
}

fn is_triple_at(v: &Vec<char>, j: usize) -> (b: bool)
    ensures
        b == triple_at(v@, j as int),
{
    j <= v.len() && v.len() - j >= 3 && v[j] == '`' && v[j + 1] == '`' && v[j + 2] == '`'
}

fn find_first_triple(v: &Vec<char>, j: usize) -> (r: Option<usize>)
    requires
        j <= v.len(),
    ensures
        match first_triple(v@, j as int) {
            Some(k) => r == Some(k as usize),
            None => r is None,
        },
{
    let mut k = j;
    while v.len() - k >= 3
        invariant
            j <= k <= v.len(),
            first_triple(v@, k as int) == first_triple(v@, j as int),
        decreases v.len() - k,
    {
        if is_triple_at(v, k) {
            return Some(k);
        }
        k = k + 1;
    }
    None
}

/// The last triple in `lo..=hi` where `hi = end - 3`.
fn find_last_triple(v: &Vec<char>, lo: usize, end: usize) -> (r: Option<usize>)
    requires
        lo <= end <= v.len(),
    ensures
        match last_triple(v@, lo as int, end - 3) {
            Some(t) => r == Some(t as usize),
            None => r is None,
        },
{
    if end - lo < 3 {
        return None;
    }
    let mut hi = end - 3;
    loop
        invariant
            lo <= hi,
            hi + 3 <= end <= v.len(),
            last_triple(v@, lo as int, hi as int) == last_triple(v@, lo as int, end - 3),
        decreases hi - lo,
    {
        if is_triple_at(v, hi) {
            return Some(hi);
        }
        if hi == lo {
            assert(last_triple(v@, lo as int, hi - 1) is None);
            return None;
        }
        hi = hi - 1;
    }
}

fn find_codeblock(v: &Vec<char>, i: usize) -> (r: Option<(usize, usize)>)
    requires
        i < v.len(),
    ensures
        match codeblock_at(v@, i as int) {
            Some((e, l)) => r == Some((e as usize, l as usize)),
            None => r is None,
        },
{
    proof {
        lemma_codeblock_at(v@, i as int);
    }
    if !is_triple_at(v, i) {
        return None;
    }
    let q = find_nonws_end(v, i + 3);
    let p = find_ws_end(v, q);
    match find_first_triple(v, p) {
        Some(j) => {
            proof {
                lemma_first_triple(v@, p as int);
            }
            Some((j + 3, q))
        },
        None => match find_last_triple(v, i + 3, q) {
            Some(t) => {
                proof {
                    lemma_last_triple(v@, i + 3, q - 3);
                }
                Some((t + 3, t))
            },
            None => None,
        },
    }
}

fn codeblock_pass(v: &Vec<char>) -> (r: Vec<char>)
    ensures
        r@ == replace_codeblocks(v@, 0),
{
    let mut out: Vec<char> = Vec::new();
    let mut i: usize = 0;
    while i < v.len()
        invariant
            i <= v.len(),
            out@ + replace_codeblocks(v@, i as int) == replace_codeblocks(v@, 0),
        decreases v.len() - i,
    {
        let ghost old_out = out@;
        match find_codeblock(v, i) {
            Some((e, l)) => {
                proof {
                    lemma_codeblock_at(v@, i as int);
                }
                if l == i + 3 {
                    extend_str(&mut out, "コードブロック");
                } else {
                    extend_str(&mut out, "コードブロック ");
                    let mut k = i + 3;
                    while k < l
                        invariant
                            i + 3 <= k <= l <= v.len(),
                            out@ == old_out + "コードブロック "@ + v@.subrange(i + 3, k as int),
                        decreases l - k,
                    {
                        out.push(v[k]);
                        k = k + 1;
                        assert(v@.subrange(i + 3, k as int) == v@.subrange(i + 3, k - 1).push(
                            v@[k - 1],
                        ));
                    }
                }
                assert(out@ =~= old_out + codeblock_text(v@.subrange(i + 3, l as int)));
                assert(out@ + replace_codeblocks(v@, e as int) =~= old_out + replace_codeblocks(
                    v@,
                    i as int,
                ));
                i = e;
            },
            None => {
                out.push(v[i]);
                assert(out@ + replace_codeblocks(v@, i + 1) =~= old_out + replace_codeblocks(
                    v@,
                    i as int,
                ));
                i = i + 1;
            },
        }
    }
    assert(out@ + replace_codeblocks(v@, i as int) == out@ + Seq::<char>::empty());
    assert(out@ + Seq::<char>::empty() == out@);
    out
}

// ---------------------------------------------------------------------------
// Spoilers: ||...||
// ---------------------------------------------------------------------------

/// Two pipes start at `j`.
pub open spec fn pipes_at(s: Seq<char>, j: int) -> bool {
    0 <= j && j + 2 <= s.len() && s[j] == '|' && s[j + 1] == '|'
}

/// The first place at or after `j` where two pipes start.
pub open spec fn first_pipes(s: Seq<char>, j: int) -> Option<int>
    decreases s.len() - j,
{
    if j < 0 || j + 2 > s.len() {
        None
    } else if pipes_at(s, j) {
        Some(j)
    } else {
        first_pipes(s, j + 1)
    }
}

pub proof fn lemma_first_pipes(s: Seq<char>, j: int)
    requires
        0 <= j,
    ensures
        first_pipes(s, j) matches Some(k) ==> j <= k && pipes_at(s, k),
    decreases s.len() - j,
{
    if j + 2 <= s.len() && !pipes_at(s, j) {
        lemma_first_pipes(s, j + 1);
    }
}

/// A spoiler starting at `i`, as `(?s)\|\|(.*?)\|\|` matches it: where its closing pipes start.
pub open spec fn spoiler_at(s: Seq<char>, i: int) -> Option<int> {
    if pipes_at(s, i) {
        first_pipes(s, i + 2)
    } else {
        None
    }
}

/// `s[i..]` with every spoiler replaced: by its content when `reveal` holds, otherwise by
/// the word for a spoiler.
pub open spec fn replace_spoilers(s: Seq<char>, i: int, reveal: bool) -> Seq<char>
    decreases s.len() - i,
{
    if i < 0 || i >= s.len() {
        Seq::empty()
    } else {
        match spoiler_at(s, i) {
            Some(j) => {
                proof {
                    lemma_first_pipes(s, i + 2);
                }
                (if reveal {
                    s.subrange(i + 2, j)
                } else {
                    "スポイラー"@
                }) + replace_spoilers(s, j + 2, reveal)
            },
            None => seq![s[i]] + replace_spoilers(s, i + 1, reveal),
        }
    }
}

fn find_spoiler(v: &Vec<char>, i: usize) -> (r: Option<usize>)
    requires
        i < v.len(),
    ensures
        match spoiler_at(v@, i as int) {
            Some(j) => r == Some(j as usize) && i + 2 <= j && j + 2 <= v.len(),
            None => r is None,
        },
{
    proof {
        lemma_first_pipes(v@, i + 2);
    }
    if !(v.len() - i >= 2 && v[i] == '|' && v[i + 1] == '|') {
        return None;
    }
    let mut k = i + 2;
    while v.len() - k >= 2
        invariant
            i + 2 <= k <= v.len(),
            pipes_at(v@, i as int),
            first_pipes(v@, k as int) == first_pipes(v@, i + 2),
        decreases v.len() - k,
    {
        if v[k] == '|' && v[k + 1] == '|' {
            return Some(k);
        }
        k = k + 1;
    }
    None
}

fn spoiler_pass(v: &Vec<char>, reveal: bool) -> (r: Vec<char>)
    ensures
        r@ == replace_spoilers(v@, 0, reveal),
{
    let mut out: Vec<char> = Vec::new();
    let mut i: usize = 0;
    while i < v.len()
        invariant
            i <= v.len(),
            out@ + replace_spoilers(v@, i as int, reveal) == replace_spoilers(v@, 0, reveal),
        decreases v.len() - i,
    {
        let ghost old_out = out@;
        match find_spoiler(v, i) {
            Some(j) => {
                if reveal {
                    let mut k = i + 2;
                    while k < j
                        invariant
                            i + 2 <= k <= j <= v.len(),
                            out@ == old_out + v@.subrange(i + 2, k as int),
                        decreases j - k,
                    {
                        out.push(v[k]);
                        k = k + 1;
                        assert(v@.subrange(i + 2, k as int) == v@.subrange(i + 2, k - 1).push(
                            v@[k - 1],
                        ));
                    }
                } else {
                    extend_str(&mut out, "スポイラー");
                }
                assert(out@ + replace_spoilers(v@, j + 2, reveal) =~= old_out + replace_spoilers(
                    v@,
                    i as int,
                    reveal,
                ));
                i = j + 2;
            },
            None => {
                out.push(v[i]);
                assert(out@ + replace_spoilers(v@, i + 1, reveal) =~= old_out + replace_spoilers(
                    v@,
                    i as int,
                    reveal,
                ));
                i = i + 1;
            },
        }
    }
    assert(out@ + Seq::<char>::empty() == out@);
    out
}

/// Replaces each spoiler (`||...||`) in `text` by its content.
pub fn reveal_spoilers(text: &str) -> (r: String)
    ensures
        r@ == replace_spoilers(text@, 0, true),
{
    let v = chars_of(text);
    string_of(&spoiler_pass(&v, true))
}

// ---------------------------------------------------------------------------
// Quotes: > at the start of a line
// ---------------------------------------------------------------------------

/// A quote marker starting at `i`, as `(?m)^>{1,3}\s?` matches it: where the match ends.
pub open spec fn quote_at(s: Seq<char>, i: int) -> Option<int> {
    if 0 <= i < s.len() && (i == 0 || s[i - 1] == '\n') && s[i] == '>' {
        let k = if i + 1 < s.len() && s[i + 1] == '>' {
            if i + 2 < s.len() && s[i + 2] == '>' {
                3int
            } else {
                2int
            }
        } else {
            1int
        };
        let w = if i + k < s.len() && is_ws(s[i + k]) {
            1int
        } else {
            0int
        };
        Some(i + k + w)
    } else {
        None
    }
}

/// `s[i..]` with every quote marker replaced by the word for a quote.
pub open spec fn replace_quotes(s: Seq<char>, i: int) -> Seq<char>
    decreases s.len() - i,
{
    if i < 0 || i >= s.len() {
        Seq::empty()
    } else {
        match quote_at(s, i) {
            Some(e) => "引用 "@ + replace_quotes(s, e),
            None => seq![s[i]] + replace_quotes(s, i + 1),
        }
    }
}

fn find_quote(v: &Vec<char>, i: usize) -> (r: Option<usize>)
    requires
        i < v.len(),
    ensures
        match quote_at(v@, i as int) {
            Some(e) => r == Some(e as usize) && i < e <= v.len(),
            None => r is None,
        },
{
    if !((i == 0 || v[i - 1] == '\n') && v[i] == '>') {
        return None;
    }
    let k: usize = if i + 1 < v.len() && v[i + 1] == '>' {
        if i + 2 < v.len() && v[i + 2] == '>' {
            3
        } else {
            2
        }
    } else {
        1
    };
    let w: usize = if i + k < v.len() && is_whitespace(v[i + k]) {
        1
    } else {
        0
    };
    Some(i + k + w)
}

fn quote_pass(v: &Vec<char>) -> (r: Vec<char>)
    ensures
        r@ == replace_quotes(v@, 0),
{
    let mut out: Vec<char> = Vec::new();
    let mut i: usize = 0;
    while i < v.len()
        invariant
            i <= v.len(),
            out@ + replace_quotes(v@, i as int) == replace_quotes(v@, 0),
        decreases v.len() - i,
    {
        let ghost old_out = out@;
        match find_quote(v, i) {
            Some(e) => {
                extend_str(&mut out, "引用 ");
                assert(out@ + replace_quotes(v@, e as int) =~= old_out + replace_quotes(
                    v@,
                    i as int,
                ));
                i = e;
            },
            None => {
                out.push(v[i]);
                assert(out@ + replace_quotes(v@, i + 1) =~= old_out + replace_quotes(v@, i as int));
                i = i + 1;
            },
        }
    }
    assert(out@ + Seq::<char>::empty() == out@);
    out
}

// ---------------------------------------------------------------------------
// URLs: https?://\S+
// ---------------------------------------------------------------------------

/// `https://` starts at `i`.
pub open spec fn https_at(s: Seq<char>, i: int) -> bool {
    0 <= i && i + 8 <= s.len() && s[i] == 'h' && s[i + 1] == 't' && s[i + 2] == 't' && s[i + 3]
        == 'p' && s[i + 4] == 's' && s[i + 5] == ':' && s[i + 6] == '/' && s[i + 7] == '/'
}

/// `http://` starts at `i`.
pub open spec fn http_at(s: Seq<char>, i: int) -> bool {
    0 <= i && i + 7 <= s.len() && s[i] == 'h' && s[i + 1] == 't' && s[i + 2] == 't' && s[i + 3]
        == 'p' && s[i + 4] == ':' && s[i + 5] == '/' && s[i + 6] == '/'
}

/// A URL starting at `i`, as `https?://\S+` matches it: where the match ends.
pub open spec fn url_at(s: Seq<char>, i: int) -> Option<int> {
    if https_at(s, i) && i + 8 < s.len() && !is_ws(s[i + 8]) {
        Some(nonws_end(s, i + 8))
    } else if http_at(s, i) && i + 7 < s.len() && !is_ws(s[i + 7]) {
        Some(nonws_end(s, i + 7))
    } else {
        None
    }
}

/// `s[i..]` with every URL replaced by the word `URL`.
pub open spec fn replace_urls(s: Seq<char>, i: int) -> Seq<char>
    decreases s.len() - i,
{
    if i < 0 || i >= s.len() {
        Seq::empty()
    } else {
        match url_at(s, i) {
            Some(e) => {
                proof {
                    lemma_nonws_end(s, i + 8);
                    lemma_nonws_end(s, i + 7);
                }
                "URL"@ + replace_urls(s, e)
            },
            None => seq![s[i]] + replace_urls(s, i + 1),
        }
    }
}

proof fn lemma_nonws_end_before_ws(x: Seq<char>, c: char, y: Seq<char>, k: int)
    requires
        is_ws(c),
        0 <= k <= x.len(),
    ensures
        nonws_end(x.push(c) + y, k) == nonws_end(x, k),
    decreases x.len() - k,
{
    let s = x.push(c) + y;
    if k < x.len() {
        assert(s[k] == x[k]);
        if !is_ws(x[k]) {
            lemma_nonws_end_before_ws(x, c, y, k + 1);
        }
    } else {
        assert(s[k] == c);
    }
}

proof fn lemma_nonws_end_shift(p: Seq<char>, y: Seq<char>, k: int)
    requires
        0 <= k <= y.len(),
    ensures
        nonws_end(p + y, p.len() + k) == p.len() + nonws_end(y, k),
    decreases y.len() - k,
{
    if k < y.len() {
        assert((p + y)[p.len() + k] == y[k]);
        if !is_ws(y[k]) {
            lemma_nonws_end_shift(p, y, k + 1);
        }
    }
}

proof fn lemma_replace_urls_shift(p: Seq<char>, y: Seq<char>, j: int)
    requires
        0 <= j <= y.len(),
    ensures
        replace_urls(p + y, p.len() + j) == replace_urls(y, j),
    decreases y.len() - j,
{
    let s = p + y;
    let n = p.len() as int;
    if j < y.len() {
        if j + 8 <= y.len() {
            lemma_nonws_end_shift(p, y, j + 8);
            lemma_nonws_end(y, j + 8);
        }
        if j + 7 <= y.len() {
            lemma_nonws_end_shift(p, y, j + 7);
            lemma_nonws_end(y, j + 7);
        }
        assert(https_at(s, n + j) == https_at(y, j));
        assert(http_at(s, n + j) == http_at(y, j));
        match url_at(y, j) {
            Some(e) => {
                assert(url_at(s, n + j) == Some(n + e));
                lemma_replace_urls_shift(p, y, e);
            },
            None => {
                assert(url_at(s, n + j) is None);
                lemma_replace_urls_shift(p, y, j + 1);
            },
        }
    }
}

proof fn lemma_replace_urls_split(x: Seq<char>, c: char, y: Seq<char>, i: int)
    requires
        is_ws(c),
        0 <= i <= x.len(),
    ensures
        replace_urls(x.push(c) + y, i) == replace_urls(x, i).push(c) + replace_urls(y, 0),
    decreases x.len() - i,
{
    let s = x.push(c) + y;
    let n = x.len() as int;
    assert(s[n] == c);
    assert(!is_ws('h'));
    if i == n {
        assert(url_at(s, n) is None);
        lemma_replace_urls_shift(x.push(c), y, 0);
        assert(replace_urls(x, n) == Seq::<char>::empty());
        assert(seq![c] + replace_urls(y, 0) =~= Seq::<char>::empty().push(c) + replace_urls(y, 0));
    } else {
        assert forall|k: int| 0 <= k < n implies #[trigger] s[k] == x[k] by {}
        assert(!is_ws('t') && !is_ws('p') && !is_ws('s') && !is_ws(':') && !is_ws('/'));
        if i + 8 <= n {
            lemma_nonws_end_before_ws(x, c, y, i + 8);
            lemma_nonws_end(x, i + 8);
        }
        if i + 7 <= n {
            lemma_nonws_end_before_ws(x, c, y, i + 7);
            lemma_nonws_end(x, i + 7);
        }
        assert(url_at(s, i) == url_at(x, i));
        match url_at(x, i) {
            Some(e) => {
                lemma_replace_urls_split(x, c, y, e);
                assert("URL"@ + (replace_urls(x, e).push(c) + replace_urls(y, 0)) =~= ("URL"@
                    + replace_urls(x, e)).push(c) + replace_urls(y, 0));
            },
            None => {
                lemma_replace_urls_split(x, c, y, i + 1);
                assert(seq![s[i]] + (replace_urls(x, i + 1).push(c) + replace_urls(y, 0)) =~= (seq![
                    x[i],
                ] + replace_urls(x, i + 1)).push(c) + replace_urls(y, 0));
            },
        }
    }
}

/// Every URL is replaced, wherever it stands: in a text made of two parts with whitespace
/// between them, each part has its URLs replaced just as it would on its own.
pub proof fn law_urls_replaced_in_each_part(x: Seq<char>, c: char, y: Seq<char>)
    requires
        is_ws(c),
    ensures
        replace_urls(x.push(c) + y, 0) == replace_urls(x, 0).push(c) + replace_urls(y, 0),
{
    lemma_replace_urls_split(x, c, y, 0);
}

/// A URL standing alone, `https://` or `http://` and then characters other than whitespace,
/// is read as the word `URL`.
pub proof fn law_lone_url_is_the_word_url(scheme_s: bool, t: Seq<char>)
    requires
        t.len() > 0,
        forall|k: int| 0 <= k < t.len() ==> !is_ws(#[trigger] t[k]),
    ensures
        replace_urls((if scheme_s { "https://"@ } else { "http://"@ }) + t, 0) == "URL"@,
{
    reveal_strlit("https://");
    reveal_strlit("http://");
    let p = if scheme_s { "https://"@ } else { "http://"@ };
    let s = p + t;
    let n = p.len() as int;
    assert forall|k: int| 0 <= k < t.len() implies s[n + k] == #[trigger] t[k] by {}
    lemma_nonws_end_shift(p, t, 0);
    lemma_nonws_run(t, 0);
    assert(s[n] == t[0]);
    assert(url_at(s, 0) == Some(s.len() as int));
    assert(replace_urls(s, s.len() as int) == Seq::<char>::empty());
    assert("URL"@ + Seq::<char>::empty() =~= "URL"@);
}

proof fn lemma_nonws_run(t: Seq<char>, k: int)
    requires
        0 <= k <= t.len(),
        forall|j: int| 0 <= j < t.len() ==> !is_ws(#[trigger] t[j]),
    ensures
        nonws_end(t, k) == t.len(),
    decreases t.len() - k,
{
    if k < t.len() {
        assert(!is_ws(t[k]));
        lemma_nonws_run(t, k + 1);
    }
}

fn find_url(v: &Vec<char>, i: usize) -> (r: Option<usize>)
    requires
        i < v.len(),
    ensures
        match url_at(v@, i as int) {
            Some(e) => r == Some(e as usize) && i < e <= v.len(),
            None => r is None,
        },
{
    let n = v.len();
    let http = n - i >= 7 && v[i] == 'h' && v[i + 1] == 't' && v[i + 2] == 't' && v[i + 3] == 'p';
    if http && n - i > 8 && v[i + 4] == 's' && v[i + 5] == ':' && v[i + 6] == '/' && v[i + 7] == '/'
        && !is_whitespace(v[i + 8]) {
        return Some(find_nonws_end(v, i + 8));
    }
    if http && n - i > 7 && v[i + 4] == ':' && v[i + 5] == '/' && v[i + 6] == '/' && !is_whitespace(
        v[i + 7],
    ) {
        return Some(find_nonws_end(v, i + 7));
    }
    None
}

fn url_pass(v: &Vec<char>) -> (r: Vec<char>)
    ensures
        r@ == replace_urls(v@, 0),
{
    let mut out: Vec<char> = Vec::new();
    let mut i: usize = 0;
    while i < v.len()
        invariant
            i <= v.len(),
            out@ + replace_urls(v@, i as int) == replace_urls(v@, 0),
        decreases v.len() - i,
    {
        let ghost old_out = out@;
        match find_url(v, i) {
            Some(e) => {
                extend_str(&mut out, "URL");
                assert(out@ + replace_urls(v@, e as int) =~= old_out + replace_urls(v@, i as int));
                i = e;
            },
            None => {
                out.push(v[i]);
                assert(out@ + replace_urls(v@, i + 1) =~= old_out + replace_urls(v@, i as int));
                i = i + 1;
            },
        }
    }
    assert(out@ + Seq::<char>::empty() == out@);
    out
}

// ---------------------------------------------------------------------------
// The whole pass
// ---------------------------------------------------------------------------

/// What a text is read as once its markup is replaced: code blocks first, then spoilers,
/// quote markers and URLs, each pass over the result of the one before.
pub open spec fn sanitized(s: Seq<char>) -> Seq<char> {
    replace_urls(replace_quotes(replace_spoilers(replace_codeblocks(s, 0), 0, false), 0), 0)
}

/// Replaces the Markdown markup of a message by words that can be read aloud.
pub fn sanitize_text(text: &str) -> (r: String)
    ensures
        r@ == sanitized(text@),
{
    let v = chars_of(text);
    let a = codeblock_pass(&v);
    let b = spoiler_pass(&a, false);
    let c = quote_pass(&b);
    let d = url_pass(&c);
    string_of(&d)
}

/// No character of `s` can start any markup: no backtick, pipe, `>` or colon.
pub open spec fn is_plain(s: Seq<char>) -> bool {
    forall|i: int|
        0 <= i < s.len() ==> (#[trigger] s[i]) != '`' && s[i] != '|' && s[i] != '>' && s[i] != ':'
}

proof fn lemma_plain_passes(s: Seq<char>, i: int)
    requires
        is_plain(s),
        0 <= i <= s.len(),
    ensures
        replace_codeblocks(s, i) == s.subrange(i, s.len() as int),
        replace_spoilers(s, i, false) == s.subrange(i, s.len() as int),
        replace_quotes(s, i) == s.subrange(i, s.len() as int),
        replace_urls(s, i) == s.subrange(i, s.len() as int),
    decreases s.len() - i,
{
    if i < s.len() {
        lemma_plain_passes(s, i + 1);
        assert(s[i] != '`' && s[i] != '|' && s[i] != '>' && s[i] != ':');
        assert(!triple_at(s, i));
        assert(!pipes_at(s, i));
        if i + 4 < s.len() {
            assert(s[i + 4] != ':');
        }
        if i + 5 < s.len() {
            assert(s[i + 5] != ':');
        }
        assert(url_at(s, i) is None);
        assert(quote_at(s, i) is None);
        assert(seq![s[i]] + s.subrange(i + 1, s.len() as int) =~= s.subrange(i, s.len() as int));
    } else {
        assert(s.subrange(i, s.len() as int) =~= Seq::<char>::empty());
    }
}

/// A text in which no character can start any markup (no backtick, pipe, `>` or colon) is
/// read as it is written.
pub proof fn law_plain_text_is_read_as_written(s: Seq<char>)
    requires
        is_plain(s),
    ensures
        sanitized(s) == s,
{
    lemma_plain_passes(s, 0);
    assert(s.subrange(0, s.len() as int) =~= s);
}

} // verus!
