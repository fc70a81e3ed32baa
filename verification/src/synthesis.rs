use vstd::prelude::*;
use crate::text::{trim, trim_range, string_of};

verus! {

/// Longest piece, in characters, that is handed to the synthesizer unshortened.
pub const MAX_SYNTHESIS_LENGTH: usize = 150;

/// Characters at which a text is cut into pieces for synthesis.
pub open spec fn is_synthesis_break(c: char) -> bool {
    ||| c == '。'
    ||| c == '、'
    ||| c == '？'
    ||| c == '！'
    ||| c == '.'
    ||| c == ','
    ||| c == '?'
    ||| c == '!'
    ||| c == '\n'
    ||| c == '\r'
}

fn is_break(c: char) -> (b: bool)
    ensures
        b == is_synthesis_break(c),
{
    c == '。' || c == '、' || c == '？' || c == '！' || c == '.' || c == ',' || c == '?' || c == '!'
        || c == '\n' || c == '\r'
}

/// The pieces of `s` between break characters, empty ones included, as `str::split` yields them.
pub open spec fn break_pieces(s: Seq<char>) -> Seq<Seq<char>>
    decreases s.len(),
{
    if s.len() == 0 {
        seq![Seq::empty()]
    } else {
        let p = break_pieces(s.drop_last());
        if is_synthesis_break(s.last()) {
            p.push(Seq::empty())
        } else {
            p.update(p.len() - 1, p.last().push(s.last()))
        }
    }
}

/// A piece longer than the limit is cut at the limit and marked as shortened.
pub open spec fn shorten(p: Seq<char>) -> Seq<char> {
    if p.len() > MAX_SYNTHESIS_LENGTH {
        p.take(MAX_SYNTHESIS_LENGTH as int) + " 省略"@
    } else {
        p
    }
}

/// The trimmed, non-empty pieces, each shortened, in order.
pub open spec fn chunks_of(pieces: Seq<Seq<char>>) -> Seq<Seq<char>>
    decreases pieces.len(),
{
    if pieces.len() == 0 {
        seq![]
    } else {
        let rest = chunks_of(pieces.drop_last());
        let t = trim(pieces.last());
        if t.len() > 0 {
            rest.push(shorten(t))
        } else {
            rest
        }
    }
}

/// The texts that the synthesizer is given, one after another, for `s`.
pub open spec fn synthesis_chunks(s: Seq<char>) -> Seq<Seq<char>> {
    chunks_of(break_pieces(s))
}

/// The views of a vector of strings.
pub open spec fn views(v: Seq<String>) -> Seq<Seq<char>> {
    v.map_values(|s: String| s@)
}

proof fn lemma_break_pieces_nonempty(s: Seq<char>)
    ensures
        break_pieces(s).len() >= 1,
    decreases s.len(),
{
    if s.len() > 0 {
        lemma_break_pieces_nonempty(s.drop_last());
    }
}

/// Pushes the chunk for the piece `v[from..to]`, if it is not blank.
fn emit_chunk(out: &mut Vec<String>, v: &Vec<char>, from: usize, to: usize)
    requires
        from <= to <= v.len(),
    ensures
        ({
            let t = trim(v@.subrange(from as int, to as int));
            views(final(out)@) == if t.len() > 0 {
                views(old(out)@).push(shorten(t))
            } else {
                views(old(out)@)
            }
        }),
{
    let t = trim_range(v, from, to);
    if t.len() == 0 {
        return ;
    }
    let s = if t.len() > MAX_SYNTHESIS_LENGTH {
        let mut head: Vec<char> = Vec::new();
        let mut i: usize = 0;
        while i < MAX_SYNTHESIS_LENGTH
            invariant
                i <= MAX_SYNTHESIS_LENGTH < t.len(),
                head@ == t@.take(i as int),
            decreases MAX_SYNTHESIS_LENGTH - i,
        {
            head.push(t[i]);
            i = i + 1;
            assert(t@.take(i as int) == t@.take((i - 1) as int).push(t@[i - 1]));
        }
        let mut s = string_of(&head);
        s.append(" 省略");
        s
    } else {
        string_of(&t)
    };
    let ghost before = old(out)@;
    out.push(s);
    assert(views(out@) =~= views(before).push(s@));
}

/// Cuts a text into the pieces that the synthesizer reads one after another: the text is
/// split at sentence and line breaks, each piece is trimmed, blank pieces are dropped, and a
/// piece longer than the limit is cut at the limit and marked as shortened.
pub fn split_text_for_synthesis(text: &str) -> (res: Vec<String>)
    ensures
        views(res@) == synthesis_chunks(text@),
{
    let v = crate::text::chars_of(text);
    let mut out: Vec<String> = Vec::new();
    let mut start: usize = 0;
    let mut i: usize = 0;
    proof {
        assert(v@.take(0) =~= Seq::<char>::empty());
    }
    while i < v.len()
        invariant
            start <= i <= v.len(),
            break_pieces(v@.take(i as int)).len() >= 1,
            break_pieces(v@.take(i as int)).last() == v@.subrange(start as int, i as int),
            views(out@) == chunks_of(break_pieces(v@.take(i as int)).drop_last()),
        decreases v.len() - i,
    {
        let ghost p = break_pieces(v@.take(i as int));
        let c = v[i];
        assert(v@.take(i + 1).drop_last() == v@.take(i as int));
        assert(v@.take(i + 1).last() == c);
        if is_break(c) {
            emit_chunk(&mut out, &v, start, i);
            proof {
                let q = break_pieces(v@.take(i + 1));
                assert(q == p.push(Seq::empty()));
                assert(q.drop_last() == p);
            }
            start = i + 1;
            i = i + 1;
            proof {
                assert(v@.subrange(start as int, i as int) =~= Seq::<char>::empty());
            }
        } else {
            proof {
                let q = break_pieces(v@.take(i + 1));
                assert(q == p.update(p.len() - 1, p.last().push(c)));
                assert(q.drop_last() =~= p.drop_last());
                assert(q.last() =~= v@.subrange(start as int, i + 1));
            }
            i = i + 1;
        }
        proof {
            lemma_break_pieces_nonempty(v@.take(i as int));
        }
    }
    emit_chunk(&mut out, &v, start, v.len());
    proof {
        let p = break_pieces(v@.take(v.len() as int));
        assert(v@.take(v.len() as int) == v@);
        assert(p.drop_last().push(p.last()) =~= p);
    }
    out
}

proof fn lemma_chunks_bounded(pieces: Seq<Seq<char>>)
    ensures
        forall|i: int|
            0 <= i < chunks_of(pieces).len() ==> 0 < (#[trigger] chunks_of(pieces)[i]).len()
                <= MAX_SYNTHESIS_LENGTH + 3,
    decreases pieces.len(),
{
    reveal_strlit(" 省略");
    if pieces.len() > 0 {
        lemma_chunks_bounded(pieces.drop_last());
        let rest = chunks_of(pieces.drop_last());
        let t = trim(pieces.last());
        if t.len() > 0 {
            assert forall|i: int| 0 <= i < rest.len() + 1 implies 0 < (#[trigger] rest.push(
                shorten(t),
            )[i]).len() <= MAX_SYNTHESIS_LENGTH + 3 by {
                if i < rest.len() {
                    assert(rest.push(shorten(t))[i] == rest[i]);
                }
            }
        }
    }
}

/// Every text handed to the synthesizer is non-empty and at most the limit long, plus the
/// three characters that mark a shortened piece.
pub proof fn law_chunks_are_short_and_non_empty(s: Seq<char>)
    ensures
        forall|i: int|
            0 <= i < synthesis_chunks(s).len() ==> 0 < (#[trigger] synthesis_chunks(s)[i]).len()
                <= MAX_SYNTHESIS_LENGTH + 3,
{
    lemma_chunks_bounded(break_pieces(s));
}

/// A text without any break character goes to the synthesizer whole (trimmed, shortened
/// where too long), or not at all when it is blank.
pub proof fn law_text_without_breaks_is_one_piece(s: Seq<char>)
    requires
        forall|i: int| 0 <= i < s.len() ==> !is_synthesis_break(#[trigger] s[i]),
    ensures
        synthesis_chunks(s) == (if trim(s).len() > 0 {
            seq![shorten(trim(s))]
        } else {
            Seq::<Seq<char>>::empty()
        }),
{
    lemma_no_breaks_one_piece(s);
    let p = seq![s];
    let e = Seq::<Seq<char>>::empty();
    assert(p.len() == 1);
    assert(p.drop_last() =~= e);
    assert(p.last() == s);
    assert(chunks_of(e) == e);
    assert(chunks_of(p) == (if trim(s).len() > 0 {
        chunks_of(e).push(shorten(trim(s)))
    } else {
        chunks_of(e)
    }));
    if trim(s).len() > 0 {
        assert(e.push(shorten(trim(s))) =~= seq![shorten(trim(s))]);
    }
}

proof fn lemma_break_pieces_join(x: Seq<char>, c: char, y: Seq<char>)
    requires
        is_synthesis_break(c),
    ensures
        break_pieces(x.push(c) + y) == break_pieces(x) + break_pieces(y),
    decreases y.len(),
{
    let s = x.push(c) + y;
    if y.len() == 0 {
        assert(s =~= x.push(c));
        assert(x.push(c).drop_last() =~= x);
        assert(break_pieces(x).push(Seq::<char>::empty()) =~= break_pieces(x) + seq![
            Seq::<char>::empty(),
        ]);
    } else {
        lemma_break_pieces_join(x, c, y.drop_last());
        lemma_break_pieces_nonempty(y.drop_last());
        assert(s.drop_last() =~= x.push(c) + y.drop_last());
        assert(s.last() == y.last());
        let p = break_pieces(x);
        let q = break_pieces(y.drop_last());
        if is_synthesis_break(y.last()) {
            assert((p + q).push(Seq::<char>::empty()) =~= p + q.push(Seq::<char>::empty()));
        } else {
            assert((p + q).update((p + q).len() - 1, (p + q).last().push(y.last())) =~= p + q.update(
                q.len() - 1,
                q.last().push(y.last()),
            ));
        }
    }
}

proof fn lemma_chunks_concat(p: Seq<Seq<char>>, q: Seq<Seq<char>>)
    ensures
        chunks_of(p + q) == chunks_of(p) + chunks_of(q),
    decreases q.len(),
{
    if q.len() == 0 {
        assert(p + q =~= p);
        assert(chunks_of(p) + chunks_of(q) =~= chunks_of(p));
    } else {
        lemma_chunks_concat(p, q.drop_last());
        assert((p + q).drop_last() =~= p + q.drop_last());
        assert((p + q).last() == q.last());
        let t = trim(q.last());
        if t.len() > 0 {
            assert((chunks_of(p) + chunks_of(q.drop_last())).push(shorten(t)) =~= chunks_of(p)
                + chunks_of(q.drop_last()).push(shorten(t)));
        }
    }
}

/// A text cut at a break character (such as `。`) goes to the synthesizer as the pieces of
/// the part before it followed by the pieces of the part after it.
pub proof fn law_split_at_break_joins_halves(x: Seq<char>, c: char, y: Seq<char>)
    requires
        is_synthesis_break(c),
    ensures
        synthesis_chunks(x.push(c) + y) == synthesis_chunks(x) + synthesis_chunks(y),
{
    lemma_break_pieces_join(x, c, y);
    lemma_chunks_concat(break_pieces(x), break_pieces(y));
}

proof fn lemma_no_breaks_one_piece(s: Seq<char>)
    requires
        forall|i: int| 0 <= i < s.len() ==> !is_synthesis_break(#[trigger] s[i]),
    ensures
        break_pieces(s) == seq![s],
    decreases s.len(),
{
    if s.len() == 0 {
        assert(s =~= Seq::<char>::empty());
    } else {
        let d = s.drop_last();
        assert forall|i: int| 0 <= i < d.len() implies !is_synthesis_break(#[trigger] d[i]) by {
            assert(d[i] == s[i]);
        }
        lemma_no_breaks_one_piece(d);
        assert(!is_synthesis_break(s[s.len() - 1]));
        assert(d.push(s.last()) =~= s);
        assert(seq![d].update(0, d.push(s.last())) =~= seq![s]);
    }
}

} // verus!
