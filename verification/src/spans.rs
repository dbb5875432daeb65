use vstd::prelude::*;

use crate::scopes::{split_ws, words_from};
use crate::text::is_whitespace;

verus! {

/// The pieces of `cs` that a list of spans delimits.
pub open spec fn spans_view(cs: Seq<char>, spans: Seq<(usize, usize)>) -> Seq<Seq<char>> {
    spans.map_values(|p: (usize, usize)| cs.subrange(p.0 as int, p.1 as int))
}

/// Every span lies within the first `n` characters.
pub open spec fn spans_within(spans: Seq<(usize, usize)>, n: int) -> bool {
    forall|k: int| 0 <= k < spans.len() ==> span_ok(#[trigger] spans[k], n)
}

/// A span that lies within the first `n` characters.
pub open spec fn span_ok(p: (usize, usize), n: int) -> bool {
    p.0 <= p.1 <= n
}

proof fn lemma_push_span(spans: Seq<(usize, usize)>, p: (usize, usize), n: int)
    requires
        spans_within(spans, n),
        span_ok(p, n),
    ensures
        spans_within(spans.push(p), n),
{
    assert forall|k: int| 0 <= k < spans.push(p).len() implies span_ok(
        #[trigger] spans.push(p)[k],
        n,
    ) by {
        if k < spans.len() {
            assert(spans.push(p)[k] == spans[k]);
        }
    }
}

/// The spans of the white-space separated words of `cs`.
pub fn word_spans(cs: &Vec<char>) -> (r: Vec<(usize, usize)>)
    ensures
        spans_within(r@, cs.len() as int),
        spans_view(cs@, r@) == split_ws(cs@),
{
    let n = cs.len();
    let mut r: Vec<(usize, usize)> = Vec::new();
    let mut start: usize = 0;
    let mut i: usize = 0;
    assert(cs@.skip(0) =~= cs@);
    assert(cs@.subrange(0, 0) =~= Seq::<char>::empty());
    while i < n
        invariant
            start <= i <= n == cs.len(),
            spans_within(r@, n as int),
            spans_view(cs@, r@) + words_from(cs@.skip(i as int), cs@.subrange(start as int, i as int))
                == split_ws(cs@),
        decreases n - i,
    {
        let ghost before = spans_view(cs@, r@);
        let ghost cur = cs@.subrange(start as int, i as int);
        assert(cs@.skip(i as int).drop_first() =~= cs@.skip(i + 1));
        assert(cs@.skip(i as int)[0] == cs@[i as int]);
        if is_whitespace(cs[i]) {
            if start < i {
                proof {
                    lemma_push_span(r@, (start, i), n as int);
                }
                r.push((start, i));
                assert(spans_view(cs@, r@) =~= before.push(cur));
                assert(before + (seq![cur] + words_from(cs@.skip(i + 1), seq![])) =~= before.push(
                    cur,
                ) + words_from(cs@.skip(i + 1), seq![]));
            }
            start = i + 1;
            assert(cs@.subrange(start as int, i + 1) =~= Seq::<char>::empty());
        } else {
            assert(cur.push(cs@[i as int]) =~= cs@.subrange(start as int, i + 1));
        }
        i = i + 1;
    }
    let ghost before = spans_view(cs@, r@);
    let ghost cur = cs@.subrange(start as int, n as int);
    if start < n {
        proof {
            lemma_push_span(r@, (start, n), n as int);
        }
        r.push((start, n));
        assert(spans_view(cs@, r@) =~= before.push(cur));
        assert(before + seq![cur] =~= before.push(cur));
    } else {
        assert(before + Seq::<Seq<char>>::empty() =~= before);
    }
    r
}

/// The pieces of `s` between occurrences of `sep`, where `cur` is a piece already begun.
pub open spec fn pieces_from(s: Seq<char>, sep: char, cur: Seq<char>) -> Seq<Seq<char>>
    decreases s.len(),
{
    if s.len() == 0 {
        seq![cur]
    } else if s[0] == sep {
        seq![cur] + pieces_from(s.drop_first(), sep, seq![])
    } else {
        pieces_from(s.drop_first(), sep, cur.push(s[0]))
    }
}

/// The pieces of `s` between occurrences of `sep` (what `str::split(sep)` yields).
pub open spec fn split_on(s: Seq<char>, sep: char) -> Seq<Seq<char>> {
    pieces_from(s, sep, seq![])
}

/// The spans of the pieces of `cs` between occurrences of `sep`.
pub fn piece_spans(cs: &Vec<char>, sep: char) -> (r: Vec<(usize, usize)>)
    ensures
        spans_within(r@, cs.len() as int),
        spans_view(cs@, r@) == split_on(cs@, sep),
{
    let n = cs.len();
    let mut r: Vec<(usize, usize)> = Vec::new();
    let mut start: usize = 0;
    let mut i: usize = 0;
    assert(cs@.skip(0) =~= cs@);
    assert(cs@.subrange(0, 0) =~= Seq::<char>::empty());
    while i < n
        invariant
            start <= i <= n == cs.len(),
            spans_within(r@, n as int),
            spans_view(cs@, r@) + pieces_from(
                cs@.skip(i as int),
                sep,
                cs@.subrange(start as int, i as int),
            ) == split_on(cs@, sep),
        decreases n - i,
    {
        let ghost before = spans_view(cs@, r@);
        let ghost cur = cs@.subrange(start as int, i as int);
        assert(cs@.skip(i as int).drop_first() =~= cs@.skip(i + 1));
        assert(cs@.skip(i as int)[0] == cs@[i as int]);
        if cs[i] == sep {
            proof {
                lemma_push_span(r@, (start, i), n as int);
            }
            r.push((start, i));
            assert(spans_view(cs@, r@) =~= before.push(cur));
            assert(before + (seq![cur] + pieces_from(cs@.skip(i + 1), sep, seq![])) =~= before.push(
                cur,
            ) + pieces_from(cs@.skip(i + 1), sep, seq![]));
            start = i + 1;
            assert(cs@.subrange(start as int, i + 1) =~= Seq::<char>::empty());
        } else {
            assert(cur.push(cs@[i as int]) =~= cs@.subrange(start as int, i + 1));
        }
        i = i + 1;
    }
    let ghost before = spans_view(cs@, r@);
    let ghost cur = cs@.subrange(start as int, n as int);
    proof {
        lemma_push_span(r@, (start, n), n as int);
    }
    r.push((start, n));
    assert(spans_view(cs@, r@) =~= before.push(cur));
    assert(before + seq![cur] =~= before.push(cur));
    r
}

/// A piece without separators at the front of the input joins the piece being read.
pub proof fn lemma_pieces_from_piece(w: Seq<char>, rest: Seq<char>, sep: char, cur: Seq<char>)
    requires
        !w.contains(sep),
    ensures
        pieces_from(w + rest, sep, cur) == pieces_from(rest, sep, cur + w),
    decreases w.len(),
{
    if w.len() == 0 {
        assert(w + rest =~= rest);
        assert(cur + w =~= cur);
    } else {
        assert((w + rest)[0] == w[0]);
        assert(w[0] != sep) by {
            if w[0] == sep {
                assert(w.contains(sep));
            }
        }
        assert((w + rest).drop_first() =~= w.drop_first() + rest);
        assert(!w.drop_first().contains(sep)) by {
            if w.drop_first().contains(sep) {
                let k = choose|k: int| 0 <= k < w.drop_first().len() && w.drop_first()[k] == sep;
                assert(w[k + 1] == sep);
            }
        }
        lemma_pieces_from_piece(w.drop_first(), rest, sep, cur.push(w[0]));
        assert(cur.push(w[0]) + w.drop_first() =~= cur + w);
    }
}

/// A piece without separators followed by a separator is read as one piece.
pub proof fn lemma_pieces_from_sep(w: Seq<char>, rest: Seq<char>, sep: char)
    requires
        !w.contains(sep),
    ensures
        pieces_from(w + seq![sep] + rest, sep, seq![]) == seq![w] + pieces_from(rest, sep, seq![]),
{
    assert(w + seq![sep] + rest =~= w + (seq![sep] + rest));
    lemma_pieces_from_piece(w, seq![sep] + rest, sep, seq![]);
    assert(Seq::<char>::empty() + w =~= w);
    assert((seq![sep] + rest)[0] == sep);
    assert((seq![sep] + rest).drop_first() =~= rest);
}

} // verus!
