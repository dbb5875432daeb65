use vstd::prelude::*;

use crate::text::{chars_of, is_white_space, is_whitespace, string_of, strs_view};
use vstd::string::StringExecFns;

verus! {

/// The white-space separated words of `s`, where `cur` is a word already begun.
pub open spec fn words_from(s: Seq<char>, cur: Seq<char>) -> Seq<Seq<char>>
    decreases s.len(),
{
    if s.len() == 0 {
        if cur.len() == 0 {
            seq![]
        } else {
            seq![cur]
        }
    } else if is_white_space(s[0]) {
        if cur.len() == 0 {
            words_from(s.drop_first(), seq![])
        } else {
            seq![cur] + words_from(s.drop_first(), seq![])
        }
    } else {
        words_from(s.drop_first(), cur.push(s[0]))
    }
}

/// The white-space separated words of `s` (what `str::split_whitespace` yields).
pub open spec fn split_ws(s: Seq<char>) -> Seq<Seq<char>> {
    words_from(s, seq![])
}

/// The words of `v` with `sep` between each two (what `join` gives).
pub open spec fn join_with(v: Seq<Seq<char>>, sep: Seq<char>) -> Seq<char>
    decreases v.len(),
{
    if v.len() == 0 {
        seq![]
    } else if v.len() == 1 {
        v[0]
    } else {
        join_with(v.drop_last(), sep) + sep + v.last()
    }
}

/// A word: not empty, and without white space.
pub open spec fn is_word(w: Seq<char>) -> bool {
    &&& w.len() > 0
    &&& forall|j: int| 0 <= j < w.len() ==> !is_white_space(#[trigger] w[j])
}

/// Every element of `v` is a word.
pub open spec fn all_words(v: Seq<Seq<char>>) -> bool {
    forall|i: int| 0 <= i < v.len() ==> is_word(#[trigger] v[i])
}

/// Splits a scope string at white space into its scopes.
pub fn split_scopes(value: &str) -> (r: Vec<String>)
    ensures
        strs_view(r@) == split_ws(value@),
{
    let cs = chars_of(value);
    let n = cs.len();
    let mut r: Vec<String> = Vec::new();
    let mut start: usize = 0;
    let mut i: usize = 0;
    assert(cs@.skip(0) =~= cs@);
    assert(cs@.subrange(0, 0) =~= Seq::<char>::empty());
    while i < n
        invariant
            start <= i <= n == cs.len(),
            strs_view(r@) + words_from(cs@.skip(i as int), cs@.subrange(start as int, i as int))
                == split_ws(cs@),
        decreases n - i,
    {
        let ghost before = strs_view(r@);
        let ghost cur = cs@.subrange(start as int, i as int);
        assert(cs@.skip(i as int).drop_first() =~= cs@.skip(i + 1));
        assert(cs@.skip(i as int)[0] == cs@[i as int]);
        if is_whitespace(cs[i]) {
            if start < i {
                let w = string_of(&cs, start, i);
                r.push(w);
                assert(strs_view(r@) =~= before.push(cur));
                assert(before + (seq![cur] + words_from(cs@.skip(i + 1), seq![])) =~= before.push(
                    cur,
                ) + words_from(cs@.skip(i + 1), seq![]));
            }
            start = i + 1;
            assert(cs@.subrange(start as int, i + 1) =~= Seq::<char>::empty());
        } else {
            assert(cur.push(cs@[i as int]) =~= cs@.subrange(start as int, i + 1));
        }
        i = i + 1;
    }
    let ghost before = strs_view(r@);
    let ghost cur = cs@.subrange(start as int, n as int);
    if start < n {
        let w = string_of(&cs, start, n);
        r.push(w);
        assert(strs_view(r@) =~= before.push(cur));
        assert(before + seq![cur] =~= before.push(cur));
    } else {
        assert(before + Seq::<Seq<char>>::empty() =~= before);
    }
    r
}

/// Joins scopes into one string, separated by single spaces.
pub fn join_scopes(scopes: &[String]) -> (r: String)
    ensures
        r@ == join_with(strs_view(scopes@), seq![' ']),
{
    proof {
        reveal_strlit(" ");
    }
    let ghost words = strs_view(scopes@);
    let mut r = String::new();
    let mut i: usize = 0;
    while i < scopes.len()
        invariant
            i <= scopes.len(),
            words == strs_view(scopes@),
            " "@ == seq![' '],
            r@ == join_with(words.take(i as int), seq![' ']),
        decreases scopes.len() - i,
    {
        assert(words.take(i + 1).drop_last() =~= words.take(i as int));
        if i != 0 {
            r.append(" ");
        }
        r.append(scopes[i].as_str());
        i = i + 1;
    }
    assert(words.take(scopes.len() as int) =~= words);
    r
}

/// A word at the front of the input joins the word being read.
proof fn lemma_words_from_word(w: Seq<char>, rest: Seq<char>, cur: Seq<char>)
    requires
        forall|j: int| 0 <= j < w.len() ==> !is_white_space(#[trigger] w[j]),
    ensures
        words_from(w + rest, cur) == words_from(rest, cur + w),
    decreases w.len(),
{
    if w.len() == 0 {
        assert(w + rest =~= rest);
        assert(cur + w =~= cur);
    } else {
        assert((w + rest)[0] == w[0]);
        assert((w + rest).drop_first() =~= w.drop_first() + rest);
        lemma_words_from_word(w.drop_first(), rest, cur.push(w[0]));
        assert(cur.push(w[0]) + w.drop_first() =~= cur + w);
    }
}

/// Joining at least two words puts the first in front.
proof fn lemma_join_front(v: Seq<Seq<char>>, sep: Seq<char>)
    requires
        v.len() >= 2,
    ensures
        join_with(v, sep) == v[0] + sep + join_with(v.drop_first(), sep),
    decreases v.len(),
{
    if v.len() == 2 {
        assert(v.drop_last().len() == 1);
        assert(v.drop_first().len() == 1);
        assert(join_with(v.drop_last(), sep) == v[0]);
        assert(join_with(v.drop_first(), sep) == v[1]);
        assert(v.last() == v[1]);
    } else {
        lemma_join_front(v.drop_last(), sep);
        assert(v.drop_last().drop_first() =~= v.drop_first().drop_last());
        assert(v.drop_first().last() == v.last());
        assert(v.drop_last()[0] == v[0]);
        assert(join_with(v.drop_first(), sep) == join_with(v.drop_first().drop_last(), sep) + sep
            + v.drop_first().last());
        assert(join_with(v, sep) == join_with(v.drop_last(), sep) + sep + v.last());
        assert(v[0] + sep + join_with(v.drop_first().drop_last(), sep) + sep + v.last() =~= v[0]
            + sep + (join_with(v.drop_first().drop_last(), sep) + sep + v.last()));
    }
}

/// Splitting words joined by single spaces gives the words back.
pub proof fn lemma_split_join(v: Seq<Seq<char>>)
    requires
        all_words(v),
    ensures
        split_ws(join_with(v, seq![' '])) == v,
    decreases v.len(),
{
    let sp = seq![' '];
    assert(is_white_space(' '));
    if v.len() == 0 {
    } else if v.len() == 1 {
        assert(is_word(v[0]));
        lemma_words_from_word(v[0], seq![], seq![]);
        assert(v[0] + Seq::<char>::empty() =~= v[0]);
        assert(Seq::<char>::empty() + v[0] =~= v[0]);
        assert(seq![v[0]] =~= v);
    } else {
        let tail = v.drop_first();
        assert(all_words(tail)) by {
            assert forall|i: int| 0 <= i < tail.len() implies is_word(#[trigger] tail[i]) by {
                assert(tail[i] == v[i + 1]);
            }
        }
        assert(is_word(v[0]));
        lemma_join_front(v, sp);
        let j = join_with(tail, sp);
        assert(v[0] + sp + j =~= v[0] + (sp + j));
        lemma_words_from_word(v[0], sp + j, seq![]);
        assert(Seq::<char>::empty() + v[0] =~= v[0]);
        assert((sp + j)[0] == ' ');
        assert((sp + j).drop_first() =~= j);
        lemma_split_join(tail);
        assert(seq![v[0]] + tail =~= v);
    }
}

/// Every word read from any input is a word, given that the one begun has no white space.
proof fn lemma_words_from_are_words(s: Seq<char>, cur: Seq<char>)
    requires
        forall|j: int| 0 <= j < cur.len() ==> !is_white_space(#[trigger] cur[j]),
    ensures
        all_words(words_from(s, cur)),
    decreases s.len(),
{
    if s.len() == 0 {
        if cur.len() > 0 {
            assert(is_word(seq![cur][0]));
        }
    } else if is_white_space(s[0]) {
        lemma_words_from_are_words(s.drop_first(), seq![]);
        if cur.len() > 0 {
            let rest = words_from(s.drop_first(), seq![]);
            assert forall|i: int| 0 <= i < (seq![cur] + rest).len() implies is_word(
                #[trigger] (seq![cur] + rest)[i],
            ) by {
                if i > 0 {
                    assert((seq![cur] + rest)[i] == rest[i - 1]);
                }
            }
        }
    } else {
        let next = cur.push(s[0]);
        assert forall|j: int| 0 <= j < next.len() implies !is_white_space(#[trigger] next[j]) by {
            if j < cur.len() {
                assert(next[j] == cur[j]);
            }
        }
        lemma_words_from_are_words(s.drop_first(), next);
    }
}

/// The scopes read from any string are non-empty and free of white space.
pub proof fn lemma_split_gives_words(s: Seq<char>)
    ensures
        all_words(split_ws(s)),
{
    lemma_words_from_are_words(s, seq![]);
}

/// Joining the scopes of a string and splitting again gives the same scopes.
pub proof fn lemma_join_split_stable(s: Seq<char>)
    ensures
        split_ws(join_with(split_ws(s), seq![' '])) == split_ws(s),
{
    lemma_split_gives_words(s);
    lemma_split_join(split_ws(s));
}

} // verus!
