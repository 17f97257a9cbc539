//! Splitting text into lines and directive lines into words.

use vstd::prelude::*;

use crate::common::text::{is_space, slice_chars, space};

verus! {

/// The texts of a sequence of character vectors.
pub open spec fn views(v: Seq<Vec<char>>) -> Seq<Seq<char>> {
    v.map_values(|x: Vec<char>| x@)
}

/// Index of the first line break at or after `i`, or the end.
pub open spec fn line_stop(t: Seq<char>, i: int) -> int
    decreases t.len() - i,
{
    if 0 <= i < t.len() && t[i] != '\n' {
        line_stop(t, i + 1)
    } else {
        i
    }
}

pub proof fn lemma_line_stop(t: Seq<char>, i: int)
    requires
        0 <= i <= t.len(),
    ensures
        i <= line_stop(t, i) <= t.len(),
        line_stop(t, i) < t.len() ==> t[line_stop(t, i)] == '\n',
    decreases t.len() - i,
{
    if i < t.len() && t[i] != '\n' {
        lemma_line_stop(t, i + 1);
    }
}

/// A line without the `\r` of a `\r\n` line ending.
pub open spec fn cut_cr(raw: Seq<char>, ended: bool) -> Seq<char> {
    if ended && raw.len() > 0 && raw.last() == '\r' {
        raw.drop_last()
    } else {
        raw
    }
}

/// The lines of `t` from index `i`: split at `\n` (a `\r\n` ending counts as
/// one), with no empty last line after a final line break.
pub open spec fn lines_from(t: Seq<char>, i: int) -> Seq<Seq<char>>
    decreases t.len() - i,
{
    if i < 0 || i >= t.len() {
        Seq::empty()
    } else {
        let e = line_stop(t, i);
        let line = cut_cr(t.subrange(i, e), e < t.len());
        if i <= e && e < t.len() {
            seq![line] + lines_from(t, e + 1)
        } else {
            seq![line]
        }
    }
}

pub open spec fn lines_of(t: Seq<char>) -> Seq<Seq<char>> {
    lines_from(t, 0)
}

/// The lines of `t`.
pub fn split_lines(t: &Vec<char>) -> (r: Vec<Vec<char>>)
    ensures
        views(r@) == lines_of(t@),
{
    let mut r: Vec<Vec<char>> = Vec::new();
    let mut i: usize = 0;
    while i < t.len()
        invariant
            i <= t.len(),
            lines_of(t@) == views(r@) + lines_from(t@, i as int),
        decreases t.len() - i,
    {
        proof {
            lemma_line_stop(t@, i as int);
        }
        let mut e: usize = i;
        while e < t.len() && t[e] != '\n'
            invariant
                i <= e <= t.len(),
                line_stop(t@, e as int) == line_stop(t@, i as int),
            decreases t.len() - e,
        {
            e = e + 1;
        }
        let ended = e < t.len();
        let cut = if ended && e > i && t[e - 1] == '\r' {
            e - 1
        } else {
            e
        };
        let line = slice_chars(t, i, cut);
        let ghost before = r@;
        r.push(line);
        proof {
            assert(line@ == cut_cr(t@.subrange(i as int, e as int), ended)) by {
                if ended && e > i && t@[e - 1] == '\r' {
                    assert(t@.subrange(i as int, e as int).drop_last() =~= t@.subrange(
                        i as int,
                        cut as int,
                    ));
                }
            }
            assert(views(r@) =~= views(before) + seq![line@]);
        }
        i = if ended {
            e + 1
        } else {
            e
        };
    }
    assert(views(r@) + Seq::<Seq<char>>::empty() =~= views(r@));
    r
}

/// Number of whitespace characters at the start of `t`.
pub open spec fn lead_len(t: Seq<char>) -> nat
    decreases t.len(),
{
    if t.len() > 0 && is_space(t[0]) {
        1 + lead_len(t.drop_first())
    } else {
        0
    }
}

/// `t` without its leading whitespace.
pub open spec fn trim_start(t: Seq<char>) -> Seq<char> {
    t.skip(lead_len(t) as int)
}

/// Index of the first character of `t` that is not whitespace, or its length.
pub fn first_non_space(t: &Vec<char>) -> (r: usize)
    ensures
        r as int == lead_len(t@),
        r <= t.len(),
{
    let mut i: usize = 0;
    assert(t@.subrange(0, t.len() as int) =~= t@);
    while i < t.len() && space(t[i])
        invariant
            i <= t.len(),
            lead_len(t@) == i + lead_len(t@.subrange(i as int, t.len() as int)),
        decreases t.len() - i,
    {
        assert(t@.subrange(i as int, t.len() as int).drop_first() =~= t@.subrange(
            i + 1,
            t.len() as int,
        ));
        i = i + 1;
    }
    i
}

/// Index of the first whitespace character at or after `i`, or the end.
pub open spec fn word_stop(t: Seq<char>, i: int) -> int
    decreases t.len() - i,
{
    if 0 <= i < t.len() && !is_space(t[i]) {
        word_stop(t, i + 1)
    } else {
        i
    }
}

pub proof fn lemma_word_stop(t: Seq<char>, i: int)
    requires
        0 <= i <= t.len(),
    ensures
        i <= word_stop(t, i) <= t.len(),
    decreases t.len() - i,
{
    if i < t.len() && !is_space(t[i]) {
        lemma_word_stop(t, i + 1);
    }
}

/// The maximal runs of non-whitespace characters of `t` from index `i`.
pub open spec fn words_from(t: Seq<char>, i: int) -> Seq<Seq<char>>
    decreases t.len() - i,
{
    if i < 0 || i >= t.len() {
        Seq::empty()
    } else if is_space(t[i]) {
        words_from(t, i + 1)
    } else {
        let e = word_stop(t, i);
        if i < e <= t.len() {
            seq![t.subrange(i, e)] + words_from(t, e)
        } else {
            Seq::empty()
        }
    }
}

/// The words of `t`, split at whitespace.
pub fn split_words(t: &Vec<char>) -> (r: Vec<Vec<char>>)
    ensures
        views(r@) == words_from(t@, 0),
{
    let mut r: Vec<Vec<char>> = Vec::new();
    let mut i: usize = 0;
    while i < t.len()
        invariant
            i <= t.len(),
            words_from(t@, 0) == views(r@) + words_from(t@, i as int),
        decreases t.len() - i,
    {
        if space(t[i]) {
            i = i + 1;
        } else {
            let mut e: usize = i + 1;
            while e < t.len() && !space(t[e])
                invariant
                    i < e <= t.len(),
                    word_stop(t@, e as int) == word_stop(t@, i as int),
                decreases t.len() - e,
            {
                e = e + 1;
            }
            let w = slice_chars(t, i, e);
            let ghost before = r@;
            r.push(w);
            assert(views(r@) =~= views(before) + seq![w@]);
            i = e;
        }
    }
    assert(views(r@) + Seq::<Seq<char>>::empty() =~= views(r@));
    r
}

/// The words joined with single spaces.
pub open spec fn join_words(ws: Seq<Seq<char>>) -> Seq<char>
    decreases ws.len(),
{
    if ws.len() == 0 {
        Seq::empty()
    } else if ws.len() == 1 {
        ws[0]
    } else {
        join_words(ws.drop_last()) + seq![' '] + ws.last()
    }
}

/// The words `ws[from..]` joined with single spaces.
pub fn join_from(ws: &Vec<Vec<char>>, from: usize) -> (r: Vec<char>)
    requires
        from <= ws.len(),
    ensures
        r@ == join_words(views(ws@).subrange(from as int, ws.len() as int)),
{
    let mut r: Vec<char> = Vec::new();
    let mut i: usize = from;
    while i < ws.len()
        invariant
            from <= i <= ws.len(),
            r@ == join_words(views(ws@).subrange(from as int, i as int)),
        decreases ws.len() - i,
    {
        let ghost before = r@;
        if i > from {
            r.push(' ');
        }
        let w = &ws[i];
        let mut k: usize = 0;
        while k < w.len()
            invariant
                k <= w.len(),
                r@ == before + (if i > from { seq![' '] } else { Seq::empty() }) + w@.subrange(
                    0,
                    k as int,
                ),
            decreases w.len() - k,
        {
            r.push(w[k]);
            k = k + 1;
            assert(r@ =~= before + (if i > from { seq![' '] } else { Seq::empty() }) + w@.subrange(
                0,
                k as int,
            ));
        }
        proof {
            let part = views(ws@).subrange(from as int, i + 1);
            assert(part.drop_last() =~= views(ws@).subrange(from as int, i as int));
            assert(part.last() == w@);
            assert(w@.subrange(0, w@.len() as int) =~= w@);
            if i > from {
                assert(r@ =~= join_words(part));
            } else {
                assert(part.len() == 1);
                assert(r@ =~= join_words(part));
            }
        }
        i = i + 1;
    }
    r
}

} // verus!
