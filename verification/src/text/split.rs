//! Cutting a text into lines and into fields.

use vstd::prelude::*;
use crate::text::copy_range;
use crate::text::trim::{is_whitespace, whitespace};

verus! {

/// What each of the texts in `v` holds.
pub open spec fn texts(v: Seq<Vec<char>>) -> Seq<Seq<char>> {
    Seq::new(v.len(), |i: int| v[i]@)
}

/// The index of the first line feed in `s`; the length of `s` where it holds none.
pub open spec fn line_end(s: Seq<char>) -> nat
    decreases s.len(),
{
    if s.len() == 0 || s[0] == '\n' {
        0
    } else {
        1 + line_end(s.skip(1))
    }
}

/// The lines of `s`: the pieces that its line feeds end, without those line
/// feeds, and what follows the last line feed unless that is empty.
pub open spec fn lines(s: Seq<char>) -> Seq<Seq<char>>
    decreases s.len(),
{
    if s.len() == 0 {
        Seq::empty()
    } else {
        let n = line_end(s) as int;
        if n < s.len() {
            seq![s.take(n)] + lines(s.skip(n + 1))
        } else {
            seq![s]
        }
    }
}

/// The length of the run of characters other than white space that `s` begins
/// with.
pub open spec fn word_len(s: Seq<char>) -> nat
    decreases s.len(),
{
    if s.len() == 0 || is_whitespace(s[0]) {
        0
    } else {
        1 + word_len(s.skip(1))
    }
}

/// A word is no longer than the text it begins.
pub proof fn lemma_word_len(s: Seq<char>)
    ensures
        word_len(s) <= s.len(),
        s.len() > 0 && !is_whitespace(s[0]) ==> word_len(s) >= 1,
        forall|i: int| 0 <= i < word_len(s) ==> !is_whitespace(s[i]),
        word_len(s) < s.len() ==> is_whitespace(s[word_len(s) as int]),
    decreases s.len(),
{
    if s.len() == 0 || is_whitespace(s[0]) {
    } else {
        lemma_word_len(s.skip(1));
        assert forall|i: int| 0 <= i < word_len(s) implies !is_whitespace(s[i]) by {
            if i > 0 {
                assert(s[i] == s.skip(1)[i - 1]);
            }
        }
        if word_len(s) < s.len() {
            assert(s[word_len(s) as int] == s.skip(1)[word_len(s.skip(1)) as int]);
        }
    }
}

/// The fields of `s`: its maximal runs of characters other than white space, in
/// order.
pub open spec fn fields(s: Seq<char>) -> Seq<Seq<char>>
    decreases s.len(),
    via fields_decreases
{
    if s.len() == 0 {
        Seq::empty()
    } else if is_whitespace(s[0]) {
        fields(s.skip(1))
    } else {
        let n = word_len(s) as int;
        seq![s.take(n)] + fields(s.skip(n))
    }
}

#[via_fn]
proof fn fields_decreases(s: Seq<char>) {
    lemma_word_len(s);
}

/// Computes [`lines`].
pub fn split_lines(s: &[char]) -> (r: Vec<Vec<char>>)
    ensures
        texts(r@) == lines(s@),
{
    let mut out: Vec<Vec<char>> = Vec::new();
    let mut start: usize = 0;
    let mut i: usize = 0;
    assert(s@.skip(0) == s@);
    assert(texts(out@) + lines(s@) == lines(s@));
    while i < s.len()
        invariant
            start <= i <= s.len(),
            lines(s@) == texts(out@) + lines(s@.skip(start as int)),
            line_end(s@.skip(start as int)) == (i - start) + line_end(s@.skip(i as int)),
        decreases s.len() - i,
    {
        let ghost rest = s@.skip(start as int);
        if s[i] == '\n' {
            let line = copy_range(s, start, i);
            let ghost before = out@;
            out.push(line);
            proof {
                let n = i - start;
                assert(line_end(s@.skip(i as int)) == 0);
                assert(rest.take(n) == s@.subrange(start as int, i as int));
                assert(rest.skip(n + 1) == s@.skip(i + 1));
                assert(texts(out@) == texts(before).push(line@));
                assert(texts(before) + (seq![line@] + lines(rest.skip(n + 1))) == texts(
                    before,
                ).push(line@) + lines(rest.skip(n + 1)));
            }
            start = i + 1;
        } else {
            assert(s@.skip(i as int).skip(1) == s@.skip(i + 1));
        }
        i += 1;
    }
    if start < s.len() {
        let line = copy_range(s, start, s.len());
        let ghost before = out@;
        out.push(line);
        proof {
            let rest = s@.skip(start as int);
            assert(line@ == rest);
            assert(texts(out@) == texts(before).push(line@));
            assert(texts(before) + seq![rest] == texts(before).push(rest));
        }
    } else {
        assert(texts(out@) + Seq::<Seq<char>>::empty() == texts(out@));
    }
    out
}

/// Computes [`fields`].
pub fn split_fields(s: &[char]) -> (r: Vec<Vec<char>>)
    ensures
        texts(r@) == fields(s@),
{
    let mut out: Vec<Vec<char>> = Vec::new();
    let mut i: usize = 0;
    assert(s@.skip(0) == s@);
    assert(texts(out@) + fields(s@) == fields(s@));
    while i < s.len()
        invariant
            i <= s.len(),
            fields(s@) == texts(out@) + fields(s@.skip(i as int)),
        decreases s.len() - i,
    {
        if whitespace(s[i]) {
            assert(s@.skip(i as int).skip(1) == s@.skip(i + 1));
            i += 1;
        } else {
            let start: usize = i;
            let ghost rest = s@.skip(start as int);
            while i < s.len() && !whitespace(s[i])
                invariant
                    start <= i <= s.len(),
                    word_len(s@.skip(start as int)) == (i - start) + word_len(s@.skip(i as int)),
                decreases s.len() - i,
            {
                assert(s@.skip(i as int).skip(1) == s@.skip(i + 1));
                i += 1;
            }
            let word = copy_range(s, start, i);
            let ghost before = out@;
            out.push(word);
            proof {
                let n = i - start;
                assert(word_len(rest) == n);
                assert(rest.take(n) == s@.subrange(start as int, i as int));
                assert(rest.skip(n) == s@.skip(i as int));
                assert(texts(out@) == texts(before).push(word@));
                assert(texts(before) + (seq![word@] + fields(rest.skip(n))) == texts(before).push(
                    word@,
                ) + fields(rest.skip(n)));
            }
        }
    }
    assert(texts(out@) + Seq::<Seq<char>>::empty() == texts(out@));
    out
}

} // verus!
