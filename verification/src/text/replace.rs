//! Replacing every occurrence of one text by another.

use vstd::prelude::*;
use crate::text::append_chars;
use crate::text::search::{contains, find, lemma_find_from, matches_at, occurs_at};

verus! {

/// `s` with each occurrence of `pat` replaced by `with`, the occurrences taken
/// from the left and not overlapping. An empty `pat` occurs nowhere.
pub open spec fn replace(s: Seq<char>, pat: Seq<char>, with: Seq<char>) -> Seq<char>
    decreases s.len(),
{
    if pat.len() == 0 || s.len() == 0 {
        s
    } else if occurs_at(s, pat, 0) {
        with + replace(s.skip(pat.len() as int), pat, with)
    } else {
        seq![s[0]] + replace(s.skip(1), pat, with)
    }
}

/// A text in which `pat` does not occur is left as it is.
pub proof fn lemma_replace_absent(s: Seq<char>, pat: Seq<char>, with: Seq<char>)
    requires
        !contains(s, pat),
    ensures
        replace(s, pat, with) == s,
    decreases s.len(),
{
    if pat.len() == 0 || s.len() == 0 {
    } else {
        assert(!occurs_at(s, pat, 0));
        assert forall|i: int| !occurs_at(s.skip(1), pat, i) by {
            if occurs_at(s.skip(1), pat, i) {
                assert(s.skip(1).subrange(i, i + pat.len()) == s.subrange(i + 1, i + 1 + pat.len()));
                assert(occurs_at(s, pat, i + 1));
            }
        }
        lemma_replace_absent(s.skip(1), pat, with);
        assert(seq![s[0]] + s.skip(1) == s);
    }
}

/// Up to the first occurrence of `pat` nothing changes; there `with` stands in
/// its place, and what follows is replaced in the same way.
pub proof fn lemma_replace_first(s: Seq<char>, pat: Seq<char>, with: Seq<char>, i: int)
    requires
        pat.len() > 0,
        find(s, pat) == Some(i),
    ensures
        0 <= i && i + pat.len() <= s.len(),
        replace(s, pat, with) == s.take(i) + with + replace(s.skip(i + pat.len()), pat, with),
    decreases i,
{
    lemma_find_from(s, pat, 0);
    if i == 0 {
        assert(s.take(0) + with == with);
    } else {
        assert(!occurs_at(s, pat, 0));
        let rest = s.skip(1);
        assert forall|j: int| occurs_at(rest, pat, j) == occurs_at(s, pat, j + 1) by {
            if 0 <= j && j + pat.len() <= rest.len() {
                assert(rest.subrange(j, j + pat.len()) == s.subrange(j + 1, j + 1 + pat.len()));
            }
        }
        lemma_find_from(rest, pat, 0);
        assert(find(rest, pat) == Some(i - 1)) by {
            let found = find(rest, pat);
            assert(occurs_at(rest, pat, i - 1));
            assert(found is Some);
            if found->0 < i - 1 {
                assert(occurs_at(s, pat, found->0 + 1));
            }
        }
        lemma_replace_first(rest, pat, with, i - 1);
        assert(rest.skip(i - 1 + pat.len()) == s.skip(i + pat.len()));
        assert(seq![s[0]] + (rest.take(i - 1) + with + replace(
            s.skip(i + pat.len()),
            pat,
            with,
        )) == s.take(i) + with + replace(s.skip(i + pat.len()), pat, with)) by {
            assert(seq![s[0]] + rest.take(i - 1) == s.take(i));
        }
    }
}

/// What comes out of a replacement by the one character `c` begins with `w`
/// only where what went in did, for a `w` without `c`.
proof fn lemma_replace_keeps_prefix(s: Seq<char>, pat: Seq<char>, c: char, w: Seq<char>)
    requires
        pat.len() > 0,
        !w.contains(c),
        occurs_at(replace(s, pat, seq![c]), w, 0),
    ensures
        occurs_at(s, w, 0),
    decreases w.len(),
{
    let r = replace(s, pat, seq![c]);
    if w.len() == 0 {
        assert(s.subrange(0, 0) == w);
    } else {
        assert(r.subrange(0, w.len() as int)[0] == w[0]);
        assert(w.contains(w[0]));
        assert(s.len() > 0);
        if occurs_at(s, pat, 0) {
            assert(r[0] == c);
        } else {
            let rest = replace(s.skip(1), pat, seq![c]);
            assert(r == seq![s[0]] + rest);
            let tail = w.skip(1);
            assert(rest.subrange(0, tail.len() as int) == r.subrange(0, w.len() as int).skip(1));
            assert(!tail.contains(c)) by {
                if tail.contains(c) {
                    let i = choose|i: int| 0 <= i < tail.len() && tail[i] == c;
                    assert(w[i + 1] == c);
                }
            }
            lemma_replace_keeps_prefix(s.skip(1), pat, c, tail);
            assert(s.skip(1).subrange(0, tail.len() as int) == s.subrange(1, w.len() as int));
            assert(s.subrange(0, w.len() as int) == seq![s[0]] + s.subrange(1, w.len() as int));
            assert(w == seq![w[0]] + tail);
        }
    }
}

/// Replaced by one character that it does not hold, `pat` is gone: it occurs
/// nowhere in what comes out.
pub proof fn lemma_replace_removes(s: Seq<char>, pat: Seq<char>, c: char)
    requires
        pat.len() > 0,
        !pat.contains(c),
    ensures
        !contains(replace(s, pat, seq![c]), pat),
    decreases s.len(),
{
    let r = replace(s, pat, seq![c]);
    if s.len() == 0 {
        assert forall|k: int| !occurs_at(r, pat, k) by {}
    } else {
        let step: int = if occurs_at(s, pat, 0) {
            pat.len() as int
        } else {
            1
        };
        let head: char = if occurs_at(s, pat, 0) {
            c
        } else {
            s[0]
        };
        let rest = replace(s.skip(step), pat, seq![c]);
        assert(r == seq![head] + rest);
        lemma_replace_removes(s.skip(step), pat, c);
        assert forall|k: int| !occurs_at(r, pat, k) by {
            if occurs_at(r, pat, k) {
                if k == 0 {
                    if occurs_at(s, pat, 0) {
                        assert(r.subrange(0, pat.len() as int)[0] == pat[0]);
                        assert(pat.contains(pat[0]));
                    } else {
                        lemma_replace_keeps_prefix(s, pat, c, pat);
                    }
                } else {
                    assert(rest.subrange(k - 1, k - 1 + pat.len()) == r.subrange(
                        k,
                        k + pat.len(),
                    ));
                    assert(occurs_at(rest, pat, k - 1));
                }
            }
        }
    }
}

/// Computes [`replace`].
pub fn replaced(s: &[char], pat: &[char], with: &[char]) -> (r: Vec<char>)
    ensures
        r@ == replace(s@, pat@, with@),
{
    let mut out: Vec<char> = Vec::new();
    if pat.len() == 0 {
        append_chars(&mut out, s);
        return out;
    }
    let mut i: usize = 0;
    assert(s@.skip(0) == s@);
    while i < s.len()
        invariant
            i <= s.len(),
            pat.len() > 0,
            replace(s@, pat@, with@) == out@ + replace(s@.skip(i as int), pat@, with@),
        decreases s.len() - i,
    {
        let ghost rest = s@.skip(i as int);
        let ghost before = out@;
        assert(i + pat.len() <= s.len() ==> rest.subrange(0, pat.len() as int) == s@.subrange(
            i as int,
            i + pat.len(),
        ));
        if matches_at(s, pat, i) {
            append_chars(&mut out, with);
            assert(rest.skip(pat.len() as int) == s@.skip(i + pat.len()));
            assert(before + (with@ + replace(rest.skip(pat.len() as int), pat@, with@)) == (before
                + with@) + replace(rest.skip(pat.len() as int), pat@, with@));
            i += pat.len();
        } else {
            out.push(s[i]);
            assert(rest.skip(1) == s@.skip(i + 1));
            assert(before + (seq![rest[0]] + replace(rest.skip(1), pat@, with@)) == before.push(
                s@[i as int],
            ) + replace(rest.skip(1), pat@, with@));
            i += 1;
        }
    }
    assert(out@ + Seq::<char>::empty() == out@);
    out
}

} // verus!
