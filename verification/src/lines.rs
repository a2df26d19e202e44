//! Splitting text into lines, as `str::lines` does.

use vstd::prelude::*;

verus! {

/// The pieces of `s` between `'\n'` characters (there is always at least one).
pub open spec fn split_nl(s: Seq<char>) -> Seq<Seq<char>>
    decreases s.len(),
{
    if s.len() == 0 {
        seq![Seq::empty()]
    } else if s.last() == '\n' {
        split_nl(s.drop_last()).push(Seq::empty())
    } else {
        let p = split_nl(s.drop_last());
        p.update(p.len() - 1, p.last().push(s.last()))
    }
}

/// The lines of `s` (`str::lines`): the pieces between `'\n'` characters,
/// without the empty piece after a final `'\n'`. `str::lines` also removes
/// a `'\r'` before each `'\n'`; every caller in this crate trims its lines,
/// for which that removal makes no difference.
pub open spec fn lines(s: Seq<char>) -> Seq<Seq<char>> {
    let p = split_nl(s);
    if p.last().len() == 0 {
        p.drop_last()
    } else {
        p
    }
}

pub proof fn lemma_split_nl_nonempty(s: Seq<char>)
    ensures
        split_nl(s).len() >= 1,
    decreases s.len(),
{
    if s.len() > 0 {
        lemma_split_nl_nonempty(s.drop_last());
    }
}

/// Text without a newline is a single piece.
pub proof fn lemma_split_nl_single(h: Seq<char>)
    requires
        forall|j: int| 0 <= j < h.len() ==> #[trigger] h[j] != '\n',
    ensures
        split_nl(h) == seq![h],
    decreases h.len(),
{
    if h.len() > 0 {
        lemma_split_nl_single(h.drop_last());
        assert(split_nl(h.drop_last()) == seq![h.drop_last()]);
        assert(h.drop_last().push(h.last()) =~= h);
        assert(seq![h.drop_last()].update(0, h) =~= seq![h]);
    } else {
        assert(h =~= Seq::<char>::empty());
    }
}

/// What follows a newline does not change the pieces before it.
proof fn lemma_split_nl_first(h: Seq<char>, rest: Seq<char>)
    requires
        forall|j: int| 0 <= j < h.len() ==> #[trigger] h[j] != '\n',
    ensures
        split_nl(h + seq!['\n'] + rest).len() >= 2,
        split_nl(h + seq!['\n'] + rest)[0] == h,
    decreases rest.len(),
{
    let s = h + seq!['\n'] + rest;
    if rest.len() == 0 {
        assert(s.drop_last() =~= h);
        assert(s.last() == '\n');
        lemma_split_nl_single(h);
    } else {
        lemma_split_nl_first(h, rest.drop_last());
        assert(s.drop_last() =~= h + seq!['\n'] + rest.drop_last());
    }
}

/// The first line of a text that begins with a line `h` (a line of its
/// own, or one ended by a newline) is `h`.
pub proof fn lemma_lines_first(h: Seq<char>, rest: Seq<char>)
    requires
        h.len() > 0,
        forall|j: int| 0 <= j < h.len() ==> #[trigger] h[j] != '\n',
        rest.len() == 0 || rest[0] == '\n',
    ensures
        lines(h + rest).len() >= 1,
        lines(h + rest)[0] == h,
{
    if rest.len() == 0 {
        assert(h + rest =~= h);
        lemma_split_nl_single(h);
    } else {
        let t = rest.drop_first();
        assert(h + rest =~= h + seq!['\n'] + t);
        lemma_split_nl_first(h, t);
    }
}

/// Every piece of a text made of characters with a property has it too.
pub proof fn lemma_split_nl_keeps(s: Seq<char>, f: spec_fn(char) -> bool)
    requires
        forall|k: int| 0 <= k < s.len() ==> f(#[trigger] s[k]),
    ensures
        forall|i: int, j: int|
            0 <= i < split_nl(s).len() && 0 <= j < split_nl(s)[i].len() ==> f(#[trigger] split_nl(s)[i][j]),
    decreases s.len(),
{
    if s.len() > 0 {
        let p = split_nl(s.drop_last());
        lemma_split_nl_nonempty(s.drop_last());
        lemma_split_nl_keeps(s.drop_last(), f);
        assert(f(s[s.len() - 1]));
        if s.last() != '\n' {
            assert forall|i: int, j: int|
                0 <= i < split_nl(s).len() && 0 <= j < split_nl(s)[i].len() implies f(
                #[trigger] split_nl(s)[i][j],
            ) by {
                if i < p.len() - 1 {
                    assert(split_nl(s)[i] == p[i]);
                } else if j < p.last().len() {
                    assert(split_nl(s)[i][j] == p[i][j]);
                }
            }
        } else {
            assert forall|i: int, j: int|
                0 <= i < split_nl(s).len() && 0 <= j < split_nl(s)[i].len() implies f(
                #[trigger] split_nl(s)[i][j],
            ) by {
                if i < p.len() {
                    assert(split_nl(s)[i] == p[i]);
                }
            }
        }
    }
}

/// Line bounds `(lo, hi)` of `v`, in order: `v[lo..hi]` is each line.
pub fn line_ranges(v: &[char]) -> (r: Vec<(usize, usize)>)
    ensures
        r@.len() == lines(v@).len(),
        forall|i: int|
            #![trigger r@[i]] 0 <= i < r@.len() ==> r@[i].0 <= r@[i].1 <= v@.len() && v@.subrange(
                r@[i].0 as int,
                r@[i].1 as int,
            ) == lines(v@)[i],
{
    let mut r: Vec<(usize, usize)> = Vec::new();
    let mut start: usize = 0;
    let mut i: usize = 0;
    let ghost mut pieces = split_nl(v@.take(0));
    proof {
        assert(v@.take(0) == Seq::<char>::empty());
    }
    while i < v.len()
        invariant
            0 <= start <= i <= v@.len(),
            pieces == split_nl(v@.take(i as int)),
            pieces.len() == r@.len() + 1,
            pieces.last() == v@.subrange(start as int, i as int),
            forall|k: int|
                #![trigger r@[k]] 0 <= k < r@.len() ==> r@[k].0 <= r@[k].1 <= v@.len() && v@.subrange(
                    r@[k].0 as int,
                    r@[k].1 as int,
                ) == pieces[k],
        decreases v.len() - i,
    {
        let ghost p = pieces;
        let ghost q = v@.take(i + 1);
        assert(q.drop_last() == v@.take(i as int));
        assert(q.last() == v@[i as int]);
        let ghost r0 = r@;
        if v[i] == '\n' {
            r.push((start, i));
            proof {
                pieces = p.push(Seq::empty());
                assert(split_nl(q) == pieces);
                assert forall|k: int| #![trigger r@[k]] 0 <= k < r@.len() implies r@[k].0 <= r@[k].1
                    <= v@.len() && v@.subrange(r@[k].0 as int, r@[k].1 as int) == pieces[k] by {
                    if k < r0.len() {
                        assert(r@[k] == r0[k]);
                        assert(pieces[k] == p[k]);
                    } else {
                        assert(r@[k] == (start, i));
                        assert(pieces[k] == p.last());
                    }
                }
            }
            start = i + 1;
            assert(v@.subrange(start as int, i + 1) == Seq::<char>::empty());
        } else {
            proof {
                pieces = p.update(p.len() - 1, p.last().push(v@[i as int]));
                assert(split_nl(q) == pieces);
                assert forall|k: int| #![trigger r@[k]] 0 <= k < r@.len() implies r@[k].0 <= r@[k].1
                    <= v@.len() && v@.subrange(r@[k].0 as int, r@[k].1 as int) == pieces[k] by {
                    assert(pieces[k] == p[k]);
                }
            }
            assert(v@.subrange(start as int, i + 1) == v@.subrange(start as int, i as int).push(
                v@[i as int],
            ));
        }
        i = i + 1;
    }
    assert(v@.take(v@.len() as int) == v@);
    if start < v.len() {
        r.push((start, v.len()));
    }
    r
}

} // verus!
