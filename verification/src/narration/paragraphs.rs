//! What normalized chapter text is made of: its lines are the source's
//! trimmed non-blank lines, a single blank line between paragraphs.
use crate::narration::book::{lemma_trim_idempotent, normalize_lines, normalize_spec};
use crate::lines::{lemma_split_nl_nonempty, lines, split_nl};
use crate::text::{trim, trim_end, trim_start};
use vstd::prelude::*;

verus! {

/// Lines joined with `'\n'` between them.
pub open spec fn join_nl(ls: Seq<Seq<char>>) -> Seq<char>
    decreases ls.len(),
{
    if ls.len() == 0 {
        Seq::empty()
    } else if ls.len() == 1 {
        ls[0]
    } else {
        join_nl(ls.drop_last()) + seq!['\n'] + ls.last()
    }
}

/// The lines of normalized text: each source line trimmed, blank ones
/// dropped, and one empty line between lines that a blank line separated.
pub open spec fn out_lines(ls: Seq<Seq<char>>) -> Seq<Seq<char>>
    decreases ls.len(),
{
    if ls.len() == 0 {
        Seq::empty()
    } else {
        let rest = ls.drop_last();
        let t = trim(ls.last());
        let prev = out_lines(rest);
        if t.len() == 0 {
            prev
        } else if prev.len() == 0 {
            seq![t]
        } else if trim(rest.last()).len() == 0 {
            prev + seq![Seq::empty(), t]
        } else {
            prev.push(t)
        }
    }
}

/// The source's lines trimmed, blank ones dropped, in order.
pub open spec fn nonblank(ls: Seq<Seq<char>>) -> Seq<Seq<char>>
    decreases ls.len(),
{
    if ls.len() == 0 {
        Seq::empty()
    } else if trim(ls.last()).len() == 0 {
        nonblank(ls.drop_last())
    } else {
        nonblank(ls.drop_last()).push(trim(ls.last()))
    }
}

/// The non-empty ones of some lines, in order.
pub open spec fn nonempty_lines(ls: Seq<Seq<char>>) -> Seq<Seq<char>>
    decreases ls.len(),
{
    if ls.len() == 0 {
        Seq::empty()
    } else if ls.last().len() == 0 {
        nonempty_lines(ls.drop_last())
    } else {
        nonempty_lines(ls.drop_last()).push(ls.last())
    }
}

/// Lines with no `'\n'` in them.
pub open spec fn no_newlines(ls: Seq<Seq<char>>) -> bool {
    forall|i: int, j: int| 0 <= i < ls.len() && 0 <= j < ls[i].len() ==> #[trigger] ls[i][j] != '\n'
}

/// The shape of normalized lines: each trimmed and free of `'\n'`, the first
/// and the last non-empty, and no two empty ones in a row.
pub open spec fn paragraph_shape(ls: Seq<Seq<char>>) -> bool {
    &&& no_newlines(ls)
    &&& forall|i: int| 0 <= i < ls.len() ==> trim(#[trigger] ls[i]) == ls[i]
    &&& ls.len() > 0 ==> ls[0].len() > 0 && ls.last().len() > 0
    &&& forall|i: int| 0 <= i < ls.len() - 1 ==> (#[trigger] ls[i]).len() > 0 || ls[i + 1].len() > 0
}

proof fn lemma_split_no_newline(s: Seq<char>)
    requires
        forall|j: int| 0 <= j < s.len() ==> s[j] != '\n',
    ensures
        split_nl(s) == seq![s],
    decreases s.len(),
{
    if s.len() > 0 {
        lemma_split_no_newline(s.drop_last());
        assert(s.drop_last().push(s.last()) =~= s);
    } else {
        assert(s =~= Seq::<char>::empty());
    }
}

proof fn lemma_split_concat(x: Seq<char>, y: Seq<char>)
    ensures
        split_nl(x + seq!['\n'] + y) == split_nl(x) + split_nl(y),
    decreases y.len(),
{
    let s = x + seq!['\n'] + y;
    if y.len() == 0 {
        assert(s =~= x.push('\n'));
        assert(s.drop_last() =~= x);
        assert(split_nl(x).push(Seq::empty()) =~= split_nl(x) + seq![Seq::<char>::empty()]);
    } else {
        lemma_split_concat(x, y.drop_last());
        assert(s.drop_last() =~= x + seq!['\n'] + y.drop_last());
        assert(s.last() == y.last());
        lemma_split_nl_nonempty(y.drop_last());
        lemma_split_nl_nonempty(x);
        if y.last() == '\n' {
            assert((split_nl(x) + split_nl(y.drop_last())).push(Seq::empty()) =~= split_nl(x) + split_nl(
                y.drop_last(),
            ).push(Seq::empty()));
        } else {
            let p = split_nl(x) + split_nl(y.drop_last());
            let q = split_nl(y.drop_last());
            assert(p.update(p.len() - 1, p.last().push(y.last())) =~= split_nl(x) + q.update(
                q.len() - 1,
                q.last().push(y.last()),
            ));
        }
    }
}

proof fn lemma_split_join(ls: Seq<Seq<char>>)
    requires
        ls.len() > 0,
        no_newlines(ls),
    ensures
        split_nl(join_nl(ls)) == ls,
    decreases ls.len(),
{
    if ls.len() == 1 {
        assert forall|j: int| 0 <= j < ls[0].len() implies ls[0][j] != '\n' by {
            assert(ls[0][j] != '\n');
        }
        lemma_split_no_newline(ls[0]);
        assert(seq![ls[0]] =~= ls);
    } else {
        let init = ls.drop_last();
        assert forall|i: int, j: int| 0 <= i < init.len() && 0 <= j < init[i].len() implies #[trigger] init[i][j]
            != '\n' by {
            assert(init[i] == ls[i]);
            assert(ls[i][j] != '\n');
        }
        lemma_split_join(init);
        let e = ls.last();
        assert forall|j: int| 0 <= j < e.len() implies e[j] != '\n' by {
            assert(ls[ls.len() - 1][j] != '\n');
        }
        lemma_split_no_newline(e);
        lemma_split_concat(join_nl(init), e);
        assert(init + seq![e] =~= ls);
    }
}

proof fn lemma_split_no_newlines(s: Seq<char>)
    ensures
        no_newlines(split_nl(s)),
    decreases s.len(),
{
    if s.len() > 0 {
        let init = s.drop_last();
        lemma_split_no_newlines(init);
        lemma_split_nl_nonempty(init);
        let p = split_nl(init);
        if s.last() != '\n' {
            let q = p.update(p.len() - 1, p.last().push(s.last()));
            assert forall|i: int, j: int| 0 <= i < q.len() && 0 <= j < q[i].len() implies #[trigger] q[i][j] != '\n' by {
                if i == p.len() - 1 && j == p.last().len() {
                } else {
                    assert(q[i][j] == p[i][j]);
                }
            }
        } else {
            let q = p.push(Seq::<char>::empty());
            assert forall|i: int, j: int| 0 <= i < q.len() && 0 <= j < q[i].len() implies #[trigger] q[i][j] != '\n' by {
                assert(q[i][j] == p[i][j]);
            }
        }
    }
}

proof fn lemma_trim_index(s: Seq<char>)
    ensures
        forall|j: int|
            0 <= j < trim(s).len() ==> #[trigger] trim(s)[j] == s[crate::text::lead_ws(s) + j],
        crate::text::lead_ws(s) + trim(s).len() <= s.len(),
{
    crate::text::lemma_lead_ws_bound(s);
    crate::text::lemma_trail_ws_bound(trim_start(s));
}

proof fn lemma_trim_empty()
    ensures
        trim(Seq::<char>::empty()) == Seq::<char>::empty(),
{
    crate::text::lemma_lead_ws_bound(Seq::<char>::empty());
    crate::text::lemma_trail_ws_bound(trim_start(Seq::<char>::empty()));
    assert(trim(Seq::<char>::empty()) =~= Seq::<char>::empty());
}

proof fn lemma_join_last(ls: Seq<Seq<char>>)
    requires
        ls.len() > 0,
    ensures
        join_nl(ls).len() >= ls.last().len(),
{
}

/// Normalized text is its lines joined by `'\n'`; those lines are trimmed,
/// the first and the last non-empty, no two empty in a row, and free of
/// `'\n'` when the source lines are.
proof fn lemma_normalize_join(ls: Seq<Seq<char>>)
    ensures
        normalize_lines(ls) == join_nl(out_lines(ls)),
        forall|i: int| 0 <= i < out_lines(ls).len() ==> trim(#[trigger] out_lines(ls)[i]) == out_lines(ls)[i],
        out_lines(ls).len() > 0 ==> out_lines(ls)[0].len() > 0 && out_lines(ls).last().len() > 0,
        forall|i: int|
            0 <= i < out_lines(ls).len() - 1 ==> (#[trigger] out_lines(ls)[i]).len() > 0 || out_lines(ls)[i + 1].len() > 0,
        no_newlines(ls) ==> no_newlines(out_lines(ls)),
    decreases ls.len(),
{
    if ls.len() > 0 {
        let rest = ls.drop_last();
        let line = ls.last();
        let t = trim(line);
        let prev = out_lines(rest);
        lemma_normalize_join(rest);
        lemma_trim_idempotent(line);
        lemma_trim_empty();
        if no_newlines(ls) {
            assert forall|i: int, j: int| 0 <= i < rest.len() && 0 <= j < rest[i].len() implies #[trigger] rest[i][j]
                != '\n' by {
                assert(rest[i] == ls[i]);
                assert(ls[i][j] != '\n');
            }
            lemma_trim_index(line);
            assert forall|j: int| 0 <= j < t.len() implies t[j] != '\n' by {
                assert(t[j] == line[crate::text::lead_ws(line) + j]);
                assert(ls[ls.len() - 1][crate::text::lead_ws(line) + j] != '\n');
            }
        }
        if prev.len() > 0 {
            lemma_join_last(prev);
        }
        if t.len() == 0 {
        } else if prev.len() == 0 {
            assert(join_nl(seq![t]) == t);
        } else if trim(rest.last()).len() == 0 {
            let o = prev + seq![Seq::<char>::empty(), t];
            assert(o.drop_last() =~= prev.push(Seq::<char>::empty()));
            assert(o.drop_last().drop_last() =~= prev);
            let pe = prev.push(Seq::<char>::empty());
            assert(pe.drop_last() =~= prev);
            assert(join_nl(pe) == join_nl(prev) + seq!['\n'] + Seq::<char>::empty());
            assert(join_nl(o) == join_nl(pe) + seq!['\n'] + t);
            assert(join_nl(o) =~= join_nl(prev) + seq!['\n', '\n'] + t);
            assert forall|i: int| 0 <= i < o.len() implies trim(#[trigger] o[i]) == o[i] by {
                if i < prev.len() {
                    assert(o[i] == prev[i]);
                }
            }
            assert forall|i: int| 0 <= i < o.len() - 1 implies (#[trigger] o[i]).len() > 0 || o[i + 1].len() > 0 by {
                if i < prev.len() - 1 {
                    assert(o[i] == prev[i]);
                    assert(o[i + 1] == prev[i + 1]);
                } else if i == prev.len() - 1 {
                    assert(o[i] == prev.last());
                }
            }
            assert(o[0] == prev[0]);
            if no_newlines(ls) {
                assert forall|i: int, j: int| 0 <= i < o.len() && 0 <= j < o[i].len() implies #[trigger] o[i][j]
                    != '\n' by {
                    if i < prev.len() {
                        assert(o[i] == prev[i]);
                        assert(prev[i][j] != '\n');
                    } else {
                        assert(o[i] == t);
                    }
                }
            }
        } else {
            let o = prev.push(t);
            assert(o.drop_last() =~= prev);
            assert forall|i: int| 0 <= i < o.len() implies trim(#[trigger] o[i]) == o[i] by {
                if i < prev.len() {
                    assert(o[i] == prev[i]);
                }
            }
            assert forall|i: int| 0 <= i < o.len() - 1 implies (#[trigger] o[i]).len() > 0 || o[i + 1].len() > 0 by {
                if i < prev.len() - 1 {
                    assert(o[i] == prev[i]);
                    assert(o[i + 1] == prev[i + 1]);
                }
            }
            assert(o[0] == prev[0]);
            if no_newlines(ls) {
                assert forall|i: int, j: int| 0 <= i < o.len() && 0 <= j < o[i].len() implies #[trigger] o[i][j]
                    != '\n' by {
                    if i < prev.len() {
                        assert(o[i] == prev[i]);
                        assert(prev[i][j] != '\n');
                    }
                }
            }
        }
    }
}

proof fn lemma_out_lines_idempotent(ls: Seq<Seq<char>>)
    ensures
        out_lines(out_lines(ls)) == out_lines(ls),
    decreases ls.len(),
{
    if ls.len() > 0 {
        let rest = ls.drop_last();
        let line = ls.last();
        let t = trim(line);
        let prev = out_lines(rest);
        lemma_out_lines_idempotent(rest);
        lemma_normalize_join(rest);
        lemma_trim_idempotent(line);
        lemma_trim_empty();
        if t.len() == 0 {
        } else if prev.len() == 0 {
            let o = seq![t];
            assert(o.drop_last() =~= Seq::<Seq<char>>::empty());
        } else if trim(rest.last()).len() == 0 {
            let o = prev + seq![Seq::<char>::empty(), t];
            let pe = prev.push(Seq::<char>::empty());
            assert(o.drop_last() =~= pe);
            assert(pe.drop_last() =~= prev);
            assert(o.last() == t);
            assert(pe.last() == Seq::<char>::empty());
            assert(out_lines(pe) == prev);
            assert(out_lines(o) =~= prev + seq![Seq::<char>::empty(), t]);
        } else {
            let o = prev.push(t);
            assert(o.drop_last() =~= prev);
            assert(trim(prev.last()) == prev.last());
            assert(out_lines(o) =~= prev.push(t));
        }
    }
}

proof fn lemma_nonblank(ls: Seq<Seq<char>>)
    ensures
        nonempty_lines(out_lines(ls)) == nonblank(ls),
    decreases ls.len(),
{
    if ls.len() > 0 {
        let rest = ls.drop_last();
        let t = trim(ls.last());
        let prev = out_lines(rest);
        lemma_nonblank(rest);
        if t.len() == 0 {
        } else if prev.len() == 0 {
            assert(seq![t].drop_last() =~= Seq::<Seq<char>>::empty());
            assert(nonempty_lines(prev) == Seq::<Seq<char>>::empty());
            assert(seq![t].last() == t);
            assert(nonempty_lines(seq![t]) == nonempty_lines(Seq::<Seq<char>>::empty()).push(t));
        } else if trim(rest.last()).len() == 0 {
            let o = prev + seq![Seq::<char>::empty(), t];
            let pe = prev.push(Seq::<char>::empty());
            assert(o.drop_last() =~= pe);
            assert(pe.drop_last() =~= prev);
            assert(o.last() == t);
            assert(pe.last() == Seq::<char>::empty());
            assert(nonempty_lines(pe) == nonempty_lines(prev));
            assert(nonempty_lines(o) == nonempty_lines(pe).push(t));
        } else {
            let o = prev.push(t);
            assert(o.drop_last() =~= prev);
            assert(o.last() == t);
            assert(nonempty_lines(o) == nonempty_lines(prev).push(t));
        }
    }
}

proof fn lemma_lines_no_newlines(text: Seq<char>)
    ensures
        no_newlines(lines(text)),
{
    lemma_split_no_newlines(text);
    lemma_split_nl_nonempty(text);
    let p = split_nl(text);
    let ls = lines(text);
    if p.last().len() == 0 {
        assert forall|i: int, j: int| 0 <= i < ls.len() && 0 <= j < ls[i].len() implies #[trigger] ls[i][j] != '\n' by {
            assert(ls[i] == p[i]);
            assert(p[i][j] != '\n');
        }
    }
}

proof fn lemma_lines_of_normalized(text: Seq<char>)
    ensures
        lines(normalize_spec(text)) == out_lines(lines(text)),
{
    let ls = lines(text);
    let o = out_lines(ls);
    let n = normalize_spec(text);
    lemma_lines_no_newlines(text);
    lemma_normalize_join(ls);
    if o.len() > 0 {
        lemma_split_join(o);
    } else {
        assert(n =~= Seq::<char>::empty());
        assert(split_nl(n) =~= seq![Seq::<char>::empty()]);
        assert(lines(n) =~= Seq::<Seq<char>>::empty());
    }
}

proof fn lemma_normalized_trim(text: Seq<char>)
    ensures
        trim(normalize_spec(text)) == normalize_spec(text),
{
    let n = normalize_spec(text);
    crate::narration::book::lemma_normalized_is_trimmed(lines(text));
    if n.len() > 0 {
        crate::text::lemma_lead_ws(n, 0);
        crate::text::lemma_trail_ws(n, 0);
        assert(trim_start(n) =~= n);
        assert(trim_end(n) =~= n);
    } else {
        lemma_trim_empty();
        assert(n =~= Seq::<char>::empty());
    }
}

/// Normalized chapter text: normalizing it again changes nothing; it has no
/// surrounding whitespace; its lines are its source's lines trimmed, blank
/// ones dropped, with one empty line where blank lines separated two, so
/// each is trimmed, no two empty lines follow each other, and its non-empty
/// lines are exactly the source's non-blank lines, trimmed, in order.
pub proof fn law_normalize_text(text: Seq<char>)
    ensures
        normalize_spec(normalize_spec(text)) == normalize_spec(text),
        trim(normalize_spec(text)) == normalize_spec(text),
        lines(normalize_spec(text)) == out_lines(lines(text)),
        paragraph_shape(lines(normalize_spec(text))),
        nonempty_lines(lines(normalize_spec(text))) == nonblank(lines(text)),
{
    let ls = lines(text);
    let o = out_lines(ls);
    lemma_lines_no_newlines(text);
    lemma_lines_of_normalized(text);
    lemma_normalized_trim(text);
    lemma_normalize_join(ls);
    lemma_out_lines_idempotent(ls);
    lemma_normalize_join(o);
    lemma_nonblank(ls);
}

} // verus!
