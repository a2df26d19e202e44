//! Agents defined both as agent files and as JavaScript agents: the
//! JavaScript agent wins, and the shadowed names are reported once each, in
//! order.
use crate::agent_runtime::loader::AgentDefinition;
use crate::js_manifest::strings_view;
use crate::text::{chars_of, str_eq};
use vstd::prelude::*;

verus! {

/// Lexicographic order of strings by code point (the order of `String`).
pub open spec fn seq_lt(a: Seq<char>, b: Seq<char>) -> bool
    decreases a.len(),
{
    if a.len() == 0 {
        b.len() > 0
    } else if b.len() == 0 {
        false
    } else if (a[0] as int) < (b[0] as int) {
        true
    } else if a[0] == b[0] {
        seq_lt(a.drop_first(), b.drop_first())
    } else {
        false
    }
}

proof fn lemma_lt_irreflexive(a: Seq<char>)
    ensures
        !seq_lt(a, a),
    decreases a.len(),
{
    if a.len() > 0 {
        lemma_lt_irreflexive(a.drop_first());
    }
}

proof fn lemma_lt_total(a: Seq<char>, b: Seq<char>)
    requires
        a != b,
    ensures
        seq_lt(a, b) || seq_lt(b, a),
    decreases a.len(),
{
    if a.len() > 0 && b.len() > 0 {
        if a[0] == b[0] {
            if a.drop_first() == b.drop_first() {
                assert(a =~= seq![a[0]] + a.drop_first());
                assert(b =~= seq![b[0]] + b.drop_first());
            }
            lemma_lt_total(a.drop_first(), b.drop_first());
        } else {
        }
    } else if a.len() == 0 && b.len() == 0 {
        assert(a =~= b);
    }
}

proof fn lemma_lt_asymmetric(a: Seq<char>, b: Seq<char>)
    requires
        seq_lt(a, b),
    ensures
        !seq_lt(b, a),
    decreases a.len(),
{
    if a.len() > 0 && b.len() > 0 && a[0] == b[0] {
        lemma_lt_asymmetric(a.drop_first(), b.drop_first());
    }
}

proof fn lemma_lt_transitive(a: Seq<char>, b: Seq<char>, c: Seq<char>)
    requires
        seq_lt(a, b),
        seq_lt(b, c),
    ensures
        seq_lt(a, c),
    decreases a.len(),
{
    if a.len() > 0 && b.len() > 0 && c.len() > 0 && a[0] == b[0] && b[0] == c[0] {
        lemma_lt_transitive(a.drop_first(), b.drop_first(), c.drop_first());
    }
}

/// Whether `a` comes before `b`.
fn str_lt(a: &str, b: &str) -> (r: bool)
    ensures
        r == seq_lt(a@, b@),
{
    let x = chars_of(a);
    let y = chars_of(b);
    let mut i: usize = 0;
    assert(a@.skip(0) =~= a@);
    assert(b@.skip(0) =~= b@);
    while i < x.len() && i < y.len() && x[i] == y[i]
        invariant
            i <= x@.len(),
            i <= y@.len(),
            x@ == a@,
            y@ == b@,
            seq_lt(a@, b@) == seq_lt(a@.skip(i as int), b@.skip(i as int)),
        decreases x.len() - i,
    {
        assert(a@.skip(i as int).drop_first() =~= a@.skip(i + 1));
        assert(b@.skip(i as int).drop_first() =~= b@.skip(i + 1));
        i = i + 1;
    }
    if i == x.len() {
        assert(a@.skip(i as int).len() == 0);
        i < y.len()
    } else if i == y.len() {
        assert(b@.skip(i as int).len() == 0);
        false
    } else {
        assert(a@.skip(i as int)[0] == x@[i as int]);
        assert(b@.skip(i as int)[0] == y@[i as int]);
        x[i] < y[i]
    }
}

/// Strictly increasing: sorted, without repeats.
pub open spec fn strictly_sorted(s: Seq<Seq<char>>) -> bool {
    forall|i: int, j: int| 0 <= i < j < s.len() ==> seq_lt(#[trigger] s[i], #[trigger] s[j])
}

/// Adds `x` to a strictly sorted list unless it is there already.
pub(crate) fn insert_sorted(out: &mut Vec<String>, x: String)
    requires
        strictly_sorted(strings_view(old(out)@)),
    ensures
        strictly_sorted(strings_view(final(out)@)),
        forall|y: Seq<char>| strings_view(final(out)@).contains(y) <==> (strings_view(old(out)@).contains(y) || y == x@),
{
    let ghost o = strings_view(out@);
    let mut p: usize = 0;
    while p < out.len() && str_lt(out[p].as_str(), x.as_str())
        invariant
            p <= out@.len(),
            o == strings_view(out@),
            strictly_sorted(o),
            forall|i: int| 0 <= i < p ==> seq_lt(#[trigger] o[i], x@),
        decreases out.len() - p,
    {
        p = p + 1;
    }
    if p < out.len() && str_eq(out[p].as_str(), x.as_str()) {
        proof {
            assert forall|y: Seq<char>| o.contains(y) <==> (o.contains(y) || y == x@) by {
                if y == x@ {
                    assert(o[p as int] == y);
                }
            }
        }
        return;
    }
    let ghost xv = x@;
    proof {
        if p < o.len() {
            assert(!seq_lt(o[p as int], xv));
            lemma_lt_total(o[p as int], xv);
        }
    }
    out.insert(p, x);
    proof {
        let n = strings_view(out@);
        assert(n =~= o.insert(p as int, xv));
        assert forall|i: int, j: int| 0 <= i < j < n.len() implies seq_lt(#[trigger] n[i], #[trigger] n[j]) by {
            if j < p {
                assert(n[i] == o[i] && n[j] == o[j]);
            } else if j == p {
                assert(n[i] == o[i]);
            } else if i == p {
                assert(n[j] == o[j - 1]);
                if j - 1 > p {
                    lemma_lt_transitive(xv, o[p as int], o[j - 1]);
                }
            } else if i < p {
                assert(n[i] == o[i] && n[j] == o[j - 1]);
                if j - 1 >= p {
                    lemma_lt_transitive(o[i], xv, o[p as int]);
                    if j - 1 > p {
                        lemma_lt_transitive(o[i], o[p as int], o[j - 1]);
                    }
                }
            } else {
                assert(n[i] == o[i - 1] && n[j] == o[j - 1]);
            }
        }
        assert forall|y: Seq<char>| n.contains(y) <==> (o.contains(y) || y == xv) by {
            if o.contains(y) {
                let k = choose|k: int| 0 <= k < o.len() && o[k] == y;
                if k < p {
                    assert(n[k] == y);
                } else {
                    assert(n[k + 1] == y);
                }
            }
            if y == xv {
                assert(n[p as int] == y);
            }
            if n.contains(y) {
                let k = choose|k: int| 0 <= k < n.len() && n[k] == y;
                if k < p {
                    assert(o[k] == y);
                } else if k > p {
                    assert(o[k - 1] == y);
                }
            }
        }
    }
}

/// The names of the agents in `agents`.
pub open spec fn names_of(agents: Seq<(String, AgentDefinition)>) -> Seq<Seq<char>> {
    agents.map_values(|a: (String, AgentDefinition)| a.1.name@)
}

/// The agents whose name is not claimed, in order.
pub open spec fn unshadowed(agents: Seq<(String, AgentDefinition)>, claimed: Seq<Seq<char>>) -> Seq<
    (String, AgentDefinition),
>
    decreases agents.len(),
{
    if agents.len() == 0 {
        Seq::empty()
    } else {
        let prev = unshadowed(agents.drop_last(), claimed);
        if claimed.contains(agents.last().1.name@) {
            prev
        } else {
            prev.push(agents.last())
        }
    }
}

fn claimed_by(names: &Vec<String>, name: &str) -> (r: bool)
    ensures
        r == strings_view(names@).contains(name@),
{
    let mut i: usize = 0;
    while i < names.len()
        invariant
            i <= names@.len(),
            forall|j: int| 0 <= j < i ==> (#[trigger] strings_view(names@)[j]) != name@,
        decreases names.len() - i,
    {
        if str_eq(names[i].as_str(), name) {
            assert(strings_view(names@)[i as int] == name@);
            return true;
        }
        i = i + 1;
    }
    false
}

/// Drops the file-defined agents whose name a JavaScript agent claims (the
/// JavaScript agent wins). Returns the dropped names, sorted, each once.
pub fn remove_shadowed(agents: &mut Vec<(String, AgentDefinition)>, js_names: &Vec<String>) -> (removed: Vec<String>)
    ensures
        final(agents)@ == unshadowed(old(agents)@, strings_view(js_names@)),
        strictly_sorted(strings_view(removed@)),
        forall|y: Seq<char>|
            strings_view(removed@).contains(y) <==> (names_of(old(agents)@).contains(y) && strings_view(
                js_names@,
            ).contains(y)),
{
    let ghost orig = agents@;
    let ghost claimed = strings_view(js_names@);
    let mut kept: Vec<(String, AgentDefinition)> = Vec::new();
    let mut removed: Vec<String> = Vec::new();
    let mut rest: Vec<(String, AgentDefinition)> = Vec::new();
    std::mem::swap(&mut rest, agents);
    let n = rest.len();
    let mut i: usize = 0;
    assert(orig.take(0) =~= Seq::<(String, AgentDefinition)>::empty());
    while i < n
        invariant
            n == orig.len(),
            i <= n,
            rest@ == orig.skip(i as int),
            kept@ == unshadowed(orig.take(i as int), claimed),
            claimed == strings_view(js_names@),
            strictly_sorted(strings_view(removed@)),
            forall|y: Seq<char>|
                #![trigger strings_view(removed@).contains(y)]
                #![trigger names_of(orig.take(i as int)).contains(y)]
                strings_view(removed@).contains(y) <==> (names_of(orig.take(i as int)).contains(y)
                    && claimed.contains(y)),
        decreases n - i,
    {
        let e = rest.remove(0);
        proof {
            assert(e == orig[i as int]);
            assert(rest@ =~= orig.skip(i + 1));
            assert(orig.take(i + 1).drop_last() =~= orig.take(i as int));
            assert(orig.take(i + 1).last() == orig[i as int]);
        }
        let ghost before = strings_view(removed@);
        let ghost name = e.1.name@;
        let shadowed = claimed_by(js_names, e.1.name.as_str());
        proof {
            assert forall|y: Seq<char>| names_of(orig.take(i + 1)).contains(y) <==> (names_of(
                orig.take(i as int),
            ).contains(y) || y == name) by {
                let a = names_of(orig.take(i as int));
                assert(names_of(orig.take(i + 1)) =~= a.push(name));
                if a.contains(y) {
                    let k = choose|k: int| 0 <= k < a.len() && a[k] == y;
                    assert(a.push(name)[k] == y);
                }
                if y == e.1.name@ {
                    assert(a.push(name)[a.len() as int] == y);
                }
                if a.push(name).contains(y) {
                    let k = choose|k: int| 0 <= k < a.len() + 1 && a.push(name)[k] == y;
                    if k < a.len() {
                        assert(a[k] == y);
                    }
                }
            }
        }
        if shadowed {
            insert_sorted(&mut removed, e.1.name.clone());
        } else {
            kept.push(e);
        }
        proof {
            assert forall|y: Seq<char>|
                strings_view(removed@).contains(y) <==> (names_of(orig.take(i + 1)).contains(y)
                    && claimed.contains(y)) by {
                assert(names_of(orig.take(i + 1)).contains(y) <==> (names_of(orig.take(i as int)).contains(y)
                    || y == name));
                assert(before.contains(y) <==> (names_of(orig.take(i as int)).contains(y) && claimed.contains(y)));
                if !shadowed {
                    assert(strings_view(removed@) == before);
                } else {
                    assert(strings_view(removed@).contains(y) <==> (before.contains(y) || y == name));
                }
            }
        }
        i = i + 1;
    }
    assert(orig.take(n as int) =~= orig);
    *agents = kept;
    removed
}

/// No agent whose name a JavaScript agent claims survives, and every other
/// agent does, in order.
pub proof fn law_unshadowed_keeps_unclaimed(agents: Seq<(String, AgentDefinition)>, claimed: Seq<Seq<char>>)
    ensures
        forall|i: int|
            0 <= i < unshadowed(agents, claimed).len() ==> !claimed.contains(
                (#[trigger] unshadowed(agents, claimed)[i]).1.name@,
            ),
        unshadowed(agents, claimed).len() <= agents.len(),
    decreases agents.len(),
{
    if agents.len() > 0 {
        law_unshadowed_keeps_unclaimed(agents.drop_last(), claimed);
        let prev = unshadowed(agents.drop_last(), claimed);
        let cur = unshadowed(agents, claimed);
        assert forall|i: int| 0 <= i < cur.len() implies !claimed.contains((#[trigger] cur[i]).1.name@) by {
            if i < prev.len() {
                assert(cur[i] == prev[i]);
            }
        }
    }
}

/// A strictly sorted list of names holds each name once.
pub proof fn law_reported_once(s: Seq<Seq<char>>)
    requires
        strictly_sorted(s),
    ensures
        forall|i: int, j: int| 0 <= i < j < s.len() ==> s[i] != s[j],
{
    assert forall|i: int, j: int| 0 <= i < j < s.len() implies s[i] != s[j] by {
        assert(seq_lt(s[i], s[j]));
        if s[i] == s[j] {
            lemma_lt_irreflexive(s[i]);
        }
    }
}

} // verus!
