//! One session on the bus: its history, the transient chunks retained for
//! late subscribers, and who is subscribed.
use crate::chunk::{chunk_clone, is_transient_spec, opt_str, retain_secs_spec, Chunk, ChunkView};
use crate::text::str_eq;
use vstd::prelude::*;

verus! {

/// A connection subscribed to a session, with the role it announced.
#[derive(Debug)]
pub struct SubscriberInfo {
    pub conn_id: String,
    pub role: Option<String>,
}

/// Lifecycle of an ephemeral session: how long it outlives its last counted
/// subscriber, and which role counts (every subscriber when unset).
#[derive(Debug)]
pub struct EphemeralConfig {
    pub keepalive_secs: u64,
    pub count_role: Option<String>,
}

/// The state of one session. Times are milliseconds on a monotonic clock
/// that the caller reads.
#[derive(Debug)]
pub struct SessionState {
    pub session_id: String,
    pub agent_id: String,
    /// The non-transient chunks, in publication order.
    pub history: Vec<Chunk>,
    /// Retained transient chunks with the time they expire at.
    pub retained: Vec<(Chunk, u64)>,
    /// The subscribed connections, each at most once.
    pub subscribers: Vec<SubscriberInfo>,
    /// Ephemeral lifecycle; `None` keeps the session until deleted.
    pub ephemeral: Option<EphemeralConfig>,
    /// User-defined tags for filtering and grouping.
    pub tags: Vec<String>,
}

/// The subscribers as (connection, role) pairs.
pub open spec fn subs_view(s: Seq<SubscriberInfo>) -> Seq<(Seq<char>, Option<Seq<char>>)> {
    s.map_values(|i: SubscriberInfo| (i.conn_id@, opt_str(i.role)))
}

/// No connection is listed twice.
pub open spec fn unique_conns(s: Seq<(Seq<char>, Option<Seq<char>>)>) -> bool {
    forall|i: int, j: int| 0 <= i < j < s.len() ==> #[trigger] s[i].0 != #[trigger] s[j].0
}

/// The position of connection `c` among the subscribers, if it is one.
pub open spec fn conn_index(s: Seq<(Seq<char>, Option<Seq<char>>)>, c: Seq<char>) -> Option<int> {
    if exists|i: int| 0 <= i < s.len() && s[i].0 == c {
        Some(choose|i: int| 0 <= i < s.len() && s[i].0 == c)
    } else {
        None
    }
}

/// The subscribers that count: those of role `r`, or all when `r` is unset.
pub open spec fn count_role(s: Seq<(Seq<char>, Option<Seq<char>>)>, r: Option<Seq<char>>) -> nat
    decreases s.len(),
{
    if s.len() == 0 {
        0
    } else {
        count_role(s.drop_last(), r) + if r is None || s.last().1 == r {
            1nat
        } else {
            0nat
        }
    }
}

/// When a chunk retained for `secs` seconds from `now` expires, capped at
/// the clock's end.
pub open spec fn deadline(now: u64, secs: u64) -> u64 {
    if now + secs * 1000 <= u64::MAX {
        (now + secs * 1000) as u64
    } else {
        u64::MAX
    }
}

/// The retained entries still live at `now`, in order.
pub open spec fn live(r: Seq<(Chunk, u64)>, now: u64) -> Seq<(Chunk, u64)>
    decreases r.len(),
{
    if r.len() == 0 {
        Seq::empty()
    } else if r.last().1 > now {
        live(r.drop_last(), now).push(r.last())
    } else {
        live(r.drop_last(), now)
    }
}

/// The chunks of retained entries, by their views.
pub open spec fn retained_chunks(r: Seq<(Chunk, u64)>) -> Seq<ChunkView> {
    r.map_values(|p: (Chunk, u64)| p.0@)
}

/// Every live entry is one of the retained entries, unexpired at `now`.
proof fn lemma_live_members(r: Seq<(Chunk, u64)>, now: u64)
    ensures
        forall|i: int| 0 <= i < live(r, now).len() ==> (#[trigger] live(r, now)[i]).1 > now,
        live(r, now).len() <= r.len(),
    decreases r.len(),
{
    if r.len() > 0 {
        lemma_live_members(r.drop_last(), now);
    }
}

proof fn lemma_live_of_live(r: Seq<(Chunk, u64)>, now: u64)
    ensures
        live(live(r, now), now) == live(r, now),
    decreases r.len(),
{
    if r.len() > 0 {
        lemma_live_of_live(r.drop_last(), now);
        let l = live(r.drop_last(), now);
        if r.last().1 > now {
            assert(l.push(r.last()).drop_last() =~= l);
        }
    }
}

/// Reading the retained chunks is no drain: a second read at the same time
/// gives the same chunks and leaves the same entries.
pub proof fn law_drain_retained_is_stable(r: Seq<(Chunk, u64)>, now: u64)
    ensures
        live(live(r, now), now) == live(r, now),
        retained_chunks(live(live(r, now), now)) == retained_chunks(live(r, now)),
{
    lemma_live_of_live(r, now);
}

/// A chunk retained for zero seconds has expired by the time it is read.
pub proof fn law_zero_retention_expires(r: Seq<(Chunk, u64)>, c: Chunk, now: u64, later: u64)
    requires
        now <= later,
    ensures
        live(r.push((c, deadline(now, 0))), later) == live(r, later),
{
    assert(r.push((c, deadline(now, 0))).drop_last() =~= r);
}

/// A chunk retained for a while is still read before its time is up, after
/// the entries retained before it.
pub proof fn law_retained_until_deadline(r: Seq<(Chunk, u64)>, c: Chunk, now: u64, secs: u64, later: u64)
    requires
        later < deadline(now, secs),
    ensures
        live(r.push((c, deadline(now, secs))), later) == live(r, later).push((c, deadline(now, secs))),
{
    assert(r.push((c, deadline(now, secs))).drop_last() =~= r);
}

/// Every chunk read back is unexpired.
pub proof fn law_drained_are_unexpired(r: Seq<(Chunk, u64)>, now: u64)
    ensures
        forall|i: int| 0 <= i < live(r, now).len() ==> (#[trigger] live(r, now)[i]).1 > now,
{
    lemma_live_members(r, now);
}

/// Without a role filter every subscriber counts.
pub proof fn law_count_without_role_is_all(s: Seq<(Seq<char>, Option<Seq<char>>)>)
    ensures
        count_role(s, None) == s.len(),
    decreases s.len(),
{
    if s.len() > 0 {
        law_count_without_role_is_all(s.drop_last());
    }
}

/// The counted subscribers are never more than the subscribers.
pub proof fn law_count_at_most_all(s: Seq<(Seq<char>, Option<Seq<char>>)>, r: Option<Seq<char>>)
    ensures
        count_role(s, r) <= s.len(),
    decreases s.len(),
{
    if s.len() > 0 {
        law_count_at_most_all(s.drop_last(), r);
    }
}

/// Subscribing a new connection and then unsubscribing it restores the
/// subscriber list.
pub proof fn law_subscribe_then_unsubscribe(s: Seq<(Seq<char>, Option<Seq<char>>)>, conn: Seq<char>, role: Option<Seq<char>>)
    requires
        conn_index(s, conn) is None,
    ensures
        conn_index(s.push((conn, role)), conn) == Some(s.len() as int),
        s.push((conn, role)).remove(s.len() as int) == s,
{
    let t = s.push((conn, role));
    assert(t[s.len() as int].0 == conn);
    let k = choose|k: int| 0 <= k < t.len() && t[k].0 == conn;
    if k < s.len() {
        assert(s[k].0 == conn);
    }
    assert(t.remove(s.len() as int) =~= s);
}

/// What publishing `chunk` at `now` does to a session: a non-transient
/// chunk joins the history; a transient one with a retention time is
/// retained until then; any other transient chunk is only delivered live.
/// Nothing else changes.
pub open spec fn publish_effect(before: SessionState, after: SessionState, chunk: Chunk, now: u64) -> bool {
    &&& after.session_id == before.session_id
    &&& after.agent_id == before.agent_id
    &&& after.subscribers == before.subscribers
    &&& after.ephemeral == before.ephemeral
    &&& after.tags == before.tags
    &&& !is_transient_spec(chunk@) ==> after.history@ == before.history@.push(chunk)
        && after.retained@ == before.retained@
    &&& is_transient_spec(chunk@) ==> after.history@ == before.history@
    &&& is_transient_spec(chunk@) ==> match retain_secs_spec(chunk@) {
        Some(secs) => after.retained@ == before.retained@.push((chunk, deadline(now, secs))),
        None => after.retained@ == before.retained@,
    }
}

/// The non-transient chunks of `cs`, in order.
pub open spec fn persistent_chunks(cs: Seq<Chunk>) -> Seq<Chunk> {
    cs.filter(|c: Chunk| !is_transient_spec(c@))
}

proof fn lemma_publish_prefix(states: Seq<SessionState>, cs: Seq<Chunk>, times: Seq<u64>, k: int)
    requires
        states.len() == cs.len() + 1,
        times.len() == cs.len(),
        0 <= k <= cs.len(),
        forall|i: int|
            0 <= i < cs.len() ==> #[trigger] publish_effect(states[i], states[i + 1], cs[i], times[i]),
    ensures
        states[k].history@ == states[0].history@ + persistent_chunks(cs.take(k)),
    decreases k,
{
    reveal(Seq::filter);
    if k == 0 {
        assert(cs.take(0) =~= Seq::<Chunk>::empty());
        assert(states[0].history@ + Seq::<Chunk>::empty() =~= states[0].history@);
    } else {
        lemma_publish_prefix(states, cs, times, k - 1);
        let j = k - 1;
        assert(publish_effect(states[j], states[j + 1], cs[j], times[j]));
        assert(j + 1 == k);
        assert(cs.take(k).drop_last() =~= cs.take(k - 1));
        assert(cs.take(k).last() == cs[k - 1]);
        let before = persistent_chunks(cs.take(k - 1));
        if !is_transient_spec(cs[k - 1]@) {
            assert(persistent_chunks(cs.take(k)) == before.push(cs[k - 1]));
            assert(states[0].history@ + before.push(cs[k - 1]) =~= (states[0].history@ + before).push(cs[k - 1]));
        } else {
            assert(persistent_chunks(cs.take(k)) == before);
        }
    }
}

/// Publishing chunks one after another leaves in the history what it held,
/// followed by exactly the non-transient chunks published, in publication
/// order; no transient chunk joins it; and every chunk published is handed
/// out for delivery once, in publication order.
pub proof fn law_publish_sequence_history(
    states: Seq<SessionState>,
    cs: Seq<Chunk>,
    times: Seq<u64>,
    sent: Seq<Chunk>,
)
    requires
        states.len() == cs.len() + 1,
        times.len() == cs.len(),
        sent.len() == cs.len(),
        forall|i: int|
            0 <= i < cs.len() ==> #[trigger] publish_effect(states[i], states[i + 1], cs[i], times[i]),
        forall|i: int| 0 <= i < cs.len() ==> (#[trigger] sent[i])@ == cs[i]@,
    ensures
        states.last().history@ == states[0].history@ + persistent_chunks(cs),
        sent.map_values(|c: Chunk| c@) == cs.map_values(|c: Chunk| c@),
        states[0].history@.len() == 0 ==> forall|i: int|
            0 <= i < states.last().history@.len() ==> !is_transient_spec(
                #[trigger] states.last().history@[i]@,
            ),
{
    lemma_publish_prefix(states, cs, times, cs.len() as int);
    assert(cs.take(cs.len() as int) =~= cs);
    assert(sent.map_values(|c: Chunk| c@) =~= cs.map_values(|c: Chunk| c@));
    let p = persistent_chunks(cs);
    if states[0].history@.len() == 0 {
        assert(states.last().history@ =~= p);
        assert forall|i: int| 0 <= i < p.len() implies !is_transient_spec(#[trigger] p[i]@) by {
            cs.lemma_filter_pred(|c: Chunk| !is_transient_spec(c@), i);
        }
    }
}

impl SessionState {
    /// Well-formed: each connection is subscribed at most once.
    pub open spec fn wf(&self) -> bool {
        unique_conns(subs_view(self.subscribers@))
    }

    /// The role whose subscribers count for the ephemeral lifecycle.
    pub open spec fn counted_role(&self) -> Option<Seq<char>> {
        match self.ephemeral {
            Some(cfg) => opt_str(cfg.count_role),
            None => None,
        }
    }

    /// A new session with nothing published and nobody subscribed.
    pub fn new(session_id: String, agent_id: String) -> (s: Self)
        ensures
            s.wf(),
            s.session_id == session_id,
            s.agent_id == agent_id,
            s.history@.len() == 0,
            s.retained@.len() == 0,
            s.subscribers@.len() == 0,
            s.ephemeral is None,
            s.tags@.len() == 0,
    {
        SessionState {
            session_id,
            agent_id,
            history: Vec::new(),
            retained: Vec::new(),
            subscribers: Vec::new(),
            ephemeral: None,
            tags: Vec::new(),
        }
    }

    /// Records a published chunk at time `now`: a non-transient chunk joins
    /// the history; a transient one with a retention time is retained until
    /// then; any other transient chunk is only delivered live.
    pub fn publish(&mut self, chunk: Chunk, now: u64) -> (sent: Chunk)
        ensures
            publish_effect(*old(self), *final(self), chunk, now),
            sent@ == chunk@,
    {
        let sent = chunk_clone(&chunk);
        if !chunk.is_transient() {
            self.history.push(chunk);
        } else {
            match chunk.retain_secs() {
                Some(secs) => {
                    let until = if secs <= (u64::MAX - now) / 1000 {
                        now + secs * 1000
                    } else {
                        u64::MAX
                    };
                    proof {
                        if secs <= (u64::MAX - now) / 1000 {
                            assert(secs * 1000 <= u64::MAX - now) by (nonlinear_arith)
                                requires
                                    secs <= (u64::MAX - now) / 1000,
                                    now <= u64::MAX,
                            ;
                        } else {
                            assert(secs * 1000 > u64::MAX - now) by (nonlinear_arith)
                                requires
                                    secs > (u64::MAX - now) / 1000,
                                    now <= u64::MAX,
                            ;
                        }
                    }
                    self.retained.push((chunk, until));
                },
                None => {},
            }
        }
        sent
    }

    /// The retained chunks still live at `now`, oldest first (copies);
    /// expired entries are pruned, live ones stay for later subscribers.
    pub fn drain_retained(&mut self, now: u64) -> (r: Vec<Chunk>)
        ensures
            final(self).retained@ == live(old(self).retained@, now),
            r@.map_values(|c: Chunk| c@) == retained_chunks(live(old(self).retained@, now)),
            final(self).session_id == old(self).session_id,
            final(self).agent_id == old(self).agent_id,
            final(self).history == old(self).history,
            final(self).subscribers == old(self).subscribers,
            final(self).ephemeral == old(self).ephemeral,
            final(self).tags == old(self).tags,
    {
        let ghost orig = self.retained@;
        let mut kept: Vec<(Chunk, u64)> = Vec::new();
        let mut out: Vec<Chunk> = Vec::new();
        let mut old_entries = Vec::new();
        std::mem::swap(&mut old_entries, &mut self.retained);
        assert(old_entries@ == orig);
        let mut rest = old_entries;
        let mut i: usize = 0;
        let n = rest.len();
        while i < n
            invariant
                n == orig.len(),
                i <= n,
                rest@ == orig.subrange(i as int, n as int),
                kept@ == live(orig.subrange(0, i as int), now),
                out@.map_values(|c: Chunk| c@) == retained_chunks(kept@),
            decreases n - i,
        {
            let e = rest.remove(0);
            proof {
                assert(e == orig[i as int]);
                assert(rest@ =~= orig.subrange(i + 1, n as int));
                assert(orig.subrange(0, i + 1).drop_last() =~= orig.subrange(0, i as int));
                assert(orig.subrange(0, i + 1).last() == orig[i as int]);
            }
            if e.1 > now {
                let c = chunk_clone(&e.0);
                let ghost before_out = out@;
                let ghost before_kept = kept@;
                out.push(c);
                kept.push(e);
                proof {
                    assert(out@.map_values(|c: Chunk| c@) =~= before_out.map_values(|c: Chunk| c@).push(
                        c@,
                    ));
                    assert(retained_chunks(kept@) =~= retained_chunks(before_kept).push(
                        kept@.last().0@,
                    ));
                }
            }
            i = i + 1;
        }
        assert(orig.subrange(0, n as int) =~= orig);
        self.retained = kept;
        out
    }

    /// Subscribes connection `conn_id` with `role`; a connection already
    /// subscribed gets the new role. Returns its earlier entry, if any.
    pub fn add_subscriber(&mut self, conn_id: String, role: Option<String>) -> (r: Option<
        SubscriberInfo,
    >)
        requires
            old(self).wf(),
        ensures
            final(self).wf(),
            match conn_index(subs_view(old(self).subscribers@), conn_id@) {
                Some(i) => subs_view(final(self).subscribers@) == subs_view(
                    old(self).subscribers@,
                ).update(i, (conn_id@, opt_str(role))) && r is Some && (r->0.conn_id@, opt_str(
                    r->0.role,
                )) == subs_view(old(self).subscribers@)[i],
                None => subs_view(final(self).subscribers@) == subs_view(
                    old(self).subscribers@,
                ).push((conn_id@, opt_str(role))) && r is None,
            },
            final(self).session_id == old(self).session_id,
            final(self).agent_id == old(self).agent_id,
            final(self).history == old(self).history,
            final(self).retained == old(self).retained,
            final(self).ephemeral == old(self).ephemeral,
            final(self).tags == old(self).tags,
    {
        let ghost sv = subs_view(self.subscribers@);
        match self.conn_position(conn_id.as_str()) {
            Some(i) => {
                let info = SubscriberInfo { conn_id, role };
                let ghost nv = (info.conn_id@, opt_str(info.role));
                let mut prev = info;
                std::mem::swap(&mut prev, &mut self.subscribers[i]);
                proof {
                    assert(subs_view(self.subscribers@) =~= sv.update(i as int, nv));
                    assert(conn_index(sv, nv.0) == Some(i as int));
                }
                Some(prev)
            },
            None => {
                let info = SubscriberInfo { conn_id, role };
                let ghost nv = (info.conn_id@, opt_str(info.role));
                self.subscribers.push(info);
                proof {
                    assert(subs_view(self.subscribers@) =~= sv.push(nv));
                }
                None
            },
        }
    }

    /// Unsubscribes connection `conn_id`; returns its entry, if it had one.
    pub fn remove_subscriber(&mut self, conn_id: &str) -> (r: Option<SubscriberInfo>)
        requires
            old(self).wf(),
        ensures
            final(self).wf(),
            match conn_index(subs_view(old(self).subscribers@), conn_id@) {
                Some(i) => subs_view(final(self).subscribers@) == subs_view(
                    old(self).subscribers@,
                ).remove(i) && r is Some && (r->0.conn_id@, opt_str(r->0.role)) == subs_view(
                    old(self).subscribers@,
                )[i],
                None => final(self).subscribers@ == old(self).subscribers@ && r is None,
            },
            final(self).session_id == old(self).session_id,
            final(self).agent_id == old(self).agent_id,
            final(self).history == old(self).history,
            final(self).retained == old(self).retained,
            final(self).ephemeral == old(self).ephemeral,
            final(self).tags == old(self).tags,
    {
        let ghost sv = subs_view(self.subscribers@);
        match self.conn_position(conn_id) {
            Some(i) => {
                let prev = self.subscribers.remove(i);
                proof {
                    assert(subs_view(self.subscribers@) =~= sv.remove(i as int));
                    assert(conn_index(sv, conn_id@) == Some(i as int));
                }
                Some(prev)
            },
            None => None,
        }
    }

    /// Where connection `c` stands among the subscribers.
    fn conn_position(&self, c: &str) -> (r: Option<usize>)
        requires
            self.wf(),
        ensures
            match r {
                Some(i) => conn_index(subs_view(self.subscribers@), c@) == Some(i as int)
                    && i < self.subscribers@.len(),
                None => conn_index(subs_view(self.subscribers@), c@) is None,
            },
    {
        let ghost sv = subs_view(self.subscribers@);
        let mut i: usize = 0;
        while i < self.subscribers.len()
            invariant
                i <= self.subscribers@.len(),
                sv == subs_view(self.subscribers@),
                unique_conns(sv),
                forall|j: int| 0 <= j < i ==> (#[trigger] sv[j]).0 != c@,
            decreases self.subscribers.len() - i,
        {
            if str_eq(self.subscribers[i].conn_id.as_str(), c) {
                proof {
                    assert(sv[i as int].0 == c@);
                    let k = choose|k: int| 0 <= k < sv.len() && sv[k].0 == c@;
                    if k != i {
                        if k < i {
                            assert(sv[k].0 != sv[i as int].0);
                        } else {
                            assert(sv[i as int].0 != sv[k].0);
                        }
                    }
                }
                return Some(i);
            }
            i = i + 1;
        }
        None
    }

    /// How many subscribers count for the ephemeral lifecycle: those of the
    /// configured role, or all of them.
    pub fn counted_subscriber_count(&self) -> (n: usize)
        ensures
            n == count_role(subs_view(self.subscribers@), self.counted_role()),
    {
        let ghost sv = subs_view(self.subscribers@);
        let role: Option<&String> = match &self.ephemeral {
            Some(cfg) => match &cfg.count_role {
                Some(r) => Some(r),
                None => None,
            },
            None => None,
        };
        let mut n: usize = 0;
        let mut i: usize = 0;
        assert(sv.take(0) =~= Seq::<(Seq<char>, Option<Seq<char>>)>::empty());
        while i < self.subscribers.len()
            invariant
                i <= self.subscribers@.len(),
                sv == subs_view(self.subscribers@),
                match role {
                    Some(r) => self.counted_role() == Some(r@),
                    None => self.counted_role() is None,
                },
                n == count_role(sv.take(i as int), self.counted_role()),
                n <= i,
            decreases self.subscribers.len() - i,
        {
            assert(sv.take(i + 1).drop_last() =~= sv.take(i as int));
            let counts = match role {
                Some(r) => match &self.subscribers[i].role {
                    Some(sr) => str_eq(sr.as_str(), r.as_str()),
                    None => false,
                },
                None => true,
            };
            if counts {
                n = n + 1;
            }
            i = i + 1;
        }
        assert(sv.take(sv.len() as int) =~= sv);
        n
    }

    /// Whether the session is ephemeral.
    pub fn is_ephemeral(&self) -> (r: bool)
        ensures
            r == self.ephemeral is Some,
    {
        self.ephemeral.is_some()
    }

    /// The connections subscribed, each once.
    pub fn subscriber_conn_ids(&self) -> (r: Vec<String>)
        ensures
            r@.map_values(|s: String| s@) == subs_view(self.subscribers@).map_values(
                |p: (Seq<char>, Option<Seq<char>>)| p.0,
            ),
    {
        let ghost sv = subs_view(self.subscribers@);
        let mut out: Vec<String> = Vec::new();
        let mut i: usize = 0;
        while i < self.subscribers.len()
            invariant
                i <= self.subscribers@.len(),
                sv == subs_view(self.subscribers@),
                out@.len() == i,
                out@.map_values(|s: String| s@) == sv.take(i as int).map_values(
                    |p: (Seq<char>, Option<Seq<char>>)| p.0,
                ),
            decreases self.subscribers.len() - i,
        {
            let ghost before = out@;
            out.push(self.subscribers[i].conn_id.clone());
            proof {
                let lhs = out@.map_values(|s: String| s@);
                let rhs = sv.take(i + 1).map_values(|p: (Seq<char>, Option<Seq<char>>)| p.0);
                assert forall|j: int| 0 <= j < i + 1 implies lhs[j] == rhs[j] by {
                    if j < i {
                        assert(out@[j] == before[j]);
                        assert(before.map_values(|s: String| s@)[j] == sv.take(i as int).map_values(
                            |p: (Seq<char>, Option<Seq<char>>)| p.0,
                        )[j]);
                    } else {
                        assert(out@[j]@ == self.subscribers@[j].conn_id@);
                    }
                }
                assert(lhs =~= rhs);
            }
            i = i + 1;
        }
        assert(sv.take(sv.len() as int) =~= sv);
        out
    }
}

} // verus!
