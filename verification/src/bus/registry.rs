//! The registry of live sessions, each under its own id.
use crate::bus::session::{count_role, subs_view, SessionState};
use crate::text::str_eq;
use vstd::prelude::*;
use vstd::string::StringExecFns;

verus! {

/// The live sessions, each id at most once.
pub struct SessionRegistry {
    pub sessions: Vec<SessionState>,
}

/// What a session listing reports of one session.
#[derive(Debug)]
pub struct SessionInfo {
    pub session_id: String,
    pub agent_id: String,
    pub display_name: Option<String>,
    pub tags: Vec<String>,
    pub is_background: bool,
    pub ui_mode: String,
    pub message_count: usize,
    pub created_at: i64,
}

/// What scheduling the deletion of a session decided.
#[derive(Debug, PartialEq, Eq, Structural)]
pub enum DeletionPlan {
    /// Nothing to do: the session is missing or not ephemeral.
    Keep,
    /// The session was deleted at once.
    Deleted,
    /// Check again after this many milliseconds (see `expire_if_idle`).
    After(u64),
}

/// The ids of the sessions, in order.
pub open spec fn ids(s: Seq<SessionState>) -> Seq<Seq<char>> {
    s.map_values(|x: SessionState| x.session_id@)
}

/// The position of session `id`, if present.
pub open spec fn index_of(s: Seq<SessionState>, id: Seq<char>) -> Option<int> {
    if exists|i: int| 0 <= i < s.len() && s[i].session_id@ == id {
        Some(choose|i: int| 0 <= i < s.len() && s[i].session_id@ == id)
    } else {
        None
    }
}

/// After a session is inserted, the registry has its id.
pub proof fn law_insert_then_contains(before: Seq<SessionState>, after: Seq<SessionState>, state: SessionState)
    requires
        match index_of(before, state.session_id@) {
            Some(i) => after == before.update(i, state),
            None => after == before.push(state),
        },
    ensures
        index_of(after, state.session_id@) is Some,
{
    match index_of(before, state.session_id@) {
        Some(i) => {
            assert(after[i].session_id@ == state.session_id@);
        },
        None => {
            assert(after[before.len() as int].session_id@ == state.session_id@);
        },
    }
}

/// After a session is removed, the registry no longer has its id, and the
/// other sessions stay.
pub proof fn law_remove_then_absent(before: SessionRegistry, after: Seq<SessionState>, id: Seq<char>)
    requires
        before.wf(),
        match index_of(before.sessions@, id) {
            Some(i) => after == before.sessions@.remove(i),
            None => after == before.sessions@,
        },
    ensures
        index_of(after, id) is None,
        forall|k: Seq<char>| k != id ==> (index_of(after, k) is Some <==> index_of(before.sessions@, k) is Some),
{
    let b = before.sessions@;
    match index_of(b, id) {
        Some(i) => {
            assert forall|j: int| 0 <= j < after.len() implies after[j].session_id@ != id by {
                let j2 = if j < i { j } else { j + 1 };
                assert(after[j] == b[j2]);
                if j2 != i {
                    if j2 < i {
                        assert(b[j2].session_id@ != b[i].session_id@);
                    } else {
                        assert(b[i].session_id@ != b[j2].session_id@);
                    }
                }
            }
            assert forall|k: Seq<char>| k != id implies (index_of(after, k) is Some <==> index_of(b, k) is Some) by {
                if index_of(b, k) is Some {
                    let m = choose|m: int| 0 <= m < b.len() && b[m].session_id@ == k;
                    assert(m != i);
                    let m2 = if m < i { m } else { m - 1 };
                    assert(after[m2] == b[m]);
                }
                if index_of(after, k) is Some {
                    let m = choose|m: int| 0 <= m < after.len() && after[m].session_id@ == k;
                    let m2 = if m < i { m } else { m + 1 };
                    assert(after[m] == b[m2]);
                }
            }
        },
        None => {},
    }
}

impl SessionRegistry {
    /// Well-formed: ids are unique and every session is well-formed.
    pub open spec fn wf(&self) -> bool {
        &&& forall|i: int, j: int|
            0 <= i < j < self.sessions@.len() ==> #[trigger] self.sessions@[i].session_id@
                != #[trigger] self.sessions@[j].session_id@
        &&& forall|i: int| 0 <= i < self.sessions@.len() ==> (#[trigger] self.sessions@[i]).wf()
    }

    /// Whether session `id` is present.
    pub open spec fn has(&self, id: Seq<char>) -> bool {
        index_of(self.sessions@, id) is Some
    }

    fn position(&self, id: &str) -> (r: Option<usize>)
        requires
            self.wf(),
        ensures
            match r {
                Some(i) => index_of(self.sessions@, id@) == Some(i as int) && i < self.sessions@.len(),
                None => index_of(self.sessions@, id@) is None,
            },
    {
        let mut i: usize = 0;
        while i < self.sessions.len()
            invariant
                i <= self.sessions@.len(),
                self.wf(),
                forall|j: int| 0 <= j < i ==> (#[trigger] self.sessions@[j]).session_id@ != id@,
            decreases self.sessions.len() - i,
        {
            if str_eq(self.sessions[i].session_id.as_str(), id) {
                proof {
                    let k = choose|k: int| 0 <= k < self.sessions@.len() && self.sessions@[k].session_id@ == id@;
                    if k != i {
                        if k < i {
                            assert(self.sessions@[k].session_id@ != self.sessions@[i as int].session_id@);
                        } else {
                            assert(self.sessions@[i as int].session_id@ != self.sessions@[k].session_id@);
                        }
                    }
                }
                return Some(i);
            }
            i = i + 1;
        }
        None
    }

    /// An empty registry.
    pub fn new() -> (r: Self)
        ensures
            r.wf(),
            r.sessions@.len() == 0,
    {
        SessionRegistry { sessions: Vec::new() }
    }

    /// Whether session `id` is present.
    pub fn contains(&self, id: &str) -> (r: bool)
        requires
            self.wf(),
        ensures
            r == self.has(id@),
    {
        self.position(id).is_some()
    }

    /// The session with `id`.
    pub fn get(&self, id: &str) -> (r: Option<&SessionState>)
        requires
            self.wf(),
        ensures
            match r {
                Some(s) => index_of(self.sessions@, id@) is Some && *s == self.sessions@[index_of(
                    self.sessions@,
                    id@,
                )->0],
                None => index_of(self.sessions@, id@) is None,
            },
    {
        match self.position(id) {
            Some(i) => Some(&self.sessions[i]),
            None => None,
        }
    }

    /// Adds `state` under its id, replacing a session of that id.
    pub fn insert(&mut self, state: SessionState)
        requires
            old(self).wf(),
            state.wf(),
        ensures
            final(self).wf(),
            match index_of(old(self).sessions@, state.session_id@) {
                Some(i) => final(self).sessions@ == old(self).sessions@.update(i, state),
                None => final(self).sessions@ == old(self).sessions@.push(state),
            },
    {
        let ghost id = state.session_id@;
        match self.position(state.session_id.as_str()) {
            Some(i) => {
                self.sessions.set(i, state);
                proof {
                    assert(old(self).sessions@[i as int].session_id@ == id);
                }
            },
            None => {
                self.sessions.push(state);
                proof {
                    let n = old(self).sessions@.len() as int;
                    assert forall|a: int, b: int|
                        0 <= a < b < self.sessions@.len() implies #[trigger] self.sessions@[a].session_id@
                        != #[trigger] self.sessions@[b].session_id@ by {
                        if b == n {
                            assert(old(self).sessions@[a].session_id@ != id);
                        }
                    }
                }
            },
        }
    }

    /// Removes session `id`; whether it was present.
    pub fn remove(&mut self, id: &str) -> (r: bool)
        requires
            old(self).wf(),
        ensures
            final(self).wf(),
            r == (index_of(old(self).sessions@, id@) is Some),
            match index_of(old(self).sessions@, id@) {
                Some(i) => final(self).sessions@ == old(self).sessions@.remove(i),
                None => final(self).sessions@ == old(self).sessions@,
            },
    {
        match self.position(id) {
            Some(i) => {
                let _gone = self.sessions.remove(i);
                proof {
                    let o = old(self).sessions@;
                    assert forall|a: int, b: int|
                        0 <= a < b < self.sessions@.len() implies #[trigger] self.sessions@[a].session_id@
                        != #[trigger] self.sessions@[b].session_id@ by {
                        let a2 = if a < i { a } else { a + 1 };
                        let b2 = if b < i { b } else { b + 1 };
                        assert(self.sessions@[a] == o[a2]);
                        assert(self.sessions@[b] == o[b2]);
                        assert(o[a2].session_id@ != o[b2].session_id@);
                    }
                    assert forall|a: int| 0 <= a < self.sessions@.len() implies (#[trigger] self.sessions@[a]).wf() by {
                        let a2 = if a < i { a } else { a + 1 };
                        assert(self.sessions@[a] == o[a2]);
                    }
                }
                true
            },
            None => false,
        }
    }

    /// Replaces the tags of session `id`; whether it was present.
    pub fn set_tags(&mut self, id: &str, tags: Vec<String>) -> (r: bool)
        requires
            old(self).wf(),
        ensures
            final(self).wf(),
            r == (index_of(old(self).sessions@, id@) is Some),
            match index_of(old(self).sessions@, id@) {
                Some(i) => final(self).sessions@.len() == old(self).sessions@.len()
                    && final(self).sessions@[i].tags == tags
                    && final(self).sessions@[i].session_id == old(self).sessions@[i].session_id
                    && final(self).sessions@[i].agent_id == old(self).sessions@[i].agent_id
                    && final(self).sessions@[i].history == old(self).sessions@[i].history
                    && final(self).sessions@[i].retained == old(self).sessions@[i].retained
                    && final(self).sessions@[i].subscribers == old(self).sessions@[i].subscribers
                    && final(self).sessions@[i].ephemeral == old(self).sessions@[i].ephemeral
                    && forall|j: int| 0 <= j < old(self).sessions@.len() && j != i ==> final(self).sessions@[j] == old(self).sessions@[j],
                None => final(self).sessions@ == old(self).sessions@,
            },
    {
        match self.position(id) {
            Some(i) => {
                let mut t = tags;
                std::mem::swap(&mut t, &mut self.sessions[i].tags);
                true
            },
            None => false,
        }
    }

    /// The session with `id`, for changes.
    pub fn get_mut(&mut self, id: &str) -> (r: Option<&mut SessionState>)
        requires
            old(self).wf(),
        ensures
            match r {
                Some(s) => index_of(old(self).sessions@, id@) is Some && *s == old(self).sessions@[index_of(old(self).sessions@, id@)->0]
                    && final(self).sessions@ == old(self).sessions@.update(index_of(old(self).sessions@, id@)->0, *final(s)),
                None => index_of(old(self).sessions@, id@) is None && final(self).sessions@ == old(self).sessions@,
            },
    {
        match self.position(id) {
            Some(i) => Some(&mut self.sessions[i]),
            None => None,
        }
    }

    /// One listing entry per session, in registry order.
    pub fn list(&self) -> (r: Vec<SessionInfo>)
        ensures
            r@.len() == self.sessions@.len(),
            forall|i: int|
                0 <= i < r@.len() ==> {
                    let info = #[trigger] r@[i];
                    let s = self.sessions@[i];
                    &&& info.session_id@ == s.session_id@
                    &&& info.agent_id@ == s.agent_id@
                    &&& info.display_name is None
                    &&& info.tags@.map_values(|t: String| t@) == s.tags@.map_values(|t: String| t@)
                    &&& !info.is_background
                    &&& info.ui_mode@ == "chat"@
                    &&& info.message_count == s.history@.len()
                    &&& info.created_at == 0
                },
    {
        let mut out: Vec<SessionInfo> = Vec::new();
        let mut i: usize = 0;
        while i < self.sessions.len()
            invariant
                i <= self.sessions@.len(),
                out@.len() == i,
                forall|k: int|
                    0 <= k < i ==> {
                        let info = #[trigger] out@[k];
                        let s = self.sessions@[k];
                        &&& info.session_id@ == s.session_id@
                        &&& info.agent_id@ == s.agent_id@
                        &&& info.display_name is None
                        &&& info.tags@.map_values(|t: String| t@) == s.tags@.map_values(|t: String| t@)
                        &&& !info.is_background
                        &&& info.ui_mode@ == "chat"@
                        &&& info.message_count == s.history@.len()
                        &&& info.created_at == 0
                    },
            decreases self.sessions.len() - i,
        {
            let s = &self.sessions[i];
            let info = SessionInfo {
                session_id: s.session_id.clone(),
                agent_id: s.agent_id.clone(),
                display_name: None,
                tags: clone_strings(&s.tags),
                is_background: false,
                ui_mode: String::from_str("chat"),
                message_count: s.history.len(),
                created_at: 0,
            };
            out.push(info);
            i = i + 1;
        }
        out
    }

    /// Decides what becomes of ephemeral session `id` once nobody counted is
    /// subscribed: a missing or persistent session is kept; without a delay
    /// (or a zero one) it is deleted now; otherwise it is checked again after
    /// the delay.
    pub fn schedule_deletion(&mut self, id: &str, delay_ms: Option<u64>) -> (r: DeletionPlan)
        requires
            old(self).wf(),
        ensures
            final(self).wf(),
            match index_of(old(self).sessions@, id@) {
                Some(i) => if old(self).sessions@[i].ephemeral is None {
                    r == DeletionPlan::Keep && final(self).sessions@ == old(self).sessions@
                } else if delay_ms is None || delay_ms == Some(0u64) {
                    r == DeletionPlan::Deleted && final(self).sessions@ == old(self).sessions@.remove(i)
                } else {
                    r == DeletionPlan::After(delay_ms->0) && final(self).sessions@ == old(self).sessions@
                },
                None => r == DeletionPlan::Keep && final(self).sessions@ == old(self).sessions@,
            },
    {
        let ephemeral = match self.get(id) {
            Some(s) => s.is_ephemeral(),
            None => false,
        };
        if !ephemeral {
            return DeletionPlan::Keep;
        }
        match delay_ms {
            Some(d) => if d == 0 {
                self.remove(id);
                DeletionPlan::Deleted
            } else {
                DeletionPlan::After(d)
            },
            None => {
                self.remove(id);
                DeletionPlan::Deleted
            },
        }
    }

    /// When a scheduled delay is up: deletes session `id` if it is still
    /// ephemeral and nobody counted is subscribed; whether it was deleted.
    pub fn expire_if_idle(&mut self, id: &str) -> (r: bool)
        requires
            old(self).wf(),
        ensures
            final(self).wf(),
            match index_of(old(self).sessions@, id@) {
                Some(i) => {
                    let s = old(self).sessions@[i];
                    r == (s.ephemeral is Some && count_role(subs_view(s.subscribers@), s.counted_role()) == 0)
                        && if r {
                        final(self).sessions@ == old(self).sessions@.remove(i)
                    } else {
                        final(self).sessions@ == old(self).sessions@
                    }
                },
                None => !r && final(self).sessions@ == old(self).sessions@,
            },
    {
        let idle = match self.get(id) {
            Some(s) => s.is_ephemeral() && s.counted_subscriber_count() == 0,
            None => false,
        };
        if idle {
            self.remove(id);
        }
        idle
    }

    /// Hook for cancelling a scheduled deletion; the check at expiry makes
    /// it unnecessary, so it changes nothing.
    pub fn cancel_scheduled_deletion(&mut self, id: &str)
        ensures
            final(self).sessions@ == old(self).sessions@,
    {
    }
}

/// Copies of the strings of `v`.
pub fn clone_strings(v: &Vec<String>) -> (r: Vec<String>)
    ensures
        r@ == v@,
        r@.map_values(|t: String| t@) == v@.map_values(|t: String| t@),
{
    let mut out: Vec<String> = Vec::new();
    let mut i: usize = 0;
    while i < v.len()
        invariant
            i <= v@.len(),
            out@ == v@.subrange(0, i as int),
        decreases v.len() - i,
    {
        out.push(v[i].clone());
        i = i + 1;
    }
    assert(v@.subrange(0, v@.len() as int) =~= v@);
    out
}

} // verus!
