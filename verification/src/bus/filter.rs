//! Subscription filters: which sessions a filtered subscriber follows and
//! which of their chunks it receives.
use crate::bus::session::SessionState;
use crate::chunk::{ann_get, ann_lookup, anns_view, json_eq, json_equal, Chunk, ChunkView, ContentType, JsonValue, JsonView};
use crate::text::str_eq;
use vstd::prelude::*;

verus! {

/// What a filtered subscription selects; an unset part selects everything.
#[derive(Debug, Default)]
pub struct SubscribeFilter {
    pub sessions: Option<Vec<String>>,
    pub agents: Option<Vec<String>>,
    pub content_types: Option<Vec<ContentType>>,
    /// Annotation values a chunk must carry (key → value).
    pub annotations: Option<Vec<(String, JsonValue)>>,
}

/// Strings by their characters.
pub open spec fn strs_view(v: Seq<String>) -> Seq<Seq<char>> {
    v.map_values(|s: String| s@)
}

/// The chunk meets one annotation requirement: it carries an equal value,
/// or the required value is `false` and the chunk lacks the key.
pub open spec fn annotation_ok(anns: Seq<(Seq<char>, JsonView)>, key: Seq<char>, value: JsonView) -> bool {
    match ann_get(anns, key) {
        Some(v) => json_eq(v, value),
        None => value == JsonView::Bool(false),
    }
}

/// Every annotation requirement of `reqs` is met by `anns`.
pub open spec fn annotations_ok(anns: Seq<(Seq<char>, JsonView)>, reqs: Seq<(Seq<char>, JsonView)>) -> bool {
    forall|i: int| 0 <= i < reqs.len() ==> #[trigger] annotation_ok(anns, reqs[i].0, reqs[i].1)
}

/// Whether a chunk passes the chunk-level parts of a filter: its content
/// type and its annotations.
pub open spec fn chunk_matches(c: ChunkView, f: SubscribeFilter) -> bool {
    &&& match f.content_types {
        Some(ts) => ts@.contains(c.content_type),
        None => true,
    }
    &&& match f.annotations {
        Some(a) => annotations_ok(c.annotations, anns_view(a@)),
        None => true,
    }
}

/// Whether a session passes the session-level parts of a filter: its id and
/// its agent.
pub open spec fn session_matches(session_id: Seq<char>, agent_id: Seq<char>, f: SubscribeFilter) -> bool {
    &&& match f.sessions {
        Some(ss) => strs_view(ss@).contains(session_id),
        None => true,
    }
    &&& match f.agents {
        Some(aa) => strs_view(aa@).contains(agent_id),
        None => true,
    }
}

fn contains_str(v: &Vec<String>, s: &str) -> (r: bool)
    ensures
        r == strs_view(v@).contains(s@),
{
    let mut i: usize = 0;
    while i < v.len()
        invariant
            i <= v@.len(),
            forall|j: int| 0 <= j < i ==> (#[trigger] strs_view(v@)[j]) != s@,
        decreases v.len() - i,
    {
        if str_eq(v[i].as_str(), s) {
            assert(strs_view(v@)[i as int] == s@);
            return true;
        }
        i = i + 1;
    }
    false
}

fn contains_type(v: &Vec<ContentType>, t: ContentType) -> (r: bool)
    ensures
        r == v@.contains(t),
{
    let mut i: usize = 0;
    while i < v.len()
        invariant
            i <= v@.len(),
            forall|j: int| 0 <= j < i ==> v@[j] != t,
        decreases v.len() - i,
    {
        if v[i] == t {
            return true;
        }
        i = i + 1;
    }
    false
}

/// Whether `chunk` passes the chunk-level parts of `filter`.
pub fn chunk_matches_filter(chunk: &Chunk, filter: &SubscribeFilter) -> (r: bool)
    ensures
        r == chunk_matches(chunk@, *filter),
{
    if let Some(types) = &filter.content_types {
        if !contains_type(types, chunk.content_type) {
            return false;
        }
    }
    if let Some(anns) = &filter.annotations {
        let ghost av = anns_view(anns@);
        let mut i: usize = 0;
        while i < anns.len()
            invariant
                i <= anns@.len(),
                av == anns_view(anns@),
                filter.annotations == Some(*anns),
                match filter.content_types {
                    Some(ts) => ts@.contains(chunk.content_type),
                    None => true,
                },
                forall|j: int| 0 <= j < i ==> #[trigger] annotation_ok(chunk@.annotations, av[j].0, av[j].1),
            decreases anns.len() - i,
        {
            let ok = match ann_lookup(&chunk.annotations, anns[i].0.as_str()) {
                Some(v) => json_equal(v, &anns[i].1),
                None => match &anns[i].1 {
                    JsonValue::Bool(b) => !*b,
                    _ => false,
                },
            };
            if !ok {
                assert(!annotation_ok(chunk@.annotations, anns_view(anns@)[i as int].0, anns_view(anns@)[i as int].1));
                assert(!annotations_ok(chunk@.annotations, anns_view(anns@)));
                return false;
            }
            i = i + 1;
        }
        assert(forall|j: int| 0 <= j < anns@.len() ==> #[trigger] annotation_ok(chunk@.annotations, anns_view(anns@)[j].0, anns_view(anns@)[j].1));
    }
    true
}

/// Whether `session` passes the session-level parts of `filter`.
pub fn session_matches_filter(session: &SessionState, filter: &SubscribeFilter) -> (r: bool)
    ensures
        r == session_matches(session.session_id@, session.agent_id@, *filter),
{
    if let Some(sessions) = &filter.sessions {
        if !contains_str(sessions, session.session_id.as_str()) {
            return false;
        }
    }
    if let Some(agents) = &filter.agents {
        if !contains_str(agents, session.agent_id.as_str()) {
            return false;
        }
    }
    true
}

/// A filter that sets nothing passes every chunk and every session.
pub proof fn law_empty_filter_passes_all(c: ChunkView, session_id: Seq<char>, agent_id: Seq<char>, f: SubscribeFilter)
    requires
        f.sessions is None,
        f.agents is None,
        f.content_types is None,
        f.annotations is None,
    ensures
        chunk_matches(c, f),
        session_matches(session_id, agent_id, f),
{
}

/// Requiring `false` of a key passes the chunks that lack it.
pub proof fn law_false_matches_absent(anns: Seq<(Seq<char>, JsonView)>, key: Seq<char>)
    requires
        ann_get(anns, key) is None,
    ensures
        annotation_ok(anns, key, JsonView::Bool(false)),
        !annotation_ok(anns, key, JsonView::Bool(true)),
{
}

/// Dropping a requirement from a filter never drops a chunk: a chunk that
/// passes a filter passes it without its content-type or annotation part.
pub proof fn law_chunk_filter_monotonic(c: ChunkView, f: SubscribeFilter, g: SubscribeFilter)
    requires
        chunk_matches(c, f),
        g.content_types is None || g.content_types == f.content_types,
        g.annotations is None || g.annotations == f.annotations,
    ensures
        chunk_matches(c, g),
{
}

/// Likewise for the session-level parts.
pub proof fn law_session_filter_monotonic(session_id: Seq<char>, agent_id: Seq<char>, f: SubscribeFilter, g: SubscribeFilter)
    requires
        session_matches(session_id, agent_id, f),
        g.sessions is None || g.sessions == f.sessions,
        g.agents is None || g.agents == f.agents,
    ensures
        session_matches(session_id, agent_id, g),
{
}

/// An empty list of content types passes no chunk; an empty list of
/// sessions or agents passes no session.
pub proof fn law_empty_lists_pass_nothing(c: ChunkView, session_id: Seq<char>, agent_id: Seq<char>, f: SubscribeFilter)
    requires
        f.content_types is Some && f.content_types->0@.len() == 0 || f.sessions is Some && f.sessions->0@.len() == 0
            || f.agents is Some && f.agents->0@.len() == 0,
    ensures
        f.content_types is Some && f.content_types->0@.len() == 0 ==> !chunk_matches(c, f),
        (f.sessions is Some && f.sessions->0@.len() == 0 || f.agents is Some && f.agents->0@.len() == 0)
            ==> !session_matches(session_id, agent_id, f),
{
}

} // verus!
