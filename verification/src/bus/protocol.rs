//! What the bus does with each client request, apart from the I/O: which
//! errors are answered, what the registry becomes, and what is delivered.
use crate::bus::registry::{index_of, SessionRegistry};
use crate::bus::session::{live, retained_chunks, SessionState};
use crate::chunk::{
    ann_get, ann_lookup, chunk_clone, json_as_str, Chunk, ChunkView, ContentType, JsonNumber,
    JsonValue, JsonView, CAFE_DIRECT_TO, CAFE_SOURCE_CONNECTION, CONFIG_BACKEND, CONFIG_MAX_TOKENS,
    CONFIG_MODEL, CONFIG_SYSTEM_PROMPT, CONFIG_TEMPERATURE, CONFIG_TYPE,
};
use crate::text::{decimal, push_decimal, string_from};
use vstd::prelude::*;
use vstd::string::StringExecFns;

verus! {

/// The longest request line the bus accepts, in bytes.
pub const MAX_MESSAGE_BYTES: usize = 16 * 1024 * 1024;

/// The producer the bus publishes its own chunks as.
pub const BUS_PRODUCER: &'static str = "com.nominal.cafe-bus";

/// Why the bus refused a request.
#[derive(Debug)]
pub enum BusError {
    PayloadTooLarge,
    InvalidMessage(String),
    SessionExists(String),
    SessionNotFound(String),
    TargetNotFound(String),
}

/// The error code sent with each refusal.
pub open spec fn error_code(e: BusError) -> Seq<char> {
    match e {
        BusError::PayloadTooLarge => "PAYLOAD_TOO_LARGE"@,
        BusError::InvalidMessage(_) => "INVALID_MESSAGE"@,
        BusError::SessionExists(_) => "SESSION_EXISTS"@,
        BusError::SessionNotFound(_) => "SESSION_NOT_FOUND"@,
        BusError::TargetNotFound(_) => "TARGET_NOT_FOUND"@,
    }
}

/// The message sent with each refusal.
pub open spec fn error_message(e: BusError) -> Seq<char> {
    match e {
        BusError::PayloadTooLarge => "Payload too large"@,
        BusError::InvalidMessage(detail) => "Invalid JSON: "@ + detail@,
        BusError::SessionExists(id) => "Session already exists: "@ + id@,
        BusError::SessionNotFound(id) => "Session not found: "@ + id@,
        BusError::TargetNotFound(id) => "Target connection not found: "@ + id@,
    }
}

impl BusError {
    /// The error code of this refusal.
    pub fn code(&self) -> (r: &'static str)
        ensures
            r@ == error_code(*self),
    {
        match self {
            BusError::PayloadTooLarge => "PAYLOAD_TOO_LARGE",
            BusError::InvalidMessage(_) => "INVALID_MESSAGE",
            BusError::SessionExists(_) => "SESSION_EXISTS",
            BusError::SessionNotFound(_) => "SESSION_NOT_FOUND",
            BusError::TargetNotFound(_) => "TARGET_NOT_FOUND",
        }
    }

    /// The message of this refusal.
    pub fn message(&self) -> (r: String)
        ensures
            r@ == error_message(*self),
    {
        match self {
            BusError::PayloadTooLarge => String::from_str("Payload too large"),
            BusError::InvalidMessage(d) => String::from_str("Invalid JSON: ").concat(d.as_str()),
            BusError::SessionExists(id) => String::from_str("Session already exists: ").concat(id.as_str()),
            BusError::SessionNotFound(id) => String::from_str("Session not found: ").concat(id.as_str()),
            BusError::TargetNotFound(id) => String::from_str("Target connection not found: ").concat(
                id.as_str(),
            ),
        }
    }
}

/// Whether a request line is too long to be handled.
pub fn line_too_large(len: usize) -> (r: bool)
    ensures
        r == (len > MAX_MESSAGE_BYTES),
{
    len > MAX_MESSAGE_BYTES
}

/// Hands out connection numbers, one after another from 1.
pub struct ConnectionCounter {
    pub next: u64,
}

impl ConnectionCounter {
    pub fn new() -> (r: Self)
        ensures
            r.next == 1,
    {
        ConnectionCounter { next: 1 }
    }

    /// The next connection number; numbers are handed out in order.
    pub fn next_id(&mut self) -> (n: u64)
        requires
            old(self).next < u64::MAX,
        ensures
            n == old(self).next,
            final(self).next == n + 1,
    {
        let n = self.next;
        self.next = n + 1;
        n
    }
}

/// The id of the `n`-th connection: `c-` and the number.
pub open spec fn connection_id_spec(n: u64) -> Seq<char> {
    seq!['c', '-'] + decimal(n as nat)
}

/// The id of the `n`-th connection.
pub fn connection_id(n: u64) -> (r: String)
    ensures
        r@ == connection_id_spec(n),
{
    let mut v: Vec<char> = Vec::new();
    v.push('c');
    v.push('-');
    push_decimal(&mut v, n);
    string_from(&v)
}

/// The settings a client may give a new session. The temperature is given
/// as the JSON value it serializes to.
pub struct NewSessionConfig {
    pub backend: Option<String>,
    pub model: Option<String>,
    pub system_prompt: Option<String>,
    pub temperature: Option<JsonValue>,
    pub max_tokens: Option<u32>,
}

/// The annotations of the runtime config chunk for a new session: the
/// marker, then each setting that was given, in order.
pub open spec fn config_annotations(cfg: NewSessionConfig) -> Seq<(Seq<char>, JsonView)> {
    let a0 = seq![(CONFIG_TYPE@, JsonView::Str("runtime"@))];
    let a1 = match cfg.backend {
        Some(b) => a0.push((CONFIG_BACKEND@, JsonView::Str(b@))),
        None => a0,
    };
    let a2 = match cfg.model {
        Some(m) => a1.push((CONFIG_MODEL@, JsonView::Str(m@))),
        None => a1,
    };
    let a3 = match cfg.system_prompt {
        Some(p) => a2.push((CONFIG_SYSTEM_PROMPT@, JsonView::Str(p@))),
        None => a2,
    };
    let a4 = match cfg.temperature {
        Some(t) => a3.push((CONFIG_TEMPERATURE@, t@)),
        None => a3,
    };
    match cfg.max_tokens {
        Some(n) => a4.push((CONFIG_MAX_TOKENS@, JsonView::Number(JsonNumber::PosInt(n as u64)))),
        None => a4,
    }
}

/// The runtime config chunk that records the settings of a new session.
pub fn make_config_chunk(cfg: NewSessionConfig, id: String) -> (c: Chunk)
    ensures
        c@.id == id@,
        c@.content_type == ContentType::Null,
        c@.content is None,
        c@.producer == BUS_PRODUCER@,
        c@.annotations == config_annotations(cfg),
{
    let ghost g = cfg;
    let NewSessionConfig { backend, model, system_prompt, temperature, max_tokens } = cfg;
    let mut anns: Vec<(String, JsonValue)> = Vec::new();
    anns.push((String::from_str(CONFIG_TYPE), JsonValue::Str(String::from_str("runtime"))));
    if let Some(b) = backend {
        anns.push((String::from_str(CONFIG_BACKEND), JsonValue::Str(b)));
    }
    if let Some(m) = model {
        anns.push((String::from_str(CONFIG_MODEL), JsonValue::Str(m)));
    }
    if let Some(p) = system_prompt {
        anns.push((String::from_str(CONFIG_SYSTEM_PROMPT), JsonValue::Str(p)));
    }
    if let Some(t) = temperature {
        anns.push((String::from_str(CONFIG_TEMPERATURE), t));
    }
    if let Some(n) = max_tokens {
        anns.push((String::from_str(CONFIG_MAX_TOKENS), JsonValue::Number(JsonNumber::PosInt(n as u64))));
    }
    let c = Chunk {
        id,
        content_type: ContentType::Null,
        content: None,
        data: None,
        mime_type: None,
        producer: String::from_str(BUS_PRODUCER),
        annotations: anns,
        timestamp: 0,
    };
    assert(c@.annotations =~= config_annotations(g));
    c
}

/// Handles a request to create a session: refused when the id is taken;
/// otherwise a new session, which records a config chunk first when a
/// backend, model or system prompt was given.
pub fn create_session(
    reg: &mut SessionRegistry,
    session_id: String,
    agent_id: String,
    cfg: NewSessionConfig,
    chunk_id: String,
    now: u64,
) -> (r: Result<(), BusError>)
    requires
        old(reg).wf(),
    ensures
        final(reg).wf(),
        match r {
            Err(e) => index_of(old(reg).sessions@, session_id@) is Some && e == BusError::SessionExists(session_id)
                && final(reg).sessions@ == old(reg).sessions@,
            Ok(_) => index_of(old(reg).sessions@, session_id@) is None && final(reg).sessions@.len()
                == old(reg).sessions@.len() + 1 && final(reg).sessions@.drop_last() == old(reg).sessions@
                && {
                let s = final(reg).sessions@.last();
                &&& s.session_id == session_id
                &&& s.agent_id == agent_id
                &&& s.ephemeral is None
                &&& s.tags@.len() == 0
                &&& s.subscribers@.len() == 0
                &&& s.retained@.len() == 0
                &&& if cfg.backend is Some || cfg.model is Some || cfg.system_prompt is Some {
                    s.history@.len() == 1 && s.history@[0]@.annotations == config_annotations(cfg)
                        && s.history@[0]@.id == chunk_id@ && s.history@[0]@.content_type == ContentType::Null
                } else {
                    s.history@.len() == 0
                }
            },
        },
{
    if reg.contains(session_id.as_str()) {
        return Err(BusError::SessionExists(session_id));
    }
    let ghost g = cfg;
    let ghost sid = session_id;
    let mut state = SessionState::new(session_id, agent_id);
    if cfg.backend.is_some() || cfg.model.is_some() || cfg.system_prompt.is_some() {
        let c = make_config_chunk(cfg, chunk_id);
        proof {
            reveal_strlit("runtime");
            reveal_strlit("config.type");
            reveal_strlit("cafe.transient");
            assert(c@.annotations[0].0 == CONFIG_TYPE@);
            lemma_config_chunk_persistent(g);
        }
        let _ = state.publish(c, now);
    }
    reg.insert(state);
    proof {
        assert(index_of(old(reg).sessions@, sid@) is None);
    }
    Ok(())
}

/// A config chunk of a new session is no transient chunk.
proof fn lemma_config_chunk_persistent(cfg: NewSessionConfig)
    ensures
        ann_get(config_annotations(cfg), crate::chunk::CAFE_TRANSIENT@) is None,
{
    reveal_strlit("config.type");
    reveal_strlit("config.backend");
    reveal_strlit("config.model");
    reveal_strlit("config.system_prompt");
    reveal_strlit("config.temperature");
    reveal_strlit("config.max_tokens");
    reveal_strlit("cafe.transient");
    let a = config_annotations(cfg);
    assert forall|i: int| 0 <= i < a.len() implies a[i].0 != crate::chunk::CAFE_TRANSIENT@ by {
        assert(a[i].0[1] != crate::chunk::CAFE_TRANSIENT@[1] || a[i].0.len() != crate::chunk::CAFE_TRANSIENT@.len());
    }
    lemma_ann_get_absent(a, crate::chunk::CAFE_TRANSIENT@);
}

proof fn lemma_ann_get_absent(a: Seq<(Seq<char>, JsonView)>, k: Seq<char>)
    requires
        forall|i: int| 0 <= i < a.len() ==> a[i].0 != k,
    ensures
        ann_get(a, k) is None,
    decreases a.len(),
{
    if a.len() > 0 {
        assert forall|i: int| 0 <= i < a.drop_first().len() implies a.drop_first()[i].0 != k by {
            assert(a.drop_first()[i] == a[i + 1]);
        }
        lemma_ann_get_absent(a.drop_first(), k);
    }
}

/// Handles a request to delete a session: refused when it does not exist.
pub fn delete_session(reg: &mut SessionRegistry, session_id: String) -> (r: Result<(), BusError>)
    requires
        old(reg).wf(),
    ensures
        final(reg).wf(),
        match index_of(old(reg).sessions@, session_id@) {
            Some(i) => r is Ok && final(reg).sessions@ == old(reg).sessions@.remove(i),
            None => r == Err::<(), BusError>(BusError::SessionNotFound(session_id)) && final(reg).sessions@
                == old(reg).sessions@,
        },
{
    if reg.remove(session_id.as_str()) {
        Ok(())
    } else {
        Err(BusError::SessionNotFound(session_id))
    }
}

/// `t` is `c` tagged with the connection it came from: the
/// source-connection annotation set to `conn`, everything else as it was.
pub open spec fn tagged(t: ChunkView, c: ChunkView, conn: Seq<char>) -> bool {
    &&& ann_get(t.annotations, CAFE_SOURCE_CONNECTION@) == Some(JsonView::Str(conn))
    &&& forall|k: Seq<char>| k != CAFE_SOURCE_CONNECTION@ ==> ann_get(t.annotations, k) == ann_get(c.annotations, k)
    &&& t.id == c.id
    &&& t.content_type == c.content_type
    &&& t.content == c.content
    &&& t.data == c.data
    &&& t.mime_type == c.mime_type
    &&& t.producer == c.producer
    &&& t.timestamp == c.timestamp
}

/// The connection a chunk is addressed to: its direct-to annotation, when
/// that is a string.
pub open spec fn direct_target(c: ChunkView) -> Option<Seq<char>> {
    match ann_get(c.annotations, CAFE_DIRECT_TO@) {
        Some(v) => json_as_str(v),
        None => None,
    }
}

/// `new` is `old` after publishing a chunk of view `c` at `now`.
pub open spec fn published_into(new: SessionState, old: SessionState, c: ChunkView, now: u64) -> bool {
    &&& new.session_id == old.session_id
    &&& new.agent_id == old.agent_id
    &&& new.subscribers == old.subscribers
    &&& new.ephemeral == old.ephemeral
    &&& new.tags == old.tags
    &&& if !crate::chunk::is_transient_spec(c) {
        &&& new.history@.len() == old.history@.len() + 1
        &&& new.history@.drop_last() == old.history@
        &&& new.history@.last()@ == c
        &&& new.retained@ == old.retained@
    } else {
        &&& new.history@ == old.history@
        &&& match crate::chunk::retain_secs_spec(c) {
            Some(secs) => new.retained@.len() == old.retained@.len() + 1
                && new.retained@.drop_last() == old.retained@ && new.retained@.last().0@ == c
                && new.retained@.last().1 == crate::bus::session::deadline(now, secs),
            None => new.retained@ == old.retained@,
        }
    }
}

/// Where a published chunk goes.
#[derive(Debug)]
pub enum PublishOutcome {
    /// Addressed to one connection: deliver the tagged chunk to `target`
    /// only, or refuse when no such connection exists.
    Direct { target: String, chunk: Chunk },
    /// Recorded in the session; the copy is delivered to its subscribers.
    Published(Chunk),
    /// Refused.
    Refused(BusError),
}

/// Handles a publish request from connection `conn_id`: the chunk is tagged
/// with its source; a chunk addressed to a connection bypasses the session;
/// otherwise it is published to the session, or refused when that does not
/// exist.
pub fn publish_request(
    reg: &mut SessionRegistry,
    session_id: String,
    chunk: Chunk,
    conn_id: &str,
    now: u64,
) -> (r: PublishOutcome)
    requires
        old(reg).wf(),
    ensures
        final(reg).wf(),
        match r {
            PublishOutcome::Direct { target, chunk: t } => tagged(t@, chunk@, conn_id@) && direct_target(
                chunk@,
            ) == Some(target@) && final(reg).sessions@ == old(reg).sessions@,
            PublishOutcome::Published(t) => tagged(t@, chunk@, conn_id@) && direct_target(chunk@) is None
                && match index_of(old(reg).sessions@, session_id@) {
                Some(i) => final(reg).sessions@.len() == old(reg).sessions@.len() && published_into(
                    final(reg).sessions@[i],
                    old(reg).sessions@[i],
                    t@,
                    now,
                ) && forall|j: int|
                    0 <= j < old(reg).sessions@.len() && j != i ==> final(reg).sessions@[j] == old(
                        reg,
                    ).sessions@[j],
                None => false,
            },
            PublishOutcome::Refused(e) => direct_target(chunk@) is None && index_of(
                old(reg).sessions@,
                session_id@,
            ) is None && e == BusError::SessionNotFound(session_id) && final(reg).sessions@ == old(
                reg,
            ).sessions@,
        },
{
    let ghost orig = chunk@;
    let mut chunk = chunk;
    chunk.set_annotation(String::from_str(CAFE_SOURCE_CONNECTION), JsonValue::Str(String::from_str(conn_id)));
    proof {
        reveal_strlit("cafe.source_connection");
        reveal_strlit("cafe.direct_to");
        assert(CAFE_SOURCE_CONNECTION@ != CAFE_DIRECT_TO@) by {
            assert(CAFE_SOURCE_CONNECTION@[5] != CAFE_DIRECT_TO@[5]);
        }
    }
    assert(ann_get(chunk@.annotations, CAFE_DIRECT_TO@) == ann_get(orig.annotations, CAFE_DIRECT_TO@));
    assert(tagged(chunk@, orig, conn_id@));
    let target: Option<String> = match ann_lookup(&chunk.annotations, CAFE_DIRECT_TO) {
        Some(JsonValue::Str(t)) => Some(t.clone()),
        _ => None,
    };
    if let Some(t) = target {
        return PublishOutcome::Direct { target: t, chunk };
    }
    match reg.get_mut(session_id.as_str()) {
        Some(s) => {
            let ghost old_s = *s;
            let ghost cv = chunk@;
            let copy = s.publish(chunk, now);
            proof {
                if !crate::chunk::is_transient_spec(cv) {
                    assert(s.history@.drop_last() =~= old_s.history@);
                } else if crate::chunk::retain_secs_spec(cv) is Some {
                    assert(s.retained@.drop_last() =~= old_s.retained@);
                }
                assert(final(reg).sessions@[index_of(old(reg).sessions@, session_id@)->0].wf());
            }
            PublishOutcome::Published(copy)
        },
        None => PublishOutcome::Refused(BusError::SessionNotFound(session_id)),
    }
}

/// Copies of the chunks of `v`.
pub fn clone_chunks(v: &Vec<Chunk>) -> (r: Vec<Chunk>)
    ensures
        r@.map_values(|c: Chunk| c@) == v@.map_values(|c: Chunk| c@),
{
    let mut out: Vec<Chunk> = Vec::new();
    let mut i: usize = 0;
    while i < v.len()
        invariant
            i <= v@.len(),
            out@.len() == i,
            out@.map_values(|c: Chunk| c@) == v@.subrange(0, i as int).map_values(|c: Chunk| c@),
        decreases v.len() - i,
    {
        let ghost before = out@;
        let c = chunk_clone(&v[i]);
        out.push(c);
        proof {
            let lhs = out@.map_values(|c: Chunk| c@);
            let rhs = v@.subrange(0, i + 1).map_values(|c: Chunk| c@);
            assert forall|j: int| 0 <= j < i + 1 implies lhs[j] == rhs[j] by {
                if j < i {
                    assert(out@[j] == before[j]);
                    assert(before.map_values(|c: Chunk| c@)[j] == v@.subrange(0, i as int).map_values(|c: Chunk| c@)[j]);
                }
            }
            assert(lhs =~= rhs);
        }
        i = i + 1;
    }
    assert(v@.subrange(0, v@.len() as int) =~= v@);
    out
}

/// Handles a subscription to one session: the history to replay (copies),
/// then the retained chunks still live at `now`; refused when the session
/// does not exist. Expired retained entries are pruned.
pub fn subscribe_snapshot(reg: &mut SessionRegistry, session_id: String, now: u64) -> (r: Result<
    (Vec<Chunk>, Vec<Chunk>),
    BusError,
>)
    requires
        old(reg).wf(),
    ensures
        final(reg).wf(),
        match index_of(old(reg).sessions@, session_id@) {
            Some(i) => r is Ok && {
                let (h, ret) = r->Ok_0;
                let s = old(reg).sessions@[i];
                &&& h@.map_values(|c: Chunk| c@) == s.history@.map_values(|c: Chunk| c@)
                &&& ret@.map_values(|c: Chunk| c@) == retained_chunks(live(s.retained@, now))
                &&& final(reg).sessions@.len() == old(reg).sessions@.len()
                &&& final(reg).sessions@[i].retained@ == live(s.retained@, now)
                &&& final(reg).sessions@[i].history == s.history
                &&& final(reg).sessions@[i].session_id == s.session_id
                &&& forall|j: int|
                    0 <= j < old(reg).sessions@.len() && j != i ==> final(reg).sessions@[j] == old(
                        reg,
                    ).sessions@[j]
            },
            None => r == Err::<(Vec<Chunk>, Vec<Chunk>), BusError>(BusError::SessionNotFound(session_id))
                && final(reg).sessions@ == old(reg).sessions@,
        },
{
    match reg.get_mut(session_id.as_str()) {
        Some(s) => {
            let retained = s.drain_retained(now);
            let history = clone_chunks(&s.history);
            Ok((history, retained))
        },
        None => Err(BusError::SessionNotFound(session_id)),
    }
}

/// What the bus sends a subscriber of a session, in order.
#[derive(Debug)]
pub enum ReplayMessage {
    /// A chunk of the session.
    Chunk(Chunk),
    /// The end of the replay, with the number of chunks replayed.
    HistoryComplete(usize),
}

/// Whether `m` sends a chunk that is `c`.
pub open spec fn sends_chunk(m: ReplayMessage, c: ChunkView) -> bool {
    match m {
        ReplayMessage::Chunk(x) => x@ == c,
        _ => false,
    }
}

/// The replay that answers a subscription: the history, oldest first, then
/// the retained chunks, then the marker that counts them all.
pub fn replay_messages(history: Vec<Chunk>, retained: Vec<Chunk>) -> (r: Vec<ReplayMessage>)
    requires
        history@.len() + retained@.len() < usize::MAX,
    ensures
        r@.len() == history@.len() + retained@.len() + 1,
        forall|i: int|
            0 <= i < history@.len() ==> sends_chunk(#[trigger] r@[i], history@[i]@),
        forall|j: int|
            0 <= j < retained@.len() ==> sends_chunk(#[trigger] r@[history@.len() + j], retained@[j]@),
        r@.last() == ReplayMessage::HistoryComplete((history@.len() + retained@.len()) as usize),
{
    let mut out: Vec<ReplayMessage> = Vec::new();
    let mut i: usize = 0;
    while i < history.len()
        invariant
            i <= history@.len(),
            out@.len() == i,
            forall|k: int| 0 <= k < i ==> sends_chunk(#[trigger] out@[k], history@[k]@),
        decreases history.len() - i,
    {
        out.push(ReplayMessage::Chunk(chunk_clone(&history[i])));
        i = i + 1;
    }
    let mut j: usize = 0;
    while j < retained.len()
        invariant
            j <= retained@.len(),
            history@.len() + retained@.len() < usize::MAX,
            out@.len() == history@.len() + j,
            forall|k: int| 0 <= k < history@.len() ==> sends_chunk(#[trigger] out@[k], history@[k]@),
            forall|k: int|
                0 <= k < j ==> sends_chunk(#[trigger] out@[history@.len() + k], retained@[k]@),
        decreases retained.len() - j,
    {
        out.push(ReplayMessage::Chunk(chunk_clone(&retained[j])));
        assert(sends_chunk(out@[history@.len() + j], retained@[j as int]@));
        j = j + 1;
    }
    out.push(ReplayMessage::HistoryComplete(history.len() + retained.len()));
    out
}

} // verus!
