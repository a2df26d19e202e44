//! What the runtime publishes when it starts an agent's session: the
//! session's ephemeral settings and the agent's initial chunk.
use crate::agent_runtime::executor::{builtin_of, StepDef, StepType};
use crate::agent_runtime::loader::AgentDefinition;
use crate::agent_runtime::schema_registry::SchemaRegistry;
use crate::bus::session::EphemeralConfig;
use crate::chunk::{
    anns_view, entries_map, json_clone, set_entry, Chunk, ChunkView, ContentType, JsonValue, JsonView,
    CAFE_FLOW_SIGNAL, CHAT_ROLE,
};
use crate::text::{trim, trim_string};
use vstd::prelude::*;
use vstd::string::StringExecFns;

verus! {

/// The producer of the runtime's own chunks.
pub const RUNTIME_PRODUCER: &'static str = "com.nominal.cafe-agent-runtime";

/// The MIME type of binary data that names none.
pub const DEFAULT_MIME: &'static str = "application/octet-stream";

/// An agent's session is ephemeral when its definition gives a keep-alive
/// time; the role it counts comes along.
pub fn agent_session_ephemeral(keepalive_secs: Option<u64>, count_role: Option<String>) -> (r: Option<
    EphemeralConfig,
>)
    ensures
        match keepalive_secs {
            Some(k) => r matches Some(e) && e.keepalive_secs == k && e.count_role == count_role,
            None => r is None,
        },
{
    match keepalive_secs {
        Some(k) => Some(EphemeralConfig { keepalive_secs: k, count_role }),
        None => None,
    }
}

/// Entries applied one after another onto `m`: later ones win.
pub open spec fn overlay(m: Map<Seq<char>, JsonView>, anns: Seq<(Seq<char>, JsonView)>) -> Map<
    Seq<char>,
    JsonView,
>
    decreases anns.len(),
{
    if anns.len() == 0 {
        m
    } else {
        overlay(m, anns.drop_last()).insert(anns.last().0, anns.last().1)
    }
}

fn apply_all(c: &mut Chunk, anns: &Vec<(String, JsonValue)>)
    ensures
        entries_map(final(c)@.annotations) == overlay(entries_map(old(c)@.annotations), anns_view(anns@)),
        final(c)@.id == old(c)@.id,
        final(c)@.content_type == old(c)@.content_type,
        final(c)@.content == old(c)@.content,
        final(c)@.data == old(c)@.data,
        final(c)@.mime_type == old(c)@.mime_type,
        final(c)@.producer == old(c)@.producer,
{
    let ghost start = entries_map(c@.annotations);
    let ghost av = anns_view(anns@);
    let mut i: usize = 0;
    assert(av.take(0) =~= Seq::<(Seq<char>, JsonView)>::empty());
    while i < anns.len()
        invariant
            i <= anns@.len(),
            av == anns_view(anns@),
            entries_map(c@.annotations) == overlay(start, av.take(i as int)),
            c@.id == old(c)@.id,
            c@.content_type == old(c)@.content_type,
            c@.content == old(c)@.content,
            c@.data == old(c)@.data,
            c@.mime_type == old(c)@.mime_type,
            c@.producer == old(c)@.producer,
        decreases anns.len() - i,
    {
        assert(av.take(i + 1).drop_last() =~= av.take(i as int));
        assert(av.take(i + 1).last() == av[i as int]);
        set_entry(&mut c.annotations, anns[i].0.clone(), json_clone(&anns[i].1));
        i = i + 1;
    }
    assert(av.take(av.len() as int) =~= av);
}

/// The chunk an agent's session starts with, by the kind its definition
/// names: a `text` chunk from the user when the content holds more than
/// whitespace; a `null` chunk; or a `binary` chunk when there is data (of
/// the given MIME type, else `application/octet-stream`). The definition's
/// annotations are set on it, after the `text` chunk's user role. Any other
/// kind gives no chunk.
pub open spec fn initial_chunk_ok(d: AgentDefinition, agent_name: Seq<char>, id: Seq<char>, c: Option<ChunkView>) -> bool {
    let anns = anns_view(d.initial_chunk_annotations@);
    let kind = d.initial_chunk_type@;
    if kind == "text"@ {
        if trim(d.initial_chunk_content@).len() > 0 {
            c matches Some(ch) && ch.id == id && ch.producer == agent_name && ch.content_type
                == ContentType::Text && ch.content == Some(d.initial_chunk_content@) && ch.data is None
                && entries_map(ch.annotations) == overlay(
                Map::empty().insert(CHAT_ROLE@, JsonView::Str("user"@)),
                anns,
            )
        } else {
            c is None
        }
    } else if kind == "null"@ {
        c matches Some(ch) && ch.id == id && ch.producer == agent_name && ch.content_type
            == ContentType::Null && ch.content is None && ch.data is None && entries_map(ch.annotations)
            == overlay(Map::empty(), anns)
    } else if kind == "binary"@ {
        match d.initial_chunk_data {
            Some(bytes) => c matches Some(ch) && ch.id == id && ch.producer == agent_name
                && ch.content_type == ContentType::Binary && ch.content is None && ch.data == Some(bytes@)
                && ch.mime_type == Some(
                match d.initial_chunk_mime_type {
                    Some(m) => m@,
                    None => DEFAULT_MIME@,
                },
            ) && entries_map(ch.annotations) == overlay(Map::empty(), anns),
            None => c is None,
        }
    } else {
        c is None
    }
}

/// Builds the chunk an agent's session starts with (see `initial_chunk_ok`).
pub fn initial_chunk(id: String, agent_name: &str, def: &AgentDefinition) -> (r: Option<Chunk>)
    ensures
        initial_chunk_ok(
            *def,
            agent_name@,
            id@,
            match r {
                Some(c) => Some(c@),
                None => None,
            },
        ),
{
    let kind = def.initial_chunk_type.as_str();
    proof {
        reveal_strlit("text");
        reveal_strlit("null");
        reveal_strlit("binary");
    }
    let producer = String::from_str(agent_name);
    if crate::text::str_eq(kind, "text") {
        let trimmed = trim_string(def.initial_chunk_content.as_str());
        if trimmed.as_str().is_empty() {
            return None;
        }
        let mut c = Chunk::new_text(id, def.initial_chunk_content.clone(), producer);
        c.set_annotation(String::from_str(CHAT_ROLE), JsonValue::Str(String::from_str("user")));
        proof {
            assert(entries_map(c@.annotations) =~= Map::<Seq<char>, JsonView>::empty().insert(
                CHAT_ROLE@,
                JsonView::Str("user"@),
            ));
        }
        apply_all(&mut c, &def.initial_chunk_annotations);
        Some(c)
    } else if crate::text::str_eq(kind, "null") {
        let mut c = Chunk::new_null(id, producer);
        assert(entries_map(c@.annotations) =~= Map::<Seq<char>, JsonView>::empty());
        apply_all(&mut c, &def.initial_chunk_annotations);
        Some(c)
    } else if crate::text::str_eq(kind, "binary") {
        match &def.initial_chunk_data {
            Some(bytes) => {
                let mime = match &def.initial_chunk_mime_type {
                    Some(m) => m.clone(),
                    None => String::from_str(DEFAULT_MIME),
                };
                let mut c = Chunk::new_null(id, producer);
                c.content_type = ContentType::Binary;
                c.data = Some(bytes.clone());
                c.mime_type = Some(mime);
                assert(entries_map(c@.annotations) =~= Map::<Seq<char>, JsonView>::empty());
                apply_all(&mut c, &def.initial_chunk_annotations);
                Some(c)
            },
            None => None,
        }
    } else {
        None
    }
}

/// The chunk that makes a scheduled agent run: a `tick` flow signal.
pub fn tick_chunk(id: String) -> (c: Chunk)
    ensures
        c@.id == id@,
        c@.content_type == ContentType::Null,
        c@.producer == RUNTIME_PRODUCER@,
        entries_map(c@.annotations) == Map::<Seq<char>, JsonView>::empty().insert(
            CAFE_FLOW_SIGNAL@,
            JsonView::Str("tick"@),
        ),
{
    let mut c = Chunk::new_null(id, String::from_str(RUNTIME_PRODUCER));
    c.set_annotation(String::from_str(CAFE_FLOW_SIGNAL), JsonValue::Str(String::from_str("tick")));
    assert(entries_map(c@.annotations) =~= Map::<Seq<char>, JsonView>::empty().insert(
        CAFE_FLOW_SIGNAL@,
        JsonView::Str("tick"@),
    ));
    c
}

/// The producer of the config chunk the runtime seeds a session with.
pub open spec fn seed_producer(agent_id: Seq<char>) -> Seq<char> {
    RUNTIME_PRODUCER@ + "/"@ + agent_id
}

/// The config chunk published when the runtime attaches to a session: only
/// an agent whose initial chunk is a `null` chunk with annotations seeds
/// one, carrying those annotations.
pub fn attach_config_chunk(id: String, agent_id: &str, def: &AgentDefinition) -> (r: Option<Chunk>)
    ensures
        (def.initial_chunk_type@ == "null"@ && def.initial_chunk_annotations@.len() > 0) <==> r is Some,
        r matches Some(c) ==> c@.id == id@ && c@.content_type == ContentType::Null && c@.producer
            == seed_producer(agent_id@) && entries_map(c@.annotations) == overlay(
            Map::empty(),
            anns_view(def.initial_chunk_annotations@),
        ),
{
    proof {
        reveal_strlit("null");
    }
    if !crate::text::str_eq(def.initial_chunk_type.as_str(), "null") || def.initial_chunk_annotations.len()
        == 0 {
        return None;
    }
    let producer = String::from_str(RUNTIME_PRODUCER).concat("/").concat(agent_id);
    let mut c = Chunk::new_null(id, producer);
    assert(entries_map(c@.annotations) =~= Map::<Seq<char>, JsonView>::empty());
    apply_all(&mut c, &def.initial_chunk_annotations);
    Some(c)
}

/// The evaluators whose schemas are published into a session: the RPC
/// steps of the pipeline, in order, whose evaluator announced a schema.
pub open spec fn published_schemas(steps: Seq<StepDef>, reg: SchemaRegistry) -> Seq<Seq<char>>
    decreases steps.len(),
{
    if steps.len() == 0 {
        Seq::empty()
    } else {
        let prev = published_schemas(steps.drop_last(), reg);
        let t = steps.last().step_type@;
        if builtin_of(t) is None && reg.schema(t) is Some {
            prev.push(t)
        } else {
            prev
        }
    }
}

/// Names the evaluators whose schemas are published into a session.
pub fn schemas_to_publish(steps: &Vec<StepDef>, reg: &SchemaRegistry) -> (r: Vec<String>)
    requires
        reg.wf(),
    ensures
        r@.map_values(|s: String| s@) == published_schemas(steps@, *reg),
{
    let mut out: Vec<String> = Vec::new();
    let mut i: usize = 0;
    assert(steps@.take(0) =~= Seq::<StepDef>::empty());
    assert(out@.map_values(|s: String| s@) =~= Seq::<Seq<char>>::empty());
    while i < steps.len()
        invariant
            i <= steps@.len(),
            reg.wf(),
            out@.map_values(|s: String| s@) == published_schemas(steps@.take(i as int), *reg),
        decreases steps.len() - i,
    {
        assert(steps@.take(i + 1).drop_last() =~= steps@.take(i as int));
        assert(steps@.take(i + 1).last() == steps@[i as int]);
        let t = steps[i].step_type.as_str();
        let rpc = match StepType::from_str(t) {
            StepType::BuiltIn(_) => false,
            StepType::Rpc(_) => true,
        };
        if rpc && reg.get(t).is_some() {
            let ghost before = out@;
            out.push(steps[i].step_type.clone());
            assert(out@.map_values(|s: String| s@) =~= before.map_values(|s: String| s@).push(t@));
        }
        i = i + 1;
    }
    assert(steps@.take(steps@.len() as int) =~= steps@);
    out
}

} // verus!
