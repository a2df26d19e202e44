//! Agent definitions as an agent file describes them, with the defaults an
//! agent gets for what its file leaves out.
use crate::agent_runtime::executor::StepDef;
use crate::chunk::{anns_view, JsonValue, JsonView};
use crate::codec::{b64, b64_decode_text, lemma_b64_injective};
use crate::services::{or_default, value_or};
use vstd::prelude::*;
use vstd::string::StringExecFns;

verus! {

/// The nested `[initial_chunk]` table of an agent file.
#[derive(Debug, Clone)]
pub struct InitialChunkTable {
    /// `text`, `null` or `binary`; `text` when unset.
    pub chunk_type: Option<String>,
    pub content: Option<String>,
    /// Base64-encoded bytes (binary chunks).
    pub data: Option<String>,
    pub mime_type: Option<String>,
    pub annotations: Option<Vec<(String, JsonValue)>>,
}

/// An agent file as written: the nested initial chunk table, when present,
/// wins over the flat `initial_chunk_*` keys.
#[derive(Debug, Clone)]
pub struct AgentFile {
    pub name: String,
    pub description: Option<String>,
    pub background: Option<bool>,
    pub allows_reload: Option<bool>,
    pub persists_state: Option<bool>,
    pub steps: Option<Vec<StepDef>>,
    pub schedule: Option<String>,
    pub initial_chunk_content: Option<String>,
    pub initial_chunk_type: Option<String>,
    pub initial_chunk_data: Option<String>,
    pub initial_chunk_mime_type: Option<String>,
    pub initial_chunk_annotations: Option<Vec<(String, JsonValue)>>,
    pub initial_chunk: Option<InitialChunkTable>,
    pub rpc_timeout_secs: Option<u64>,
    pub max_pipeline_depth: Option<u32>,
    pub ephemeral_keepalive_secs: Option<u64>,
    pub ephemeral_count_role: Option<String>,
}

/// An agent as the runtime runs it.
#[derive(Debug, Clone)]
pub struct AgentDefinition {
    pub name: String,
    pub description: String,
    pub background: bool,
    pub allows_reload: bool,
    pub persists_state: bool,
    pub steps: Vec<StepDef>,
    pub schedule: Option<String>,
    pub initial_chunk_content: String,
    pub initial_chunk_type: String,
    pub initial_chunk_data: Option<Vec<u8>>,
    pub initial_chunk_mime_type: Option<String>,
    pub initial_chunk_annotations: Vec<(String, JsonValue)>,
    pub rpc_timeout_secs: u64,
    pub max_pipeline_depth: u32,
    pub ephemeral_keepalive_secs: Option<u64>,
    pub ephemeral_count_role: Option<String>,
}

/// The bytes base64 text stands for, if it is an encoding (a bad encoding
/// leaves the chunk without data).
pub open spec fn decoded(s: Option<String>) -> Option<Seq<u8>> {
    match s {
        Some(t) => if exists|b: Seq<u8>| b64(b) == t@ {
            Some(choose|b: Seq<u8>| b64(b) == t@)
        } else {
            None
        },
        None => None,
    }
}

/// The annotations given, or none.
pub open spec fn anns_or_empty(a: Option<Vec<(String, JsonValue)>>) -> Seq<(Seq<char>, JsonView)> {
    match a {
        Some(v) => anns_view(v@),
        None => Seq::empty(),
    }
}

/// The step an agent runs when its file lists none: the LLM on each user
/// message.
pub open spec fn is_default_step(s: StepDef) -> bool {
    &&& s.id@ == "llm"@
    &&& s.step_type@ == "llm"@
    &&& s.trigger@ == "user_message"@
    &&& s.enabled_if is None
}

fn decode_data(s: Option<String>) -> (r: Option<Vec<u8>>)
    ensures
        match r {
            Some(v) => decoded(s) == Some(v@),
            None => decoded(s) is None,
        },
{
    match s {
        Some(t) => match b64_decode_text(t.as_str()) {
            Some(v) => {
                proof {
                    let c = choose|b: Seq<u8>| b64(b) == t@;
                    lemma_b64_injective(c, v@);
                }
                Some(v)
            },
            None => None,
        },
        None => None,
    }
}

fn anns_or_new(a: Option<Vec<(String, JsonValue)>>) -> (r: Vec<(String, JsonValue)>)
    ensures
        anns_view(r@) == anns_or_empty(a),
{
    match a {
        Some(v) => v,
        None => {
            let r: Vec<(String, JsonValue)> = Vec::new();
            assert(anns_view(r@) =~= Seq::<(Seq<char>, JsonView)>::empty());
            r
        },
    }
}

impl AgentDefinition {
    /// The agent an agent file describes. Unset fields take their defaults:
    /// an empty description; not in the background; reloadable; persistent;
    /// the default LLM step; a `text` initial chunk with empty content; a
    /// 60-second RPC timeout and a chain depth of 10.
    pub fn from_file(f: AgentFile) -> (d: AgentDefinition)
        ensures
            d.name == f.name,
            d.description@ == or_default(f.description, Seq::empty()),
            d.background == (f.background == Some(true)),
            d.allows_reload == (f.allows_reload != Some(false)),
            d.persists_state == (f.persists_state != Some(false)),
            match f.steps {
                Some(s) => d.steps == s,
                None => d.steps@.len() == 1 && is_default_step(d.steps@[0]),
            },
            d.schedule == f.schedule,
            match f.initial_chunk {
                Some(ic) => {
                    &&& d.initial_chunk_type@ == or_default(ic.chunk_type, "text"@)
                    &&& d.initial_chunk_content@ == or_default(ic.content, Seq::empty())
                    &&& match d.initial_chunk_data {
                        Some(v) => decoded(ic.data) == Some(v@),
                        None => decoded(ic.data) is None,
                    }
                    &&& d.initial_chunk_mime_type == ic.mime_type
                    &&& anns_view(d.initial_chunk_annotations@) == anns_or_empty(ic.annotations)
                },
                None => {
                    &&& d.initial_chunk_type@ == or_default(f.initial_chunk_type, "text"@)
                    &&& d.initial_chunk_content@ == or_default(f.initial_chunk_content, Seq::empty())
                    &&& match d.initial_chunk_data {
                        Some(v) => decoded(f.initial_chunk_data) == Some(v@),
                        None => decoded(f.initial_chunk_data) is None,
                    }
                    &&& d.initial_chunk_mime_type == f.initial_chunk_mime_type
                    &&& anns_view(d.initial_chunk_annotations@) == anns_or_empty(
                        f.initial_chunk_annotations,
                    )
                },
            },
            d.rpc_timeout_secs == match f.rpc_timeout_secs {
                Some(n) => n,
                None => 60,
            },
            d.max_pipeline_depth == match f.max_pipeline_depth {
                Some(n) => n,
                None => 10,
            },
            d.ephemeral_keepalive_secs == f.ephemeral_keepalive_secs,
            d.ephemeral_count_role == f.ephemeral_count_role,
    {
        proof {
            reveal_strlit("");
        }
        let AgentFile {
            name,
            description,
            background,
            allows_reload,
            persists_state,
            steps,
            schedule,
            initial_chunk_content,
            initial_chunk_type,
            initial_chunk_data,
            initial_chunk_mime_type,
            initial_chunk_annotations,
            initial_chunk,
            rpc_timeout_secs,
            max_pipeline_depth,
            ephemeral_keepalive_secs,
            ephemeral_count_role,
        } = f;
        let (chunk_type, content, data, mime, anns) = match initial_chunk {
            Some(ic) => {
                let InitialChunkTable { chunk_type, content, data, mime_type, annotations } = ic;
                (
                    value_or(chunk_type, "text"),
                    value_or(content, ""),
                    decode_data(data),
                    mime_type,
                    anns_or_new(annotations),
                )
            },
            None => (
                value_or(initial_chunk_type, "text"),
                value_or(initial_chunk_content, ""),
                decode_data(initial_chunk_data),
                initial_chunk_mime_type,
                anns_or_new(initial_chunk_annotations),
            ),
        };
        let steps = match steps {
            Some(s) => s,
            None => {
                let mut v: Vec<StepDef> = Vec::new();
                v.push(
                    StepDef {
                        id: String::from_str("llm"),
                        step_type: String::from_str("llm"),
                        trigger: String::from_str("user_message"),
                        enabled_if: None,
                    },
                );
                v
            },
        };
        AgentDefinition {
            name,
            description: value_or(description, ""),
            background: match background {
                Some(b) => b,
                None => false,
            },
            allows_reload: match allows_reload {
                Some(b) => b,
                None => true,
            },
            persists_state: match persists_state {
                Some(b) => b,
                None => true,
            },
            steps,
            schedule,
            initial_chunk_content: content,
            initial_chunk_type: chunk_type,
            initial_chunk_data: data,
            initial_chunk_mime_type: mime,
            initial_chunk_annotations: anns,
            rpc_timeout_secs: match rpc_timeout_secs {
                Some(n) => n,
                None => 60,
            },
            max_pipeline_depth: match max_pipeline_depth {
                Some(n) => n,
                None => 10,
            },
            ephemeral_keepalive_secs,
            ephemeral_count_role,
        }
    }
}

} // verus!
