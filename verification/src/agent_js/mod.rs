//! What a JavaScript agent is told: bus chunks classified into its events,
//! the reply text an `llm_complete` event carries, and the merged session
//! configuration it reads.
use crate::chunk::{
    ann_get, ann_lookup, anns_view, entries_map, is_runtime_config, is_runtime_config_chunk,
    is_transient_spec, json_as_bool, json_as_str, json_clone, opt_str, role_spec, set_entry, Chunk,
    ChunkView, ContentType, JsonValue, JsonView, CAFE_FLOW_SIGNAL, CHAT_STREAM_COMPLETE,
    CONFIG_TYPE, lemma_ann_get_push_end,
};
use crate::agent_runtime::executor::{json_quote, json_string_text};
use crate::text::{chars_of, contains_seq, decimal, push_decimal, str_eq, string_from, vec_contains};
use vstd::prelude::*;
use vstd::string::StringExecFns;

pub mod registry;

verus! {

/// The producer of the model's replies.
pub const LLM_PRODUCER: &'static str = "com.nominal.cafe-llm";

/// An event handed to a JavaScript agent.
#[derive(Debug, Clone, PartialEq)]
pub struct JsEvent {
    /// `user_message`, `llm_complete` or `tick`.
    pub event_type: String,
    /// The user's or assistant's text; empty for ticks.
    pub text: String,
}

/// The latest non-empty reply text of the model in a history, if any.
pub open spec fn last_llm_text(h: Seq<ChunkView>) -> Option<Seq<char>>
    decreases h.len(),
{
    if h.len() == 0 {
        None
    } else {
        let c = h.last();
        if c.content_type == ContentType::Text && role_spec(c) == Some("assistant"@) && c.producer
            == LLM_PRODUCER@ && c.content is Some && c.content->0.len() > 0 {
            c.content
        } else {
            last_llm_text(h.drop_last())
        }
    }
}

/// Whether `c` is a non-empty text reply of the model.
pub open spec fn is_llm_reply(c: ChunkView) -> bool {
    &&& c.content_type == ContentType::Text
    &&& role_spec(c) == Some("assistant"@)
    &&& c.producer == LLM_PRODUCER@
    &&& c.content matches Some(t) && t.len() > 0
}

/// The text an `llm_complete` event carries is the model's most recent
/// reply: a reply appended last is the one given, whatever came before; any
/// other chunk appended changes nothing; and there is none exactly when the
/// history holds no reply.
pub proof fn law_llm_text_is_latest_reply(h: Seq<ChunkView>, c: ChunkView)
    ensures
        is_llm_reply(c) ==> last_llm_text(h.push(c)) == c.content,
        !is_llm_reply(c) ==> last_llm_text(h.push(c)) == last_llm_text(h),
        last_llm_text(h) is None <==> forall|i: int| 0 <= i < h.len() ==> !is_llm_reply(#[trigger] h[i]),
    decreases h.len(),
{
    assert(h.push(c).drop_last() =~= h);
    assert(h.push(c).last() == c);
    if h.len() > 0 {
        let t = h.drop_last();
        law_llm_text_is_latest_reply(t, c);
        assert(h[h.len() - 1] == h.last());
        assert forall|i: int| 0 <= i < t.len() implies #[trigger] t[i] == h[i] by {}
        if !is_llm_reply(h.last()) && last_llm_text(t) is None {
            assert forall|i: int| 0 <= i < h.len() implies !is_llm_reply(#[trigger] h[i]) by {
                if i < t.len() {
                    assert(!is_llm_reply(t[i]));
                }
            }
        }
    }
}

/// The text an `llm_complete` event carries: the model's latest non-empty
/// reply in the history.
pub fn assemble_llm_text(history: &[Chunk]) -> (r: Option<String>)
    ensures
        opt_str(r) == last_llm_text(history@.map_values(|c: Chunk| c@)),
{
    let ghost hv = history@.map_values(|c: Chunk| c@);
    let mut i = history.len();
    assert(hv.take(hv.len() as int) =~= hv);
    while i > 0
        invariant
            i <= history@.len(),
            hv == history@.map_values(|c: Chunk| c@),
            last_llm_text(hv) == last_llm_text(hv.take(i as int)),
        decreases i,
    {
        let c = &history[i - 1];
        assert(hv.take(i as int).last() == history@[i - 1]@);
        assert(hv.take(i as int).drop_last() =~= hv.take(i - 1));
        let is_reply = c.content_type == ContentType::Text && match c.role() {
            Some(r) => str_eq(r.as_str(), "assistant"),
            None => false,
        } && str_eq(c.producer.as_str(), LLM_PRODUCER);
        if is_reply {
            if let Some(text) = &c.content {
                if !text.as_str().is_empty() {
                    return Some(text.clone());
                }
            }
        }
        i = i - 1;
    }
    assert(hv.take(0) =~= Seq::<ChunkView>::empty());
    None
}

/// The event a chunk stands for: a user's text or binary message; a final
/// model reply; or a scheduler tick. Transient chunks and anything else wake
/// no agent. The text of an `llm_complete` event is filled in later.
pub open spec fn event_of(c: ChunkView) -> Option<(Seq<char>, Seq<char>)> {
    let text = match c.content {
        Some(t) => t,
        None => Seq::empty(),
    };
    if is_transient_spec(c) {
        None
    } else if role_spec(c) == Some("user"@) && (c.content_type == ContentType::Text || c.content_type
        == ContentType::BinaryRef) {
        Some(("user_message"@, text))
    } else if role_spec(c) == Some("assistant"@) && match ann_get(c.annotations, CHAT_STREAM_COMPLETE@) {
        Some(v) => json_as_bool(v) == Some(true),
        None => false,
    } {
        Some(("llm_complete"@, text))
    } else if match ann_get(c.annotations, CAFE_FLOW_SIGNAL@) {
        Some(v) => json_as_str(v) == Some("tick"@),
        None => false,
    } {
        Some(("tick"@, Seq::empty()))
    } else {
        None
    }
}

/// Classifies a bus chunk into the event it gives a JavaScript agent.
pub fn classify_event(chunk: &Chunk) -> (r: Option<JsEvent>)
    ensures
        match r {
            Some(e) => event_of(chunk@) == Some((e.event_type@, e.text@)),
            None => event_of(chunk@) is None,
        },
{
    if chunk.is_transient() {
        return None;
    }
    let text = match &chunk.content {
        Some(t) => t.clone(),
        None => String::new(),
    };
    let role_is = |want: &str| -> (b: bool)
        ensures
            b == (role_spec(chunk@) == Some(want@)),
        {
            match chunk.role() {
                Some(r) => str_eq(r.as_str(), want),
                None => false,
            }
        };
    if role_is("user") && (chunk.content_type == ContentType::Text || chunk.content_type
        == ContentType::BinaryRef) {
        return Some(JsEvent { event_type: String::from_str("user_message"), text });
    }
    let complete = match ann_lookup(&chunk.annotations, CHAT_STREAM_COMPLETE) {
        Some(JsonValue::Bool(b)) => *b,
        _ => false,
    };
    if role_is("assistant") && complete {
        return Some(JsEvent { event_type: String::from_str("llm_complete"), text });
    }
    let tick = match ann_lookup(&chunk.annotations, CAFE_FLOW_SIGNAL) {
        Some(JsonValue::Str(s)) => str_eq(s.as_str(), "tick"),
        _ => false,
    };
    if tick {
        return Some(JsEvent { event_type: String::from_str("tick"), text: String::new() });
    }
    None
}

/// The merged configuration after a chunk's annotations, the marker
/// excepted; later keys win.
pub open spec fn merge_annotations(m: Map<Seq<char>, JsonView>, anns: Seq<(Seq<char>, JsonView)>) -> Map<
    Seq<char>,
    JsonView,
>
    decreases anns.len(),
{
    if anns.len() == 0 {
        m
    } else {
        let prev = merge_annotations(m, anns.drop_last());
        if anns.last().0 == CONFIG_TYPE@ {
            prev
        } else {
            prev.insert(anns.last().0, anns.last().1)
        }
    }
}

/// The configuration of a history as one key → value map: every key of its
/// runtime config chunks but the marker, later chunks winning.
pub open spec fn merged_config(h: Seq<Chunk>) -> Map<Seq<char>, JsonView>
    decreases h.len(),
{
    if h.len() == 0 {
        Map::empty()
    } else {
        let prev = merged_config(h.drop_last());
        if is_runtime_config(h.last()) {
            merge_annotations(prev, h.last()@.annotations)
        } else {
            prev
        }
    }
}

/// Merges the runtime config chunks of `history` into one list of entries
/// (each key once), as a JavaScript agent reads its configuration.
pub fn resolve_config(history: &[Chunk]) -> (r: Vec<(String, JsonValue)>)
    ensures
        entries_map(anns_view(r@)) == merged_config(history@),
{
    let mut merged: Vec<(String, JsonValue)> = Vec::new();
    let mut i: usize = 0;
    assert(history@.take(0) =~= Seq::<Chunk>::empty());
    assert(entries_map(anns_view(merged@)) =~= Map::<Seq<char>, JsonView>::empty());
    while i < history.len()
        invariant
            i <= history@.len(),
            entries_map(anns_view(merged@)) == merged_config(history@.take(i as int)),
        decreases history.len() - i,
    {
        let c = &history[i];
        assert(history@.take(i + 1).drop_last() =~= history@.take(i as int));
        assert(history@.take(i + 1).last() == history@[i as int]);
        if is_runtime_config_chunk(c) {
            let ghost start = entries_map(anns_view(merged@));
            let ghost av = anns_view(c.annotations@);
            let mut j: usize = 0;
            assert(av.take(0) =~= Seq::<(Seq<char>, JsonView)>::empty());
            while j < c.annotations.len()
                invariant
                    j <= c.annotations@.len(),
                    av == anns_view(c.annotations@),
                    entries_map(anns_view(merged@)) == merge_annotations(start, av.take(j as int)),
                decreases c.annotations.len() - j,
            {
                assert(av.take(j + 1).drop_last() =~= av.take(j as int));
                assert(av.take(j + 1).last() == av[j as int]);
                if !str_eq(c.annotations[j].0.as_str(), CONFIG_TYPE) {
                    set_entry(&mut merged, c.annotations[j].0.clone(), json_clone(&c.annotations[j].1));
                }
                j = j + 1;
            }
            assert(av.take(av.len() as int) =~= av);
        }
        i = i + 1;
    }
    assert(history@.take(history@.len() as int) =~= history@);
    merged
}

/// Transient chunks never wake an agent.
pub proof fn law_transient_chunks_are_silent(c: ChunkView)
    requires
        is_transient_spec(c),
    ensures
        event_of(c) is None,
{
}

/// Decimal text of an integer, with a minus sign when it is negative.
pub open spec fn int_text(n: int) -> Seq<char> {
    if n < 0 {
        seq!['-'] + decimal((-n) as nat)
    } else {
        decimal(n as nat)
    }
}

fn int_string(n: i32) -> (r: String)
    ensures
        r@ == int_text(n as int),
{
    let mut v: Vec<char> = Vec::new();
    if n < 0 {
        v.push('-');
        let m: i64 = -(n as i64);
        push_decimal(&mut v, m as u64);
    } else {
        push_decimal(&mut v, n as u64);
    }
    assert(v@ =~= int_text(n as int));
    string_from(&v)
}

/// The answer a JavaScript agent gets for a call that succeeded: an object
/// with `ok` true and the result's JSON text under `result`.
pub fn ok_envelope(result_json: &str) -> (r: String)
    ensures
        r@ == "{\"ok\":true,\"result\":"@ + result_json@ + "}"@,
{
    String::from_str("{\"ok\":true,\"result\":").concat(result_json).concat("}")
}

/// The answer a JavaScript agent gets for a call that failed: an object with
/// the error code when there is one, the message under `error`, and `ok`
/// false (keys in sorted order).
pub fn err_envelope(code: Option<i32>, message: &str) -> (r: String)
    ensures
        r@ == match code {
            Some(c) => "{\"code\":"@ + int_text(c as int) + ",\"error\":"@ + json_string_text(message@)
                + ",\"ok\":false}"@,
            None => "{\"error\":"@ + json_string_text(message@) + ",\"ok\":false}"@,
        },
{
    let quoted = json_quote(message);
    let head = match code {
        Some(c) => String::from_str("{\"code\":").concat(int_string(c).as_str()).concat(",\"error\":"),
        None => String::from_str("{\"error\":"),
    };
    head.concat(quoted.as_str()).concat(",\"ok\":false}")
}

/// The producer of the chunks an agent's runtime publishes.
pub open spec fn agent_producer(agent_name: Seq<char>) -> Seq<char> {
    "com.nominal.cafe-agent-js/"@ + agent_name
}

/// The chunk that seeds a new session with an agent's initial
/// configuration: a runtime config chunk carrying the manifest's entries,
/// marked `config.type = runtime` unless the entries set that key.
pub fn initial_config_chunk(id: String, agent_name: &str, initial_config: &Vec<(String, JsonValue)>) -> (c: Chunk)
    ensures
        c@.content_type == ContentType::Null,
        c@.producer == agent_producer(agent_name@),
        entries_map(c@.annotations) == if entries_map(anns_view(initial_config@)).contains_key(CONFIG_TYPE@) {
            entries_map(anns_view(initial_config@))
        } else {
            entries_map(anns_view(initial_config@)).insert(CONFIG_TYPE@, JsonView::Str("runtime"@))
        },
{
    let producer = String::from_str("com.nominal.cafe-agent-js/").concat(agent_name);
    let mut c = Chunk::new_null(id, producer);
    let mut anns: Vec<(String, JsonValue)> = Vec::new();
    let mut i: usize = 0;
    let ghost iv = anns_view(initial_config@);
    assert(entries_map(anns_view(anns@)) =~= entries_map(iv.take(0)));
    while i < initial_config.len()
        invariant
            i <= initial_config@.len(),
            iv == anns_view(initial_config@),
            forall|k: Seq<char>| ann_get(anns_view(anns@), k) == ann_get(iv.take(i as int), k),
        decreases initial_config.len() - i,
    {
        let ghost before = anns_view(anns@);
        let (k, v) = (&initial_config[i].0, &initial_config[i].1);
        if ann_lookup(&anns, k.as_str()).is_none() {
            set_entry(&mut anns, k.clone(), json_clone(v));
        }
        proof {
            assert(iv.take(i + 1) =~= iv.take(i as int).push(iv[i as int]));
            assert forall|key: Seq<char>| ann_get(anns_view(anns@), key) == ann_get(iv.take(i + 1), key) by {
                lemma_ann_get_push_end(iv.take(i as int), iv[i as int], key);
            }
        }
        i = i + 1;
    }
    assert(iv.take(iv.len() as int) =~= iv);
    if ann_lookup(&anns, CONFIG_TYPE).is_none() {
        set_entry(&mut anns, String::from_str(CONFIG_TYPE), JsonValue::Str(String::from_str("runtime")));
    }
    c.annotations = anns;
    proof {
        assert(entries_map(c@.annotations) =~= if entries_map(iv).contains_key(CONFIG_TYPE@) {
            entries_map(iv)
        } else {
            entries_map(iv).insert(CONFIG_TYPE@, JsonView::Str("runtime"@))
        });
    }
    c
}

/// How a call a JavaScript agent made ended: its result's JSON text, or an
/// error with its code when the service gave one.
#[derive(Debug)]
pub enum RpcOutcome {
    Answered(String),
    Failed { code: Option<i32>, message: String },
}

/// The answer a JavaScript agent gets for a call's outcome.
pub fn outcome_envelope(o: &RpcOutcome) -> (r: String)
    ensures
        r@ == match *o {
            RpcOutcome::Answered(result) => "{\"ok\":true,\"result\":"@ + result@ + "}"@,
            RpcOutcome::Failed { code, message } => match code {
                Some(c) => "{\"code\":"@ + int_text(c as int) + ",\"error\":"@ + json_string_text(message@)
                    + ",\"ok\":false}"@,
                None => "{\"error\":"@ + json_string_text(message@) + ",\"ok\":false}"@,
            },
        },
{
    match o {
        RpcOutcome::Answered(result) => ok_envelope(result.as_str()),
        RpcOutcome::Failed { code, message } => err_envelope(*code, message.as_str()),
    }
}

/// The error of a call that got no answer in time.
pub fn timeout_message(method: &str, secs: u64) -> (r: String)
    ensures
        r@ == method@ + " timed out after "@ + decimal(secs as nat) + "s"@,
{
    let mut v: Vec<char> = Vec::new();
    push_decimal(&mut v, secs);
    String::from_str(method).concat(" timed out after ").concat(string_from(&v).as_str()).concat("s")
}

/// The text the assistant posts after a tool call: the tool's output as
/// pretty JSON when it succeeded; otherwise that it timed out (when the
/// error says so) or failed, with the error.
pub open spec fn tool_reply(name: Seq<char>, o: RpcOutcome, pretty_output: Seq<char>) -> Seq<char> {
    match o {
        RpcOutcome::Answered(_) => "Tool call completed: "@ + name + "\n```\n"@ + pretty_output + "\n```"@,
        RpcOutcome::Failed { message, .. } => if contains_seq(message@, "timed out"@) {
            "Tool call "@ + name + " timed out"@
        } else {
            "Tool call "@ + name + " failed: "@ + message@
        },
    }
}

/// Builds the assistant's text after a tool call; `pretty_output` is the
/// output's pretty-printed JSON.
pub fn tool_reply_text(name: &str, o: &RpcOutcome, pretty_output: &str) -> (r: String)
    ensures
        r@ == tool_reply(name@, *o, pretty_output@),
{
    proof {
        reveal_strlit("timed out");
    }
    match o {
        RpcOutcome::Answered(_) => String::from_str("Tool call completed: ").concat(name).concat("\n```\n").concat(
            pretty_output,
        ).concat("\n```"),
        RpcOutcome::Failed { message, .. } => {
            if vec_contains(&chars_of(message.as_str()), &chars_of("timed out")) {
                String::from_str("Tool call ").concat(name).concat(" timed out")
            } else {
                String::from_str("Tool call ").concat(name).concat(" failed: ").concat(message.as_str())
            }
        },
    }
}

} // verus!
