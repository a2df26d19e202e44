//! Which pipeline steps a trigger runs: trigger names, step kinds, step
//! eligibility and the depth limit on step-completion chains.
use crate::agent_runtime::config::{SessionConfig, SessionConfigView};
use crate::chunk::{
    ann_get, ann_lookup, as_bool, is_transient_spec, json_as_bool, json_as_str, members_view,
    opt_str, role_spec, Chunk, ChunkView, ContentType, JsonValue, JsonView, CAFE_FLOW_SIGNAL,
    CHAT_STREAM_COMPLETE,
};
pub use crate::json_text::{json_quote, json_string_text};
use crate::text::{chars_of, range_eq, str_eq, string_of};
use vstd::prelude::*;
use vstd::string::StringExecFns;

verus! {

/// What set a pipeline off.
#[derive(Debug, Clone, PartialEq)]
pub enum TriggerType {
    UserMessage,
    LlmComplete,
    SchedulerTick,
    /// The step with this id completed.
    StepComplete(String),
}

/// A trigger with its step id taken by its characters.
pub ghost enum TriggerView {
    UserMessage,
    LlmComplete,
    SchedulerTick,
    StepComplete(Seq<char>),
}

impl View for TriggerType {
    type V = TriggerView;

    open spec fn view(&self) -> TriggerView {
        match self {
            TriggerType::UserMessage => TriggerView::UserMessage,
            TriggerType::LlmComplete => TriggerView::LlmComplete,
            TriggerType::SchedulerTick => TriggerView::SchedulerTick,
            TriggerType::StepComplete(id) => TriggerView::StepComplete(id@),
        }
    }
}

/// The prefix of a step-completion trigger name.
pub const STEP_COMPLETE_PREFIX: &'static str = "step_complete:";

/// The trigger a name stands for; an unknown name counts as a user message.
pub open spec fn trigger_of(s: Seq<char>) -> TriggerView {
    if s == "user_message"@ {
        TriggerView::UserMessage
    } else if s == "llm_complete"@ {
        TriggerView::LlmComplete
    } else if s == "scheduler_tick"@ {
        TriggerView::SchedulerTick
    } else if s.len() >= STEP_COMPLETE_PREFIX@.len() && s.take(STEP_COMPLETE_PREFIX@.len() as int)
        == STEP_COMPLETE_PREFIX@ {
        TriggerView::StepComplete(s.skip(STEP_COMPLETE_PREFIX@.len() as int))
    } else {
        TriggerView::UserMessage
    }
}

impl TriggerType {
    /// The trigger named `s`.
    pub fn from_str(s: &str) -> (r: TriggerType)
        ensures
            r@ == trigger_of(s@),
    {
        if str_eq(s, "user_message") {
            TriggerType::UserMessage
        } else if str_eq(s, "llm_complete") {
            TriggerType::LlmComplete
        } else if str_eq(s, "scheduler_tick") {
            TriggerType::SchedulerTick
        } else {
            let v = chars_of(s);
            let p = chars_of(STEP_COMPLETE_PREFIX);
            if v.len() >= p.len() && range_eq(&v, 0, p.len(), &p) {
                let id = string_of(&v, p.len(), v.len());
                assert(v@.subrange(0, p@.len() as int) =~= s@.take(p@.len() as int));
                assert(v@.subrange(p@.len() as int, v@.len() as int) =~= s@.skip(p@.len() as int));
                TriggerType::StepComplete(id)
            } else {
                proof {
                    if s@.len() >= p@.len() {
                        assert(v@.subrange(0, p@.len() as int) =~= s@.take(p@.len() as int));
                    }
                }
                TriggerType::UserMessage
            }
        }
    }
}

/// A step run in-process.
#[derive(Debug, Clone, Copy, PartialEq, Eq, Structural)]
pub enum BuiltInEvaluator {
    RoleAnnotator,
    TrustFilter,
    ToolDetector,
    ToolExecutor,
    Mcp,
}

/// How a step runs: in-process, or as a JSON-RPC call to the service of
/// that namespace.
#[derive(Debug, Clone)]
pub enum StepType {
    BuiltIn(BuiltInEvaluator),
    Rpc(String),
}

/// The built-in step a type name stands for, if any.
pub open spec fn builtin_of(s: Seq<char>) -> Option<BuiltInEvaluator> {
    if s == "role-annotator"@ {
        Some(BuiltInEvaluator::RoleAnnotator)
    } else if s == "trust-filter"@ {
        Some(BuiltInEvaluator::TrustFilter)
    } else if s == "tool-detector"@ {
        Some(BuiltInEvaluator::ToolDetector)
    } else if s == "tool-executor"@ {
        Some(BuiltInEvaluator::ToolExecutor)
    } else if s == "mcp"@ {
        Some(BuiltInEvaluator::Mcp)
    } else {
        None
    }
}

impl StepType {
    /// The step type named `s`: a built-in step, or else an RPC namespace.
    pub fn from_str(s: &str) -> (r: StepType)
        ensures
            match builtin_of(s@) {
                Some(b) => r == StepType::BuiltIn(b),
                None => r matches StepType::Rpc(ns) && ns@ == s@,
            },
    {
        if str_eq(s, "role-annotator") {
            StepType::BuiltIn(BuiltInEvaluator::RoleAnnotator)
        } else if str_eq(s, "trust-filter") {
            StepType::BuiltIn(BuiltInEvaluator::TrustFilter)
        } else if str_eq(s, "tool-detector") {
            StepType::BuiltIn(BuiltInEvaluator::ToolDetector)
        } else if str_eq(s, "tool-executor") {
            StepType::BuiltIn(BuiltInEvaluator::ToolExecutor)
        } else if str_eq(s, "mcp") {
            StepType::BuiltIn(BuiltInEvaluator::Mcp)
        } else {
            StepType::Rpc(String::from_str(s))
        }
    }
}

/// A step of an agent's pipeline.
#[derive(Debug, Clone)]
pub struct StepDef {
    pub id: String,
    pub step_type: String,
    /// The trigger name the step runs on.
    pub trigger: String,
    /// A configuration key that must be `true` for the step to run.
    pub enabled_if: Option<String>,
}

/// Whether a step's trigger name matches an event: by name, or for a
/// completed step either that step's own name or the catch-all.
pub open spec fn trigger_matches_spec(t: Seq<char>, event: TriggerView) -> bool {
    match event {
        TriggerView::UserMessage => t == "user_message"@,
        TriggerView::LlmComplete => t == "llm_complete"@,
        TriggerView::SchedulerTick => t == "scheduler_tick"@,
        TriggerView::StepComplete(id) => t == STEP_COMPLETE_PREFIX@ + id || t == "step_complete"@,
    }
}

/// Whether a step's trigger name matches an event.
pub fn trigger_matches(step_trigger: &str, event: &TriggerType) -> (r: bool)
    ensures
        r == trigger_matches_spec(step_trigger@, event@),
{
    match event {
        TriggerType::UserMessage => str_eq(step_trigger, "user_message"),
        TriggerType::LlmComplete => str_eq(step_trigger, "llm_complete"),
        TriggerType::SchedulerTick => str_eq(step_trigger, "scheduler_tick"),
        TriggerType::StepComplete(id) => {
            let full = String::from_str(STEP_COMPLETE_PREFIX).concat(id.as_str());
            str_eq(step_trigger, full.as_str()) || str_eq(step_trigger, "step_complete")
        },
    }
}

/// Whether a step is enabled: it names no key, or the configuration holds
/// `true` under that key among its other keys.
pub open spec fn is_enabled_spec(enabled_if: Option<Seq<char>>, cfg: SessionConfigView) -> bool {
    match enabled_if {
        None => true,
        Some(k) => cfg.extra.contains_key(k) && json_as_bool(cfg.extra[k]) == Some(true),
    }
}

/// Whether `step` is enabled under `config`.
pub fn is_enabled(step: &StepDef, config: &SessionConfig) -> (r: bool)
    ensures
        r == is_enabled_spec(opt_str(step.enabled_if), config@),
{
    match &step.enabled_if {
        None => true,
        Some(key) => match ann_lookup(&config.extra, key.as_str()) {
            Some(v) => match as_bool(v) {
                Some(b) => b,
                None => false,
            },
            None => false,
        },
    }
}

/// The positions of the steps that run on `event`, in pipeline order.
pub open spec fn eligible(steps: Seq<StepDef>, event: TriggerView, cfg: SessionConfigView) -> Seq<int>
    decreases steps.len(),
{
    if steps.len() == 0 {
        Seq::empty()
    } else {
        let prev = eligible(steps.drop_last(), event, cfg);
        let s = steps.last();
        if trigger_matches_spec(s.trigger@, event) && is_enabled_spec(opt_str(s.enabled_if), cfg) {
            prev.push(steps.len() - 1)
        } else {
            prev
        }
    }
}

/// Holds an agent's steps and dispatches them on trigger events.
pub struct PipelineExecutor {
    pub steps: Vec<StepDef>,
    /// How long an RPC step may take, in milliseconds.
    pub rpc_timeout_ms: u64,
    /// How long a chain of step completions may grow.
    pub max_depth: u32,
}

impl PipelineExecutor {
    pub fn new(steps: Vec<StepDef>, rpc_timeout_ms: u64, max_depth: u32) -> (r: Self)
        ensures
            r.steps == steps,
            r.rpc_timeout_ms == rpc_timeout_ms,
            r.max_depth == max_depth,
    {
        PipelineExecutor { steps, rpc_timeout_ms, max_depth }
    }

    /// Whether an event at chain depth `depth` is dropped: a step completion
    /// at or beyond the depth limit.
    pub fn depth_exceeded(&self, event: &TriggerType, depth: u32) -> (r: bool)
        ensures
            r == (event@ is StepComplete && depth >= self.max_depth),
    {
        match event {
            TriggerType::StepComplete(_) => depth >= self.max_depth,
            _ => false,
        }
    }

    /// The positions of the steps that run on `event` under `config`, in
    /// pipeline order.
    pub fn eligible_steps(&self, event: &TriggerType, config: &SessionConfig) -> (r: Vec<usize>)
        ensures
            r@.map_values(|i: usize| i as int) == eligible(self.steps@, event@, config@),
    {
        let mut out: Vec<usize> = Vec::new();
        let mut i: usize = 0;
        assert(self.steps@.take(0) =~= Seq::<StepDef>::empty());
        while i < self.steps.len()
            invariant
                i <= self.steps@.len(),
                out@.map_values(|k: usize| k as int) == eligible(self.steps@.take(i as int), event@, config@),
            decreases self.steps.len() - i,
        {
            let ghost before = out@;
            assert(self.steps@.take(i + 1).drop_last() =~= self.steps@.take(i as int));
            assert(self.steps@.take(i + 1).last() == self.steps@[i as int]);
            let s = &self.steps[i];
            if trigger_matches(s.trigger.as_str(), event) && is_enabled(s, config) {
                out.push(i);
                assert(out@.map_values(|k: usize| k as int) =~= before.map_values(|k: usize| k as int).push(i as int));
            }
            i = i + 1;
        }
        assert(self.steps@.take(self.steps@.len() as int) =~= self.steps@);
        out
    }

    /// The event that follows step `i` completing in a chain at `depth`: its
    /// completion, one level deeper.
    pub fn follow_up(&self, i: usize, depth: u32) -> (r: (TriggerType, u32))
        requires
            i < self.steps@.len(),
            depth < u32::MAX,
        ensures
            r.0@ == TriggerView::StepComplete(self.steps@[i as int].id@),
            r.1 == depth + 1,
    {
        (TriggerType::StepComplete(self.steps[i].id.clone()), depth + 1)
    }
}

/// What a pipeline run knows of its session.
pub struct PipelineContext {
    pub session_id: String,
    pub config: SessionConfig,
    /// The model's reply this run is about, if any.
    pub assembled_llm_text: Option<String>,
    /// The user's message of a user-message run.
    pub user_text: Option<String>,
    /// How deep in a chain of step completions the run is.
    pub depth: u32,
}

/// The JSON text of an optional string: the string, or `null`.
pub open spec fn json_opt_text(o: Option<Seq<char>>) -> Seq<char> {
    match o {
        Some(s) => json_string_text(s),
        None => "null"@,
    }
}

fn json_opt(o: &Option<String>) -> (r: String)
    ensures
        r@ == json_opt_text(opt_str(*o)),
{
    match o {
        Some(s) => json_quote(s.as_str()),
        None => String::from_str("null"),
    }
}

/// The parameters of an RPC step's call, as object members in key order
/// (the canonical order of a JSON object here): `llm` and `stt` get the
/// session; `tts` the text with the voice settings; `comfy` the prompt with
/// the workflow settings that are set; any other namespace the session and
/// the text at hand (the reply, else the user's message), if any.
pub open spec fn rpc_params(ns: Seq<char>, ctx: PipelineContext) -> Seq<(Seq<char>, Seq<char>)> {
    let session = ("session_id"@, json_string_text(ctx.session_id@));
    let reply = opt_str(ctx.assembled_llm_text);
    if ns == "llm"@ || ns == "stt"@ {
        seq![session]
    } else if ns == "tts"@ {
        seq![
            ("engine"@, json_opt_text(opt_str(ctx.config.tts_engine))),
            ("profile"@, json_opt_text(opt_str(ctx.config.tts_profile))),
            ("text"@, json_string_text(
                match reply {
                    Some(t) => t,
                    None => Seq::empty(),
                },
            )),
        ]
    } else if ns == "comfy"@ {
        let node = match opt_str(ctx.config.comfy_workflow_input_node) {
            Some(n) => seq![("input_node"@, json_string_text(n))],
            None => Seq::empty(),
        };
        let path = match opt_str(ctx.config.comfy_workflow_path) {
            Some(p) => seq![("workflow_path"@, json_string_text(p))],
            None => Seq::empty(),
        };
        node + seq![("prompt"@, json_string_text(
            match reply {
                Some(t) => t,
                None => Seq::empty(),
            },
        ))] + path
    } else {
        let text = match reply {
            Some(t) => Some(t),
            None => opt_str(ctx.user_text),
        };
        match text {
            Some(t) => seq![session, ("text"@, json_string_text(t))],
            None => seq![session],
        }
    }
}

fn member(k: &str, v: String) -> (r: (String, String))
    ensures
        r.0@ == k@,
        r.1 == v,
{
    (String::from_str(k), v)
}

/// Builds the parameters of an RPC step's call for `namespace`.
pub fn build_rpc_params(namespace: &str, ctx: &PipelineContext) -> (r: JsonValue)
    ensures
        r matches JsonValue::Object(ms) && members_view(ms@) == rpc_params(namespace@, *ctx),
{
    proof {
        reveal_strlit("");
        assert(""@ =~= Seq::<char>::empty());
    }
    let mut ms: Vec<(String, String)> = Vec::new();
    let reply_or_empty = match &ctx.assembled_llm_text {
        Some(t) => json_quote(t.as_str()),
        None => json_quote(""),
    };
    if str_eq(namespace, "llm") || str_eq(namespace, "stt") {
        ms.push(member("session_id", json_quote(ctx.session_id.as_str())));
        assert(members_view(ms@) =~= rpc_params(namespace@, *ctx));
    } else if str_eq(namespace, "tts") {
        ms.push(member("engine", json_opt(&ctx.config.tts_engine)));
        ms.push(member("profile", json_opt(&ctx.config.tts_profile)));
        ms.push(member("text", reply_or_empty));
        assert(members_view(ms@) =~= rpc_params(namespace@, *ctx));
    } else if str_eq(namespace, "comfy") {
        let ghost m0 = ms@;
        if let Some(n) = &ctx.config.comfy_workflow_input_node {
            ms.push(member("input_node", json_quote(n.as_str())));
        }
        let ghost m1 = ms@;
        ms.push(member("prompt", reply_or_empty));
        let ghost m2 = ms@;
        if let Some(p) = &ctx.config.comfy_workflow_path {
            ms.push(member("workflow_path", json_quote(p.as_str())));
        }
        proof {
            let node = match opt_str(ctx.config.comfy_workflow_input_node) {
                Some(n) => seq![("input_node"@, json_string_text(n))],
                None => Seq::<(Seq<char>, Seq<char>)>::empty(),
            };
            assert(members_view(m1) =~= node);
            assert(members_view(m2) =~= node + seq![("prompt"@, members_view(m2).last().1)]);
        }
        assert(members_view(ms@) =~= rpc_params(namespace@, *ctx));
    } else {
        ms.push(member("session_id", json_quote(ctx.session_id.as_str())));
        let text = match &ctx.assembled_llm_text {
            Some(t) => Some(t),
            None => match &ctx.user_text {
                Some(u) => Some(u),
                None => None,
            },
        };
        if let Some(t) = text {
            ms.push(member("text", json_quote(t.as_str())));
        }
    }
    assert(members_view(ms@) =~= rpc_params(namespace@, *ctx));
    JsonValue::Object(ms)
}

/// The trigger a live chunk fires: a user's text message, the end of a
/// streamed model reply, or a scheduler tick. Transient chunks fire nothing.
pub open spec fn trigger_of_chunk(c: ChunkView) -> Option<TriggerView> {
    if is_transient_spec(c) {
        None
    } else if c.content_type == ContentType::Text && role_spec(c) == Some("user"@) {
        Some(TriggerView::UserMessage)
    } else if role_spec(c) == Some("assistant"@) && match ann_get(c.annotations, CHAT_STREAM_COMPLETE@) {
        Some(v) => json_as_bool(v) == Some(true),
        None => false,
    } {
        Some(TriggerView::LlmComplete)
    } else if match ann_get(c.annotations, CAFE_FLOW_SIGNAL@) {
        Some(v) => json_as_str(v) == Some("tick"@),
        None => false,
    } {
        Some(TriggerView::SchedulerTick)
    } else {
        None
    }
}

/// The trigger a live chunk of a session fires, if any.
pub fn trigger_for_chunk(chunk: &Chunk) -> (r: Option<TriggerType>)
    ensures
        match r {
            Some(t) => trigger_of_chunk(chunk@) == Some(t@),
            None => trigger_of_chunk(chunk@) is None,
        },
{
    if chunk.is_transient() {
        return None;
    }
    let role_is = |want: &str| -> (b: bool)
        ensures
            b == (role_spec(chunk@) == Some(want@)),
        {
            match chunk.role() {
                Some(r) => str_eq(r.as_str(), want),
                None => false,
            }
        };
    if chunk.content_type == ContentType::Text && role_is("user") {
        return Some(TriggerType::UserMessage);
    }
    let complete = match ann_lookup(&chunk.annotations, CHAT_STREAM_COMPLETE) {
        Some(JsonValue::Bool(b)) => *b,
        _ => false,
    };
    if role_is("assistant") && complete {
        return Some(TriggerType::LlmComplete);
    }
    let tick = match ann_lookup(&chunk.annotations, CAFE_FLOW_SIGNAL) {
        Some(JsonValue::Str(s)) => str_eq(s.as_str(), "tick"),
        _ => false,
    };
    if tick {
        Some(TriggerType::SchedulerTick)
    } else {
        None
    }
}

/// The catch-all `step_complete` matches every step completion, and a
/// step's own completion name matches it alone among completions.
pub proof fn law_step_complete_matching(id: Seq<char>, other: Seq<char>)
    requires
        other != id,
    ensures
        trigger_matches_spec("step_complete"@, TriggerView::StepComplete(id)),
        trigger_matches_spec(STEP_COMPLETE_PREFIX@ + id, TriggerView::StepComplete(id)),
        !trigger_matches_spec(STEP_COMPLETE_PREFIX@ + id, TriggerView::StepComplete(other)),
{
    reveal_strlit("step_complete");
    reveal_strlit("step_complete:");
    if STEP_COMPLETE_PREFIX@ + id == STEP_COMPLETE_PREFIX@ + other {
        assert((STEP_COMPLETE_PREFIX@ + id).skip(STEP_COMPLETE_PREFIX@.len() as int) =~= id);
        assert((STEP_COMPLETE_PREFIX@ + other).skip(STEP_COMPLETE_PREFIX@.len() as int) =~= other);
    }
    if STEP_COMPLETE_PREFIX@ + id == "step_complete"@ {
        assert((STEP_COMPLETE_PREFIX@ + id).len() > "step_complete"@.len());
    }
}

/// Naming a step completion and reading the name back gives the same step.
pub proof fn law_step_complete_roundtrip(id: Seq<char>)
    ensures
        trigger_of(STEP_COMPLETE_PREFIX@ + id) == TriggerView::StepComplete(id),
{
    reveal_strlit("step_complete:");
    reveal_strlit("user_message");
    reveal_strlit("llm_complete");
    reveal_strlit("scheduler_tick");
    let s = STEP_COMPLETE_PREFIX@ + id;
    assert(s.take(STEP_COMPLETE_PREFIX@.len() as int) =~= STEP_COMPLETE_PREFIX@);
    assert(s.skip(STEP_COMPLETE_PREFIX@.len() as int) =~= id);
    assert(s != "user_message"@) by { assert(s[0] != "user_message"@[0]); }
    assert(s != "llm_complete"@) by { assert(s[0] != "llm_complete"@[0]); }
    assert(s != "scheduler_tick"@) by { assert(s[1] != "scheduler_tick"@[1]); }
}

/// A step that names an enabling key runs exactly when that key holds
/// `true`.
pub proof fn law_enabled_follows_flag(k: Seq<char>, val: bool, cfg: SessionConfigView)
    requires
        cfg.extra.contains_key(k),
        cfg.extra[k] == JsonView::Bool(val),
    ensures
        is_enabled_spec(Some(k), cfg) == val,
{
}

/// A step that names no enabling key is always enabled.
pub proof fn law_no_key_always_enabled(cfg: SessionConfigView)
    ensures
        is_enabled_spec(None, cfg),
{
}

} // verus!
