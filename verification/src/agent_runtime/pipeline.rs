//! An agent's response pipeline: its steps by name, the text a turn
//! produced, and when the pipeline runs.
use crate::chunk::{json_as_bool, ann_get, ann_lookup, role_spec, Chunk, ChunkView, ContentType, JsonValue, CHAT_STREAM_COMPLETE};
use crate::narration::book::lemma_trim_ends;
use crate::narration::paragraphs::join_nl;
use crate::text::{is_ws, lemma_trim_padded, str_eq, trim, trim_string};
use vstd::prelude::*;
use vstd::string::StringExecFns;

verus! {

/// A step run in-process.
#[derive(Debug, Clone, Copy, PartialEq, Eq, Structural)]
pub enum BuiltInStep {
    RoleAnnotator,
    TrustFilter,
    ToolDetector,
    ToolExecutor,
}

/// A step of the pipeline: in-process, or a JSON-RPC call to the service of
/// that namespace.
#[derive(Debug, Clone)]
pub enum PipelineStep {
    BuiltIn(BuiltInStep),
    Rpc(String),
}

/// The built-in step a name stands for, if any.
pub open spec fn builtin_step_of(s: Seq<char>) -> Option<BuiltInStep> {
    if s == "role-annotator"@ {
        Some(BuiltInStep::RoleAnnotator)
    } else if s == "trust-filter"@ {
        Some(BuiltInStep::TrustFilter)
    } else if s == "tool-detector"@ {
        Some(BuiltInStep::ToolDetector)
    } else if s == "tool-executor"@ {
        Some(BuiltInStep::ToolExecutor)
    } else {
        None
    }
}

/// Whether `p` is the step named `name`.
pub open spec fn is_step_named(p: PipelineStep, name: Seq<char>) -> bool {
    match builtin_step_of(name) {
        Some(b) => p == PipelineStep::BuiltIn(b),
        None => p matches PipelineStep::Rpc(ns) && ns@ == name,
    }
}

impl PipelineStep {
    /// The step named `name`: a built-in step, or else an RPC namespace.
    pub fn from_name(name: &str) -> (r: PipelineStep)
        ensures
            is_step_named(r, name@),
    {
        if str_eq(name, "role-annotator") {
            PipelineStep::BuiltIn(BuiltInStep::RoleAnnotator)
        } else if str_eq(name, "trust-filter") {
            PipelineStep::BuiltIn(BuiltInStep::TrustFilter)
        } else if str_eq(name, "tool-detector") {
            PipelineStep::BuiltIn(BuiltInStep::ToolDetector)
        } else if str_eq(name, "tool-executor") {
            PipelineStep::BuiltIn(BuiltInStep::ToolExecutor)
        } else {
            PipelineStep::Rpc(String::from_str(name))
        }
    }
}

/// The ordered steps of a pipeline and how long an RPC step may take.
pub struct PipelineExecutor {
    pub steps: Vec<PipelineStep>,
    /// In milliseconds.
    pub rpc_timeout_ms: u64,
}

impl PipelineExecutor {
    /// The pipeline of the steps named `names`, in order.
    pub fn from_step_names(names: &[String], rpc_timeout_ms: u64) -> (r: Self)
        ensures
            r.steps@.len() == names@.len(),
            forall|i: int| 0 <= i < names@.len() ==> is_step_named(#[trigger] r.steps@[i], names@[i]@),
            r.rpc_timeout_ms == rpc_timeout_ms,
    {
        let mut steps: Vec<PipelineStep> = Vec::new();
        let mut i: usize = 0;
        while i < names.len()
            invariant
                i <= names@.len(),
                steps@.len() == i,
                forall|k: int| 0 <= k < i ==> is_step_named(#[trigger] steps@[k], names@[k]@),
            decreases names.len() - i,
        {
            steps.push(PipelineStep::from_name(names[i].as_str()));
            i = i + 1;
        }
        PipelineExecutor { steps, rpc_timeout_ms }
    }
}

/// What running a pipeline step does.
#[derive(Debug, PartialEq, Eq, Structural)]
pub enum StepAction {
    /// Nothing (role annotation and trust filtering are handled elsewhere).
    Skip,
    /// Look for tool calls in the turn's text.
    DetectTools,
    /// Execute the tool calls found so far.
    ExecuteTools,
    /// Call the service of the step's namespace.
    Dispatch,
}

/// The action of a step: only the `tts` and `comfy` services are called
/// from the pipeline.
pub open spec fn step_action_spec(p: PipelineStep) -> StepAction {
    match p {
        PipelineStep::BuiltIn(BuiltInStep::ToolDetector) => StepAction::DetectTools,
        PipelineStep::BuiltIn(BuiltInStep::ToolExecutor) => StepAction::ExecuteTools,
        PipelineStep::BuiltIn(_) => StepAction::Skip,
        PipelineStep::Rpc(ns) => if ns@ == "tts"@ || ns@ == "comfy"@ {
            StepAction::Dispatch
        } else {
            StepAction::Skip
        },
    }
}

/// The action of step `p`.
pub fn step_action(p: &PipelineStep) -> (r: StepAction)
    ensures
        r == step_action_spec(*p),
{
    match p {
        PipelineStep::BuiltIn(BuiltInStep::ToolDetector) => StepAction::DetectTools,
        PipelineStep::BuiltIn(BuiltInStep::ToolExecutor) => StepAction::ExecuteTools,
        PipelineStep::BuiltIn(_) => StepAction::Skip,
        PipelineStep::Rpc(ns) => if str_eq(ns.as_str(), "tts") || str_eq(ns.as_str(), "comfy") {
            StepAction::Dispatch
        } else {
            StepAction::Skip
        },
    }
}

/// The text chunks of a history, each followed by a newline.
pub open spec fn text_lines(h: Seq<ChunkView>) -> Seq<char>
    decreases h.len(),
{
    if h.len() == 0 {
        Seq::empty()
    } else {
        let prev = text_lines(h.drop_last());
        let c = h.last();
        if c.content_type == ContentType::Text && c.content is Some {
            prev + c.content->0 + seq!['\n']
        } else {
            prev
        }
    }
}

/// The contents of a history's chunks, in order.
pub open spec fn contents(h: Seq<ChunkView>) -> Seq<Seq<char>> {
    h.map_values(|c: ChunkView| c.content->0)
}

/// A text chunk whose content is non-empty and has no surrounding
/// whitespace.
pub open spec fn solid_text(c: ChunkView) -> bool {
    &&& c.content_type == ContentType::Text
    &&& c.content matches Some(t) && t.len() > 0 && trim(t) == t
}

proof fn lemma_text_lines_join(h: Seq<ChunkView>)
    requires
        h.len() > 0,
        forall|i: int| 0 <= i < h.len() ==> solid_text(#[trigger] h[i]),
    ensures
        text_lines(h) == join_nl(contents(h)) + seq!['\n'],
        join_nl(contents(h)).len() > 0,
        !is_ws(join_nl(contents(h))[0]),
        !is_ws(join_nl(contents(h)).last()),
    decreases h.len(),
{
    let t = h.drop_last();
    let c = h.last();
    assert(solid_text(h[h.len() - 1]));
    let x = c.content->0;
    lemma_trim_ends(x);
    if h.len() == 1 {
        assert(contents(h) =~= seq![x]);
        assert(text_lines(t) == Seq::<char>::empty());
        assert(text_lines(h) =~= x + seq!['\n']);
    } else {
        assert forall|i: int| 0 <= i < t.len() implies solid_text(#[trigger] t[i]) by {
            assert(t[i] == h[i]);
        }
        lemma_text_lines_join(t);
        assert(contents(h).drop_last() =~= contents(t));
        assert(contents(h).last() == x);
        let j = join_nl(contents(t));
        assert(join_nl(contents(h)) == j + seq!['\n'] + x);
        assert(text_lines(h) =~= j + seq!['\n'] + x + seq!['\n']);
        assert((j + seq!['\n'] + x)[0] == j[0]);
        assert((j + seq!['\n'] + x).last() == x.last());
    }
}

/// What the pipeline sends as a turn's text: the contents of the history's
/// text chunks, each on a line of its own, so that two consecutive chunk
/// texts are separated by one newline; chunks that carry no text add
/// nothing.
pub proof fn law_assembled_text_one_chunk_per_line(h: Seq<ChunkView>, c: ChunkView)
    ensures
        (forall|i: int| 0 <= i < h.len() ==> solid_text(#[trigger] h[i])) ==> trim(text_lines(h))
            == join_nl(contents(h)),
        !(c.content_type == ContentType::Text && c.content is Some) ==> text_lines(h.push(c)) == text_lines(h),
{
    assert(h.push(c).drop_last() =~= h);
    if h.len() > 0 && (forall|i: int| 0 <= i < h.len() ==> solid_text(#[trigger] h[i])) {
        lemma_text_lines_join(h);
        let j = join_nl(contents(h));
        lemma_trim_padded(Seq::<char>::empty(), j, seq!['\n']);
        assert(Seq::<char>::empty() + j + seq!['\n'] =~= j + seq!['\n']);
        assert forall|i: int| 0 <= i < 1 implies is_ws(#[trigger] seq!['\n'][i]) by {}
        crate::text::lemma_lead_ws(j, 0);
        crate::text::lemma_trail_ws(j, 0);
        assert(trim(j) =~= j);
    } else if h.len() == 0 {
        crate::text::lemma_lead_ws(Seq::<char>::empty(), 0);
        crate::text::lemma_trail_ws(Seq::<char>::empty(), 0);
        assert(trim(Seq::<char>::empty()) =~= Seq::<char>::empty());
        assert(contents(h) =~= Seq::<Seq<char>>::empty());
    }
}

/// Two chunk texts with no surrounding whitespace come out as the first,
/// a newline, and the second.
pub proof fn law_two_texts_newline_separated(c1: ChunkView, c2: ChunkView)
    requires
        solid_text(c1),
        solid_text(c2),
    ensures
        trim(text_lines(seq![c1, c2])) == c1.content->0 + seq!['\n'] + c2.content->0,
{
    let h = seq![c1, c2];
    assert forall|i: int| 0 <= i < h.len() implies solid_text(#[trigger] h[i]) by {}
    law_assembled_text_one_chunk_per_line(h, c1);
    assert(contents(h) =~= seq![c1.content->0, c2.content->0]);
    assert(contents(h).drop_last() =~= seq![c1.content->0]);
    assert(join_nl(seq![c1.content->0]) == c1.content->0);
}

/// The text of a history's text chunks, one per line, trimmed.
pub fn assemble_chunks(chunks: &[Chunk]) -> (r: String)
    ensures
        r@ == trim(text_lines(chunks@.map_values(|c: Chunk| c@))),
{
    let ghost hv = chunks@.map_values(|c: Chunk| c@);
    let mut text = String::new();
    let mut i: usize = 0;
    assert(hv.take(0) =~= Seq::<ChunkView>::empty());
    while i < chunks.len()
        invariant
            i <= chunks@.len(),
            hv == chunks@.map_values(|c: Chunk| c@),
            text@ == text_lines(hv.take(i as int)),
        decreases chunks.len() - i,
    {
        assert(hv.take(i + 1).drop_last() =~= hv.take(i as int));
        assert(hv.take(i + 1).last() == chunks@[i as int]@);
        let c = &chunks[i];
        if c.content_type == ContentType::Text {
            if let Some(content) = &c.content {
                text.append(content.as_str());
                text.append("\n");
                proof {
                    reveal_strlit("\n");
                    assert("\n"@ =~= seq!['\n']);
                }
            }
        }
        i = i + 1;
    }
    assert(hv.take(hv.len() as int) =~= hv);
    trim_string(text.as_str())
}

/// Where a session's pipeline watch stands: whether the replayed history
/// is complete, and whether a user turn awaits the model's reply.
pub struct PipelineWatch {
    pub history_complete: bool,
    pub llm_active: bool,
}

/// Whether a chunk is a user's text message.
pub open spec fn is_user_text(c: ChunkView) -> bool {
    c.content_type == ContentType::Text && role_spec(c) == Some("user"@)
}

/// Whether a chunk marks the end of a streamed model reply.
pub open spec fn ends_stream(c: ChunkView) -> bool {
    match ann_get(c.annotations, CHAT_STREAM_COMPLETE@) {
        Some(v) => json_as_bool(v) == Some(true),
        None => false,
    }
}

/// After a live chunk: whether the pipeline runs, and whether a user turn
/// still awaits its reply.
pub open spec fn watch_next(active: bool, c: ChunkView) -> (bool, bool) {
    let active = active || is_user_text(c);
    (active && ends_stream(c), active && !ends_stream(c))
}

impl PipelineWatch {
    /// Before the history replay.
    pub fn new() -> (r: Self)
        ensures
            !r.history_complete,
            !r.llm_active,
    {
        PipelineWatch { history_complete: false, llm_active: false }
    }

    /// The replayed history is complete: live chunks follow.
    pub fn on_history_complete(&mut self)
        ensures
            final(self).history_complete,
            final(self).llm_active == old(self).llm_active,
    {
        self.history_complete = true;
    }

    /// A chunk arrived; returns whether the pipeline runs now: a live chunk
    /// that ends a streamed reply to a user's message. Replayed chunks
    /// change nothing.
    pub fn on_chunk(&mut self, chunk: &Chunk) -> (run: bool)
        ensures
            final(self).history_complete == old(self).history_complete,
            !old(self).history_complete ==> !run && final(self).llm_active == old(self).llm_active,
            old(self).history_complete ==> (run, final(self).llm_active) == watch_next(
                old(self).llm_active,
                chunk@,
            ),
    {
        if !self.history_complete {
            return false;
        }
        let user_text = chunk.content_type == ContentType::Text && match chunk.role() {
            Some(r) => str_eq(r.as_str(), "user"),
            None => false,
        };
        if user_text {
            self.llm_active = true;
        }
        let complete = match ann_lookup(&chunk.annotations, CHAT_STREAM_COMPLETE) {
            Some(JsonValue::Bool(b)) => *b,
            _ => false,
        };
        if self.llm_active && complete {
            self.llm_active = false;
            true
        } else {
            false
        }
    }
}

/// The pipeline runs once per answered user turn: once it has run, a
/// further end-of-stream marker without a new user message does not run it
/// again; and it never runs before a user message.
pub proof fn law_pipeline_runs_once_per_turn(active: bool, c: ChunkView, d: ChunkView)
    requires
        watch_next(active, c).0,
        !is_user_text(d),
    ensures
        !watch_next(watch_next(active, c).1, d).0,
        !watch_next(false, d).0,
{
}

} // verus!
