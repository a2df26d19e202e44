//! The LLM evaluator's per-session state and the signals it reacts to.
use crate::chunk::{ann_get, ann_lookup, json_as_str, opt_str, Chunk, ChunkView, ContentType, JsonValue, CAFE_FLOW_SIGNAL};
use crate::text::str_eq;
use vstd::prelude::*;
use vstd::string::StringExecFns;

verus! {

/// LLM evaluation state of one session.
pub struct SessionEvaluator {
    pub session_id: String,
    pub history: Vec<Chunk>,
    /// Set once an abort was requested.
    pub aborted: bool,
}

impl SessionEvaluator {
    pub fn new(session_id: String) -> (r: Self)
        ensures
            r.session_id == session_id,
            r.history@.len() == 0,
            !r.aborted,
    {
        SessionEvaluator { session_id, history: Vec::new(), aborted: false }
    }

    /// Records a chunk of the session.
    pub fn push_chunk(&mut self, chunk: Chunk)
        ensures
            final(self).history@ == old(self).history@.push(chunk),
            final(self).session_id == old(self).session_id,
            final(self).aborted == old(self).aborted,
    {
        self.history.push(chunk);
    }

    /// Requests that the generation in progress stop.
    pub fn abort(&mut self)
        ensures
            final(self).aborted,
            final(self).session_id == old(self).session_id,
            final(self).history == old(self).history,
    {
        self.aborted = true;
    }
}

/// A request to stop the generation in progress: a content-less chunk
/// whose flow signal is `abort`.
pub open spec fn is_abort(c: ChunkView) -> bool {
    &&& c.content_type == ContentType::Null
    &&& match ann_get(c.annotations, CAFE_FLOW_SIGNAL@) {
        Some(v) => json_as_str(v) == Some("abort"@),
        None => false,
    }
}

/// Whether `chunk` asks to stop the generation in progress.
pub fn is_abort_signal(chunk: &Chunk) -> (r: bool)
    ensures
        r == is_abort(chunk@),
{
    chunk.content_type == ContentType::Null && match ann_lookup(&chunk.annotations, CAFE_FLOW_SIGNAL) {
        Some(JsonValue::Str(s)) => str_eq(s.as_str(), "abort"),
        _ => false,
    }
}

/// The model to use: the session's, else the evaluator's default.
pub fn model_or_default(configured: &Option<String>, default_model: &String) -> (r: String)
    ensures
        r@ == match opt_str(*configured) {
            Some(m) => m,
            None => default_model@,
        },
{
    match configured {
        Some(m) => m.clone(),
        None => default_model.clone(),
    }
}

/// Why a generation ended.
#[derive(Debug, Clone, Copy, PartialEq, Eq, Structural)]
pub enum FinishReason {
    /// The model finished.
    Stop,
    /// The token stream failed.
    Error,
    /// An abort was signalled.
    Abort,
}

impl FinishReason {
    /// The reason as the done chunk reports it.
    pub fn as_text(&self) -> (r: String)
        ensures
            r@ == match *self {
                FinishReason::Stop => "stop"@,
                FinishReason::Error => "error"@,
                FinishReason::Abort => "abort"@,
            },
    {
        match self {
            FinishReason::Stop => String::from_str("stop"),
            FinishReason::Error => String::from_str("error"),
            FinishReason::Abort => String::from_str("abort"),
        }
    }
}

/// What happens while a reply streams in.
#[derive(Debug)]
pub enum StreamEvent {
    /// A token arrived; it is published as the chunk `chunk_id`.
    Token { text: String, chunk_id: String },
    /// The token stream failed.
    Failed,
    /// The token stream ended.
    Ended,
    /// The session's abort flag changed to this value.
    AbortChanged(bool),
}

/// What the evaluator does after an event.
#[derive(Debug, PartialEq, Eq, Structural)]
pub enum StreamAction {
    /// Publish the token just received, and keep reading.
    EmitToken,
    /// Keep reading.
    Continue,
    /// Stop reading: the reply is complete.
    Finish,
}

/// A reply being streamed: the text so far, the ids of the token chunks
/// published, and why it ended once it has.
#[derive(Debug)]
pub struct StreamState {
    pub full_response: String,
    pub token_ids: Vec<String>,
    pub finish: Option<FinishReason>,
}

impl StreamState {
    /// Nothing received yet.
    pub fn new() -> (r: Self)
        ensures
            r.full_response@ == Seq::<char>::empty(),
            r.token_ids@.len() == 0,
            r.finish is None,
    {
        StreamState { full_response: String::new(), token_ids: Vec::new(), finish: None }
    }

    /// Takes one event of a stream still running: a token is appended and
    /// published; a failure ends with `error`, the end of the stream with
    /// `stop`, and an abort flag turned on with `abort`; an abort flag
    /// turned off changes nothing.
    pub fn step(&mut self, event: StreamEvent) -> (a: StreamAction)
        requires
            old(self).finish is None,
        ensures
            match event {
                StreamEvent::Token { text, chunk_id } => {
                    &&& a == StreamAction::EmitToken
                    &&& final(self).full_response@ == old(self).full_response@ + text@
                    &&& final(self).token_ids@ == old(self).token_ids@.push(chunk_id)
                    &&& final(self).finish is None
                },
                StreamEvent::Failed => a == StreamAction::Finish && final(self).finish == Some(
                    FinishReason::Error,
                ) && final(self).full_response == old(self).full_response && final(self).token_ids
                    == old(self).token_ids,
                StreamEvent::Ended => a == StreamAction::Finish && final(self).finish == Some(
                    FinishReason::Stop,
                ) && final(self).full_response == old(self).full_response && final(self).token_ids
                    == old(self).token_ids,
                StreamEvent::AbortChanged(on) => if on {
                    a == StreamAction::Finish && final(self).finish == Some(FinishReason::Abort)
                        && final(self).full_response == old(self).full_response && final(self).token_ids
                        == old(self).token_ids
                } else {
                    a == StreamAction::Continue && final(self).finish is None && final(self).full_response
                        == old(self).full_response && final(self).token_ids == old(self).token_ids
                },
            },
    {
        match event {
            StreamEvent::Token { text, chunk_id } => {
                let mut full = String::new();
                std::mem::swap(&mut full, &mut self.full_response);
                self.full_response = full.concat(text.as_str());
                self.token_ids.push(chunk_id);
                StreamAction::EmitToken
            },
            StreamEvent::Failed => {
                self.finish = Some(FinishReason::Error);
                StreamAction::Finish
            },
            StreamEvent::Ended => {
                self.finish = Some(FinishReason::Stop);
                StreamAction::Finish
            },
            StreamEvent::AbortChanged(on) => {
                if on {
                    self.finish = Some(FinishReason::Abort);
                    StreamAction::Finish
                } else {
                    StreamAction::Continue
                }
            },
        }
    }

    /// Whether the finished reply is published as a whole: only when some
    /// text arrived.
    pub fn has_response(&self) -> (r: bool)
        ensures
            r == (self.full_response@.len() > 0),
    {
        !self.full_response.as_str().is_empty()
    }
}

} // verus!
