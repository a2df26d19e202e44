//! Calls over the bus: a tool call's request is published as a transient
//! chunk, the runtime waits for the response that carries the call's id,
//! and the outcome is published as the tool's result; a pipeline's RPC step
//! waits the same way and completes or fails on the response.
use crate::chunk::{json_clone, JsonValue, JsonView};
use crate::text::{decimal, push_decimal, str_eq, string_from};
use vstd::prelude::*;
use vstd::string::StringExecFns;

verus! {

/// How long the request and the result chunks are retained, in seconds.
pub const TOOL_RETAIN_SECS: u64 = 60;

/// How long the executor waits for the response, in seconds.
pub const RPC_TIMEOUT_SECS: u64 = 30;

/// A decoded JSON-RPC response: its result, and its error (code and
/// message) when the call failed.
#[derive(Debug)]
pub struct RpcResponse {
    pub result: Option<JsonValue>,
    pub error: Option<(i64, String)>,
}

/// What the executor hears while it waits.
#[derive(Debug)]
pub enum ToolEvent {
    /// A chunk that answers the call `call_id`: its response, or `None`
    /// when the response does not decode.
    Response { call_id: String, response: Option<RpcResponse> },
    /// Any other message of the session.
    Other,
    /// The wait ran out.
    Timeout,
    /// The bus connection closed.
    Disconnected,
}

/// The outcome of a tool call, as published: the tool's name, its output
/// (`null` when it has none) and its error, if any.
#[derive(Debug)]
pub struct ToolResult {
    pub name: String,
    pub output: JsonValue,
    pub error: Option<String>,
}

/// What the executor does next.
#[derive(Debug)]
pub enum ToolAction {
    /// Keep waiting.
    Wait,
    /// Publish the result as a transient chunk, retained for `retain_secs`
    /// seconds when given, and stop.
    Publish { result: ToolResult, retain_secs: Option<u64> },
    /// Stop without publishing anything.
    Stop,
}

/// The result of a tool call by its values: name, output and error.
pub ghost struct ToolResultView {
    pub name: Seq<char>,
    pub output: JsonView,
    pub error: Option<Seq<char>>,
}

/// The next action by its values.
pub ghost enum ToolActionView {
    Wait,
    Publish { result: ToolResultView, retain_secs: Option<u64> },
    Stop,
}

impl View for ToolAction {
    type V = ToolActionView;

    open spec fn view(&self) -> ToolActionView {
        match self {
            ToolAction::Wait => ToolActionView::Wait,
            ToolAction::Publish { result, retain_secs } => ToolActionView::Publish {
                result: ToolResultView {
                    name: result.name@,
                    output: result.output@,
                    error: match result.error {
                        Some(e) => Some(e@),
                        None => None,
                    },
                },
                retain_secs: *retain_secs,
            },
            ToolAction::Stop => ToolActionView::Stop,
        }
    }
}

/// The error published when no response came in time.
pub open spec fn timeout_error(secs: nat) -> Seq<char> {
    "RPC timeout after "@ + decimal(secs) + "s"@
}

/// What the executor of the call named `name` with id `call_id` does on
/// `event`: a response to another call, or any other message, is waited
/// past; a response to this call that does not decode, or a closed
/// connection, ends the wait with nothing published; a response with no
/// error publishes its result (`null` when it has none), and one with an
/// error publishes that error's message, both retained for 60 s; when the
/// wait runs out, the timeout is published as the error, not retained.
pub open spec fn tool_step_spec(name: Seq<char>, call_id: Seq<char>, event: ToolEvent) -> ToolActionView {
    match event {
        ToolEvent::Response { call_id: id, response } => if id@ != call_id {
            ToolActionView::Wait
        } else {
            match response {
                None => ToolActionView::Stop,
                Some(r) => match r.error {
                    None => ToolActionView::Publish {
                        result: ToolResultView {
                            name,
                            output: match r.result {
                                Some(v) => v@,
                                None => JsonView::Null,
                            },
                            error: None,
                        },
                        retain_secs: Some(TOOL_RETAIN_SECS),
                    },
                    Some((_, message)) => ToolActionView::Publish {
                        result: ToolResultView { name, output: JsonView::Null, error: Some(message@) },
                        retain_secs: Some(TOOL_RETAIN_SECS),
                    },
                },
            }
        },
        ToolEvent::Other => ToolActionView::Wait,
        ToolEvent::Timeout => ToolActionView::Publish {
            result: ToolResultView {
                name,
                output: JsonView::Null,
                error: Some(timeout_error(RPC_TIMEOUT_SECS as nat)),
            },
            retain_secs: None,
        },
        ToolEvent::Disconnected => ToolActionView::Stop,
    }
}

/// One step of executing the tool call `name` with id `call_id`: the action
/// that `event` calls for.
pub fn tool_call_step(name: &str, call_id: &str, event: ToolEvent) -> (a: ToolAction)
    ensures
        a@ == tool_step_spec(name@, call_id@, event),
{
    proof {
        reveal_strlit("RPC timeout after ");
        reveal_strlit("s");
    }
    match event {
        ToolEvent::Response { call_id: id, response } => {
            if !str_eq(id.as_str(), call_id) {
                return ToolAction::Wait;
            }
            match response {
                None => ToolAction::Stop,
                Some(r) => match r.error {
                    None => {
                        let output = match &r.result {
                            Some(v) => json_clone(v),
                            None => JsonValue::Null,
                        };
                        ToolAction::Publish {
                            result: ToolResult { name: String::from_str(name), output, error: None },
                            retain_secs: Some(TOOL_RETAIN_SECS),
                        }
                    },
                    Some((_, message)) => ToolAction::Publish {
                        result: ToolResult {
                            name: String::from_str(name),
                            output: JsonValue::Null,
                            error: Some(message),
                        },
                        retain_secs: Some(TOOL_RETAIN_SECS),
                    },
                },
            }
        },
        ToolEvent::Other => ToolAction::Wait,
        ToolEvent::Timeout => {
            let mut v: Vec<char> = Vec::new();
            push_decimal(&mut v, RPC_TIMEOUT_SECS);
            let msg = String::from_str("RPC timeout after ").concat(string_from(&v).as_str()).concat("s");
            ToolAction::Publish {
                result: ToolResult { name: String::from_str(name), output: JsonValue::Null, error: Some(msg) },
                retain_secs: None,
            }
        },
        ToolEvent::Disconnected => ToolAction::Stop,
    }
}

/// Why an RPC step of a pipeline failed.
#[derive(Debug, PartialEq, Eq)]
pub enum RpcStepError {
    /// No response came in time.
    Timeout { step_id: String, call_id: String },
    /// The service answered with an error.
    RpcError { step_id: String, code: i64, message: String },
    /// The bus failed the step: the connection closed, or the response did
    /// not decode.
    Bus { step_id: String, reason: String },
}

/// What an RPC step does next while it waits for its response.
#[derive(Debug, PartialEq, Eq)]
pub enum RpcStepAction {
    /// Keep waiting.
    Wait,
    /// The call succeeded: the step is complete.
    Completed,
    /// The step failed.
    Failed(RpcStepError),
}

/// The reason given when a response does not decode.
pub open spec fn undecodable_reason(call_id: Seq<char>) -> Seq<char> {
    "failed to deserialize RPC response for call "@ + call_id
}

/// The reason given when the bus closes during the wait.
pub open spec fn disconnected_reason() -> Seq<char> {
    "bus disconnected while waiting for RPC response"@
}

/// What the RPC step `step_id` waiting for call `call_id` does on `event`:
/// a response to another call, or any other message, is waited past; a
/// response to this call completes the step when it carries no error, fails
/// it with that error otherwise, and fails it as a bus error when it does
/// not decode; a closed connection is a bus error and the end of the wait a
/// timeout.
pub open spec fn rpc_step_spec(step_id: Seq<char>, call_id: Seq<char>, event: ToolEvent, a: RpcStepAction) -> bool {
    match event {
        ToolEvent::Response { call_id: id, response } => if id@ != call_id {
            a == RpcStepAction::Wait
        } else {
            match response {
                None => a matches RpcStepAction::Failed(RpcStepError::Bus { step_id: s, reason: m })
                    && s@ == step_id && m@ == undecodable_reason(call_id),
                Some(r) => match r.error {
                    None => a == RpcStepAction::Completed,
                    Some((code, message)) => a matches RpcStepAction::Failed(
                        RpcStepError::RpcError { step_id: s, code: c, message: m },
                    ) && s@ == step_id && c == code && m@ == message@,
                },
            }
        },
        ToolEvent::Other => a == RpcStepAction::Wait,
        ToolEvent::Timeout => a matches RpcStepAction::Failed(RpcStepError::Timeout { step_id: s, call_id: c })
            && s@ == step_id && c@ == call_id,
        ToolEvent::Disconnected => a matches RpcStepAction::Failed(RpcStepError::Bus { step_id: s, reason: m })
            && s@ == step_id && m@ == disconnected_reason(),
    }
}

/// One step of an RPC step's wait for the response to call `call_id`.
pub fn rpc_step(step_id: &str, call_id: &str, event: ToolEvent) -> (a: RpcStepAction)
    ensures
        rpc_step_spec(step_id@, call_id@, event, a),
{
    match event {
        ToolEvent::Response { call_id: id, response } => {
            if !str_eq(id.as_str(), call_id) {
                return RpcStepAction::Wait;
            }
            match response {
                None => RpcStepAction::Failed(
                    RpcStepError::Bus {
                        step_id: String::from_str(step_id),
                        reason: String::from_str("failed to deserialize RPC response for call ").concat(call_id),
                    },
                ),
                Some(r) => match r.error {
                    None => RpcStepAction::Completed,
                    Some((code, message)) => RpcStepAction::Failed(
                        RpcStepError::RpcError { step_id: String::from_str(step_id), code, message },
                    ),
                },
            }
        },
        ToolEvent::Other => RpcStepAction::Wait,
        ToolEvent::Timeout => RpcStepAction::Failed(
            RpcStepError::Timeout { step_id: String::from_str(step_id), call_id: String::from_str(call_id) },
        ),
        ToolEvent::Disconnected => RpcStepAction::Failed(
            RpcStepError::Bus {
                step_id: String::from_str(step_id),
                reason: String::from_str("bus disconnected while waiting for RPC response"),
            },
        ),
    }
}

} // verus!
