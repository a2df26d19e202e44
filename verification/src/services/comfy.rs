//! Settings of the ComfyUI image service.
use crate::chunk::{ann_get, ann_lookup, anns_view, as_str, json_as_str, opt_str, JsonValue, JsonView};
use crate::services::{or_default, value_or, DEFAULT_BUS_SOCKET};
use vstd::prelude::*;
use vstd::string::StringExecFns;

verus! {

/// Settings of the ComfyUI image service.
pub struct Config {
    pub socket_path: String,
    pub comfy_url: String,
    pub workflow_path: String,
    pub workflow_input_node: String,
}

impl Config {
    /// From `CAFE_BUS_SOCKET`, `COMFY_URL`, `COMFY_WORKFLOW_PATH` and
    /// `COMFY_WORKFLOW_INPUT_NODE`, with their defaults.
    pub fn from_vars(
        socket: Option<String>,
        url: Option<String>,
        workflow: Option<String>,
        input_node: Option<String>,
    ) -> (r: Self)
        ensures
            r.socket_path@ == or_default(socket, DEFAULT_BUS_SOCKET@),
            r.comfy_url@ == or_default(url, "http://127.0.0.1:8188"@),
            r.workflow_path@ == or_default(workflow, "workflow.json"@),
            r.workflow_input_node@ == or_default(input_node, "6"@),
    {
        Config {
            socket_path: value_or(socket, DEFAULT_BUS_SOCKET),
            comfy_url: value_or(url, "http://127.0.0.1:8188"),
            workflow_path: value_or(workflow, "workflow.json"),
            workflow_input_node: value_or(input_node, "6"),
        }
    }
}

/// The text of parameter `key`, when it is a string.
pub open spec fn param_str(params: Seq<(Seq<char>, JsonView)>, key: Seq<char>) -> Option<Seq<char>> {
    match ann_get(params, key) {
        Some(v) => json_as_str(v),
        None => None,
    }
}

fn param_string(params: &Vec<(String, JsonValue)>, key: &str) -> (r: Option<String>)
    ensures
        opt_str(r) == param_str(anns_view(params@), key@),
{
    match ann_lookup(params, key) {
        Some(v) => match as_str(v) {
            Some(t) => Some(t.clone()),
            None => None,
        },
        None => None,
    }
}

/// A call refused before any image is made.
#[derive(Debug)]
pub enum ComfyError {
    /// Neither `text` nor `prompt` holds any text.
    EmptyText,
}

impl ComfyError {
    /// The message the refusal is answered with.
    pub fn message(&self) -> (r: String)
        ensures
            r@ == "comfy.invoke: text param is empty"@,
    {
        String::from_str("comfy.invoke: text param is empty")
    }
}

/// The prompt of a call: `text` when it is a string, else `prompt` (the
/// older name), else nothing.
pub open spec fn prompt_text(params: Seq<(Seq<char>, JsonView)>) -> Seq<char> {
    match param_str(params, "text"@) {
        Some(t) => t,
        None => match param_str(params, "prompt"@) {
            Some(t) => t,
            None => Seq::empty(),
        },
    }
}

/// The prompt to render; refused when it is empty.
pub fn resolve_text(params: &Vec<(String, JsonValue)>) -> (r: Result<String, ComfyError>)
    ensures
        match r {
            Ok(t) => t@ == prompt_text(anns_view(params@)) && t@.len() > 0,
            Err(_) => prompt_text(anns_view(params@)).len() == 0,
        },
{
    let text = match param_string(params, "text") {
        Some(t) => t,
        None => match param_string(params, "prompt") {
            Some(t) => t,
            None => String::new(),
        },
    };
    if text.as_str().is_empty() {
        Err(ComfyError::EmptyText)
    } else {
        Ok(text)
    }
}

/// The parameter `key` when it is a non-empty string.
pub open spec fn non_empty_param(params: Seq<(Seq<char>, JsonView)>, key: Seq<char>) -> Option<Seq<char>> {
    match param_str(params, key) {
        Some(t) => if t.len() > 0 {
            Some(t)
        } else {
            None
        },
        None => None,
    }
}

fn non_empty_string(params: &Vec<(String, JsonValue)>, key: &str) -> (r: Option<String>)
    ensures
        opt_str(r) == non_empty_param(anns_view(params@), key@),
{
    match param_string(params, key) {
        Some(t) => if t.as_str().is_empty() {
            None
        } else {
            Some(t)
        },
        None => None,
    }
}

/// The workflow input node of a call: its non-empty `input_node`, else the
/// service's own.
pub fn resolve_input_node(default_input_node: &str, params: &Vec<(String, JsonValue)>) -> (r: String)
    ensures
        r@ == match non_empty_param(anns_view(params@), "input_node"@) {
            Some(n) => n,
            None => default_input_node@,
        },
{
    match non_empty_string(params, "input_node") {
        Some(n) => n,
        None => String::from_str(default_input_node),
    }
}

/// The workflow file a call names instead of the service's own workflow:
/// its non-empty `workflow_path`, if any.
pub fn workflow_override(params: &Vec<(String, JsonValue)>) -> (r: Option<String>)
    ensures
        opt_str(r) == non_empty_param(anns_view(params@), "workflow_path"@),
{
    non_empty_string(params, "workflow_path")
}

/// The service address a call names instead of the service's own: its
/// non-empty `endpoint`, if any.
pub fn endpoint_override(params: &Vec<(String, JsonValue)>) -> (r: Option<String>)
    ensures
        opt_str(r) == non_empty_param(anns_view(params@), "endpoint"@),
{
    non_empty_string(params, "endpoint")
}

} // verus!
