//! Tool calls a model writes into its reply, between `<|tool_call|>` and
//! `<|tool_call_end|>` markers.
use crate::text::{trim, trim_string};
use vstd::prelude::*;

verus! {

/// A marked tool call: the JSON object between the markers is group 1.
pub const TOOL_CALL_PATTERN: &'static str = "<\\|tool_call\\|>\\s*(\\{.*?\\})\\s*<\\|tool_call_end\\|>";

/// `regex::Regex::new(pattern)` then `captures_iter(text)`, group 1 of each
/// match in order (empty where the group did not take part); `None` when the
/// pattern does not compile.
pub uninterp spec fn regex_group1_matches(pattern: Seq<char>, text: Seq<char>) -> Option<Seq<Seq<char>>>;

/// `regex::Regex::new(pattern)` then `replace_all(text, replacement)`;
/// `None` when the pattern does not compile.
pub uninterp spec fn regex_replaced(pattern: Seq<char>, text: Seq<char>, replacement: Seq<char>) -> Option<Seq<char>>;

/// Group 1 of every match of `pattern` in `text`, in order.
#[verifier::external_body]
fn regex_group1(pattern: &str, text: &str) -> (r: Option<Vec<String>>)
    ensures
        match r {
            Some(v) => regex_group1_matches(pattern@, text@) == Some(v@.map_values(|s: String| s@)),
            None => regex_group1_matches(pattern@, text@) is None,
        },
{
    let re = regex::Regex::new(pattern).ok()?;
    Some(re.captures_iter(text).map(|c| c.get(1).map_or(String::new(), |m| m.as_str().to_string())).collect())
}

/// `text` with every match of `pattern` replaced by `replacement`.
#[verifier::external_body]
fn regex_replace_all(pattern: &str, text: &str, replacement: &str) -> (r: Option<String>)
    ensures
        match r {
            Some(s) => regex_replaced(pattern@, text@, replacement@) == Some(s@),
            None => regex_replaced(pattern@, text@, replacement@) is None,
        },
{
    let re = regex::Regex::new(pattern).ok()?;
    Some(re.replace_all(text, replacement).into_owned())
}

/// The JSON texts of the tool calls marked in `text`, in order.
pub fn tool_call_texts(text: &str) -> (r: Vec<String>)
    ensures
        r@.map_values(|s: String| s@) == match regex_group1_matches(TOOL_CALL_PATTERN@, text@) {
            Some(ms) => ms,
            None => Seq::empty(),
        },
{
    match regex_group1(TOOL_CALL_PATTERN, text) {
        Some(v) => v,
        None => {
            let v: Vec<String> = Vec::new();
            assert(v@.map_values(|s: String| s@) =~= Seq::<Seq<char>>::empty());
            v
        },
    }
}

/// The reply text shown once its tool calls are taken out: when a call was
/// found, the markers are removed and the rest trimmed; otherwise the text
/// stays as it is.
pub fn strip_tool_calls(text: &str, found: bool) -> (r: String)
    ensures
        r@ == if found {
            match regex_replaced(TOOL_CALL_PATTERN@, text@, Seq::empty()) {
                Some(t) => trim(t),
                None => text@,
            }
        } else {
            text@
        },
{
    proof {
        reveal_strlit("");
        assert(""@ =~= Seq::<char>::empty());
    }
    if found {
        match regex_replace_all(TOOL_CALL_PATTERN, text, "") {
            Some(t) => trim_string(t.as_str()),
            None => text.to_owned(),
        }
    } else {
        text.to_owned()
    }
}

} // verus!
