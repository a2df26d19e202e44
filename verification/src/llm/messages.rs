//! Messages exchanged with an LLM backend.
use vstd::prelude::*;

verus! {

/// One message of a conversation: a role (`system`, `user`, `assistant`)
/// and its text.
#[derive(Debug, Clone, PartialEq, Eq)]
pub struct LlmMessage {
    pub role: String,
    pub content: String,
}

impl View for LlmMessage {
    type V = (Seq<char>, Seq<char>);

    open spec fn view(&self) -> (Seq<char>, Seq<char>) {
        (self.role@, self.content@)
    }
}

/// The messages of `s` as (role, content) pairs.
pub open spec fn msgs_view(s: Seq<LlmMessage>) -> Seq<(Seq<char>, Seq<char>)> {
    s.map_values(|m: LlmMessage| m@)
}

} // verus!
