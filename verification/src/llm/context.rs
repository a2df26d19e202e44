//! The conversation context sent to an LLM backend: built from session
//! history, compacted to fit budgets, and configured by runtime config chunks.
use crate::chunk::{
    is_runtime_config, is_runtime_config_chunk, ann_get, ann_lookup, as_str, json_as_str, lenient_u32, member_lookup, member_text, role_spec,
    to_lenient_u32, Chunk, ContentType, JsonNumber, JsonValue, JsonView, CONFIG_BACKEND, CONFIG_LLM_BACKEND,
    CONFIG_LLM_COMPACTION_MODE, CONFIG_LLM_MAX_HISTORY_CHARS, CONFIG_LLM_MAX_HISTORY_MESSAGES,
    CONFIG_LLM_MAX_TOKENS, CONFIG_LLM_MODEL, CONFIG_LLM_SYSTEM_PROMPT, CONFIG_MAX_TOKENS,
    CONFIG_MODEL, CONFIG_SYSTEM_PROMPT, CONFIG_TEMPERATURE, SECURITY_TRUST_LEVEL, json_clone,
};
use crate::agent_runtime::config::CONFIG_LLM_TEMPERATURE;
use crate::llm::messages::{msgs_view, LlmMessage};
use crate::text::str_eq;
use vstd::prelude::*;
use vstd::string::StringExecFns;
use vstd::utf8::encode_utf8;

verus! {

/// LLM settings resolved from a session's history. The sampling temperature,
/// a float, is resolved apart from these.
pub struct LlmConfig {
    pub backend: Option<String>,
    pub model: Option<String>,
    pub system_prompt: Option<String>,
    /// The temperature as the JSON value given (a number, or a string
    /// holding one); the caller reads it as a float.
    pub temperature: Option<JsonValue>,
    pub max_tokens: Option<u32>,
    /// Compaction mode: `none` (the default), `truncate` or `summarize`.
    pub compaction_mode: Option<String>,
    /// Most user and assistant messages sent to the backend.
    pub max_history_messages: Option<u32>,
    /// Most bytes of user and assistant message text sent to the backend.
    pub max_history_chars: Option<u32>,
}

/// The settings of an `LlmConfig`, by the characters of its strings.
pub ghost struct LlmConfigView {
    pub backend: Option<Seq<char>>,
    pub model: Option<Seq<char>>,
    pub system_prompt: Option<Seq<char>>,
    pub temperature: Option<JsonView>,
    pub max_tokens: Option<u32>,
    pub compaction_mode: Option<Seq<char>>,
    pub max_history_messages: Option<u32>,
    pub max_history_chars: Option<u32>,
}

impl View for LlmConfig {
    type V = LlmConfigView;

    open spec fn view(&self) -> LlmConfigView {
        LlmConfigView {
            backend: opt_view(self.backend),
            model: opt_view(self.model),
            system_prompt: opt_view(self.system_prompt),
            temperature: match self.temperature {
                Some(v) => Some(v@),
                None => None,
            },
            max_tokens: self.max_tokens,
            compaction_mode: opt_view(self.compaction_mode),
            max_history_messages: self.max_history_messages,
            max_history_chars: self.max_history_chars,
        }
    }
}

/// What compaction removed.
pub struct CompactionInfo {
    pub dropped_messages: usize,
    pub dropped_chars: usize,
    /// The dropped messages, oldest first.
    pub dropped: Vec<LlmMessage>,
}

/// An optional string by its characters.
pub open spec fn opt_view(o: Option<String>) -> Option<Seq<char>> {
    match o {
        Some(s) => Some(s@),
        None => None,
    }
}

/// Length of `s` in UTF-8 bytes (`str::len`).
pub open spec fn byte_len(s: Seq<char>) -> nat {
    encode_utf8(s).len()
}

/// Summed byte length of the contents of `s`.
pub open spec fn total_bytes(s: Seq<LlmMessage>) -> nat
    decreases s.len(),
{
    if s.len() == 0 {
        0
    } else {
        byte_len(s[0].content@) + total_bytes(s.drop_first())
    }
}

/// A configured budget; zero counts as unset.
pub open spec fn budget(o: Option<u32>) -> Option<nat> {
    match o {
        Some(n) => if n >= 1 {
            Some(n as nat)
        } else {
            None
        },
        None => None,
    }
}

/// Compaction applies: the mode is `truncate` or `summarize` and a budget
/// is set.
pub open spec fn compaction_enabled(cfg: LlmConfig) -> bool {
    &&& match opt_view(cfg.compaction_mode) {
        Some(m) => m == "truncate"@ || m == "summarize"@,
        None => false,
    }
    &&& (budget(cfg.max_history_messages) is Some || budget(cfg.max_history_chars) is Some)
}

/// Whether the window `w` meets the message and byte budgets.
pub open spec fn fits(w: Seq<LlmMessage>, mm: Option<nat>, mc: Option<nat>) -> bool {
    &&& match mm {
        Some(m) => w.len() <= m,
        None => true,
    }
    &&& match mc {
        Some(c) => total_bytes(w) <= c,
        None => true,
    }
}

/// The window of `rest` from `s` on may be kept: it meets the budgets, or
/// it holds the newest message alone.
pub open spec fn may_start(rest: Seq<LlmMessage>, mm: Option<nat>, mc: Option<nat>, s: int) -> bool {
    fits(rest.skip(s), mm, mc) || rest.len() - s <= 1
}

/// The first position from `s` on where the kept window may start.
pub open spec fn first_start(rest: Seq<LlmMessage>, mm: Option<nat>, mc: Option<nat>, s: nat) -> nat
    decreases rest.len() - s,
{
    if s >= rest.len() || may_start(rest, mm, mc, s as int) {
        s
    } else {
        first_start(rest, mm, mc, s + 1)
    }
}

/// 1 when `msgs` opens with a `system` message, else 0.
pub open spec fn system_len(msgs: Seq<LlmMessage>) -> int {
    if msgs.len() > 0 && msgs[0].role@ == "system"@ {
        1
    } else {
        0
    }
}

/// How many of the oldest non-system messages compaction drops.
pub open spec fn dropped_count(msgs: Seq<LlmMessage>, cfg: LlmConfig) -> nat {
    if compaction_enabled(cfg) {
        first_start(
            msgs.skip(system_len(msgs)),
            budget(cfg.max_history_messages),
            budget(cfg.max_history_chars),
            0,
        )
    } else {
        0
    }
}

/// The message list after compaction: the leading system message, if any,
/// then the newest messages from the first kept one on.
pub open spec fn compacted(msgs: Seq<LlmMessage>, cfg: LlmConfig) -> Seq<LlmMessage> {
    msgs.take(system_len(msgs)) + msgs.skip(system_len(msgs) + dropped_count(msgs, cfg))
}

/// The messages compaction drops, oldest first.
pub open spec fn dropped_msgs(msgs: Seq<LlmMessage>, cfg: LlmConfig) -> Seq<LlmMessage> {
    msgs.subrange(system_len(msgs), system_len(msgs) + dropped_count(msgs, cfg))
}

/// `first_start` is the least position from `s` on where a window may start.
pub proof fn lemma_first_start(rest: Seq<LlmMessage>, mm: Option<nat>, mc: Option<nat>, s: nat)
    requires
        s <= rest.len(),
    ensures
        s <= first_start(rest, mm, mc, s) <= rest.len(),
        first_start(rest, mm, mc, s) < rest.len() ==> may_start(
            rest,
            mm,
            mc,
            first_start(rest, mm, mc, s) as int,
        ),
        s < rest.len() ==> first_start(rest, mm, mc, s) < rest.len(),
        forall|t: int|
            s <= t < first_start(rest, mm, mc, s) ==> !#[trigger] may_start(rest, mm, mc, t),
    decreases rest.len() - s,
{
    if s < rest.len() && !may_start(rest, mm, mc, s as int) {
        lemma_first_start(rest, mm, mc, s + 1);
    }
}

/// The byte total of a sequence splits at any position.
pub proof fn lemma_total_split(s: Seq<LlmMessage>, i: int)
    requires
        0 <= i <= s.len(),
    ensures
        total_bytes(s) == total_bytes(s.take(i)) + total_bytes(s.skip(i)),
    decreases i,
{
    if i == 0 {
        assert(s.take(0) =~= Seq::<LlmMessage>::empty());
        assert(s.skip(0) =~= s);
    } else {
        lemma_total_split(s.drop_first(), i - 1);
        assert(s.take(i).drop_first() =~= s.drop_first().take(i - 1));
        assert(s.drop_first().skip(i - 1) =~= s.skip(i));
        assert(s.take(i)[0] == s[0]);
    }
}

proof fn lemma_total_step(s: Seq<LlmMessage>, i: int)
    requires
        0 <= i < s.len(),
    ensures
        total_bytes(s.skip(i)) == byte_len(s[i].content@) + total_bytes(s.skip(i + 1)),
{
    assert(s.skip(i)[0] == s[i]);
    assert(s.skip(i).drop_first() =~= s.skip(i + 1));
}

/// With compaction off (mode `none`, unset or unknown, or no budget set)
/// the message list is left as it is.
pub proof fn law_compaction_off_is_identity(msgs: Seq<LlmMessage>, cfg: LlmConfig)
    requires
        !compaction_enabled(cfg),
    ensures
        compacted(msgs, cfg) == msgs,
        dropped_msgs(msgs, cfg).len() == 0,
{
    assert(msgs.take(system_len(msgs)) + msgs.skip(system_len(msgs)) =~= msgs);
}

/// A leading system message survives compaction, in first place.
pub proof fn law_compaction_keeps_system(msgs: Seq<LlmMessage>, cfg: LlmConfig)
    requires
        msgs.len() > 0,
        msgs[0].role@ == "system"@,
    ensures
        compacted(msgs, cfg).len() > 0,
        compacted(msgs, cfg)[0] == msgs[0],
{
    let d = dropped_count(msgs, cfg);
    if compaction_enabled(cfg) {
        lemma_first_start(msgs.skip(1), budget(cfg.max_history_messages), budget(cfg.max_history_chars), 0);
    }
    assert(compacted(msgs, cfg)[0] == msgs.take(1)[0]);
}

/// The newest message is never dropped.
pub proof fn law_compaction_keeps_newest(msgs: Seq<LlmMessage>, cfg: LlmConfig)
    requires
        msgs.len() > 0,
    ensures
        compacted(msgs, cfg).len() > 0,
        compacted(msgs, cfg).last() == msgs.last(),
{
    let sl = system_len(msgs);
    let rest = msgs.skip(sl);
    if compaction_enabled(cfg) {
        lemma_first_start(rest, budget(cfg.max_history_messages), budget(cfg.max_history_chars), 0);
    }
    let d = dropped_count(msgs, cfg);
    assert(sl + d <= msgs.len());
    if sl + d < msgs.len() {
        assert(compacted(msgs, cfg).last() == msgs.skip(sl + d).last());
    } else {
        assert(sl == 1 && msgs.len() == 1);
        assert(compacted(msgs, cfg) =~= msgs);
    }
}

/// Compaction only drops: the kept messages, with the dropped ones put back
/// after the system message, are the list given.
pub proof fn law_compaction_partitions(msgs: Seq<LlmMessage>, cfg: LlmConfig)
    ensures
        msgs == msgs.take(system_len(msgs)) + dropped_msgs(msgs, cfg) + msgs.skip(
            system_len(msgs) + dropped_msgs(msgs, cfg).len(),
        ),
        compacted(msgs, cfg).len() + dropped_msgs(msgs, cfg).len() == msgs.len(),
{
    let sl = system_len(msgs);
    if compaction_enabled(cfg) {
        lemma_first_start(msgs.skip(sl), budget(cfg.max_history_messages), budget(cfg.max_history_chars), 0);
    }
    let d = dropped_count(msgs, cfg);
    assert(msgs.take(sl) + msgs.subrange(sl, sl + d) + msgs.skip(sl + d) =~= msgs);
}

/// Once compacted, the non-system messages meet both budgets, unless the
/// newest message alone is left.
pub proof fn law_compaction_meets_budgets(msgs: Seq<LlmMessage>, cfg: LlmConfig)
    requires
        compaction_enabled(cfg),
    ensures
        fits(
            compacted(msgs, cfg).skip(system_len(msgs)),
            budget(cfg.max_history_messages),
            budget(cfg.max_history_chars),
        ) || compacted(msgs, cfg).skip(system_len(msgs)).len() <= 1,
{
    let sl = system_len(msgs);
    let rest = msgs.skip(sl);
    let mm = budget(cfg.max_history_messages);
    let mc = budget(cfg.max_history_chars);
    lemma_first_start(rest, mm, mc, 0);
    let d = dropped_count(msgs, cfg);
    assert(compacted(msgs, cfg).skip(sl) =~= rest.skip(d as int));
}

/// Compaction drops no more than it must: keeping any dropped message as
/// well would break a budget, with more than the newest message kept.
pub proof fn law_compaction_drops_least(msgs: Seq<LlmMessage>, cfg: LlmConfig, k: int)
    requires
        compaction_enabled(cfg),
        0 <= k < dropped_msgs(msgs, cfg).len(),
    ensures
        !fits(
            msgs.skip(system_len(msgs) + k),
            budget(cfg.max_history_messages),
            budget(cfg.max_history_chars),
        ),
        msgs.skip(system_len(msgs) + k).len() > 1,
{
    let sl = system_len(msgs);
    let rest = msgs.skip(sl);
    let mm = budget(cfg.max_history_messages);
    let mc = budget(cfg.max_history_chars);
    lemma_first_start(rest, mm, mc, 0);
    assert(!may_start(rest, mm, mc, k));
    assert(rest.skip(k) =~= msgs.skip(sl + k));
}

/// `truncate` and `summarize` compact alike; they differ only in what the
/// caller does with the dropped messages.
pub proof fn law_summarize_compacts_like_truncate(
    msgs: Seq<LlmMessage>,
    truncate: LlmConfig,
    summarize: LlmConfig,
)
    requires
        opt_view(truncate.compaction_mode) == Some("truncate"@),
        opt_view(summarize.compaction_mode) == Some("summarize"@),
        truncate.max_history_messages == summarize.max_history_messages,
        truncate.max_history_chars == summarize.max_history_chars,
    ensures
        compacted(msgs, truncate) == compacted(msgs, summarize),
        dropped_msgs(msgs, truncate) == dropped_msgs(msgs, summarize),
{
}

/// Byte length of a message's text.
fn content_len(m: &LlmMessage) -> (n: usize)
    requires
        byte_len(m.content@) <= usize::MAX,
    ensures
        n == byte_len(m.content@),
{
    m.content.as_str().len()
}

/// Summed byte length of the texts of `s`.
fn total_len(s: &Vec<LlmMessage>) -> (n: usize)
    requires
        total_bytes(s@) <= usize::MAX,
    ensures
        n == total_bytes(s@),
{
    let mut i = s.len();
    let mut sum: usize = 0;
    assert(s@.skip(s@.len() as int) =~= Seq::<LlmMessage>::empty());
    while i > 0
        invariant
            i <= s@.len(),
            total_bytes(s@) <= usize::MAX,
            sum == total_bytes(s@.skip(i as int)),
        decreases i,
    {
        i = i - 1;
        proof {
            lemma_total_step(s@, i as int);
            lemma_total_split(s@, i as int);
        }
        let n = content_len(&s[i]);
        sum = sum + n;
    }
    assert(s@.skip(0) =~= s@);
    sum
}

/// The budget `o` as an optional limit; zero counts as unset.
fn budget_of(o: Option<u32>) -> (r: Option<u32>)
    ensures
        match r {
            Some(n) => budget(o) == Some(n as nat),
            None => budget(o) is None,
        },
{
    match o {
        Some(n) => if n >= 1 {
            Some(n)
        } else {
            None
        },
        None => None,
    }
}

/// Whether compaction applies under `cfg`.
fn enabled(cfg: &LlmConfig) -> (r: bool)
    ensures
        r == compaction_enabled(*cfg),
{
    let mode_ok = match &cfg.compaction_mode {
        Some(m) => str_eq(m.as_str(), "truncate") || str_eq(m.as_str(), "summarize"),
        None => false,
    };
    mode_ok && (budget_of(cfg.max_history_messages).is_some() || budget_of(
        cfg.max_history_chars,
    ).is_some())
}

/// Compacts a built message list, oldest first, to fit the configured
/// budgets. A leading `system` message is kept and never counted; the
/// newest message is always kept; with compaction off (mode `none`, unset or
/// unknown, or no budget set) the list is returned unchanged.
pub fn apply_compaction(messages: Vec<LlmMessage>, cfg: &LlmConfig) -> (r: (
    Vec<LlmMessage>,
    CompactionInfo,
))
    requires
        total_bytes(messages@) <= usize::MAX,
    ensures
        r.1.dropped_messages == dropped_count(messages@, *cfg),
        r.0@ == compacted(messages@, *cfg),
        r.1.dropped@ == dropped_msgs(messages@, *cfg),
        r.1.dropped_chars == total_bytes(r.1.dropped@),
{
    let ghost orig = messages@;
    let ghost sl = system_len(orig);
    if !enabled(cfg) {
        proof {
            assert(orig.take(sl) + orig.skip(sl) =~= orig);
            assert(orig.subrange(sl, sl) =~= Seq::<LlmMessage>::empty());
        }
        return (messages, CompactionInfo { dropped_messages: 0, dropped_chars: 0, dropped: Vec::new() });
    }
    let max_m = budget_of(cfg.max_history_messages);
    let max_c = budget_of(cfg.max_history_chars);
    let ghost mm = budget(cfg.max_history_messages);
    let ghost mc = budget(cfg.max_history_chars);
    let mut msgs = messages;
    let has_sys = msgs.len() > 0 && str_eq(msgs[0].role.as_str(), "system");
    let at: usize = if has_sys {
        1
    } else {
        0
    };
    assert(at == sl);
    let mut rest = msgs.split_off(at);
    let ghost r0 = rest@;
    assert(r0 == orig.skip(sl));
    proof {
        lemma_total_split(orig, sl);
    }
    let n = rest.len();
    let mut chars = total_len(&rest);
    let mut start: usize = 0;
    let mut done = false;
    assert(r0.skip(0) =~= r0);
    while start < n && !done
        invariant
            n == r0.len(),
            rest@ == r0,
            start <= n,
            total_bytes(r0) <= usize::MAX,
            chars == total_bytes(r0.skip(start as int)),
            first_start(r0, mm, mc, 0) == first_start(r0, mm, mc, start as nat),
            done ==> may_start(r0, mm, mc, start as int),
            match max_m {
                Some(k) => mm == Some(k as nat),
                None => mm is None,
            },
            match max_c {
                Some(k) => mc == Some(k as nat),
                None => mc is None,
            },
        decreases n - start + if done {
            0int
        } else {
            1int
        },
    {
        let wlen = n - start;
        assert(r0.skip(start as int).len() == wlen);
        let count_ok = match max_m {
            Some(m) => (wlen as u64) <= (m as u64),
            None => true,
        };
        let chars_ok = match max_c {
            Some(c) => (chars as u64) <= (c as u64),
            None => true,
        };
        if (count_ok && chars_ok) || wlen <= 1 {
            done = true;
        } else {
            proof {
                lemma_total_step(r0, start as int);
            }
            let b = content_len(&rest[start]);
            chars = chars - b;
            start = start + 1;
        }
    }
    proof {
        lemma_total_split(r0, start as int);
    }
    let dropped_chars = total_len(&rest) - chars;
    let mut kept = rest.split_off(start);
    msgs.append(&mut kept);
    proof {
        assert(orig.skip(sl).take(start as int) =~= orig.subrange(sl, sl + start));
        assert(orig.skip(sl).skip(start as int) =~= orig.skip(sl + start));
    }
    (msgs, CompactionInfo { dropped_messages: start, dropped_chars, dropped: rest })
}

// ---------------------------------------------------------------------------
// The context built from history.

/// The chunk is marked untrusted: its `security.trust-level` annotation is an
/// object whose `trusted` member is `false`.
pub open spec fn untrusted(c: Chunk) -> bool {
    match ann_get(c@.annotations, SECURITY_TRUST_LEVEL@) {
        Some(JsonView::Object(ms)) => member_text(ms, "trusted"@) == Some("false"@),
        _ => false,
    }
}

/// The text a chunk contributes (empty when it has none).
pub open spec fn content_text(c: Chunk) -> Seq<char> {
    match c.content {
        Some(s) => s@,
        None => Seq::empty(),
    }
}

/// The context after one more history chunk: a trusted text chunk of a user
/// or the assistant adds a message, or extends the last one when that has
/// the same role (joined by a newline); any other chunk changes nothing.
pub open spec fn context_step(msgs: Seq<(Seq<char>, Seq<char>)>, c: Chunk) -> Seq<
    (Seq<char>, Seq<char>),
> {
    if c.content_type != ContentType::Text || untrusted(c) {
        msgs
    } else {
        match role_spec(c@) {
            Some(r) => if r == "user"@ || r == "assistant"@ {
                if msgs.len() > 0 && msgs.last().0 == r {
                    msgs.drop_last().push((r, msgs.last().1 + seq!['\n'] + content_text(c)))
                } else {
                    msgs.push((r, content_text(c)))
                }
            } else {
                msgs
            },
            None => msgs,
        }
    }
}

/// The context built from `history` on top of `start`.
pub open spec fn context_of(history: Seq<Chunk>, start: Seq<(Seq<char>, Seq<char>)>) -> Seq<
    (Seq<char>, Seq<char>),
>
    decreases history.len(),
{
    if history.len() == 0 {
        start
    } else {
        context_step(context_of(history.drop_last(), start), history.last())
    }
}

/// The messages a conversation opens with: the system prompt, if any.
pub open spec fn prompt_msgs(prompt: Option<Seq<char>>) -> Seq<(Seq<char>, Seq<char>)> {
    match prompt {
        Some(p) => seq![("system"@, p)],
        None => Seq::empty(),
    }
}

proof fn lemma_msgs_view_push(s: Seq<LlmMessage>, m: LlmMessage)
    ensures
        msgs_view(s.push(m)) == msgs_view(s).push(m@),
{
    assert(msgs_view(s.push(m)) =~= msgs_view(s).push(m@));
}

proof fn lemma_msgs_view_drop_last(s: Seq<LlmMessage>)
    requires
        s.len() > 0,
    ensures
        msgs_view(s.drop_last()) == msgs_view(s).drop_last(),
        msgs_view(s).last() == s.last()@,
{
    assert(msgs_view(s.drop_last()) =~= msgs_view(s).drop_last());
}

/// Whether `c` is marked untrusted.
fn is_untrusted(c: &Chunk) -> (r: bool)
    ensures
        r == untrusted(*c),
{
    match ann_lookup(&c.annotations, SECURITY_TRUST_LEVEL) {
        Some(JsonValue::Object(ms)) => match member_lookup(ms, "trusted") {
            Some(t) => str_eq(t.as_str(), "false"),
            None => false,
        },
        _ => false,
    }
}

/// Builds the message list for a backend from session history: the system
/// prompt first, if given, then the trusted user and assistant text chunks
/// in order, consecutive messages of one role joined by a newline.
pub fn build_messages(history: &[Chunk], system_prompt: Option<&str>) -> (r: Vec<LlmMessage>)
    ensures
        msgs_view(r@) == context_of(
            history@,
            prompt_msgs(
                match system_prompt {
                    Some(p) => Some(p@),
                    None => None,
                },
            ),
        ),
{
    let ghost start = prompt_msgs(
        match system_prompt {
            Some(p) => Some(p@),
            None => None,
        },
    );
    let mut messages: Vec<LlmMessage> = Vec::new();
    if let Some(prompt) = system_prompt {
        messages.push(LlmMessage { role: String::from_str("system"), content: String::from_str(prompt) });
    }
    assert(msgs_view(messages@) =~= start);
    assert(history@.take(0) =~= Seq::<Chunk>::empty());
    let mut i: usize = 0;
    while i < history.len()
        invariant
            0 <= i <= history@.len(),
            msgs_view(messages@) == context_of(history@.take(i as int), start),
        decreases history.len() - i,
    {
        let c = &history[i];
        assert(history@.take(i + 1).drop_last() =~= history@.take(i as int));
        assert(history@.take(i + 1).last() == history@[i as int]);
        let ghost before = messages@;
        if c.content_type == ContentType::Text && !is_untrusted(c) {
            match c.role() {
                Some(role) => {
                    if str_eq(role.as_str(), "user") || str_eq(role.as_str(), "assistant") {
                        let content = match &c.content {
                            Some(t) => t.clone(),
                            None => String::new(),
                        };
                        let n = messages.len();
                        if n > 0 && str_eq(messages[n - 1].role.as_str(), role.as_str()) {
                            proof {
                                lemma_msgs_view_drop_last(messages@);
                            }
                            let mut last = messages.pop().unwrap();
                            last.content.append("\n");
                            last.content.append(content.as_str());
                            proof {
                                reveal_strlit("\n");
                                assert("\n"@ =~= seq!['\n']);
                                assert(content@ == content_text(*c));
                                assert(messages@ == before.drop_last());
                                assert(last@.1 == msgs_view(before).last().1 + seq!['\n'] + content_text(*c));
                                lemma_msgs_view_push(messages@, last);
                            }
                            messages.push(last);
                            assert(msgs_view(messages@) == context_step(msgs_view(before), *c));
                        } else {
                            let m = LlmMessage { role: role.clone(), content };
                            proof {
                                lemma_msgs_view_push(messages@, m);
                            }
                            messages.push(m);
                            assert(msgs_view(messages@) == context_step(msgs_view(before), *c));
                        }
                    }
                },
                None => {},
            }
        }
        assert(msgs_view(messages@) == context_step(msgs_view(before), history@[i as int]));
        assert(context_of(history@.take(i + 1), start) == context_step(context_of(history@.take(i as int), start), history@[i as int]));
        i = i + 1;
    }
    assert(history@.take(history@.len() as int) =~= history@);
    messages
}

/// Every message a history step adds or extends is a user or assistant
/// message.
proof fn lemma_context_roles(history: Seq<Chunk>, start: Seq<(Seq<char>, Seq<char>)>)
    requires
        forall|i: int| 0 <= i < start.len() ==> (#[trigger] start[i]).0 == "user"@ || start[i].0 == "assistant"@,
    ensures
        forall|i: int|
            0 <= i < context_of(history, start).len() ==> (#[trigger] context_of(history, start)[i]).0
                == "user"@ || context_of(history, start)[i].0 == "assistant"@,
    decreases history.len(),
{
    if history.len() > 0 {
        lemma_context_roles(history.drop_last(), start);
        let prev = context_of(history.drop_last(), start);
        let next = context_of(history, start);
        assert forall|i: int| 0 <= i < next.len() implies (#[trigger] next[i]).0 == "user"@
            || next[i].0 == "assistant"@ by {
            if i < prev.len() && next.len() >= prev.len() && (i < next.len() - 1 || next.len() > prev.len() || next == prev) {
                if next != prev {
                    assert(next[i] == prev[i]);
                }
            }
        }
    }
}

/// Without a system prompt, the context holds only user and assistant
/// messages.
pub proof fn law_context_only_chat_roles(history: Seq<Chunk>)
    ensures
        forall|i: int|
            0 <= i < context_of(history, prompt_msgs(None)).len() ==> (#[trigger] context_of(
                history,
                prompt_msgs(None),
            )[i]).0 == "user"@ || context_of(history, prompt_msgs(None))[i].0 == "assistant"@,
{
    lemma_context_roles(history, prompt_msgs(None));
}

proof fn lemma_context_keeps_first(history: Seq<Chunk>, start: Seq<(Seq<char>, Seq<char>)>)
    requires
        start.len() > 0,
        start[0].0 == "system"@,
    ensures
        context_of(history, start).len() > 0,
        context_of(history, start)[0] == start[0],
    decreases history.len(),
{
    if history.len() > 0 {
        lemma_context_keeps_first(history.drop_last(), start);
        reveal_strlit("system");
        reveal_strlit("user");
        reveal_strlit("assistant");
        assert("system"@ != "user"@ && "system"@ != "assistant"@) by {
            assert("system"@[0] != "user"@[0]);
            assert("system"@[0] != "assistant"@[0]);
        }
        let prev = context_of(history.drop_last(), start);
        let next = context_of(history, start);
        if next != prev && next.len() == prev.len() {
            assert(prev.len() > 1);
            assert(next[0] == prev.drop_last()[0]);
        }
    }
}

/// With a system prompt, the context opens with it as a system message.
pub proof fn law_context_prompt_first(history: Seq<Chunk>, prompt: Seq<char>)
    ensures
        context_of(history, prompt_msgs(Some(prompt))).len() > 0,
        context_of(history, prompt_msgs(Some(prompt)))[0] == ("system"@, prompt),
{
    lemma_context_keeps_first(history, prompt_msgs(Some(prompt)));
}

/// No two neighbouring messages of `s` share a role.
pub open spec fn roles_alternate(s: Seq<(Seq<char>, Seq<char>)>) -> bool {
    forall|i: int| 0 <= i < s.len() - 1 ==> (#[trigger] s[i]).0 != s[i + 1].0
}

proof fn lemma_context_alternates(history: Seq<Chunk>, start: Seq<(Seq<char>, Seq<char>)>)
    requires
        roles_alternate(start),
    ensures
        roles_alternate(context_of(history, start)),
    decreases history.len(),
{
    if history.len() > 0 {
        lemma_context_alternates(history.drop_last(), start);
        let prev = context_of(history.drop_last(), start);
        let next = context_of(history, start);
        assert forall|i: int| 0 <= i < next.len() - 1 implies (#[trigger] next[i]).0 != next[i + 1].0 by {
            assert(prev[i].0 != prev[i + 1].0 || i + 1 >= prev.len());
        }
    }
}

/// Consecutive messages of one role are merged, so roles alternate in the
/// built context.
pub proof fn law_context_roles_alternate(history: Seq<Chunk>, prompt: Option<Seq<char>>)
    ensures
        roles_alternate(context_of(history, prompt_msgs(prompt))),
{
    lemma_context_alternates(history, prompt_msgs(prompt));
}

/// A runtime config chunk's namespaced model wins over the earlier key in
/// the same chunk and over everything before it.
pub proof fn law_config_namespaced_model_wins(history: Seq<Chunk>, c: Chunk, model: Seq<char>)
    requires
        is_runtime_config(c),
        ann_get(c@.annotations, CONFIG_LLM_MODEL@) == Some(JsonView::Str(model)),
    ensures
        config_of(history.push(c)).model == Some(model),
{
    assert(history.push(c).drop_last() =~= history);
}

/// A key of the earlier format in the last config chunk sets the setting,
/// whatever came before, when that chunk does not carry the namespaced key.
pub proof fn law_config_legacy_prompt_applies(history: Seq<Chunk>, c: Chunk, prompt: Seq<char>)
    requires
        is_runtime_config(c),
        ann_get(c@.annotations, CONFIG_LLM_SYSTEM_PROMPT@) is None,
        ann_get(c@.annotations, CONFIG_SYSTEM_PROMPT@) == Some(JsonView::Str(prompt)),
    ensures
        config_of(history.push(c)).system_prompt == Some(prompt),
{
    assert(history.push(c).drop_last() =~= history);
}

/// Config chunks update per key: a later chunk replaces the keys it carries
/// and leaves the others as they were.
pub proof fn law_config_later_chunk_wins(history: Seq<Chunk>, c: Chunk)
    requires
        is_runtime_config(c),
    ensures
        config_of(history.push(c)).max_history_messages == u32_setting(
            c,
            CONFIG_LLM_MAX_HISTORY_MESSAGES@,
            config_of(history).max_history_messages,
        ),
        config_of(history.push(c)).max_history_chars == u32_setting(
            c,
            CONFIG_LLM_MAX_HISTORY_CHARS@,
            config_of(history).max_history_chars,
        ),
        config_of(history.push(c)).compaction_mode == str_setting(
            c,
            CONFIG_LLM_COMPACTION_MODE@,
            config_of(history).compaction_mode,
        ),
{
    assert(history.push(c).drop_last() =~= history);
}

/// Chunks that are not runtime config chunks leave the settings alone.
pub proof fn law_config_ignores_other_chunks(history: Seq<Chunk>, c: Chunk)
    requires
        !is_runtime_config(c),
    ensures
        config_of(history.push(c)) == config_of(history),
{
    assert(history.push(c).drop_last() =~= history);
}

// ---------------------------------------------------------------------------
// Compaction summaries.

/// What the backend is asked to do with a dropped prefix.
pub const SUMMARY_INSTRUCTION: &'static str = "Summarize the following conversation prefix concisely. Preserve key facts, decisions, user preferences, and open questions. Reply with the summary only, no preamble.";

/// What opens an inserted summary.
pub const SUMMARY_HEADER: &'static str = "Prior conversation summary (compacted):\n";

/// A transcript of messages: one `role: content` line each.
pub open spec fn transcript(s: Seq<(Seq<char>, Seq<char>)>) -> Seq<char>
    decreases s.len(),
{
    if s.len() == 0 {
        Seq::empty()
    } else {
        transcript(s.drop_last()) + s.last().0 + ": "@ + s.last().1 + seq!['\n']
    }
}

/// The request that asks the backend to summarize dropped messages: the
/// instruction as a system message, then the transcript as a user message.
pub fn build_summary_request(dropped: &[LlmMessage]) -> (r: Vec<LlmMessage>)
    ensures
        msgs_view(r@) == seq![
            ("system"@, SUMMARY_INSTRUCTION@),
            ("user"@, transcript(msgs_view(dropped@))),
        ],
{
    let mut t = String::new();
    let mut i: usize = 0;
    while i < dropped.len()
        invariant
            0 <= i <= dropped@.len(),
            t@ == transcript(msgs_view(dropped@.take(i as int))),
        decreases dropped.len() - i,
    {
        proof {
            assert(msgs_view(dropped@.take(i + 1)).drop_last() =~= msgs_view(dropped@.take(i as int)));
            reveal_strlit(": ");
            reveal_strlit("\n");
        }
        t.append(dropped[i].role.as_str());
        t.append(": ");
        t.append(dropped[i].content.as_str());
        t.append("\n");
        i = i + 1;
    }
    assert(dropped@.take(dropped@.len() as int) =~= dropped@);
    let r = vec![
        LlmMessage { role: String::from_str("system"), content: String::from_str(SUMMARY_INSTRUCTION) },
        LlmMessage { role: String::from_str("user"), content: t },
    ];
    assert(msgs_view(r@) =~= seq![
        ("system"@, SUMMARY_INSTRUCTION@),
        ("user"@, transcript(msgs_view(dropped@))),
    ]);
    r
}

/// Inserts a compaction summary as a system message: right after a leading
/// system message, otherwise first.
pub fn insert_summary(messages: Vec<LlmMessage>, summary: &str) -> (r: Vec<LlmMessage>)
    ensures
        msgs_view(r@) == msgs_view(messages@).insert(
            system_len(messages@),
            ("system"@, SUMMARY_HEADER@ + summary@),
        ),
{
    let mut messages = messages;
    let mut content = String::from_str(SUMMARY_HEADER);
    content.append(summary);
    let m = LlmMessage { role: String::from_str("system"), content };
    let pos: usize = if messages.len() > 0 && str_eq(messages[0].role.as_str(), "system") {
        1
    } else {
        0
    };
    let ghost before = messages@;
    messages.insert(pos, m);
    assert(msgs_view(messages@) =~= msgs_view(before).insert(pos as int, m@));
    messages
}

// ---------------------------------------------------------------------------
// Configuration from runtime config chunks.

/// A string setting after `c`: replaced by the string under `key` when the
/// key is present (cleared when its value is no string).
pub open spec fn str_setting(c: Chunk, key: Seq<char>, cur: Option<Seq<char>>) -> Option<Seq<char>> {
    match ann_get(c@.annotations, key) {
        Some(v) => json_as_str(v),
        None => cur,
    }
}

/// A count setting after `c`: replaced by the count under `key` when the key
/// is present (a non-negative integer, or a string holding a `u32`).
pub open spec fn u32_setting(c: Chunk, key: Seq<char>, cur: Option<u32>) -> Option<u32> {
    match ann_get(c@.annotations, key) {
        Some(v) => lenient_u32(v),
        None => cur,
    }
}

/// A raw JSON setting after `c`: replaced by the value under `key` when the
/// key is present.
pub open spec fn json_setting(c: Chunk, key: Seq<char>, cur: Option<JsonView>) -> Option<JsonView> {
    match ann_get(c@.annotations, key) {
        Some(v) => Some(v),
        None => cur,
    }
}

/// Whether `c` carries an annotation under `key`.
pub open spec fn carries(c: Chunk, key: Seq<char>) -> bool {
    ann_get(c@.annotations, key) is Some
}

/// A string setting that a key of the earlier format sets too: the
/// namespaced key when the chunk carries it, else the earlier key.
pub open spec fn either_str_setting(c: Chunk, key: Seq<char>, legacy: Seq<char>, cur: Option<Seq<char>>) -> Option<
    Seq<char>,
> {
    if carries(c, key) {
        str_setting(c, key, cur)
    } else {
        str_setting(c, legacy, cur)
    }
}

pub open spec fn either_u32_setting(c: Chunk, key: Seq<char>, legacy: Seq<char>, cur: Option<u32>) -> Option<u32> {
    if carries(c, key) {
        u32_setting(c, key, cur)
    } else {
        u32_setting(c, legacy, cur)
    }
}

pub open spec fn either_json_setting(c: Chunk, key: Seq<char>, legacy: Seq<char>, cur: Option<JsonView>) -> Option<
    JsonView,
> {
    if carries(c, key) {
        json_setting(c, key, cur)
    } else {
        json_setting(c, legacy, cur)
    }
}

/// The settings after chunk `c`: a runtime config chunk updates the keys it
/// carries, an earlier-format key counting where the chunk does not carry
/// the namespaced one; any other chunk changes nothing.
pub open spec fn config_step(cfg: LlmConfigView, c: Chunk) -> LlmConfigView {
    if !is_runtime_config(c) {
        cfg
    } else {
        LlmConfigView {
            backend: either_str_setting(c, CONFIG_LLM_BACKEND@, CONFIG_BACKEND@, cfg.backend),
            model: either_str_setting(c, CONFIG_LLM_MODEL@, CONFIG_MODEL@, cfg.model),
            system_prompt: either_str_setting(
                c,
                CONFIG_LLM_SYSTEM_PROMPT@,
                CONFIG_SYSTEM_PROMPT@,
                cfg.system_prompt,
            ),
            temperature: either_json_setting(
                c,
                CONFIG_LLM_TEMPERATURE@,
                CONFIG_TEMPERATURE@,
                cfg.temperature,
            ),
            max_tokens: either_u32_setting(c, CONFIG_LLM_MAX_TOKENS@, CONFIG_MAX_TOKENS@, cfg.max_tokens),
            compaction_mode: str_setting(c, CONFIG_LLM_COMPACTION_MODE@, cfg.compaction_mode),
            max_history_messages: u32_setting(
                c,
                CONFIG_LLM_MAX_HISTORY_MESSAGES@,
                cfg.max_history_messages,
            ),
            max_history_chars: u32_setting(
                c,
                CONFIG_LLM_MAX_HISTORY_CHARS@,
                cfg.max_history_chars,
            ),
        }
    }
}

/// Nothing configured.
pub open spec fn unset_config() -> LlmConfigView {
    LlmConfigView {
        backend: None,
        model: None,
        system_prompt: None,
        temperature: None,
        max_tokens: None,
        compaction_mode: None,
        max_history_messages: None,
        max_history_chars: None,
    }
}

/// The settings of a history, read oldest first; later chunks win per key.
pub open spec fn config_of(history: Seq<Chunk>) -> LlmConfigView
    decreases history.len(),
{
    if history.len() == 0 {
        unset_config()
    } else {
        config_step(config_of(history.drop_last()), history.last())
    }
}

fn read_str(c: &Chunk, key: &str, cur: Option<String>) -> (r: Option<String>)
    ensures
        opt_view(r) == str_setting(*c, key@, opt_view(cur)),
{
    match ann_lookup(&c.annotations, key) {
        Some(v) => match as_str(v) {
            Some(s) => Some(s.clone()),
            None => None,
        },
        None => cur,
    }
}

fn has_key(c: &Chunk, key: &str) -> (r: bool)
    ensures
        r == carries(*c, key@),
{
    ann_lookup(&c.annotations, key).is_some()
}

fn read_json(c: &Chunk, key: &str, cur: Option<JsonValue>) -> (r: Option<JsonValue>)
    ensures
        opt_json(r) == json_setting(*c, key@, opt_json(cur)),
{
    match ann_lookup(&c.annotations, key) {
        Some(v) => Some(json_clone(v)),
        None => cur,
    }
}

/// An optional JSON value by its view.
pub open spec fn opt_json(o: Option<JsonValue>) -> Option<JsonView> {
    match o {
        Some(v) => Some(v@),
        None => None,
    }
}

fn read_u32(c: &Chunk, key: &str, cur: Option<u32>) -> (r: Option<u32>)
    ensures
        r == u32_setting(*c, key@, cur),
{
    match ann_lookup(&c.annotations, key) {
        Some(v) => to_lenient_u32(v),
        None => cur,
    }
}

/// Reads the LLM settings of a session from its runtime config chunks, in
/// order; a later chunk overrides the keys it carries and leaves the others.
pub fn extract_config(history: &[Chunk]) -> (r: LlmConfig)
    ensures
        r@ == config_of(history@),
{
    let mut backend: Option<String> = None;
    let mut model: Option<String> = None;
    let mut system_prompt: Option<String> = None;
    let mut temperature: Option<JsonValue> = None;
    let mut max_tokens: Option<u32> = None;
    let mut compaction_mode: Option<String> = None;
    let mut max_history_messages: Option<u32> = None;
    let mut max_history_chars: Option<u32> = None;
    let mut i: usize = 0;
    assert(history@.take(0) =~= Seq::<Chunk>::empty());
    while i < history.len()
        invariant
            0 <= i <= history@.len(),
            config_of(history@.take(i as int)) == (LlmConfigView {
                backend: opt_view(backend),
                model: opt_view(model),
                system_prompt: opt_view(system_prompt),
                temperature: opt_json(temperature),
                max_tokens,
                compaction_mode: opt_view(compaction_mode),
                max_history_messages,
                max_history_chars,
            }),
        decreases history.len() - i,
    {
        let c = &history[i];
        assert(history@.take(i + 1).drop_last() =~= history@.take(i as int));
        assert(history@.take(i + 1).last() == history@[i as int]);
        if is_runtime_config_chunk(c) {
            backend = if has_key(c, CONFIG_LLM_BACKEND) {
                read_str(c, CONFIG_LLM_BACKEND, backend)
            } else {
                read_str(c, CONFIG_BACKEND, backend)
            };
            model = if has_key(c, CONFIG_LLM_MODEL) {
                read_str(c, CONFIG_LLM_MODEL, model)
            } else {
                read_str(c, CONFIG_MODEL, model)
            };
            system_prompt = if has_key(c, CONFIG_LLM_SYSTEM_PROMPT) {
                read_str(c, CONFIG_LLM_SYSTEM_PROMPT, system_prompt)
            } else {
                read_str(c, CONFIG_SYSTEM_PROMPT, system_prompt)
            };
            temperature = if has_key(c, CONFIG_LLM_TEMPERATURE) {
                read_json(c, CONFIG_LLM_TEMPERATURE, temperature)
            } else {
                read_json(c, CONFIG_TEMPERATURE, temperature)
            };
            max_tokens = if has_key(c, CONFIG_LLM_MAX_TOKENS) {
                read_u32(c, CONFIG_LLM_MAX_TOKENS, max_tokens)
            } else {
                read_u32(c, CONFIG_MAX_TOKENS, max_tokens)
            };
            compaction_mode = read_str(c, CONFIG_LLM_COMPACTION_MODE, compaction_mode);
            max_history_messages = read_u32(c, CONFIG_LLM_MAX_HISTORY_MESSAGES, max_history_messages);
            max_history_chars = read_u32(c, CONFIG_LLM_MAX_HISTORY_CHARS, max_history_chars);
        }
        i = i + 1;
    }
    assert(history@.take(history@.len() as int) =~= history@);
    LlmConfig {
        backend,
        model,
        system_prompt,
        temperature,
        max_tokens,
        compaction_mode,
        max_history_messages,
        max_history_chars,
    }
}

/// Whether annotation `key` of `c` holds the string `t`.
pub open spec fn holds_str(c: Chunk, key: Seq<char>, t: Seq<char>) -> bool {
    ann_get(c@.annotations, key) == Some(JsonView::Str(t))
}

/// Whether annotation `key` of `c` holds the non-negative integer `n`.
pub open spec fn holds_count(c: Chunk, key: Seq<char>, n: u64) -> bool {
    ann_get(c@.annotations, key) == Some(JsonView::Number(JsonNumber::PosInt(n)))
}

/// A runtime config chunk sets each setting it carries, whatever came
/// before: a namespaced key gives its value; where the chunk does not carry
/// the namespaced key, the key of the earlier format gives its value; where
/// it carries neither, the setting stays as it was.
pub proof fn law_config_chunk_sets_its_keys(history: Seq<Chunk>, c: Chunk, t: Seq<char>, n: u64, v: JsonView)
    requires
        is_runtime_config(c),
    ensures
        ({
            let before = config_of(history);
            let after = config_of(history.push(c));
            &&& holds_count(c, CONFIG_LLM_MAX_TOKENS@, n) && n <= u32::MAX ==> after.max_tokens == Some(n as u32)
            &&& !carries(c, CONFIG_LLM_MAX_TOKENS@) && holds_count(c, CONFIG_MAX_TOKENS@, n) && n <= u32::MAX
                ==> after.max_tokens == Some(n as u32)
            &&& !carries(c, CONFIG_LLM_MAX_TOKENS@) && !carries(c, CONFIG_MAX_TOKENS@) ==> after.max_tokens
                == before.max_tokens
            &&& holds_str(c, CONFIG_LLM_BACKEND@, t) ==> after.backend == Some(t)
            &&& !carries(c, CONFIG_LLM_BACKEND@) && holds_str(c, CONFIG_BACKEND@, t) ==> after.backend == Some(t)
            &&& !carries(c, CONFIG_LLM_BACKEND@) && !carries(c, CONFIG_BACKEND@) ==> after.backend == before.backend
            &&& holds_str(c, CONFIG_LLM_MODEL@, t) ==> after.model == Some(t)
            &&& !carries(c, CONFIG_LLM_MODEL@) && holds_str(c, CONFIG_MODEL@, t) ==> after.model == Some(t)
            &&& !carries(c, CONFIG_LLM_MODEL@) && !carries(c, CONFIG_MODEL@) ==> after.model == before.model
            &&& holds_str(c, CONFIG_LLM_SYSTEM_PROMPT@, t) ==> after.system_prompt == Some(t)
            &&& !carries(c, CONFIG_LLM_SYSTEM_PROMPT@) && holds_str(c, CONFIG_SYSTEM_PROMPT@, t)
                ==> after.system_prompt == Some(t)
            &&& !carries(c, CONFIG_LLM_SYSTEM_PROMPT@) && !carries(c, CONFIG_SYSTEM_PROMPT@)
                ==> after.system_prompt == before.system_prompt
            &&& ann_get(c@.annotations, CONFIG_LLM_TEMPERATURE@) == Some(v) ==> after.temperature == Some(v)
            &&& !carries(c, CONFIG_LLM_TEMPERATURE@) && ann_get(c@.annotations, CONFIG_TEMPERATURE@) == Some(v)
                ==> after.temperature == Some(v)
            &&& !carries(c, CONFIG_LLM_TEMPERATURE@) && !carries(c, CONFIG_TEMPERATURE@) ==> after.temperature
                == before.temperature
            &&& holds_str(c, CONFIG_LLM_COMPACTION_MODE@, t) ==> after.compaction_mode == Some(t)
            &&& !carries(c, CONFIG_LLM_COMPACTION_MODE@) ==> after.compaction_mode == before.compaction_mode
            &&& holds_count(c, CONFIG_LLM_MAX_HISTORY_MESSAGES@, n) && n <= u32::MAX
                ==> after.max_history_messages == Some(n as u32)
            &&& !carries(c, CONFIG_LLM_MAX_HISTORY_MESSAGES@) ==> after.max_history_messages
                == before.max_history_messages
            &&& holds_count(c, CONFIG_LLM_MAX_HISTORY_CHARS@, n) && n <= u32::MAX
                ==> after.max_history_chars == Some(n as u32)
            &&& !carries(c, CONFIG_LLM_MAX_HISTORY_CHARS@) ==> after.max_history_chars
                == before.max_history_chars
        }),
{
    assert(history.push(c).drop_last() =~= history);
    assert(history.push(c).last() == c);
}

} // verus!
