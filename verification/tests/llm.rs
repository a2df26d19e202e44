use cafe_core::chunk::{
    Chunk, ContentType, JsonNumber, JsonValue, CHAT_ROLE, CONFIG_LLM_COMPACTION_MODE,
    CONFIG_LLM_MAX_HISTORY_CHARS, CONFIG_LLM_MAX_HISTORY_MESSAGES, CONFIG_LLM_MODEL,
    CONFIG_LLM_SYSTEM_PROMPT, CONFIG_MODEL, CONFIG_SYSTEM_PROMPT, CONFIG_TEMPERATURE, CONFIG_TYPE,
    SECURITY_TRUST_LEVEL,
};
use cafe_core::agent_runtime::config::CONFIG_LLM_TEMPERATURE;
use cafe_core::llm::config::Config;
use cafe_core::llm::context::{
    apply_compaction, build_messages, build_summary_request, extract_config, insert_summary,
    LlmConfig,
};
use cafe_core::llm::evaluator::{
    is_abort_signal, model_or_default, FinishReason, SessionEvaluator, StreamAction, StreamEvent,
    StreamState,
};
use cafe_core::llm::messages::LlmMessage;

fn s(v: &str) -> JsonValue {
    JsonValue::Str(v.to_string())
}

fn n(v: u64) -> JsonValue {
    JsonValue::Number(JsonNumber::PosInt(v))
}

fn text(content: &str, role: &str) -> Chunk {
    let mut c = Chunk::new_text("id".into(), content.into(), "producer".into());
    c.set_annotation(CHAT_ROLE.into(), s(role));
    c
}

fn runtime(pairs: &[(&str, JsonValue)]) -> Chunk {
    let mut c = Chunk::new_null("id".into(), "test".into());
    c.set_annotation(CONFIG_TYPE.into(), s("runtime"));
    for (k, v) in pairs {
        c.set_annotation(k.to_string(), v.clone());
    }
    c
}

fn sample_history() -> Vec<Chunk> {
    let mut h = vec![
        text("hi", "user"),
        Chunk::new_null("n".into(), "p".into()),
        text("hello", "assistant"),
        text("ignored", "tool"),
    ];
    let mut bin = text("bin", "user");
    bin.content_type = ContentType::Binary;
    h.push(bin);
    h.push(runtime(&[(CONFIG_LLM_MODEL, s("m1"))]));
    h
}

#[test]
fn build_messages_system_prompt_first() {
    for prompt in ["", "be brief", "system prompt"] {
        let messages = build_messages(&sample_history(), Some(prompt));
        assert!(!messages.is_empty());
        assert_eq!(messages[0].role, "system");
        assert_eq!(messages[0].content, prompt);
    }
}

#[test]
fn build_messages_filters_non_text() {
    let history = sample_history();
    let messages = build_messages(&history, None);
    for msg in &messages {
        assert!(msg.role == "user" || msg.role == "assistant");
        let matching = history.iter().any(|c| {
            c.content_type == ContentType::Text
                && c.role().map(|r| r.as_str()) == Some(msg.role.as_str())
                && c.content.as_deref() == Some(msg.content.as_str())
        });
        assert!(matching, "no chunk matched message role={} content={:?}", msg.role, msg.content);
    }
    assert_eq!(messages.len(), 2);
}

#[test]
fn build_messages_no_system_without_prompt() {
    let messages = build_messages(&sample_history(), None);
    for msg in &messages {
        assert_ne!(msg.role, "system", "no system prompt was provided");
    }
}

#[test]
fn build_messages_coalesces_consecutive_same_role() {
    let history = vec![
        text("first", "user"),
        text("second", "user"),
        text("assistant text", "assistant"),
        text("third", "user"),
        text("dup", "assistant"),
        text("dup2", "assistant"),
    ];
    let messages = build_messages(&history, None);
    let roles: Vec<&str> = messages.iter().map(|m| m.role.as_str()).collect();
    assert_eq!(roles, vec!["user", "assistant", "user", "assistant"]);
    assert_eq!(messages[0].content, "first\nsecond");
    assert_eq!(messages[3].content, "dup\ndup2");
}

#[test]
fn build_messages_skips_untrusted() {
    let mut untrusted = text("secret", "user");
    untrusted.set_annotation(
        SECURITY_TRUST_LEVEL.into(),
        JsonValue::Object(vec![("trusted".into(), "false".into())]),
    );
    let mut trusted = text("fine", "user");
    trusted.set_annotation(
        SECURITY_TRUST_LEVEL.into(),
        JsonValue::Object(vec![("trusted".into(), "true".into())]),
    );
    let messages = build_messages(&[untrusted, trusted], None);
    assert_eq!(messages.len(), 1);
    assert_eq!(messages[0].content, "fine");
}

#[test]
fn extract_config_idempotent() {
    let history = sample_history();
    let cfg1 = extract_config(&history);
    let cfg2 = extract_config(&history);
    assert_eq!(cfg1.backend, cfg2.backend);
    assert_eq!(cfg1.model, cfg2.model);
    assert_eq!(cfg1.system_prompt, cfg2.system_prompt);
}

#[test]
fn extract_config_namespaced_takes_priority() {
    let mut history = sample_history();
    history.push(runtime(&[(CONFIG_LLM_MODEL, s("namespaced-model")), (CONFIG_MODEL, s("legacy-model"))]));
    let cfg = extract_config(&history);
    assert_eq!(cfg.model, Some("namespaced-model".into()));
}

#[test]
fn extract_config_system_prompt_from_legacy() {
    let mut history = sample_history();
    history.push(runtime(&[(CONFIG_SYSTEM_PROMPT, s("legacy-prompt"))]));
    let cfg = extract_config(&history);
    assert_eq!(cfg.system_prompt, Some("legacy-prompt".into()));
}

#[test]
fn extract_config_ignores_non_config() {
    let mut chunks = sample_history();
    chunks.push(runtime(&[(CONFIG_LLM_MODEL, s("gemma3:1b"))]));
    let cfg = extract_config(&chunks);
    assert_eq!(cfg.model, Some("gemma3:1b".into()));
}

fn test_cfg(mode: Option<&str>, max_messages: Option<u32>, max_chars: Option<u32>) -> LlmConfig {
    LlmConfig {
        backend: None,
        model: None,
        system_prompt: None,
        temperature: None,
        max_tokens: None,
        compaction_mode: mode.map(String::from),
        max_history_messages: max_messages,
        max_history_chars: max_chars,
    }
}

fn msg(role: &str, content: &str) -> LlmMessage {
    LlmMessage { role: role.into(), content: content.into() }
}

fn test_messages() -> Vec<LlmMessage> {
    vec![msg("system", "sys"), msg("user", "aaa"), msg("assistant", "bbb"), msg("user", "ccc")]
}

#[test]
fn compaction_disabled_by_default() {
    let (out, info) = apply_compaction(test_messages(), &test_cfg(None, Some(1), Some(1)));
    assert_eq!(out.len(), 4);
    assert_eq!(info.dropped_messages, 0);
}

#[test]
fn compaction_none_mode_is_identity() {
    let (out, info) = apply_compaction(test_messages(), &test_cfg(Some("none"), Some(1), Some(1)));
    assert_eq!(out.len(), 4);
    assert_eq!(info.dropped_messages, 0);
}

#[test]
fn compaction_truncate_message_count() {
    let (out, info) = apply_compaction(test_messages(), &test_cfg(Some("truncate"), Some(2), None));
    assert_eq!(out.len(), 3);
    assert_eq!(out[0].role, "system");
    assert_eq!(out[1].content, "bbb");
    assert_eq!(out[2].content, "ccc");
    assert_eq!(info.dropped_messages, 1);
    assert_eq!(info.dropped_chars, 3);
}

#[test]
fn compaction_preserves_system_and_newest() {
    let (out, _) = apply_compaction(test_messages(), &test_cfg(Some("truncate"), Some(0), None));
    assert_eq!(out.len(), 4);
    let (out, info) = apply_compaction(test_messages(), &test_cfg(Some("truncate"), None, Some(1)));
    assert_eq!(out.len(), 2);
    assert_eq!(out[0].role, "system");
    assert_eq!(out[1].content, "ccc");
    assert_eq!(info.dropped_messages, 2);
}

#[test]
fn compaction_char_budget() {
    let (out, info) = apply_compaction(test_messages(), &test_cfg(Some("truncate"), None, Some(6)));
    assert_eq!(out.len(), 3);
    assert_eq!(out[1].content, "bbb");
    assert_eq!(out[2].content, "ccc");
    assert_eq!(info.dropped_messages, 1);
}

#[test]
fn compaction_both_budgets_first_hit_wins() {
    let (out, _) = apply_compaction(test_messages(), &test_cfg(Some("truncate"), Some(3), Some(3)));
    assert_eq!(out.len(), 2);
    assert_eq!(out[1].content, "ccc");
}

#[test]
fn compaction_summarize_compacts_like_truncate() {
    let (out_t, _) = apply_compaction(test_messages(), &test_cfg(Some("truncate"), Some(1), None));
    let (out_s, info_s) = apply_compaction(test_messages(), &test_cfg(Some("summarize"), Some(1), None));
    assert_eq!(out_t, out_s);
    assert_eq!(info_s.dropped_messages, 2);
    assert_eq!(info_s.dropped.len(), 2);
    assert_eq!(info_s.dropped[0].content, "aaa");
    assert_eq!(info_s.dropped[1].content, "bbb");
}

#[test]
fn compaction_dropped_is_empty_when_nothing_dropped() {
    let (_, info) = apply_compaction(test_messages(), &test_cfg(Some("truncate"), Some(10), None));
    assert_eq!(info.dropped_messages, 0);
    assert!(info.dropped.is_empty());
}

#[test]
fn compaction_counts_utf8_bytes() {
    let msgs = vec![msg("user", "é"), msg("user", "x")];
    let (out, info) = apply_compaction(msgs, &test_cfg(Some("truncate"), None, Some(2)));
    assert_eq!(out.len(), 1);
    assert_eq!(info.dropped_chars, 2);
}

#[test]
fn build_summary_request_covers_dropped_transcript() {
    let (_, info) = apply_compaction(test_messages(), &test_cfg(Some("summarize"), Some(1), None));
    let req = build_summary_request(&info.dropped);
    assert_eq!(req.len(), 2);
    assert_eq!(req[0].role, "system");
    assert_eq!(req[1].role, "user");
    assert!(req[1].content.contains("user: aaa"), "transcript must carry roles: {}", req[1].content);
    assert!(req[1].content.contains("assistant: bbb"), "transcript must carry roles: {}", req[1].content);
    assert_eq!(req[1].content, "user: aaa\nassistant: bbb\n");
}

#[test]
fn insert_summary_goes_after_system_prompt() {
    let (compacted, _) = apply_compaction(test_messages(), &test_cfg(Some("summarize"), Some(1), None));
    let out = insert_summary(compacted, "they discussed cats");
    assert_eq!(out.len(), 3);
    assert_eq!(out[0].role, "system");
    assert_eq!(out[0].content, "sys");
    assert_eq!(out[1].role, "system");
    assert!(out[1].content.contains("Prior conversation summary"), "{}", out[1].content);
    assert!(out[1].content.contains("they discussed cats"), "{}", out[1].content);
    assert_eq!(out[2].content, "ccc");
}

#[test]
fn insert_summary_without_system_prompt_goes_first() {
    let msgs = vec![msg("user", "hi")];
    let out = insert_summary(msgs, "s");
    assert_eq!(out.len(), 2);
    assert_eq!(out[0].role, "system");
    assert!(out[0].content.contains("Prior conversation summary"));
    assert_eq!(out[1].content, "hi");
}

#[test]
fn extract_config_reads_compaction_keys() {
    let chunk = runtime(&[
        (CONFIG_LLM_COMPACTION_MODE, s("truncate")),
        (CONFIG_LLM_MAX_HISTORY_MESSAGES, n(5)),
        (CONFIG_LLM_MAX_HISTORY_CHARS, n(1000)),
    ]);
    let cfg = extract_config(&[chunk]);
    assert_eq!(cfg.compaction_mode, Some("truncate".into()));
    assert_eq!(cfg.max_history_messages, Some(5));
    assert_eq!(cfg.max_history_chars, Some(1000));
}

#[test]
fn extract_config_compaction_later_wins() {
    let c1 = runtime(&[(CONFIG_LLM_MAX_HISTORY_MESSAGES, n(5))]);
    let c2 = runtime(&[(CONFIG_LLM_MAX_HISTORY_MESSAGES, n(2))]);
    let cfg = extract_config(&[c1, c2]);
    assert_eq!(cfg.max_history_messages, Some(2));
}

#[test]
fn extract_config_reads_counts_from_strings() {
    let c = runtime(&[(CONFIG_LLM_MAX_HISTORY_CHARS, s("+42")), (CONFIG_LLM_MAX_HISTORY_MESSAGES, s("x1"))]);
    let cfg = extract_config(&[c]);
    assert_eq!(cfg.max_history_chars, Some(42));
    assert_eq!(cfg.max_history_messages, None);
}

#[test]
fn evaluator_abort_and_default_model() {
    let mut abort = Chunk::new_null("a".into(), "p".into());
    abort.set_annotation("cafe.flow.signal".into(), s("abort"));
    assert!(is_abort_signal(&abort));
    assert!(!is_abort_signal(&text("abort", "user")));
    assert_eq!(model_or_default(&None, &"gemma".to_string()), "gemma");
    assert_eq!(model_or_default(&Some("x".into()), &"gemma".to_string()), "x");
    let mut ev = SessionEvaluator::new("s".into());
    ev.push_chunk(text("hi", "user"));
    ev.abort();
    assert!(ev.aborted);
    assert_eq!(ev.history.len(), 1);
}

#[test]
fn llm_config_defaults() {
    let c = Config::from_vars(None, None, None, None, None, None, None);
    assert_eq!(c.socket_path, "/tmp/cafe-bus.sock");
    assert_eq!(c.backend, "ollama");
    assert_eq!(c.ollama_model, "gemma3:1b");
    assert_eq!(c.openai_api_key, "");
    let c = Config::from_vars(Some("/s".into()), Some("openai".into()), None, None, None, Some("k".into()), None);
    assert_eq!(c.socket_path, "/s");
    assert_eq!(c.backend, "openai");
    assert_eq!(c.openai_api_key, "k");
}

#[test]
fn shared_abort_channel_stops_generation() {
    let mut st = StreamState::new();
    let mut emitted = 0;
    for (i, t) in ["hello ", "world"].iter().enumerate() {
        let a = st.step(StreamEvent::Token { text: t.to_string(), chunk_id: format!("tok-{i}") });
        assert_eq!(a, StreamAction::EmitToken);
        emitted += 1;
    }
    assert_eq!(st.step(StreamEvent::AbortChanged(false)), StreamAction::Continue);
    assert_eq!(st.step(StreamEvent::AbortChanged(true)), StreamAction::Finish);
    assert_eq!(st.finish, Some(FinishReason::Abort));
    assert_eq!(st.finish.unwrap().as_text(), "abort");
    assert_eq!(st.full_response, "hello world");
    assert_eq!(st.token_ids.len(), 2);
    assert!(emitted >= 2);
    assert!(st.has_response());
}

#[test]
fn stream_end_and_failure_reasons() {
    let mut st = StreamState::new();
    assert_eq!(st.step(StreamEvent::Ended), StreamAction::Finish);
    assert_eq!(st.finish.unwrap().as_text(), "stop");
    assert!(!st.has_response());
    let mut st = StreamState::new();
    st.step(StreamEvent::Token { text: "x".into(), chunk_id: "a".into() });
    assert_eq!(st.step(StreamEvent::Failed), StreamAction::Finish);
    assert_eq!(st.finish, Some(FinishReason::Error));
    assert_eq!(st.full_response, "x");
}

#[test]
fn legacy_prompt_in_last_chunk_wins_over_earlier_prompt() {
    let chunks = vec![
        runtime(&[(CONFIG_LLM_SYSTEM_PROMPT, s("namespaced-prompt"))]),
        runtime(&[(CONFIG_SYSTEM_PROMPT, s("legacy-prompt"))]),
    ];
    assert_eq!(extract_config(&chunks).system_prompt, Some("legacy-prompt".into()));
    let both = vec![runtime(&[(CONFIG_LLM_SYSTEM_PROMPT, s("ns")), (CONFIG_SYSTEM_PROMPT, s("old"))])];
    assert_eq!(extract_config(&both).system_prompt, Some("ns".into()));
}

#[test]
fn temperature_kept_as_given_with_legacy_fallback() {
    let chunks = vec![
        runtime(&[(CONFIG_LLM_TEMPERATURE, JsonValue::Number(JsonNumber::PosInt(1)))]),
        runtime(&[(CONFIG_TEMPERATURE, s("0.5"))]),
    ];
    assert_eq!(extract_config(&chunks).temperature, Some(s("0.5")));
    assert_eq!(extract_config(&chunks[..1]).temperature, Some(JsonValue::Number(JsonNumber::PosInt(1))));
}
