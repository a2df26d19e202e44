use cafe_core::agent_runtime::tool_executor::{rpc_step, RpcStepAction, RpcStepError};
use cafe_core::json_text::json_quote;
use cafe_core::agent_runtime::tool_executor::{tool_call_step, RpcResponse, ToolAction, ToolEvent};
use cafe_core::agent_runtime::work_queue::{StepWork, TriggerRun};
use cafe_core::agent_runtime::config::{
    resolve_session_config, Config, SessionConfig, CONFIG_COMFY_ENDPOINT,
    CONFIG_COMFY_WORKFLOW_INPUT_NODE, CONFIG_COMFY_WORKFLOW_PATH, CONFIG_LLM_TEMPERATURE,
    CONFIG_RSS_URL, CONFIG_SHEETBOT_API_KEY, CONFIG_SHEETBOT_URL, CONFIG_STT_BASE_URL,
    CONFIG_STT_RESPONSE_FORMAT, CONFIG_TTS_ENDPOINT, CONFIG_TTS_ENGINE, CONFIG_TTS_PROFILE,
};
use cafe_core::agent_runtime::executor::{
    build_rpc_params, is_enabled, trigger_matches, BuiltInEvaluator, PipelineContext,
    PipelineExecutor, StepDef, StepType, TriggerType,
};
use cafe_core::agent_runtime::loader::{AgentDefinition, AgentFile, InitialChunkTable};
use cafe_core::agent_runtime::shadowing::remove_shadowed;
use cafe_core::agent_runtime::tool_detector::{strip_tool_calls, tool_call_texts};
use cafe_core::chunk::{
    Chunk, JsonNumber, JsonValue, CONFIG_LLM_BACKEND, CONFIG_LLM_MAX_TOKENS, CONFIG_LLM_MODEL,
    CONFIG_LLM_SYSTEM_PROMPT, CONFIG_TYPE,
};

fn s(v: &str) -> JsonValue {
    JsonValue::Str(v.to_string())
}

fn jint(v: i64) -> JsonValue {
    if v >= 0 {
        JsonValue::Number(JsonNumber::PosInt(v as u64))
    } else {
        JsonValue::Number(JsonNumber::NegInt(v))
    }
}

fn float(v: f64) -> JsonValue {
    JsonValue::Number(JsonNumber::Float(v.to_bits()))
}

fn runtime_chunk(pairs: &[(&str, JsonValue)]) -> Chunk {
    let mut c = Chunk::new_null("cfg".into(), "test".into());
    c.set_annotation(CONFIG_TYPE.into(), s("runtime"));
    for (k, v) in pairs {
        c.set_annotation(k.to_string(), v.clone());
    }
    c
}

fn text_chunk(content: &str, producer: &str) -> Chunk {
    Chunk::new_text("t".into(), content.into(), producer.into())
}

fn binary_chunk() -> Chunk {
    let mut c = Chunk::new_null("b".into(), "test".into());
    c.content_type = cafe_core::chunk::ContentType::Binary;
    c.data = Some(vec![1, 2, 3]);
    c.mime_type = Some("audio/wav".into());
    c
}

fn extra_get<'a>(cfg: &'a SessionConfig, key: &str) -> Option<&'a JsonValue> {
    cfg.extra.iter().find(|(k, _)| k == key).map(|(_, v)| v)
}

/// The temperature as the runtime reads it: a JSON number, or text that
/// parses as one.
fn temperature(cfg: &SessionConfig) -> Option<f32> {
    match cfg.llm_temperature.as_ref()? {
        JsonValue::Number(JsonNumber::Float(bits)) => Some(f64::from_bits(*bits) as f32),
        JsonValue::Number(JsonNumber::PosInt(n)) => Some(*n as f32),
        JsonValue::Number(JsonNumber::NegInt(n)) => Some(*n as f32),
        JsonValue::Str(t) => t.parse().ok(),
        _ => None,
    }
}

fn assert_all_none(cfg: &SessionConfig) {
    assert!(cfg.llm_system_prompt.is_none());
    assert!(cfg.llm_temperature.is_none());
    assert!(cfg.llm_max_tokens.is_none());
    assert!(cfg.llm_model.is_none());
    assert!(cfg.llm_backend.is_none());
    assert!(cfg.tts_profile.is_none());
    assert!(cfg.tts_engine.is_none());
    assert!(cfg.tts_endpoint.is_none());
    assert!(cfg.comfy_workflow_path.is_none());
    assert!(cfg.comfy_workflow_input_node.is_none());
    assert!(cfg.comfy_endpoint.is_none());
    assert!(cfg.sheetbot_url.is_none());
    assert!(cfg.sheetbot_api_key.is_none());
    assert!(cfg.stt_base_url.is_none());
    assert!(cfg.stt_response_format.is_none());
    assert!(cfg.rss_url.is_none());
    assert!(cfg.extra.is_empty());
}

fn sample_values() -> Vec<JsonValue> {
    vec![
        JsonValue::Null,
        JsonValue::Bool(true),
        JsonValue::Bool(false),
        s(""),
        s("some text"),
        jint(42),
        jint(-7),
        jint(i64::MAX),
    ]
}

fn sample_histories() -> Vec<Vec<Chunk>> {
    vec![
        vec![],
        vec![text_chunk("hello", "test")],
        vec![binary_chunk(), runtime_chunk(&[(CONFIG_LLM_MODEL, s("m"))])],
        vec![
            runtime_chunk(&[("config.a.b", jint(3)), (CONFIG_LLM_SYSTEM_PROMPT, s("p"))]),
            text_chunk("hello", "test"),
            runtime_chunk(&[(CONFIG_LLM_MODEL, s("m2")), ("config.x", JsonValue::Null)]),
        ],
        vec![
            runtime_chunk(&[(CONFIG_LLM_TEMPERATURE, float(0.25))]),
            runtime_chunk(&[(CONFIG_LLM_MAX_TOKENS, s("512"))]),
            binary_chunk(),
        ],
    ]
}

const KNOWN_STRING_KEYS: [&str; 14] = [
    CONFIG_LLM_SYSTEM_PROMPT,
    CONFIG_LLM_MODEL,
    CONFIG_LLM_BACKEND,
    CONFIG_TTS_PROFILE,
    CONFIG_TTS_ENGINE,
    CONFIG_TTS_ENDPOINT,
    CONFIG_COMFY_WORKFLOW_PATH,
    CONFIG_COMFY_WORKFLOW_INPUT_NODE,
    CONFIG_COMFY_ENDPOINT,
    CONFIG_SHEETBOT_URL,
    CONFIG_SHEETBOT_API_KEY,
    CONFIG_STT_BASE_URL,
    CONFIG_STT_RESPONSE_FORMAT,
    CONFIG_RSS_URL,
];

fn string_field(cfg: &SessionConfig, key: &str) -> Option<String> {
    match key {
        CONFIG_LLM_SYSTEM_PROMPT => cfg.llm_system_prompt.clone(),
        CONFIG_LLM_MODEL => cfg.llm_model.clone(),
        CONFIG_LLM_BACKEND => cfg.llm_backend.clone(),
        CONFIG_TTS_PROFILE => cfg.tts_profile.clone(),
        CONFIG_TTS_ENGINE => cfg.tts_engine.clone(),
        CONFIG_TTS_ENDPOINT => cfg.tts_endpoint.clone(),
        CONFIG_COMFY_WORKFLOW_PATH => cfg.comfy_workflow_path.clone(),
        CONFIG_COMFY_WORKFLOW_INPUT_NODE => cfg.comfy_workflow_input_node.clone(),
        CONFIG_COMFY_ENDPOINT => cfg.comfy_endpoint.clone(),
        CONFIG_SHEETBOT_URL => cfg.sheetbot_url.clone(),
        CONFIG_SHEETBOT_API_KEY => cfg.sheetbot_api_key.clone(),
        CONFIG_STT_BASE_URL => cfg.stt_base_url.clone(),
        CONFIG_STT_RESPONSE_FORMAT => cfg.stt_response_format.clone(),
        CONFIG_RSS_URL => cfg.rss_url.clone(),
        _ => None,
    }
}

// ---------------------------------------------------------------------------
// Session configuration
// ---------------------------------------------------------------------------

#[test]
fn empty_history_returns_all_none() {
    let cfg = resolve_session_config(&[]);
    assert_all_none(&cfg);
}

#[test]
fn single_config_chunk_sets_system_prompt() {
    let chunk = runtime_chunk(&[(CONFIG_LLM_SYSTEM_PROMPT, s("Hello"))]);
    let cfg = resolve_session_config(&[chunk]);
    assert_eq!(cfg.llm_system_prompt, Some("Hello".into()));
    assert!(cfg.llm_temperature.is_none());
    assert!(cfg.llm_model.is_none());
    assert!(cfg.extra.is_empty());
}

#[test]
fn two_chunks_partial_update_preserves_earlier_keys() {
    let chunk1 = runtime_chunk(&[
        (CONFIG_LLM_SYSTEM_PROMPT, s("A")),
        (CONFIG_LLM_TEMPERATURE, float(0.5)),
    ]);
    let chunk2 = runtime_chunk(&[(CONFIG_LLM_SYSTEM_PROMPT, s("B"))]);
    let cfg = resolve_session_config(&[chunk1, chunk2]);
    assert_eq!(cfg.llm_system_prompt, Some("B".into()));
    assert!(
        (temperature(&cfg).unwrap() - 0.5).abs() < 1e-5,
        "temperature should survive the second chunk"
    );
}

#[test]
fn non_config_chunks_are_ignored() {
    let text = text_chunk("user message", "user");
    let config = runtime_chunk(&[(CONFIG_LLM_MODEL, s("gemma3:1b"))]);
    let another = text_chunk("assistant reply", "llm");
    let cfg = resolve_session_config(&[text, config, another]);
    assert_eq!(cfg.llm_model, Some("gemma3:1b".into()));
    assert!(cfg.llm_system_prompt.is_none());
    assert!(cfg.extra.is_empty());
}

#[test]
fn unknown_key_goes_to_extra() {
    let chunk = runtime_chunk(&[("config.foo.bar", s("baz"))]);
    let cfg = resolve_session_config(&[chunk]);
    assert_eq!(extra_get(&cfg, "config.foo.bar"), Some(&s("baz")));
}

#[test]
fn prop_empty_history_all_none() {
    assert_all_none(&resolve_session_config(&[]));
}

#[test]
fn prop_idempotent() {
    for chunks in sample_histories() {
        let cfg1 = resolve_session_config(&chunks);
        let cfg2 = resolve_session_config(&chunks);
        assert_eq!(cfg1.llm_system_prompt, cfg2.llm_system_prompt);
        assert_eq!(cfg1.llm_temperature, cfg2.llm_temperature);
        assert_eq!(cfg1.llm_max_tokens, cfg2.llm_max_tokens);
        assert_eq!(cfg1.llm_model, cfg2.llm_model);
        assert_eq!(cfg1.llm_backend, cfg2.llm_backend);
        assert_eq!(cfg1.tts_profile, cfg2.tts_profile);
        assert_eq!(cfg1.comfy_workflow_path, cfg2.comfy_workflow_path);
        assert_eq!(cfg1.sheetbot_url, cfg2.sheetbot_url);
        assert_eq!(cfg1.stt_base_url, cfg2.stt_base_url);
        assert_eq!(cfg1.rss_url, cfg2.rss_url);
    }
}

#[test]
fn prop_partial_update_preserves_unset_fields() {
    for chunks in sample_histories() {
        let chunks: Vec<Chunk> =
            chunks.into_iter().filter(|c| c.annotations.iter().any(|(k, _)| k == CONFIG_TYPE)).collect();
        let cfg = resolve_session_config(&chunks);
        let mut twice = chunks.clone();
        twice.extend(chunks);
        let cfg2 = resolve_session_config(&twice);
        assert_eq!(cfg.llm_system_prompt, cfg2.llm_system_prompt);
        assert_eq!(cfg.llm_temperature, cfg2.llm_temperature);
        assert_eq!(cfg.llm_model, cfg2.llm_model);
    }
}

#[test]
fn prop_non_config_chunks_ignored() {
    for chunks in sample_histories() {
        let cfg = resolve_session_config(&chunks);
        let only_config: Vec<Chunk> = chunks
            .iter()
            .filter(|c| c.annotations.iter().any(|(k, _)| k == CONFIG_TYPE))
            .cloned()
            .collect();
        let cfg2 = resolve_session_config(&only_config);
        assert_eq!(cfg.llm_model, cfg2.llm_model);
        assert_eq!(cfg.llm_system_prompt, cfg2.llm_system_prompt);
        assert_eq!(cfg.extra, cfg2.extra);
    }
}

#[test]
fn prop_unknown_keys_go_to_extra() {
    let annotations: Vec<(String, JsonValue)> = vec![
        ("config.a".into(), JsonValue::Null),
        ("config.b-c".into(), JsonValue::Bool(true)),
        ("config.d.e".into(), s("x")),
        ("config.a".into(), jint(9)),
        ("config._".into(), jint(-3)),
    ];
    let mut chunk = Chunk::new_null("p".into(), "proptest".into());
    chunk.set_annotation(CONFIG_TYPE.into(), s("runtime"));
    for (k, v) in &annotations {
        chunk.set_annotation(k.clone(), v.clone());
    }
    let cfg = resolve_session_config(&[chunk]);
    assert!(cfg.extra.len() <= annotations.len());
    assert_eq!(extra_get(&cfg, "config.a"), Some(&jint(9)));
}

#[test]
fn prop_later_chunks_override_earlier() {
    let histories = sample_histories();
    for first in &histories {
        for second in &histories {
            let mut combined = first.clone();
            combined.extend(second.iter().cloned());
            let cfg = resolve_session_config(&combined);
            let later = resolve_session_config(second);
            if later.llm_model.is_some() {
                assert_eq!(cfg.llm_model, later.llm_model);
            }
            if later.llm_system_prompt.is_some() {
                assert_eq!(cfg.llm_system_prompt, later.llm_system_prompt);
            }
        }
    }
}

#[test]
fn apply_known_string_key_sets_field() {
    for key in KNOWN_STRING_KEYS {
        for val in ["", "value", "gemma3:1b", "ünïcödé"] {
            let mut cfg = SessionConfig::default();
            cfg.apply_config_key(key, &s(val));
            assert_eq!(string_field(&cfg, key), Some(val.to_string()), "key {key}");
        }
    }
}

#[test]
fn apply_unknown_key_goes_to_extra() {
    for key in ["config.x", "config.foo_bar", "config.llm", "config.tts.enabled"] {
        for val in sample_values() {
            let mut cfg = SessionConfig::default();
            cfg.apply_config_key(key, &val);
            assert_eq!(extra_get(&cfg, key), Some(&val));
        }
    }
}

#[test]
fn apply_non_string_value_does_not_crash() {
    let mut keys: Vec<&str> = KNOWN_STRING_KEYS.to_vec();
    keys.push(CONFIG_LLM_TEMPERATURE);
    keys.push(CONFIG_LLM_MAX_TOKENS);
    for key in keys {
        for val in sample_values() {
            let mut cfg = SessionConfig::default();
            cfg.apply_config_key(key, &val);
            if !matches!(val, JsonValue::Str(_)) && key != CONFIG_LLM_TEMPERATURE {
                assert_eq!(string_field(&cfg, key), None);
            }
        }
    }
}

#[test]
fn apply_temperature_from_number() {
    for t in [0.0f32, 0.7, 1.0, -2.5, 1e-3, 3.4e38, f32::MIN_POSITIVE] {
        let mut cfg = SessionConfig::default();
        cfg.apply_config_key(CONFIG_LLM_TEMPERATURE, &float(t as f64));
        assert!((temperature(&cfg).unwrap() - t).abs() < 1e-6);
    }
}

#[test]
fn apply_temperature_from_string() {
    let mut cfg = SessionConfig::default();
    cfg.apply_config_key(CONFIG_LLM_TEMPERATURE, &s("0.7"));
    assert!((temperature(&cfg).unwrap() - 0.7).abs() < 1e-5);
}

#[test]
fn max_tokens_accepts_number_and_text() {
    let mut cfg = SessionConfig::default();
    cfg.apply_config_key(CONFIG_LLM_MAX_TOKENS, &jint(256));
    assert_eq!(cfg.llm_max_tokens, Some(256));
    cfg.apply_config_key(CONFIG_LLM_MAX_TOKENS, &s("512"));
    assert_eq!(cfg.llm_max_tokens, Some(512));
    cfg.apply_config_key(CONFIG_LLM_MAX_TOKENS, &s("many"));
    assert_eq!(cfg.llm_max_tokens, None);
}

#[test]
fn runtime_config_from_vars() {
    let c = Config::from_vars(None, None);
    assert_eq!(c.socket_path, "/tmp/cafe-bus.sock");
    assert_eq!(c.agent_paths, vec!["./agents".to_string()]);
    let c = Config::from_vars(Some("/run/bus".into()), Some("/a:/b"));
    assert_eq!(c.socket_path, "/run/bus");
    assert_eq!(c.agent_paths, vec!["./agents".to_string(), "/a".into(), "/b".into()]);
}

// ---------------------------------------------------------------------------
// Pipeline executor
// ---------------------------------------------------------------------------

fn step(id: &str, step_type: &str, trigger: &str, enabled_if: Option<&str>) -> StepDef {
    StepDef {
        id: id.into(),
        step_type: step_type.into(),
        trigger: trigger.into(),
        enabled_if: enabled_if.map(String::from),
    }
}

fn sample_strings() -> Vec<String> {
    ["", "tts", "llm", "step_complete", "a:b", "ünï", "step_complete:", " x "]
        .iter()
        .map(|s| s.to_string())
        .collect()
}

#[test]
fn trigger_type_from_str_user_message() {
    assert_eq!(TriggerType::from_str("user_message"), TriggerType::UserMessage);
}

#[test]
fn trigger_type_from_str_llm_complete() {
    assert_eq!(TriggerType::from_str("llm_complete"), TriggerType::LlmComplete);
}

#[test]
fn trigger_type_from_str_scheduler_tick() {
    assert_eq!(TriggerType::from_str("scheduler_tick"), TriggerType::SchedulerTick);
}

#[test]
fn trigger_type_from_str_step_complete() {
    assert_eq!(
        TriggerType::from_str("step_complete:tts"),
        TriggerType::StepComplete("tts".into())
    );
}

#[test]
fn trigger_type_from_str_unknown_is_user_message() {
    assert_eq!(TriggerType::from_str("whatever"), TriggerType::UserMessage);
}

#[test]
fn step_type_from_str_builtin() {
    assert!(matches!(StepType::from_str("trust-filter"), StepType::BuiltIn(BuiltInEvaluator::TrustFilter)));
    assert!(matches!(StepType::from_str("tool-detector"), StepType::BuiltIn(BuiltInEvaluator::ToolDetector)));
    assert!(matches!(StepType::from_str("tool-executor"), StepType::BuiltIn(BuiltInEvaluator::ToolExecutor)));
    assert!(matches!(StepType::from_str("role-annotator"), StepType::BuiltIn(BuiltInEvaluator::RoleAnnotator)));
}

#[test]
fn step_type_from_str_rpc() {
    assert!(matches!(StepType::from_str("llm"), StepType::Rpc(_)));
    assert!(matches!(StepType::from_str("tts"), StepType::Rpc(_)));
    assert!(matches!(StepType::from_str("comfy"), StepType::Rpc(_)));
    assert!(matches!(StepType::from_str("rss-fetch"), StepType::Rpc(_)));
}

#[test]
fn trigger_matches_user_message() {
    assert!(trigger_matches("user_message", &TriggerType::UserMessage));
    assert!(!trigger_matches("llm_complete", &TriggerType::UserMessage));
}

#[test]
fn trigger_matches_step_complete() {
    assert!(trigger_matches("step_complete:tts", &TriggerType::StepComplete("tts".into())));
    assert!(!trigger_matches("step_complete:tts", &TriggerType::StepComplete("comfy".into())));
}

#[test]
fn is_enabled_no_field() {
    let st = step("test", "llm", "user_message", None);
    assert!(is_enabled(&st, &SessionConfig::default()));
}

#[test]
fn is_enabled_true() {
    let st = step("test", "tts", "llm_complete", Some("config.tts.enabled"));
    let mut config = SessionConfig::default();
    config.extra.push(("config.tts.enabled".into(), JsonValue::Bool(true)));
    assert!(is_enabled(&st, &config));
}

#[test]
fn is_enabled_false() {
    let st = step("test", "tts", "llm_complete", Some("config.tts.enabled"));
    assert!(!is_enabled(&st, &SessionConfig::default()));
}

#[test]
fn trigger_type_from_str_never_panics() {
    for s in sample_strings() {
        let _ = TriggerType::from_str(&s);
    }
}

#[test]
fn trigger_type_step_complete_roundtrip() {
    for id in sample_strings() {
        let prefixed = format!("step_complete:{}", id);
        assert_eq!(TriggerType::from_str(&prefixed), TriggerType::StepComplete(id));
    }
}

#[test]
fn step_type_from_str_never_panics() {
    for s in sample_strings() {
        let _ = StepType::from_str(&s);
    }
}

#[test]
fn step_type_builtin_roundtrip() {
    let all = [
        (BuiltInEvaluator::RoleAnnotator, "role-annotator"),
        (BuiltInEvaluator::TrustFilter, "trust-filter"),
        (BuiltInEvaluator::ToolDetector, "tool-detector"),
        (BuiltInEvaluator::ToolExecutor, "tool-executor"),
        (BuiltInEvaluator::Mcp, "mcp"),
    ];
    for (eval, name) in all {
        assert!(matches!(StepType::from_str(name), StepType::BuiltIn(e) if e == eval));
    }
}

#[test]
fn trigger_matches_wildcard_step_complete() {
    for id in sample_strings() {
        assert!(trigger_matches("step_complete", &TriggerType::StepComplete(id)));
    }
}

#[test]
fn trigger_matches_specific_step_complete() {
    for id in sample_strings() {
        let trigger = format!("step_complete:{}", id);
        assert!(trigger_matches(&trigger, &TriggerType::StepComplete(id.clone())));
        let other = format!("{}x", id);
        assert!(!trigger_matches(&trigger, &TriggerType::StepComplete(other)));
    }
}

#[test]
fn trigger_matches_exact() {
    let mut events = vec![TriggerType::UserMessage, TriggerType::LlmComplete, TriggerType::SchedulerTick];
    for id in sample_strings() {
        events.push(TriggerType::StepComplete(id));
    }
    let mut triggers = sample_strings();
    triggers.extend(["user_message", "llm_complete", "scheduler_tick", "step_complete:tts"].map(String::from));
    for event in &events {
        for trigger in &triggers {
            let expected = match event {
                TriggerType::UserMessage => trigger == "user_message",
                TriggerType::LlmComplete => trigger == "llm_complete",
                TriggerType::SchedulerTick => trigger == "scheduler_tick",
                TriggerType::StepComplete(id) => {
                    *trigger == format!("step_complete:{}", id) || trigger == "step_complete"
                }
            };
            assert_eq!(trigger_matches(trigger, event), expected);
        }
    }
}

#[test]
fn is_enabled_when_no_field() {
    for id in sample_strings() {
        for t in sample_strings() {
            let st = step(&id, &t, &t, None);
            assert!(is_enabled(&st, &SessionConfig::default()));
        }
    }
}

#[test]
fn is_enabled_depends_on_key() {
    for key in ["a", "config.tts.enabled", "x-y_z.w"] {
        for val in [true, false] {
            let st = step("s", "llm", "user_message", Some(key));
            let mut config = SessionConfig::default();
            config.extra.push((key.into(), JsonValue::Bool(val)));
            assert_eq!(is_enabled(&st, &config), val);
        }
    }
}

fn sample_config() -> SessionConfig {
    let mut c = SessionConfig::default();
    c.tts_engine = Some("piper".into());
    c.comfy_workflow_path = Some("/wf.json".into());
    c.comfy_workflow_input_node = Some("6".into());
    c.extra.push(("config.k".into(), JsonValue::Bool(true)));
    c
}

fn sample_contexts() -> Vec<PipelineContext> {
    vec![
        PipelineContext {
            session_id: "".into(),
            config: SessionConfig::default(),
            assembled_llm_text: None,
            user_text: None,
            depth: 0,
        },
        PipelineContext {
            session_id: "s-1".into(),
            config: sample_config(),
            assembled_llm_text: Some("reply \"quoted\"".into()),
            user_text: Some("question".into()),
            depth: 3,
        },
        PipelineContext {
            session_id: "ünï\n".into(),
            config: sample_config(),
            assembled_llm_text: None,
            user_text: Some("only user".into()),
            depth: u32::MAX,
        },
    ]
}

fn member(params: &JsonValue, key: &str) -> Option<serde_json::Value> {
    match params {
        JsonValue::Object(ms) => ms
            .iter()
            .find(|(k, _)| k == key)
            .map(|(_, v)| serde_json::from_str(v).unwrap()),
        _ => None,
    }
}

#[test]
fn build_rpc_params_always_returns_object() {
    for ns in ["llm", "tts", "stt", "comfy", "", "other"] {
        for ctx in sample_contexts() {
            assert!(matches!(build_rpc_params(ns, &ctx), JsonValue::Object(_)));
        }
    }
}

#[test]
fn build_rpc_params_llm_has_session_id() {
    for ctx in sample_contexts() {
        let params = build_rpc_params("llm", &ctx);
        assert_eq!(member(&params, "session_id"), Some(serde_json::Value::String(ctx.session_id.clone())));
    }
}

#[test]
fn build_rpc_params_tts_has_text() {
    for ctx in sample_contexts() {
        let params = build_rpc_params("tts", &ctx);
        assert!(member(&params, "text").unwrap().is_string());
    }
}

#[test]
fn build_rpc_params_comfy_has_prompt() {
    for ctx in sample_contexts() {
        let params = build_rpc_params("comfy", &ctx);
        assert!(member(&params, "prompt").unwrap().is_string());
    }
}

#[test]
fn build_rpc_params_stt_has_session_id() {
    for ctx in sample_contexts() {
        let params = build_rpc_params("stt", &ctx);
        assert_eq!(member(&params, "session_id"), Some(serde_json::Value::String(ctx.session_id.clone())));
    }
}

#[test]
fn build_rpc_params_fallback_has_session_id() {
    for ctx in sample_contexts() {
        let params = build_rpc_params("unknown-namespace", &ctx);
        assert!(member(&params, "session_id").unwrap().is_string());
    }
}

#[test]
fn build_rpc_params_exact_members() {
    let ctx = &sample_contexts()[1];
    let tts = build_rpc_params("tts", ctx);
    assert_eq!(
        tts,
        JsonValue::Object(vec![
            ("engine".into(), "\"piper\"".into()),
            ("profile".into(), "null".into()),
            ("text".into(), "\"reply \\\"quoted\\\"\"".into()),
        ])
    );
    let comfy = build_rpc_params("comfy", ctx);
    assert_eq!(
        comfy,
        JsonValue::Object(vec![
            ("input_node".into(), "\"6\"".into()),
            ("prompt".into(), "\"reply \\\"quoted\\\"\"".into()),
            ("workflow_path".into(), "\"/wf.json\"".into()),
        ])
    );
    let other = build_rpc_params("rss", &sample_contexts()[2]);
    assert_eq!(member(&other, "text"), Some(serde_json::Value::String("only user".into())));
}

#[test]
fn executor_dispatches_matching_enabled_steps() {
    let exec = PipelineExecutor::new(
        vec![
            step("llm", "llm", "user_message", None),
            step("tts", "tts", "llm_complete", Some("config.tts.enabled")),
            step("after", "comfy", "step_complete", None),
        ],
        60_000,
        2,
    );
    let cfg = SessionConfig::default();
    assert_eq!(exec.eligible_steps(&TriggerType::UserMessage, &cfg), vec![0]);
    assert!(exec.eligible_steps(&TriggerType::LlmComplete, &cfg).is_empty());
    let mut on = SessionConfig::default();
    on.extra.push(("config.tts.enabled".into(), JsonValue::Bool(true)));
    assert_eq!(exec.eligible_steps(&TriggerType::LlmComplete, &on), vec![1]);
    assert_eq!(exec.follow_up(0, 0), (TriggerType::StepComplete("llm".into()), 1));
    assert!(exec.depth_exceeded(&TriggerType::StepComplete("x".into()), 2));
    assert!(!exec.depth_exceeded(&TriggerType::StepComplete("x".into()), 1));
    assert!(!exec.depth_exceeded(&TriggerType::UserMessage, 5));
}

// ---------------------------------------------------------------------------
// Agent files
// ---------------------------------------------------------------------------

fn agent_file(name: &str) -> AgentFile {
    AgentFile {
        name: name.into(),
        description: None,
        background: None,
        allows_reload: None,
        persists_state: None,
        steps: None,
        schedule: None,
        initial_chunk_content: None,
        initial_chunk_type: None,
        initial_chunk_data: None,
        initial_chunk_mime_type: None,
        initial_chunk_annotations: None,
        initial_chunk: None,
        rpc_timeout_secs: None,
        max_pipeline_depth: None,
        ephemeral_keepalive_secs: None,
        ephemeral_count_role: None,
    }
}

fn ann<'a>(d: &'a AgentDefinition, key: &str) -> Option<&'a JsonValue> {
    d.initial_chunk_annotations.iter().find(|(k, _)| k == key).map(|(_, v)| v)
}

#[test]
fn test_load_agent_file() {
    let mut f = agent_file("test-agent");
    f.description = Some("A test agent".into());
    let agent = AgentDefinition::from_file(f);
    assert_eq!(agent.name, "test-agent");
    assert_eq!(agent.description, "A test agent");
    assert!(!agent.background);
    assert!(agent.allows_reload);
    assert!(agent.persists_state);
    assert_eq!(agent.steps.len(), 1);
    assert_eq!(agent.steps[0].id, "llm");
    assert_eq!(agent.steps[0].trigger, "user_message");
    assert_eq!(agent.initial_chunk_type, "text");
    assert_eq!(agent.rpc_timeout_secs, 60);
    assert_eq!(agent.max_pipeline_depth, 10);
}

#[test]
fn test_load_agent_file_with_initial_chunk() {
    let mut f = agent_file("test-agent");
    f.description = Some("A test agent".into());
    f.initial_chunk_content = Some("Hello from test!".into());
    f.initial_chunk_type = Some("text".into());
    let agent = AgentDefinition::from_file(f);
    assert_eq!(agent.name, "test-agent");
    assert_eq!(agent.description, "A test agent");
    assert_eq!(agent.initial_chunk_content, "Hello from test!");
    assert_eq!(agent.initial_chunk_type, "text");
    assert_eq!(agent.initial_chunk_annotations.len(), 0);
}

#[test]
fn test_load_agent_file_with_null_chunk() {
    let mut f = agent_file("test-agent");
    f.description = Some("A test agent".into());
    f.initial_chunk_type = Some("null".into());
    let agent = AgentDefinition::from_file(f);
    assert_eq!(agent.name, "test-agent");
    assert_eq!(agent.description, "A test agent");
    assert_eq!(agent.initial_chunk_content, "");
    assert_eq!(agent.initial_chunk_type, "null");
    assert_eq!(agent.initial_chunk_annotations.len(), 0);
}

#[test]
fn test_load_agent_file_with_annotations_in_toml() {
    let mut f = agent_file("test-agent");
    f.description = Some("A test agent".into());
    f.initial_chunk_content = Some("Hello from test!".into());
    f.initial_chunk_type = Some("text".into());
    f.initial_chunk_annotations =
        Some(vec![("chat.source".into(), s("test")), ("chat.priority".into(), s("high"))]);
    let agent = AgentDefinition::from_file(f);
    assert_eq!(agent.name, "test-agent");
    assert_eq!(agent.description, "A test agent");
    assert_eq!(agent.initial_chunk_content, "Hello from test!");
    assert_eq!(agent.initial_chunk_type, "text");
    assert!(!agent.initial_chunk_annotations.is_empty());
}

#[test]
fn test_agent_file_to_definition_with_annotations() {
    let f = AgentFile {
        name: "test-agent".to_string(),
        description: Some("A test agent".to_string()),
        background: Some(false),
        allows_reload: Some(true),
        persists_state: Some(true),
        steps: Some(vec![step("llm", "llm", "user_message", None)]),
        schedule: Some("0 0 * * *".to_string()),
        initial_chunk_content: Some("Hello from test!".to_string()),
        initial_chunk_type: Some("text".to_string()),
        initial_chunk_data: None,
        initial_chunk_mime_type: None,
        initial_chunk_annotations: Some(vec![
            ("chat.source".into(), s("test")),
            ("chat.priority".into(), s("high")),
            ("custom.value".into(), jint(42)),
        ]),
        initial_chunk: None,
        rpc_timeout_secs: None,
        max_pipeline_depth: None,
        ephemeral_keepalive_secs: None,
        ephemeral_count_role: None,
    };
    let agent = AgentDefinition::from_file(f);
    assert_eq!(agent.name, "test-agent");
    assert_eq!(agent.description, "A test agent");
    assert!(!agent.background);
    assert!(agent.allows_reload);
    assert!(agent.persists_state);
    assert_eq!(agent.steps.len(), 1);
    assert_eq!(agent.steps[0].step_type, "llm");
    assert_eq!(agent.steps[0].trigger, "user_message");
    assert_eq!(agent.schedule, Some("0 0 * * *".to_string()));
    assert_eq!(agent.initial_chunk_content, "Hello from test!");
    assert_eq!(agent.initial_chunk_type, "text");
    assert_eq!(agent.initial_chunk_data, None);
    assert_eq!(agent.initial_chunk_mime_type, None);
    assert_eq!(ann(&agent, "chat.source"), Some(&s("test")));
    assert_eq!(ann(&agent, "chat.priority"), Some(&s("high")));
    assert_eq!(ann(&agent, "custom.value"), Some(&jint(42)));
    assert!(agent.ephemeral_keepalive_secs.is_none());
    assert!(agent.ephemeral_count_role.is_none());
}

#[test]
fn test_load_agent_file_with_nested_initial_chunk_null() {
    let mut f = agent_file("volition");
    f.steps = Some(vec![
        step("stt", "stt", "user_message", None),
        step("llm", "llm", "user_message", None),
        step("tts", "tts", "llm_complete", None),
    ]);
    f.initial_chunk = Some(InitialChunkTable {
        chunk_type: Some("null".into()),
        content: None,
        data: None,
        mime_type: None,
        annotations: Some(vec![
            ("config.type".into(), s("runtime")),
            ("config.llm.system_prompt".into(), s("You are Volition")),
            ("config.llm.temperature".into(), float(0.7)),
            ("config.tts.profile".into(), s("Volition")),
        ]),
    });
    let agent = AgentDefinition::from_file(f);
    assert_eq!(agent.name, "volition");
    assert_eq!(agent.initial_chunk_type, "null");
    assert_eq!(agent.steps.len(), 3);
    assert_eq!(ann(&agent, "config.type"), Some(&s("runtime")));
    assert_eq!(ann(&agent, "config.llm.system_prompt"), Some(&s("You are Volition")));
    assert_eq!(ann(&agent, "config.tts.profile"), Some(&s("Volition")));
}

#[test]
fn test_nested_initial_chunk_overrides_flat_keys() {
    let mut f = agent_file("agent");
    f.initial_chunk_content = Some("flat content".into());
    f.initial_chunk_type = Some("text".into());
    f.initial_chunk = Some(InitialChunkTable {
        chunk_type: Some("null".into()),
        content: None,
        data: None,
        mime_type: None,
        annotations: Some(vec![("config.type".into(), s("runtime"))]),
    });
    let agent = AgentDefinition::from_file(f);
    assert_eq!(agent.initial_chunk_type, "null");
    assert_eq!(agent.initial_chunk_content, "");
    assert!(ann(&agent, "config.type").is_some());
}

#[test]
fn agent_file_binary_data_is_decoded() {
    let mut f = agent_file("bin");
    f.initial_chunk_type = Some("binary".into());
    f.initial_chunk_data = Some("AQID".into());
    assert_eq!(AgentDefinition::from_file(f).initial_chunk_data, Some(vec![1, 2, 3]));
    let mut bad = agent_file("bad");
    bad.initial_chunk_data = Some("not base64!".into());
    assert_eq!(AgentDefinition::from_file(bad).initial_chunk_data, None);
}

// ---------------------------------------------------------------------------
// Shadowing by JavaScript agents
// ---------------------------------------------------------------------------

fn def(name: &str) -> (String, AgentDefinition) {
    (format!("{name}.toml"), AgentDefinition::from_file(agent_file(name)))
}

#[test]
fn remove_shadowed_drops_js_claimed_names() {
    let mut agents = vec![def("default"), def("dice"), def("rot13")];
    let js = vec!["default".to_string(), "rot13".to_string()];
    let removed = remove_shadowed(&mut agents, &js);
    assert_eq!(removed, vec!["default".to_string(), "rot13".to_string()]);
    let names: Vec<&str> = agents.iter().map(|(_, d)| d.name.as_str()).collect();
    assert_eq!(names, vec!["dice"]);
}

#[test]
fn remove_shadowed_reports_each_name_once() {
    let mut agents = vec![def("default"), def("default")];
    let js = vec!["default".to_string()];
    assert_eq!(remove_shadowed(&mut agents, &js), vec!["default".to_string()]);
    assert!(agents.is_empty());
}

#[test]
fn remove_shadowed_no_js_agents_is_a_noop() {
    let mut agents = vec![def("default")];
    let removed = remove_shadowed(&mut agents, &Vec::new());
    assert!(removed.is_empty());
    assert_eq!(agents.len(), 1);
}

#[test]
fn remove_shadowed_reports_sorted() {
    let mut agents = vec![def("zeta"), def("alpha"), def("mid"), def("alpha")];
    let js = vec!["mid".to_string(), "zeta".to_string(), "alpha".to_string(), "none".to_string()];
    let removed = remove_shadowed(&mut agents, &js);
    assert_eq!(removed, vec!["alpha".to_string(), "mid".to_string(), "zeta".to_string()]);
    assert!(agents.is_empty());
}

// ---------------------------------------------------------------------------
// Tool calls in replies
// ---------------------------------------------------------------------------

/// Finds the marked tool calls and the cleaned text, reading each call's
/// JSON as the runtime does; calls whose JSON does not parse are skipped.
fn detect(text: &str) -> (String, Vec<serde_json::Value>) {
    let calls: Vec<serde_json::Value> = tool_call_texts(text)
        .iter()
        .filter_map(|t| serde_json::from_str::<serde_json::Value>(t).ok())
        .filter(|v| v.get("name").map_or(false, |n| n.is_string()) && v.get("parameters").is_some())
        .collect();
    (strip_tool_calls(text, !calls.is_empty()), calls)
}

fn sample_texts() -> Vec<String> {
    ["", "plain", "  spaced  ", "a<|tool_call", "ünï<|tool_call_end|>", "{\"name\":\"x\"}"]
        .iter()
        .map(|s| s.to_string())
        .collect()
}

#[test]
fn no_tool_calls() {
    let text = "Hello, how can I help you?";
    let (cleaned, calls) = detect(text);
    assert_eq!(cleaned, text);
    assert!(calls.is_empty());
}

#[test]
fn single_tool_call() {
    let text = r#"Let me look that up.<|tool_call|>{"name":"sheetbot.list_tasks","parameters":{}}<|tool_call_end|>Give me a moment."#;
    let (cleaned, calls) = detect(text);
    assert_eq!(cleaned, "Let me look that up.Give me a moment.");
    assert_eq!(calls.len(), 1);
    assert_eq!(calls[0]["name"], "sheetbot.list_tasks");
}

#[test]
fn multiple_tool_calls() {
    let text = format!(
        "{}{}",
        r#"<|tool_call|>{"name":"sheetbot.list_sheets","parameters":{}}<|tool_call_end|>"#,
        r#"<|tool_call|>{"name":"sheetbot.list_tasks","parameters":{}}<|tool_call_end|>"#
    );
    let (cleaned, calls) = detect(&text);
    assert_eq!(cleaned, "");
    assert_eq!(calls.len(), 2);
    assert_eq!(calls[0]["name"], "sheetbot.list_sheets");
    assert_eq!(calls[1]["name"], "sheetbot.list_tasks");
}

#[test]
fn tool_call_with_params() {
    let text = r#"<|tool_call|>{"name":"sheetbot.get_task","parameters":{"id":"abc-123"}}<|tool_call_end|>"#;
    let (_, calls) = detect(text);
    assert_eq!(calls.len(), 1);
    assert_eq!(calls[0]["name"], "sheetbot.get_task");
    assert_eq!(calls[0]["parameters"]["id"], "abc-123");
}

#[test]
fn invalid_json_is_skipped() {
    let text = r"<|tool_call|>{bad json}<|tool_call_end|>";
    let (_, calls) = detect(text);
    assert!(calls.is_empty());
}

#[test]
fn detect_never_panics() {
    for text in sample_texts() {
        let (cleaned, _) = detect(&text);
        assert!(cleaned.len() <= text.len() + 1);
    }
}

#[test]
fn detect_removes_markers() {
    for before in sample_texts() {
        for after in sample_texts() {
            let text = format!(
                "{}<|tool_call|>{}\n<|tool_call_end|>{}",
                before, r#"{"name":"n","parameters":{"k":1}}"#, after
            );
            let (cleaned, calls) = detect(&text);
            assert!(!calls.is_empty());
            let expected = format!("{}{}", before, after);
            assert_eq!(cleaned, expected.trim());
        }
    }
}

#[test]
fn detect_valid_json_parses() {
    for name in ["a", "sheetbot.list", "ünï"] {
        let call = format!(r#"{{"name":"{}","parameters":{{"x":null}}}}"#, name);
        let text = format!("<|tool_call|>{}<|tool_call_end|>", call);
        let (_, calls) = detect(&text);
        assert!(!calls.is_empty());
        for c in &calls {
            assert!(!c["name"].as_str().unwrap().is_empty());
        }
    }
}

#[test]
fn detect_plain_text_no_calls() {
    for text in sample_texts() {
        let (cleaned, calls) = detect(&text);
        if !text.contains("<|tool_call|>") {
            assert!(calls.is_empty());
            assert_eq!(cleaned.trim(), text.trim());
        }
    }
}

#[test]
fn detect_malformed_json_skipped() {
    for inner in ["", "{", "{}x", "{\"name\":", "}"] {
        let text = format!("<|tool_call|>{}<|tool_call_end|>", inner);
        let (_, calls) = detect(&text);
        assert!(calls.is_empty());
    }
}

#[test]
fn detect_handles_unclosed_marker() {
    for text in sample_texts() {
        let text = format!("{}<|tool_call|>", text);
        let (_, calls) = detect(&text);
        assert!(calls.is_empty());
    }
}

#[test]
fn detect_handles_empty_markers() {
    let (cleaned, calls) = detect("<|tool_call|><|tool_call_end|>");
    assert!(calls.is_empty());
    assert!(cleaned.contains("<|tool_call|>") || cleaned.is_empty());
}

#[test]
fn tool_call_texts_are_group_one() {
    let text = "x<|tool_call|> {\"a\":1} \n<|tool_call_end|>y<|tool_call|>{}<|tool_call_end|>";
    assert_eq!(tool_call_texts(text), vec!["{\"a\":1}".to_string(), "{}".to_string()]);
    assert_eq!(strip_tool_calls(text, true), "xy");
    assert_eq!(strip_tool_calls(text, false), text);
}

// ---------------------------------------------------------------------------
// Evaluator schemas
// ---------------------------------------------------------------------------

use cafe_core::agent_runtime::schema_registry::{EvaluatorSchema, SchemaRegistry};

fn schema(name: &str, description: &str) -> EvaluatorSchema {
    let object = JsonValue::Object(vec![
        ("properties".into(), "{}".into()),
        ("type".into(), "\"object\"".into()),
    ]);
    EvaluatorSchema {
        name: name.into(),
        description: description.into(),
        config_schema: object.clone(),
        rpc_params_schema: object,
    }
}

#[test]
fn registry_insert_and_get() {
    let mut registry = SchemaRegistry::new();
    registry.insert(schema("llm", "test"));
    assert_eq!(registry.get("llm").unwrap().name, "llm");
}

#[test]
fn registry_get_missing() {
    let registry = SchemaRegistry::new();
    assert!(registry.get("nonexistent").is_none());
}

#[test]
fn registry_insert_overwrites() {
    let mut registry = SchemaRegistry::new();
    registry.insert(schema("llm", "v1"));
    registry.insert(schema("llm", "v2"));
    assert_eq!(registry.get("llm").unwrap().description, "v2");
    assert_eq!(registry.schemas.len(), 1);
}

#[test]
fn registry_multiple_schemas() {
    let mut registry = SchemaRegistry::new();
    for name in ["llm", "tts", "comfy", "rot13"] {
        registry.insert(schema(name, &format!("{} evaluator", name)));
    }
    assert_eq!(registry.get("llm").unwrap().name, "llm");
    assert_eq!(registry.get("tts").unwrap().name, "tts");
    assert_eq!(registry.get("rot13").unwrap().name, "rot13");
    assert!(registry.get("unknown").is_none());
}

// ---------------------------------------------------------------------------
// Starting an agent's session
// ---------------------------------------------------------------------------

use cafe_core::agent_runtime::lifecycle::{
    agent_session_ephemeral, attach_config_chunk, initial_chunk, schemas_to_publish, tick_chunk,
};
use cafe_core::chunk::{CAFE_FLOW_SIGNAL, CHAT_ROLE, ContentType};

fn ann_of<'a>(c: &'a Chunk, key: &str) -> Option<&'a JsonValue> {
    c.annotations.iter().find(|(k, _)| k == key).map(|(_, v)| v)
}

#[test]
fn initial_text_chunk_is_from_the_user() {
    let mut f = agent_file("greeter");
    f.initial_chunk_content = Some("Hello!".into());
    f.initial_chunk_annotations = Some(vec![("chat.source".into(), s("seed"))]);
    let def = AgentDefinition::from_file(f);
    let c = initial_chunk("c1".into(), "greeter", &def).unwrap();
    assert_eq!(c.content_type, ContentType::Text);
    assert_eq!(c.content.as_deref(), Some("Hello!"));
    assert_eq!(c.producer, "greeter");
    assert_eq!(ann_of(&c, CHAT_ROLE), Some(&s("user")));
    assert_eq!(ann_of(&c, "chat.source"), Some(&s("seed")));
}

#[test]
fn initial_text_chunk_needs_text() {
    let mut f = agent_file("quiet");
    f.initial_chunk_content = Some("  \n ".into());
    assert!(initial_chunk("c".into(), "quiet", &AgentDefinition::from_file(f)).is_none());
    assert!(initial_chunk("c".into(), "quiet", &AgentDefinition::from_file(agent_file("quiet"))).is_none());
}

#[test]
fn initial_null_and_binary_chunks() {
    let mut f = agent_file("cfg");
    f.initial_chunk_type = Some("null".into());
    f.initial_chunk_annotations = Some(vec![("config.type".into(), s("runtime"))]);
    let c = initial_chunk("n".into(), "cfg", &AgentDefinition::from_file(f)).unwrap();
    assert_eq!(c.content_type, ContentType::Null);
    assert_eq!(ann_of(&c, "config.type"), Some(&s("runtime")));
    assert_eq!(c.annotations.len(), 1);

    let mut b = agent_file("bin");
    b.initial_chunk_type = Some("binary".into());
    b.initial_chunk_data = Some("AQID".into());
    let c = initial_chunk("b".into(), "bin", &AgentDefinition::from_file(b)).unwrap();
    assert_eq!(c.content_type, ContentType::Binary);
    assert_eq!(c.data, Some(vec![1, 2, 3]));
    assert_eq!(c.mime_type.as_deref(), Some("application/octet-stream"));

    let mut nodata = agent_file("bin");
    nodata.initial_chunk_type = Some("binary".into());
    assert!(initial_chunk("b".into(), "bin", &AgentDefinition::from_file(nodata)).is_none());
    let mut other = agent_file("x");
    other.initial_chunk_type = Some("video".into());
    other.initial_chunk_content = Some("content".into());
    assert!(initial_chunk("x".into(), "x", &AgentDefinition::from_file(other)).is_none());
}

#[test]
fn ephemeral_sessions_and_ticks() {
    let e = agent_session_ephemeral(Some(30), Some("user".into())).unwrap();
    assert_eq!(e.keepalive_secs, 30);
    assert_eq!(e.count_role.as_deref(), Some("user"));
    assert!(agent_session_ephemeral(None, Some("user".into())).is_none());
    let t = tick_chunk("t".into());
    assert_eq!(ann_of(&t, CAFE_FLOW_SIGNAL), Some(&s("tick")));
    assert_eq!(t.producer, "com.nominal.cafe-agent-runtime");
}

#[test]
fn attach_seeds_null_config_and_rpc_schemas() {
    let mut f = agent_file("voice");
    f.initial_chunk_type = Some("null".into());
    f.initial_chunk_annotations = Some(vec![("config.tts.profile".into(), s("Volition"))]);
    let def = AgentDefinition::from_file(f);
    let c = attach_config_chunk("s".into(), "voice", &def).unwrap();
    assert_eq!(c.producer, "com.nominal.cafe-agent-runtime/voice");
    assert_eq!(ann_of(&c, "config.tts.profile"), Some(&s("Volition")));
    let mut text = agent_file("t");
    text.initial_chunk_annotations = Some(vec![("k".into(), s("v"))]);
    assert!(attach_config_chunk("s".into(), "t", &AgentDefinition::from_file(text)).is_none());
    let mut bare = agent_file("b");
    bare.initial_chunk_type = Some("null".into());
    assert!(attach_config_chunk("s".into(), "b", &AgentDefinition::from_file(bare)).is_none());

    let mut reg = SchemaRegistry::new();
    reg.insert(schema("llm", "x"));
    reg.insert(schema("tts", "y"));
    let steps = vec![
        step("a", "trust-filter", "user_message", None),
        step("b", "llm", "user_message", None),
        step("c", "comfy", "llm_complete", None),
        step("d", "tts", "llm_complete", None),
    ];
    assert_eq!(schemas_to_publish(&steps, &reg), vec!["llm".to_string(), "tts".to_string()]);
}

#[test]
fn json_quote_escapes_as_serde_json() {
    for s in ["", "plain", "q\"b\\s", "\u{8}\u{c}\n\r\t", "\u{1}\u{1f}\u{7f}", "ünï ✓"] {
        assert_eq!(json_quote(s), serde_json::to_string(s).unwrap());
    }
    assert_eq!(json_quote("\u{1}"), "\"\\u0001\"");
}

#[test]
fn tool_call_step_follows_the_response() {
    let other = tool_call_step(
        "t",
        "id-1",
        ToolEvent::Response { call_id: "id-2".into(), response: None },
    );
    assert!(matches!(other, ToolAction::Wait));
    assert!(matches!(tool_call_step("t", "id-1", ToolEvent::Other), ToolAction::Wait));
    assert!(matches!(tool_call_step("t", "id-1", ToolEvent::Disconnected), ToolAction::Stop));
    assert!(matches!(
        tool_call_step("t", "id-1", ToolEvent::Response { call_id: "id-1".into(), response: None }),
        ToolAction::Stop
    ));
    match tool_call_step(
        "t",
        "id-1",
        ToolEvent::Response {
            call_id: "id-1".into(),
            response: Some(RpcResponse { result: Some(JsonValue::Number(JsonNumber::PosInt(7))), error: None }),
        },
    ) {
        ToolAction::Publish { result, retain_secs } => {
            assert_eq!(result.name, "t");
            assert_eq!(result.output, JsonValue::Number(JsonNumber::PosInt(7)));
            assert_eq!(result.error, None);
            assert_eq!(retain_secs, Some(60));
        }
        a => panic!("unexpected {a:?}"),
    }
    match tool_call_step(
        "t",
        "id-1",
        ToolEvent::Response {
            call_id: "id-1".into(),
            response: Some(RpcResponse { result: None, error: Some((-32000, "boom".into())) }),
        },
    ) {
        ToolAction::Publish { result, retain_secs } => {
            assert_eq!(result.output, JsonValue::Null);
            assert_eq!(result.error, Some("boom".to_string()));
            assert_eq!(retain_secs, Some(60));
        }
        a => panic!("unexpected {a:?}"),
    }
    match tool_call_step("t", "id-1", ToolEvent::Timeout) {
        ToolAction::Publish { result, retain_secs } => {
            assert_eq!(result.error, Some("RPC timeout after 30s".to_string()));
            assert_eq!(retain_secs, None);
        }
        a => panic!("unexpected {a:?}"),
    }
}

#[test]
fn trigger_run_handles_completions_breadth_first_up_to_the_limit() {
    let step = |id: &str, ty: &str, trigger: &str| StepDef {
        id: id.into(),
        step_type: ty.into(),
        trigger: trigger.into(),
        enabled_if: None,
    };
    let exec = PipelineExecutor::new(
        vec![
            step("speak", "tts", "llm_complete"),
            step("detect", "tool-detector", "llm_complete"),
            step("after", "comfy", "step_complete:speak"),
            step("roles", "role-annotator", "llm_complete"),
        ],
        1000,
        2,
    );
    let cfg = SessionConfig::new();
    let mut run = TriggerRun::start(TriggerType::LlmComplete, 0);
    let (ev, depth, work) = run.next_work(&exec, &cfg).unwrap();
    assert_eq!(ev, TriggerType::LlmComplete);
    assert_eq!(depth, 0);
    assert_eq!(work, vec![StepWork::DetectTools(1), StepWork::Dispatch(0)]);
    run.step_completed(&exec, 0, depth);
    let (ev, depth, work) = run.next_work(&exec, &cfg).unwrap();
    assert_eq!(ev, TriggerType::StepComplete("speak".into()));
    assert_eq!(depth, 1);
    assert_eq!(work, vec![StepWork::Dispatch(2)]);
    assert!(run.next_work(&exec, &cfg).is_none());
    let mut deep = TriggerRun::start(TriggerType::StepComplete("speak".into()), 2);
    assert!(deep.next_work(&exec, &cfg).is_none());
}

#[test]
fn history_applied_twice_configures_as_once() {
    let h = vec![
        runtime_chunk(&[(CONFIG_LLM_SYSTEM_PROMPT, s("A")), ("custom.key", s("x"))]),
        text_chunk("hello", "user"),
        runtime_chunk(&[(CONFIG_LLM_MODEL, s("m")), (CONFIG_LLM_SYSTEM_PROMPT, s("B"))]),
    ];
    let twice: Vec<Chunk> = h.iter().chain(h.iter()).cloned().collect();
    let once = resolve_session_config(&h);
    let again = resolve_session_config(&twice);
    assert_eq!(once.llm_system_prompt, again.llm_system_prompt);
    assert_eq!(once.llm_model, again.llm_model);
    assert_eq!(once.extra, again.extra);
    assert_eq!(again.llm_system_prompt, Some("B".into()));
}

#[test]
fn rpc_step_completes_or_fails_on_its_response() {
    let resp = |error: Option<(i64, String)>| ToolEvent::Response {
        call_id: "c1".into(),
        response: Some(RpcResponse { result: None, error }),
    };
    assert_eq!(
        rpc_step("s", "c1", ToolEvent::Response { call_id: "c2".into(), response: None }),
        RpcStepAction::Wait
    );
    assert_eq!(rpc_step("s", "c1", ToolEvent::Other), RpcStepAction::Wait);
    assert_eq!(rpc_step("s", "c1", resp(None)), RpcStepAction::Completed);
    assert_eq!(
        rpc_step("s", "c1", resp(Some((-32601, "no such method".into())))),
        RpcStepAction::Failed(RpcStepError::RpcError {
            step_id: "s".into(),
            code: -32601,
            message: "no such method".into()
        })
    );
    assert_eq!(
        rpc_step("s", "c1", ToolEvent::Response { call_id: "c1".into(), response: None }),
        RpcStepAction::Failed(RpcStepError::Bus {
            step_id: "s".into(),
            reason: "failed to deserialize RPC response for call c1".into()
        })
    );
    assert_eq!(
        rpc_step("s", "c1", ToolEvent::Timeout),
        RpcStepAction::Failed(RpcStepError::Timeout { step_id: "s".into(), call_id: "c1".into() })
    );
    assert_eq!(
        rpc_step("s", "c1", ToolEvent::Disconnected),
        RpcStepAction::Failed(RpcStepError::Bus {
            step_id: "s".into(),
            reason: "bus disconnected while waiting for RPC response".into()
        })
    );
}
