use cafe_core::agent_js::{
    assemble_llm_text, classify_event, err_envelope, initial_config_chunk, ok_envelope,
    outcome_envelope, resolve_config, timeout_message, tool_reply_text, JsEvent, RpcOutcome,
    LLM_PRODUCER,
};
use cafe_core::agent_js::registry::{load_all, JsAgent, JsRegistry, LoadedJsFile, ScanResult};
use cafe_core::chunk::{
    Chunk, ContentType, JsonNumber, JsonValue, CAFE_BINARY_READ_TOKEN, CAFE_BINARY_READ_URL,
    CAFE_FLOW_SIGNAL, CAFE_TRANSIENT, CHAT_ROLE, CHAT_STREAM_COMPLETE, CONFIG_TYPE,
};
use cafe_core::cli::{find_read_creds, parse_keyval};
use cafe_core::codec::{hash_bytes, to_hex};
use cafe_core::demo::{generate_demo_png, wav_header};
use cafe_core::narration::book::{Book, Chapter};
use cafe_core::narration::narrator::SessionState;
use cafe_core::narration::restore::{
    find_read_credentials, latest_annotation, restore_plan, state_chunk, EPUB_MIME, EPUB_PRODUCER,
};
use cafe_core::http_proxy::{decode_body, encode_body, InvalidBody};
use cafe_core::js_manifest::{
    agent_dirs_from, dedupe_dirs, default_mode, default_true, split_paths, JsManifest,
    ManifestError,
};
use cafe_core::services::comfy::{
    endpoint_override, resolve_input_node, resolve_text, workflow_override,
};
use cafe_core::services::hue;
use cafe_core::services::knowledgebase::EmbedConfig;

fn s(v: &str) -> JsonValue {
    JsonValue::Str(v.to_string())
}

fn user_chunk(text: &str) -> Chunk {
    let mut c = Chunk::new_text("u".into(), text.into(), "test".into());
    c.set_annotation(CHAT_ROLE.into(), s("user"));
    c
}

fn assistant_text(text: &str, producer: &str) -> Chunk {
    let mut c = Chunk::new_text("a".into(), text.into(), producer.into());
    c.set_annotation(CHAT_ROLE.into(), s("assistant"));
    c
}

fn runtime_chunk(pairs: &[(&str, JsonValue)]) -> Chunk {
    let mut c = Chunk::new_null("cfg".into(), "test".into());
    c.set_annotation(CONFIG_TYPE.into(), s("runtime"));
    for (k, v) in pairs {
        c.set_annotation(k.to_string(), v.clone());
    }
    c
}

fn entry<'a>(entries: &'a [(String, JsonValue)], key: &str) -> Option<&'a JsonValue> {
    entries.iter().find(|(k, _)| k == key).map(|(_, v)| v)
}

// ---------------------------------------------------------------------------
// JavaScript agents' view of the bus
// ---------------------------------------------------------------------------

#[test]
fn classify_user_text_message() {
    let ev = classify_event(&user_chunk("hello")).unwrap();
    assert_eq!(ev, JsEvent { event_type: "user_message".into(), text: "hello".into() });
}

#[test]
fn classify_ignores_transient_chunks() {
    let mut chunk = user_chunk("hello");
    chunk.set_annotation(CAFE_TRANSIENT.into(), JsonValue::Bool(true));
    assert!(classify_event(&chunk).is_none());
}

#[test]
fn classify_ignores_assistant_text_without_stream_complete() {
    let chunk = assistant_text("partial", "test");
    assert!(classify_event(&chunk).is_none());
}

#[test]
fn classify_llm_complete_on_stream_complete() {
    let mut chunk = assistant_text("done", "test");
    chunk.set_annotation(CHAT_STREAM_COMPLETE.into(), JsonValue::Bool(true));
    let ev = classify_event(&chunk).unwrap();
    assert_eq!(ev.event_type, "llm_complete");
    assert_eq!(ev.text, "done");
}

#[test]
fn classify_scheduler_tick() {
    let mut chunk = Chunk::new_null("n".into(), "test".into());
    chunk.set_annotation(CAFE_FLOW_SIGNAL.into(), s("tick"));
    let ev = classify_event(&chunk).unwrap();
    assert_eq!(ev.event_type, "tick");
    assert_eq!(ev.text, "");
}

#[test]
fn classify_returns_none_for_unrelated_chunks() {
    let chunk = Chunk::new_null("n".into(), "test".into());
    assert!(classify_event(&chunk).is_none());
}

#[test]
fn classify_user_binary_message() {
    let mut chunk = user_chunk("");
    chunk.content_type = ContentType::BinaryRef;
    chunk.content = None;
    let ev = classify_event(&chunk).unwrap();
    assert_eq!(ev, JsEvent { event_type: "user_message".into(), text: "".into() });
}

#[test]
fn assemble_llm_text_finds_last_assistant_text() {
    let mut done = Chunk::new_null("d".into(), LLM_PRODUCER.into());
    done.set_annotation(CHAT_ROLE.into(), s("assistant"));
    done.set_annotation(CHAT_STREAM_COMPLETE.into(), JsonValue::Bool(true));
    let history = vec![
        assistant_text("old", "com.nominal.cafe-llm"),
        user_chunk("question"),
        assistant_text("new", "com.nominal.cafe-llm"),
        done,
    ];
    assert_eq!(assemble_llm_text(&history).as_deref(), Some("new"));
}

#[test]
fn assemble_llm_text_ignores_other_producers_and_empty() {
    let history = vec![
        assistant_text("not-llm", "com.nominal.cafe-rot13"),
        assistant_text("", "com.nominal.cafe-llm"),
    ];
    assert!(assemble_llm_text(&history).is_none());
    assert!(assemble_llm_text(&[]).is_none());
}

#[test]
fn resolve_config_merges_runtime_chunks_later_wins() {
    let history = vec![
        runtime_chunk(&[("config.llm.model", s("a")), ("config.tts.enabled", JsonValue::Bool(true))]),
        Chunk::new_text("t".into(), "ignored".into(), "test".into()),
        runtime_chunk(&[("config.llm.model", s("b"))]),
    ];
    let cfg = resolve_config(&history);
    assert_eq!(entry(&cfg, "config.llm.model"), Some(&s("b")));
    assert_eq!(entry(&cfg, "config.tts.enabled"), Some(&JsonValue::Bool(true)));
    assert!(entry(&cfg, "config.type").is_none());
}

#[test]
fn resolve_config_empty_without_runtime_chunks() {
    let history = vec![Chunk::new_text("t".into(), "hi".into(), "test".into())];
    assert!(resolve_config(&history).is_empty());
}

#[test]
fn envelopes_are_valid_json_with_ok_flag() {
    let ok: serde_json::Value = serde_json::from_str(&ok_envelope("{\"a\":1}")).unwrap();
    assert_eq!(ok["ok"], true);
    assert_eq!(ok["result"]["a"], 1);
    let err: serde_json::Value = serde_json::from_str(&err_envelope(Some(-32001), "timed out")).unwrap();
    assert_eq!(err["ok"], false);
    assert_eq!(err["code"], -32001);
    assert_eq!(err["error"], "timed out");
}

#[test]
fn envelopes_exact_text() {
    assert_eq!(ok_envelope("null"), "{\"ok\":true,\"result\":null}");
    assert_eq!(err_envelope(None, "a \"b\""), "{\"error\":\"a \\\"b\\\"\",\"ok\":false}");
    assert_eq!(err_envelope(Some(7), ""), "{\"code\":7,\"error\":\"\",\"ok\":false}");
    assert_eq!(
        err_envelope(Some(i32::MIN), "x"),
        "{\"code\":-2147483648,\"error\":\"x\",\"ok\":false}"
    );
}

#[test]
fn hash_bytes_is_stable_hex() {
    let h1 = hash_bytes(b"hello");
    assert_eq!(h1, hash_bytes(b"hello"));
    assert_ne!(h1, hash_bytes(b"world"));
    assert_eq!(h1.len(), 64);
    assert_eq!(h1, "2cf24dba5fb0a30e26e83b2ac5b9e29e1b161e5c1fa7425e73043362938b9824");
}

#[test]
fn hex_is_lowercase_two_digits_per_byte() {
    assert_eq!(to_hex(&[0, 15, 16, 255]), "000f10ff");
    assert_eq!(to_hex(&[]), "");
}

// ---------------------------------------------------------------------------
// JavaScript agent manifests
// ---------------------------------------------------------------------------

fn manifest(name: &str, mode: &str) -> JsManifest {
    JsManifest {
        name: name.into(),
        description: String::new(),
        background: false,
        allows_reload: default_true(),
        persists_state: default_true(),
        mode: mode.into(),
        schedule: None,
        rpc_timeout_secs: None,
        initial_config: Vec::new(),
    }
}

#[test]
fn minimal_manifest_defaults() {
    let m = manifest("demo", &default_mode());
    assert_eq!(m.mode, "stateless");
    assert!(m.allows_reload);
    assert!(m.persists_state);
    assert!(m.validate().is_ok());
}

#[test]
fn empty_name_is_an_error() {
    let err = manifest("  ", "stateless").validate().unwrap_err();
    assert!(matches!(err, ManifestError::EmptyName));
    assert!(err.message().contains("non-empty"), "{}", err.message());
}

#[test]
fn unknown_mode_is_an_error() {
    let err = manifest("x", "quantum").validate().unwrap_err();
    assert!(err.message().contains("stateless"), "{}", err.message());
    assert_eq!(
        err.message(),
        "manifest.mode must be \"stateless\" or \"stateful\", got \"quantum\""
    );
    assert!(manifest("x", "stateful").validate().is_ok());
}

#[test]
fn split_paths_drops_empties() {
    assert_eq!(split_paths("/a:/b"), vec!["/a".to_string(), "/b".to_string()]);
    assert_eq!(split_paths("/a:"), vec!["/a".to_string()]);
    assert_eq!(split_paths(":/a::/b:"), vec!["/a".to_string(), "/b".to_string()]);
    assert!(split_paths("").is_empty());
    assert!(split_paths(":::").is_empty());
}

#[test]
fn dedupe_dirs_keeps_first_seen_order() {
    assert_eq!(
        dedupe_dirs(vec![
            "./agents-js".into(),
            "/extra".into(),
            "./agents-js".into(),
            "/extra".into(),
            "/other".into()
        ]),
        vec!["./agents-js".to_string(), "/extra".to_string(), "/other".to_string()]
    );
}

#[test]
fn agent_dirs_default_then_extras() {
    assert_eq!(agent_dirs_from(None), vec!["./agents-js".to_string()]);
    assert_eq!(
        agent_dirs_from(Some("/x::./agents-js:/x:/y")),
        vec!["./agents-js".to_string(), "/x".to_string(), "/y".to_string()]
    );
}

// ---------------------------------------------------------------------------
// Service call parameters and settings
// ---------------------------------------------------------------------------

fn params(pairs: &[(&str, JsonValue)]) -> Vec<(String, JsonValue)> {
    pairs.iter().map(|(k, v)| (k.to_string(), v.clone())).collect()
}

#[test]
fn text_prefers_text_and_accepts_prompt_alias() {
    assert_eq!(resolve_text(&params(&[("text", s("a"))])).unwrap(), "a");
    assert_eq!(resolve_text(&params(&[("prompt", s("b"))])).unwrap(), "b");
    assert_eq!(resolve_text(&params(&[("text", s("a")), ("prompt", s("b"))])).unwrap(), "a");
    assert!(resolve_text(&params(&[])).is_err());
    assert!(resolve_text(&params(&[("text", s(""))])).is_err());
    let err = resolve_text(&params(&[("text", s("")), ("prompt", s("b"))])).unwrap_err();
    assert_eq!(err.message(), "comfy.invoke: text param is empty");
    let num = JsonValue::Number(JsonNumber::PosInt(3));
    assert_eq!(resolve_text(&params(&[("text", num), ("prompt", s("c"))])).unwrap(), "c");
}

#[test]
fn workflow_defaults_to_service_value() {
    assert_eq!(workflow_override(&params(&[])), None);
    assert_eq!(workflow_override(&params(&[("workflow_path", s(""))])), None);
    assert_eq!(
        workflow_override(&params(&[("workflow_path", s("/wf.json"))])),
        Some("/wf.json".to_string())
    );
}

#[test]
fn input_node_override_wins() {
    assert_eq!(resolve_input_node("6", &params(&[("input_node", s("9"))])), "9");
    assert_eq!(resolve_input_node("6", &params(&[])), "6");
    assert_eq!(resolve_input_node("6", &params(&[("input_node", s(""))])), "6");
}

#[test]
fn endpoint_override_needs_text() {
    assert_eq!(endpoint_override(&params(&[("endpoint", s("http://h"))])), Some("http://h".into()));
    assert_eq!(endpoint_override(&params(&[("endpoint", JsonValue::Null)])), None);
}

#[test]
fn service_settings_defaults() {
    let h = hue::Config::from_vars(None, None, None);
    assert_eq!(h.socket_path, "/tmp/cafe-bus.sock");
    assert_eq!(h.bridge_url, "");
    assert_eq!(h.api_key, "");
    let e = EmbedConfig::from_vars(None, None, Some("x".into()));
    assert_eq!(e.url, "http://localhost:11434/api/embed");
    assert_eq!(e.model, "nomic-embed-text");
    assert_eq!(e.dim, 768);
    assert_eq!(EmbedConfig::from_vars(None, None, Some("1024".into())).dim, 1024);
}

// ---------------------------------------------------------------------------
// Command line and binary credentials
// ---------------------------------------------------------------------------

fn creds_chunk(target: &str, url: Option<&str>, token: Option<&str>) -> Chunk {
    let mut c = Chunk::mutation("m".into(), target.into(), "cafe-cli".into());
    if let Some(u) = url {
        c.set_annotation(CAFE_BINARY_READ_URL.into(), s(u));
    }
    if let Some(t) = token {
        c.set_annotation(CAFE_BINARY_READ_TOKEN.into(), s(t));
    }
    c
}

#[test]
fn find_read_creds_uses_cafe_prefixed_keys() {
    let history = vec![creds_chunk("abc", Some("https://read/abc"), Some("tok"))];
    let (url, token) = find_read_creds(&history, "abc").expect("creds found");
    assert_eq!(url, "https://read/abc");
    assert_eq!(token, "tok");
}

#[test]
fn find_read_creds_prefers_latest_and_reports_missing() {
    let history = vec![
        creds_chunk("abc", Some("https://old"), Some("t1")),
        creds_chunk("abc", Some("https://new"), None),
        creds_chunk("abc", None, Some("t3")),
        creds_chunk("other", Some("https://other"), Some("t4")),
    ];
    assert_eq!(find_read_creds(&history, "abc").unwrap(), ("https://new".into(), "".into()));
    let err = find_read_creds(&history, "zzz").unwrap_err();
    assert_eq!(err.message(), "no read credentials found for chunk zzz");
}

#[test]
fn parse_keyval_splits_at_first_equals() {
    assert_eq!(parse_keyval("a=b=c").unwrap(), ("a".into(), "b=c".into()));
    assert_eq!(parse_keyval("key").unwrap(), ("key".into(), "".into()));
    assert_eq!(parse_keyval("=v").unwrap(), ("".into(), "v".into()));
}

// ---------------------------------------------------------------------------
// Narrator persistence
// ---------------------------------------------------------------------------

fn book(n: usize) -> Book {
    Book {
        title: "B".into(),
        creator: None,
        chapters: (0..n).map(|i| Chapter { title: format!("C{i}"), text: format!("T{i}") }).collect(),
    }
}

fn blob(id: &str) -> Chunk {
    let mut c = Chunk::new_null(id.into(), EPUB_PRODUCER.into());
    c.content_type = ContentType::BinaryRef;
    c.mime_type = Some(EPUB_MIME.into());
    c
}

#[test]
fn restore_reads_back_recorded_state() {
    let mut state = SessionState::new();
    state.current = 3;
    state.started = true;
    state.source_path = Some("/books/a.epub".into());
    let record = state_chunk(&state, "s".into());
    let history = vec![blob("blob-1"), creds_chunk("blob-1", Some("https://r"), Some("tk")), record];
    let plan = restore_plan(&history).unwrap();
    assert_eq!(plan.blob_chunk_id, "blob-1");
    assert_eq!(plan.read_creds, Some(("https://r".into(), "tk".into())));
    assert_eq!(plan.source_path.as_deref(), Some("/books/a.epub"));
    assert_eq!(plan.current, 3);
    assert!(plan.started);

    let mut restored = SessionState::new();
    restored.restore(book(5), &plan);
    assert_eq!(restored.current, 3);
    assert!(restored.started);
    assert_eq!(restored.blob_chunk_id.as_deref(), Some("blob-1"));
    let mut short = SessionState::new();
    short.restore(book(2), &plan);
    assert_eq!(short.current, 1);
}

#[test]
fn restore_needs_a_stored_book() {
    let state = SessionState::new();
    assert!(restore_plan(&[state_chunk(&state, "s".into())]).is_none());
    let mut other = blob("x");
    other.producer = "someone-else".into();
    assert!(restore_plan(&[other]).is_none());
}

#[test]
fn restore_defaults_started_from_chapter() {
    let history = vec![blob("b"), runtime_chunk(&[("config.epub.chapter", JsonValue::Number(JsonNumber::PosInt(2)))])];
    let plan = restore_plan(&history).unwrap();
    assert_eq!(plan.current, 2);
    assert!(plan.started);
    assert_eq!(plan.read_creds, None);
    assert_eq!(plan.source_path, None);
}

#[test]
fn read_credentials_first_amendment_decides() {
    let history = vec![
        creds_chunk("b", Some("https://first"), None),
        creds_chunk("b", Some("https://second"), Some("t")),
    ];
    assert_eq!(find_read_credentials(&history, "b"), None);
    let history = vec![creds_chunk("b", Some("https://first"), Some("t1")), creds_chunk("b", Some("https://second"), Some("t"))];
    assert_eq!(find_read_credentials(&history, "b"), Some(("https://first".into(), "t1".into())));
}

#[test]
fn latest_annotation_takes_last_carrier() {
    let history = vec![
        runtime_chunk(&[("k", s("1"))]),
        runtime_chunk(&[("k", s("2"))]),
        runtime_chunk(&[("other", s("3"))]),
    ];
    assert_eq!(latest_annotation(&history, "k"), Some(&s("2")));
    assert_eq!(latest_annotation(&history, "none"), None);
}

// ---------------------------------------------------------------------------
// Bodies, demo media
// ---------------------------------------------------------------------------

#[test]
fn body_roundtrip_and_invalid() {
    for bytes in [&b""[..], b"f", b"fo", b"foo", b"\x00\xff\x10binary"] {
        let text = encode_body(bytes);
        assert_eq!(decode_body(&text).unwrap(), bytes.to_vec());
    }
    assert_eq!(encode_body(b"foobar"), "Zm9vYmFy");
    assert_eq!(decode_body("Zm9v!"), Err(InvalidBody));
    assert_eq!(decode_body("Zm9"), Err(InvalidBody));
}

#[test]
fn wav_header_layout() {
    let h = wav_header(8000, 4000);
    assert_eq!(h.len(), 44);
    assert_eq!(&h[0..4], b"RIFF");
    assert_eq!(u32::from_le_bytes([h[4], h[5], h[6], h[7]]), 36 + 8000);
    assert_eq!(&h[8..16], b"WAVEfmt ");
    assert_eq!(u32::from_le_bytes([h[24], h[25], h[26], h[27]]), 8000);
    assert_eq!(u32::from_le_bytes([h[28], h[29], h[30], h[31]]), 16000);
    assert_eq!(&h[36..40], b"data");
    assert_eq!(u32::from_le_bytes([h[40], h[41], h[42], h[43]]), 8000);
}

#[test]
fn demo_png_is_a_png() {
    let png = generate_demo_png();
    assert_eq!(&png[0..8], &[0x89, b'P', b'N', b'G', 0x0d, 0x0a, 0x1a, 0x0a]);
}

// ---------------------------------------------------------------------------
// Registry of JavaScript agents
// ---------------------------------------------------------------------------

fn js_file(path: &str, name: &str, mode: &str, background: bool, allows_reload: bool) -> LoadedJsFile {
    let mut m = manifest(name, mode);
    m.background = background;
    m.allows_reload = allows_reload;
    LoadedJsFile { path: path.into(), source: format!("// {name}"), manifest: m }
}

fn good(dir: &str) -> LoadedJsFile {
    js_file(&format!("{dir}/good.js"), "good", "stateless", true, true)
}

#[test]
fn load_all_registers_valid_agents() {
    let (reg, warnings) = load_all(vec![ScanResult { loaded: vec![good("/d")], skipped: vec![] }]);
    assert!(warnings.is_empty(), "{warnings:?}");
    let agent = reg.get("good").unwrap();
    assert!(agent.manifest.background);
    assert_eq!(agent.file_hash, cafe_core::codec::hash_bytes(b"// good"));
}

#[test]
fn load_all_warns_on_invalid_but_serves_stateful() {
    let scan = ScanResult {
        loaded: vec![good("/d"), js_file("/d/keeper.js", "keeper", "stateful", false, true)],
        skipped: vec![("/d/bad.js".into(), "invalid manifest: not an object".into())],
    };
    let (reg, warnings) = load_all(vec![scan]);
    assert!(reg.get("good").is_some());
    assert_eq!(reg.get("keeper").unwrap().manifest.mode, "stateful");
    assert_eq!(warnings.len(), 1, "{warnings:?}");
    assert!(warnings.iter().any(|w| w.contains("bad.js")));
    assert_eq!(warnings[0], "skipping /d/bad.js: invalid manifest: not an object");
}

#[test]
fn duplicate_name_last_wins_with_warning() {
    let scan = ScanResult {
        loaded: vec![
            js_file("/d/a.js", "good", "stateless", true, true),
            js_file("/d/b.js", "good", "stateless", false, true),
        ],
        skipped: vec![],
    };
    let (reg, warnings) = load_all(vec![scan]);
    assert_eq!(reg.len(), 1);
    assert!(warnings.iter().any(|w| w.contains("redefined")), "{warnings:?}");
    assert_eq!(warnings[0], "agent 'good' redefined by /d/b.js (was /d/a.js); last file wins");
    assert_eq!(reg.get("good").unwrap().path, "/d/b.js");
}

fn registry_with(files: Vec<LoadedJsFile>) -> JsRegistry {
    load_all(vec![ScanResult { loaded: files, skipped: vec![] }]).0
}

#[test]
fn reload_file_updates_source() {
    let mut reg = registry_with(vec![good("/d")]);
    let changed = js_file("/d/good.js", "good", "stateless", false, true);
    let name = reg.reload(JsAgent::from_loaded(changed)).unwrap();
    assert_eq!(name, "good");
    assert!(!reg.get("good").unwrap().manifest.background);
}

#[test]
fn reload_file_accepts_mode_change_to_stateful() {
    let mut reg = registry_with(vec![good("/d")]);
    let changed = js_file("/d/good.js", "good", "stateful", true, true);
    let name = reg.reload(JsAgent::from_loaded(changed)).unwrap();
    assert_eq!(name, "good");
    assert_eq!(reg.get("good").unwrap().manifest.mode, "stateful");
}

#[test]
fn reload_file_honors_allows_reload_false() {
    let mut reg = registry_with(vec![js_file("/d/locked.js", "locked", "stateless", false, false)]);
    let changed = js_file("/d/locked.js", "locked2", "stateless", false, false);
    let err = reg.reload(JsAgent::from_loaded(changed)).unwrap_err();
    assert_eq!(err.message(), "agent 'locked2' sets allows_reload = false; change ignored");
    assert!(reg.get("locked").is_some());
    assert!(reg.get("locked2").is_none());
}

#[test]
fn reload_drops_agent_of_renamed_file() {
    let mut reg = registry_with(vec![good("/d"), js_file("/d/other.js", "other", "stateless", false, true)]);
    let renamed = js_file("/d/good.js", "better", "stateless", false, true);
    assert_eq!(reg.reload(JsAgent::from_loaded(renamed)).unwrap(), "better");
    assert!(reg.get("good").is_none());
    assert!(reg.get("better").is_some());
    assert!(reg.get("other").is_some());
    assert_eq!(reg.len(), 2);
}

#[test]
fn initial_config_marks_runtime_unless_set() {
    let init = vec![("config.js.tag".to_string(), s("tick")), ("config.tts.enabled".to_string(), JsonValue::Bool(false))];
    let c = initial_config_chunk("id".into(), "ticker", &init);
    assert_eq!(c.producer, "com.nominal.cafe-agent-js/ticker");
    assert_eq!(c.content_type, ContentType::Null);
    assert_eq!(entry(&c.annotations, "config.type"), Some(&s("runtime")));
    assert_eq!(entry(&c.annotations, "config.js.tag"), Some(&s("tick")));
    assert_eq!(c.annotations.len(), 3);
    let own = vec![("config.type".to_string(), s("custom"))];
    let c = initial_config_chunk("id".into(), "x", &own);
    assert_eq!(entry(&c.annotations, "config.type"), Some(&s("custom")));
    assert_eq!(c.annotations.len(), 1);
}

#[test]
fn background_agents_sorted_by_name() {
    let reg = registry_with(vec![
        js_file("/d/z.js", "zeta", "stateless", true, true),
        js_file("/d/a.js", "alpha", "stateless", true, true),
        js_file("/d/m.js", "mid", "stateless", false, true),
    ]);
    assert_eq!(reg.background_names(), vec!["alpha".to_string(), "zeta".to_string()]);
}

#[test]
fn rpc_outcomes_and_tool_replies() {
    let ok = RpcOutcome::Answered("{\"x\":1}".into());
    assert_eq!(outcome_envelope(&ok), "{\"ok\":true,\"result\":{\"x\":1}}");
    let timeout = RpcOutcome::Failed { code: None, message: timeout_message("dice.roll", 30) };
    assert_eq!(timeout_message("dice.roll", 30), "dice.roll timed out after 30s");
    assert_eq!(outcome_envelope(&timeout), "{\"error\":\"dice.roll timed out after 30s\",\"ok\":false}");
    assert_eq!(tool_reply_text("dice.roll", &timeout, ""), "Tool call dice.roll timed out");
    let failed = RpcOutcome::Failed { code: Some(-32601), message: "no such method".into() };
    assert_eq!(tool_reply_text("x.y", &failed, ""), "Tool call x.y failed: no such method");
    assert_eq!(
        tool_reply_text("x.y", &ok, "{\n  \"x\": 1\n}"),
        "Tool call completed: x.y\n```\n{\n  \"x\": 1\n}\n```"
    );
}
