//! The configuration of a session, merged from its runtime config chunks.
use crate::chunk::{
    ann_get, anns_view, lemma_ann_get_push_end, unique_keys, entries_map, is_runtime_config, is_runtime_config_chunk, json_as_str,
    json_clone, lenient_u32, opt_str, set_entry, Chunk, JsonValue, JsonView, as_str,
    to_lenient_u32, CONFIG_LLM_BACKEND, CONFIG_LLM_MAX_TOKENS, CONFIG_LLM_MODEL,
    CONFIG_LLM_SYSTEM_PROMPT, CONFIG_TYPE,
};
use crate::js_manifest::{colon_split, strings_view};
use crate::llm::context::{json_setting, str_setting, u32_setting};
use crate::services::{or_default, value_or, DEFAULT_BUS_SOCKET};
use crate::text::{chars_of, str_eq, string_of};
use vstd::prelude::*;
use vstd::string::StringExecFns;

verus! {

pub const CONFIG_LLM_TEMPERATURE: &'static str = "config.llm.temperature";

pub const CONFIG_TTS_PROFILE: &'static str = "config.tts.profile";

pub const CONFIG_TTS_ENGINE: &'static str = "config.tts.engine";

pub const CONFIG_TTS_ENDPOINT: &'static str = "config.tts.endpoint";

pub const CONFIG_COMFY_WORKFLOW_PATH: &'static str = "config.comfy.workflow_path";

pub const CONFIG_COMFY_WORKFLOW_INPUT_NODE: &'static str = "config.comfy.workflow_input_node";

pub const CONFIG_COMFY_ENDPOINT: &'static str = "config.comfy.endpoint";

pub const CONFIG_SHEETBOT_URL: &'static str = "config.sheetbot.url";

pub const CONFIG_SHEETBOT_API_KEY: &'static str = "config.sheetbot.api_key";

pub const CONFIG_STT_BASE_URL: &'static str = "config.stt.base_url";

pub const CONFIG_STT_RESPONSE_FORMAT: &'static str = "config.stt.response_format";

pub const CONFIG_RSS_URL: &'static str = "config.rss.url";

/// Where the runtime connects and where it looks for agent definitions.
pub struct Config {
    pub socket_path: String,
    pub agent_paths: Vec<String>,
}

/// The agent directory always searched.
pub const DEFAULT_AGENT_PATH: &'static str = "./agents";

impl Config {
    /// From `CAFE_BUS_SOCKET` and the colon-separated extra agent paths (the
    /// first of the two path variables that is set): `./agents`, then every
    /// piece of the extra paths, empty ones included.
    pub fn from_vars(socket: Option<String>, extra_paths: Option<&str>) -> (r: Self)
        ensures
            r.socket_path@ == or_default(socket, DEFAULT_BUS_SOCKET@),
            strings_view(r.agent_paths@) == seq![DEFAULT_AGENT_PATH@] + match extra_paths {
                Some(p) => colon_split(p@),
                None => Seq::empty(),
            },
    {
        let mut paths: Vec<String> = Vec::new();
        paths.push(String::from_str(DEFAULT_AGENT_PATH));
        if let Some(p) = extra_paths {
            let mut more = split_keep_empty(p);
            paths.append(&mut more);
        }
        proof {
            assert(strings_view(paths@) =~= seq![DEFAULT_AGENT_PATH@] + match extra_paths {
                Some(p) => colon_split(p@),
                None => Seq::empty(),
            });
        }
        Config { socket_path: value_or(socket, DEFAULT_BUS_SOCKET), agent_paths: paths }
    }
}

/// The pieces of `s` between colons, empty ones included.
fn split_keep_empty(s: &str) -> (r: Vec<String>)
    ensures
        strings_view(r@) == colon_split(s@),
{
    let v = chars_of(s);
    let mut out: Vec<String> = Vec::new();
    let mut start: usize = 0;
    let mut i: usize = 0;
    assert(v@.take(0) =~= Seq::<char>::empty());
    while i < v.len()
        invariant
            start <= i <= v@.len(),
            v@ == s@,
            strings_view(out@) == colon_split(v@.take(i as int)).drop_last(),
            colon_split(v@.take(i as int)).len() > 0,
            colon_split(v@.take(i as int)).last() == v@.subrange(start as int, i as int),
        decreases v.len() - i,
    {
        let ghost prev = colon_split(v@.take(i as int));
        assert(v@.take(i + 1).drop_last() =~= v@.take(i as int));
        assert(v@.take(i + 1).last() == v@[i as int]);
        if v[i] == ':' {
            let ghost before = out@;
            out.push(string_of(&v, start, i));
            assert(strings_view(out@) =~= strings_view(before).push(prev.last()));
            assert(colon_split(v@.take(i + 1)).drop_last() =~= prev);
            assert(prev =~= prev.drop_last().push(prev.last()));
            start = i + 1;
            assert(colon_split(v@.take(i + 1)).last() =~= v@.subrange(start as int, i + 1));
        } else {
            assert(colon_split(v@.take(i + 1)).drop_last() =~= prev.drop_last());
            assert(v@.subrange(start as int, i + 1) =~= v@.subrange(start as int, i as int).push(v@[i as int]));
        }
        i = i + 1;
    }
    let ghost parts = colon_split(v@.take(i as int));
    assert(v@.take(v@.len() as int) =~= v@);
    let ghost before = out@;
    out.push(string_of(&v, start, v.len()));
    assert(strings_view(out@) =~= strings_view(before).push(parts.last()));
    assert(parts =~= parts.drop_last().push(parts.last()));
    out
}


/// The merged configuration of a session. Every setting may be unset.
/// The temperature is kept as the JSON value given; the caller reads it as a
/// float.
pub struct SessionConfig {
    pub llm_system_prompt: Option<String>,
    pub llm_temperature: Option<JsonValue>,
    pub llm_max_tokens: Option<u32>,
    pub llm_model: Option<String>,
    pub llm_backend: Option<String>,
    pub tts_profile: Option<String>,
    pub tts_engine: Option<String>,
    pub tts_endpoint: Option<String>,
    pub comfy_workflow_path: Option<String>,
    pub comfy_workflow_input_node: Option<String>,
    pub comfy_endpoint: Option<String>,
    pub sheetbot_url: Option<String>,
    pub sheetbot_api_key: Option<String>,
    pub stt_base_url: Option<String>,
    pub stt_response_format: Option<String>,
    pub rss_url: Option<String>,
    /// Every other key, under its full name (each key once).
    pub extra: Vec<(String, JsonValue)>,
}

/// A session configuration by the characters of its strings.
#[verifier::ext_equal]
pub ghost struct SessionConfigView {
    pub llm_system_prompt: Option<Seq<char>>,
    pub llm_temperature: Option<JsonView>,
    pub llm_max_tokens: Option<u32>,
    pub llm_model: Option<Seq<char>>,
    pub llm_backend: Option<Seq<char>>,
    pub tts_profile: Option<Seq<char>>,
    pub tts_engine: Option<Seq<char>>,
    pub tts_endpoint: Option<Seq<char>>,
    pub comfy_workflow_path: Option<Seq<char>>,
    pub comfy_workflow_input_node: Option<Seq<char>>,
    pub comfy_endpoint: Option<Seq<char>>,
    pub sheetbot_url: Option<Seq<char>>,
    pub sheetbot_api_key: Option<Seq<char>>,
    pub stt_base_url: Option<Seq<char>>,
    pub stt_response_format: Option<Seq<char>>,
    pub rss_url: Option<Seq<char>>,
    pub extra: Map<Seq<char>, JsonView>,
}

impl View for SessionConfig {
    type V = SessionConfigView;

    open spec fn view(&self) -> SessionConfigView {
        SessionConfigView {
            llm_system_prompt: opt_str(self.llm_system_prompt),
            llm_temperature: match self.llm_temperature {
                Some(v) => Some(v@),
                None => None,
            },
            llm_max_tokens: self.llm_max_tokens,
            llm_model: opt_str(self.llm_model),
            llm_backend: opt_str(self.llm_backend),
            tts_profile: opt_str(self.tts_profile),
            tts_engine: opt_str(self.tts_engine),
            tts_endpoint: opt_str(self.tts_endpoint),
            comfy_workflow_path: opt_str(self.comfy_workflow_path),
            comfy_workflow_input_node: opt_str(self.comfy_workflow_input_node),
            comfy_endpoint: opt_str(self.comfy_endpoint),
            sheetbot_url: opt_str(self.sheetbot_url),
            sheetbot_api_key: opt_str(self.sheetbot_api_key),
            stt_base_url: opt_str(self.stt_base_url),
            stt_response_format: opt_str(self.stt_response_format),
            rss_url: opt_str(self.rss_url),
            extra: entries_map(anns_view(self.extra@)),
        }
    }
}

/// Nothing configured.
pub open spec fn empty_session_config() -> SessionConfigView {
    SessionConfigView {
        llm_system_prompt: None,
        llm_temperature: None,
        llm_max_tokens: None,
        llm_model: None,
        llm_backend: None,
        tts_profile: None,
        tts_engine: None,
        tts_endpoint: None,
        comfy_workflow_path: None,
        comfy_workflow_input_node: None,
        comfy_endpoint: None,
        sheetbot_url: None,
        sheetbot_api_key: None,
        stt_base_url: None,
        stt_response_format: None,
        rss_url: None,
        extra: Map::empty(),
    }
}

/// The configuration after one key: a known key sets its setting (a string
/// setting to the value when it is a string, else unset; the token limit
/// leniently; the temperature to the value itself); any other key is kept
/// in `extra`.
pub open spec fn apply_key(cfg: SessionConfigView, k: Seq<char>, v: JsonView) -> SessionConfigView {
    if k == CONFIG_LLM_SYSTEM_PROMPT@ {
        SessionConfigView { llm_system_prompt: json_as_str(v), ..cfg }
    } else if k == CONFIG_LLM_TEMPERATURE@ {
        SessionConfigView { llm_temperature: Some(v), ..cfg }
    } else if k == CONFIG_LLM_MAX_TOKENS@ {
        SessionConfigView { llm_max_tokens: lenient_u32(v), ..cfg }
    } else if k == CONFIG_LLM_MODEL@ {
        SessionConfigView { llm_model: json_as_str(v), ..cfg }
    } else if k == CONFIG_LLM_BACKEND@ {
        SessionConfigView { llm_backend: json_as_str(v), ..cfg }
    } else if k == CONFIG_TTS_PROFILE@ {
        SessionConfigView { tts_profile: json_as_str(v), ..cfg }
    } else if k == CONFIG_TTS_ENGINE@ {
        SessionConfigView { tts_engine: json_as_str(v), ..cfg }
    } else if k == CONFIG_TTS_ENDPOINT@ {
        SessionConfigView { tts_endpoint: json_as_str(v), ..cfg }
    } else if k == CONFIG_COMFY_WORKFLOW_PATH@ {
        SessionConfigView { comfy_workflow_path: json_as_str(v), ..cfg }
    } else if k == CONFIG_COMFY_WORKFLOW_INPUT_NODE@ {
        SessionConfigView { comfy_workflow_input_node: json_as_str(v), ..cfg }
    } else if k == CONFIG_COMFY_ENDPOINT@ {
        SessionConfigView { comfy_endpoint: json_as_str(v), ..cfg }
    } else if k == CONFIG_SHEETBOT_URL@ {
        SessionConfigView { sheetbot_url: json_as_str(v), ..cfg }
    } else if k == CONFIG_SHEETBOT_API_KEY@ {
        SessionConfigView { sheetbot_api_key: json_as_str(v), ..cfg }
    } else if k == CONFIG_STT_BASE_URL@ {
        SessionConfigView { stt_base_url: json_as_str(v), ..cfg }
    } else if k == CONFIG_STT_RESPONSE_FORMAT@ {
        SessionConfigView { stt_response_format: json_as_str(v), ..cfg }
    } else if k == CONFIG_RSS_URL@ {
        SessionConfigView { rss_url: json_as_str(v), ..cfg }
    } else {
        SessionConfigView { extra: cfg.extra.insert(k, v), ..cfg }
    }
}

/// The configuration after a chunk's annotations, in order, the
/// `config.type` marker excepted.
pub open spec fn apply_annotations(cfg: SessionConfigView, anns: Seq<(Seq<char>, JsonView)>) -> SessionConfigView
    decreases anns.len(),
{
    if anns.len() == 0 {
        cfg
    } else {
        let prev = apply_annotations(cfg, anns.drop_last());
        if anns.last().0 == CONFIG_TYPE@ {
            prev
        } else {
            apply_key(prev, anns.last().0, anns.last().1)
        }
    }
}

/// The configuration of a history: its runtime config chunks merged in
/// order, later chunks winning per key.
pub open spec fn session_config_of(history: Seq<Chunk>) -> SessionConfigView
    decreases history.len(),
{
    if history.len() == 0 {
        empty_session_config()
    } else {
        let prev = session_config_of(history.drop_last());
        if is_runtime_config(history.last()) {
            apply_annotations(prev, history.last()@.annotations)
        } else {
            prev
        }
    }
}

/// Applying a chunk's annotations sets the system prompt exactly when the
/// chunk carries that key, and leaves it otherwise.
proof fn lemma_apply_prompt(cfg: SessionConfigView, anns: Seq<(Seq<char>, JsonView)>)
    requires
        unique_keys(anns),
    ensures
        apply_annotations(cfg, anns).llm_system_prompt == match ann_get(anns, CONFIG_LLM_SYSTEM_PROMPT@) {
            Some(v) => json_as_str(v),
            None => cfg.llm_system_prompt,
        },
    decreases anns.len(),
{
    if anns.len() > 0 {
        let init = anns.drop_last();
        assert(unique_keys(init)) by {
            assert forall|i: int, j: int| 0 <= i < j < init.len() implies #[trigger] init[i].0 != #[trigger] init[j].0 by {
                assert(init[i] == anns[i] && init[j] == anns[j]);
            }
        }
        lemma_apply_prompt(cfg, init);
        assert(init.push(anns.last()) =~= anns);
        lemma_ann_get_push_end(init, anns.last(), CONFIG_LLM_SYSTEM_PROMPT@);
        if anns.last().0 == CONFIG_LLM_SYSTEM_PROMPT@ {
            if ann_get(init, CONFIG_LLM_SYSTEM_PROMPT@) is Some {
                lemma_ann_get_found(init, CONFIG_LLM_SYSTEM_PROMPT@);
                let i = choose|i: int| 0 <= i < init.len() && init[i].0 == CONFIG_LLM_SYSTEM_PROMPT@;
                assert(anns[i].0 != anns[anns.len() - 1].0);
            }
            reveal_strlit("config.llm.system_prompt");
            reveal_strlit("config.type");
            assert(CONFIG_LLM_SYSTEM_PROMPT@ != CONFIG_TYPE@) by {
                assert(CONFIG_LLM_SYSTEM_PROMPT@.len() != CONFIG_TYPE@.len());
            }
        }
    }
}

proof fn lemma_ann_get_found(anns: Seq<(Seq<char>, JsonView)>, k: Seq<char>)
    requires
        ann_get(anns, k) is Some,
    ensures
        exists|i: int| 0 <= i < anns.len() && anns[i].0 == k,
    decreases anns.len(),
{
    if anns[0].0 != k {
        lemma_ann_get_found(anns.drop_first(), k);
        let i = choose|i: int| 0 <= i < anns.drop_first().len() && anns.drop_first()[i].0 == k;
        assert(anns[i + 1].0 == k);
    } else {
        assert(anns[0].0 == k);
    }
}

/// Chunks that are not runtime config chunks leave the configuration alone.
pub proof fn law_session_config_ignores_other_chunks(history: Seq<Chunk>, c: Chunk)
    requires
        !is_runtime_config(c),
    ensures
        session_config_of(history.push(c)) == session_config_of(history),
{
    assert(history.push(c).drop_last() =~= history);
}

/// Config chunks update per key: a later chunk carrying the system prompt
/// sets it, one without it leaves the earlier value.
pub proof fn law_session_config_partial_update(history: Seq<Chunk>, c: Chunk)
    requires
        is_runtime_config(c),
        unique_keys(c@.annotations),
    ensures
        session_config_of(history.push(c)).llm_system_prompt == match ann_get(
            c@.annotations,
            CONFIG_LLM_SYSTEM_PROMPT@,
        ) {
            Some(v) => json_as_str(v),
            None => session_config_of(history).llm_system_prompt,
        },
{
    assert(history.push(c).drop_last() =~= history);
    lemma_apply_prompt(session_config_of(history), c@.annotations);
}

fn str_of(v: &JsonValue) -> (r: Option<String>)
    ensures
        opt_str(r) == json_as_str(v@),
{
    match as_str(v) {
        Some(s) => Some(s.clone()),
        None => None,
    }
}

impl SessionConfig {
    /// Nothing configured.
    pub fn new() -> (r: Self)
        ensures
            r@ == empty_session_config(),
    {
        let r = SessionConfig {
            llm_system_prompt: None,
            llm_temperature: None,
            llm_max_tokens: None,
            llm_model: None,
            llm_backend: None,
            tts_profile: None,
            tts_engine: None,
            tts_endpoint: None,
            comfy_workflow_path: None,
            comfy_workflow_input_node: None,
            comfy_endpoint: None,
            sheetbot_url: None,
            sheetbot_api_key: None,
            stt_base_url: None,
            stt_response_format: None,
            rss_url: None,
            extra: Vec::new(),
        };
        assert(r@.extra =~= Map::<Seq<char>, JsonView>::empty());
        r
    }

    /// Applies one configuration key.
    pub fn apply_config_key(&mut self, key: &str, value: &JsonValue)
        ensures
            final(self)@ == apply_key(old(self)@, key@, value@),
    {
        if str_eq(key, CONFIG_LLM_SYSTEM_PROMPT) {
            self.llm_system_prompt = str_of(value);
        } else if str_eq(key, CONFIG_LLM_TEMPERATURE) {
            self.llm_temperature = Some(json_clone(value));
        } else if str_eq(key, CONFIG_LLM_MAX_TOKENS) {
            self.llm_max_tokens = to_lenient_u32(value);
        } else if str_eq(key, CONFIG_LLM_MODEL) {
            self.llm_model = str_of(value);
        } else if str_eq(key, CONFIG_LLM_BACKEND) {
            self.llm_backend = str_of(value);
        } else if str_eq(key, CONFIG_TTS_PROFILE) {
            self.tts_profile = str_of(value);
        } else if str_eq(key, CONFIG_TTS_ENGINE) {
            self.tts_engine = str_of(value);
        } else if str_eq(key, CONFIG_TTS_ENDPOINT) {
            self.tts_endpoint = str_of(value);
        } else if str_eq(key, CONFIG_COMFY_WORKFLOW_PATH) {
            self.comfy_workflow_path = str_of(value);
        } else if str_eq(key, CONFIG_COMFY_WORKFLOW_INPUT_NODE) {
            self.comfy_workflow_input_node = str_of(value);
        } else if str_eq(key, CONFIG_COMFY_ENDPOINT) {
            self.comfy_endpoint = str_of(value);
        } else if str_eq(key, CONFIG_SHEETBOT_URL) {
            self.sheetbot_url = str_of(value);
        } else if str_eq(key, CONFIG_SHEETBOT_API_KEY) {
            self.sheetbot_api_key = str_of(value);
        } else if str_eq(key, CONFIG_STT_BASE_URL) {
            self.stt_base_url = str_of(value);
        } else if str_eq(key, CONFIG_STT_RESPONSE_FORMAT) {
            self.stt_response_format = str_of(value);
        } else if str_eq(key, CONFIG_RSS_URL) {
            self.rss_url = str_of(value);
        } else {
            set_entry(&mut self.extra, String::from_str(key), json_clone(value));
        }
    }
}

impl Default for SessionConfig {
    fn default() -> (r: SessionConfig)
        ensures
            r@ == empty_session_config(),
    {
        SessionConfig::new()
    }
}

/// Merges the runtime config chunks of `history`, in order, into one
/// configuration; later chunks override the keys they carry.
pub fn resolve_session_config(history: &[Chunk]) -> (r: SessionConfig)
    ensures
        r@ == session_config_of(history@),
{
    let mut cfg = SessionConfig::new();
    let mut i: usize = 0;
    assert(history@.take(0) =~= Seq::<Chunk>::empty());
    while i < history.len()
        invariant
            i <= history@.len(),
            cfg@ == session_config_of(history@.take(i as int)),
        decreases history.len() - i,
    {
        let c = &history[i];
        assert(history@.take(i + 1).drop_last() =~= history@.take(i as int));
        assert(history@.take(i + 1).last() == history@[i as int]);
        if is_runtime_config_chunk(c) {
            let ghost start = cfg@;
            let ghost av = anns_view(c.annotations@);
            let mut j: usize = 0;
            assert(av.take(0) =~= Seq::<(Seq<char>, JsonView)>::empty());
            while j < c.annotations.len()
                invariant
                    j <= c.annotations@.len(),
                    av == anns_view(c.annotations@),
                    cfg@ == apply_annotations(start, av.take(j as int)),
                decreases c.annotations.len() - j,
            {
                assert(av.take(j + 1).drop_last() =~= av.take(j as int));
                assert(av.take(j + 1).last() == av[j as int]);
                if !str_eq(c.annotations[j].0.as_str(), CONFIG_TYPE) {
                    cfg.apply_config_key(c.annotations[j].0.as_str(), &c.annotations[j].1);
                }
                j = j + 1;
            }
            assert(av.take(av.len() as int) =~= av);
        }
        i = i + 1;
    }
    assert(history@.take(history@.len() as int) =~= history@);
    cfg
}

/// Setting a key twice keeps the second value.
proof fn lemma_apply_key_twice(cfg: SessionConfigView, k: Seq<char>, v1: JsonView, v2: JsonView)
    ensures
        apply_key(apply_key(cfg, k, v1), k, v2) =~= apply_key(cfg, k, v2),
{
    assert(cfg.extra.insert(k, v1).insert(k, v2) =~= cfg.extra.insert(k, v2));
}

/// Setting two different keys gives the same configuration in either order.
#[verifier::rlimit(100)]
proof fn lemma_apply_key_commutes(
    cfg: SessionConfigView,
    k1: Seq<char>,
    v1: JsonView,
    k2: Seq<char>,
    v2: JsonView,
)
    requires
        k1 != k2,
    ensures
        apply_key(apply_key(cfg, k1, v1), k2, v2) =~= apply_key(apply_key(cfg, k2, v2), k1, v1),
{
    assert(cfg.extra.insert(k1, v1).insert(k2, v2) =~= cfg.extra.insert(k2, v2).insert(k1, v1));
}

/// The annotations of a history's runtime config chunks, in order.
pub open spec fn config_writes(h: Seq<Chunk>) -> Seq<(Seq<char>, JsonView)>
    decreases h.len(),
{
    if h.len() == 0 {
        Seq::empty()
    } else {
        let prev = config_writes(h.drop_last());
        if is_runtime_config(h.last()) {
            prev + h.last()@.annotations
        } else {
            prev
        }
    }
}

/// Whether some annotation of `w` has key `k`.
pub open spec fn writes_key(w: Seq<(Seq<char>, JsonView)>, k: Seq<char>) -> bool {
    exists|i: int| 0 <= i < w.len() && #[trigger] w[i].0 == k
}

proof fn lemma_apply_concat(cfg: SessionConfigView, a: Seq<(Seq<char>, JsonView)>, b: Seq<(Seq<char>, JsonView)>)
    ensures
        apply_annotations(cfg, a + b) == apply_annotations(apply_annotations(cfg, a), b),
    decreases b.len(),
{
    if b.len() == 0 {
        assert(a + b =~= a);
    } else {
        lemma_apply_concat(cfg, a, b.drop_last());
        assert((a + b).drop_last() =~= a + b.drop_last());
        assert((a + b).last() == b.last());
    }
}

proof fn lemma_config_writes(h: Seq<Chunk>)
    ensures
        session_config_of(h) == apply_annotations(empty_session_config(), config_writes(h)),
    decreases h.len(),
{
    if h.len() > 0 {
        lemma_config_writes(h.drop_last());
        if is_runtime_config(h.last()) {
            lemma_apply_concat(empty_session_config(), config_writes(h.drop_last()), h.last()@.annotations);
        }
    }
}

proof fn lemma_writes_concat(a: Seq<Chunk>, b: Seq<Chunk>)
    ensures
        config_writes(a + b) == config_writes(a) + config_writes(b),
    decreases b.len(),
{
    if b.len() == 0 {
        assert(a + b =~= a);
        assert(config_writes(a) + config_writes(b) =~= config_writes(a));
    } else {
        lemma_writes_concat(a, b.drop_last());
        assert((a + b).drop_last() =~= a + b.drop_last());
        assert((a + b).last() == b.last());
        if is_runtime_config(b.last()) {
            assert(config_writes(a) + config_writes(b.drop_last()) + b.last()@.annotations =~= config_writes(a) + (
            config_writes(b.drop_last()) + b.last()@.annotations));
        }
    }
}

/// A key set now and not written by `w` keeps its value through `w`.
proof fn lemma_apply_past(d: SessionConfigView, k: Seq<char>, v: JsonView, w: Seq<(Seq<char>, JsonView)>)
    requires
        !writes_key(w, k),
    ensures
        apply_annotations(apply_key(d, k, v), w) == apply_key(apply_annotations(d, w), k, v),
    decreases w.len(),
{
    if w.len() > 0 {
        let w1 = w.drop_last();
        assert(!writes_key(w1, k)) by {
            if writes_key(w1, k) {
                let i = choose|i: int| 0 <= i < w1.len() && #[trigger] w1[i].0 == k;
                assert(w[i].0 == k);
            }
        }
        lemma_apply_past(d, k, v, w1);
        let x = w.last();
        assert(w[w.len() - 1] == x);
        if x.0 != CONFIG_TYPE@ {
            lemma_apply_key_commutes(apply_annotations(d, w1), k, v, x.0, x.1);
        }
    }
}

/// A key set now and written again by `w` makes no difference after `w`.
proof fn lemma_apply_overwritten(d: SessionConfigView, k: Seq<char>, v: JsonView, w: Seq<(Seq<char>, JsonView)>)
    requires
        k != CONFIG_TYPE@,
        writes_key(w, k),
    ensures
        apply_annotations(apply_key(d, k, v), w) == apply_annotations(d, w),
    decreases w.len(),
{
    let w1 = w.drop_last();
    let x = w.last();
    assert(w[w.len() - 1] == x);
    if writes_key(w1, k) {
        lemma_apply_overwritten(d, k, v, w1);
    } else {
        let i = choose|i: int| 0 <= i < w.len() && #[trigger] w[i].0 == k;
        if i < w.len() - 1 {
            assert(w1[i].0 == k);
        }
        assert(x.0 == k);
        lemma_apply_past(d, k, v, w1);
        lemma_apply_key_twice(apply_annotations(d, w1), k, v, x.1);
    }
}

/// Annotations whose keys are all written again by `w` make no difference
/// before `w`.
proof fn lemma_apply_covered(c: SessionConfigView, u: Seq<(Seq<char>, JsonView)>, w: Seq<(Seq<char>, JsonView)>)
    requires
        forall|i: int| 0 <= i < u.len() && u[i].0 != CONFIG_TYPE@ ==> writes_key(w, #[trigger] u[i].0),
    ensures
        apply_annotations(apply_annotations(c, u), w) == apply_annotations(c, w),
    decreases u.len(),
{
    if u.len() > 0 {
        let u1 = u.drop_last();
        let e = u.last();
        assert(u[u.len() - 1] == e);
        assert forall|i: int| 0 <= i < u1.len() && u1[i].0 != CONFIG_TYPE@ implies writes_key(w, #[trigger] u1[i].0) by {
            assert(u1[i] == u[i]);
        }
        lemma_apply_covered(c, u1, w);
        if e.0 != CONFIG_TYPE@ {
            lemma_apply_overwritten(apply_annotations(c, u1), e.0, e.1, w);
        }
    }
}

/// Configuration is a per-key merge in which the last writer wins, so a
/// history applied twice configures a session as it does once.
pub proof fn law_history_twice_same_config(h: Seq<Chunk>)
    ensures
        session_config_of(h + h) == session_config_of(h),
{
    let w = config_writes(h);
    lemma_config_writes(h + h);
    lemma_config_writes(h);
    lemma_writes_concat(h, h);
    lemma_apply_concat(empty_session_config(), w, w);
    assert forall|i: int| 0 <= i < w.len() && w[i].0 != CONFIG_TYPE@ implies writes_key(w, #[trigger] w[i].0) by {}
    lemma_apply_covered(empty_session_config(), w, w);
}

/// Applying a chunk's annotations sets the setting `sel` of key `k` to
/// what the chunk gives it (`val` of its value), and leaves it where the
/// chunk does not carry `k`.
proof fn lemma_apply_setting<T>(
    cfg: SessionConfigView,
    anns: Seq<(Seq<char>, JsonView)>,
    k: Seq<char>,
    sel: spec_fn(SessionConfigView) -> T,
    val: spec_fn(JsonView) -> T,
)
    requires
        unique_keys(anns),
        k != CONFIG_TYPE@,
        forall|c: SessionConfigView, k2: Seq<char>, v: JsonView|
            #![trigger apply_key(c, k2, v)]
            sel(apply_key(c, k2, v)) == if k2 == k {
                val(v)
            } else {
                sel(c)
            },
    ensures
        sel(apply_annotations(cfg, anns)) == match ann_get(anns, k) {
            Some(v) => val(v),
            None => sel(cfg),
        },
    decreases anns.len(),
{
    if anns.len() > 0 {
        let init = anns.drop_last();
        assert(unique_keys(init)) by {
            assert forall|i: int, j: int| 0 <= i < j < init.len() implies #[trigger] init[i].0 != #[trigger] init[j].0 by {
                assert(init[i] == anns[i] && init[j] == anns[j]);
            }
        }
        lemma_apply_setting(cfg, init, k, sel, val);
        assert(init.push(anns.last()) =~= anns);
        lemma_ann_get_push_end(init, anns.last(), k);
        let prev = apply_annotations(cfg, init);
        if anns.last().0 == k {
            if ann_get(init, k) is Some {
                lemma_ann_get_found(init, k);
                let i = choose|i: int| 0 <= i < init.len() && init[i].0 == k;
                assert(anns[i].0 != anns[anns.len() - 1].0);
            }
        }
        if anns.last().0 != CONFIG_TYPE@ {
            assert(sel(apply_key(prev, anns.last().0, anns.last().1)) == if anns.last().0 == k {
                val(anns.last().1)
            } else {
                sel(prev)
            });
        }
    }
}

/// A runtime config chunk sets each setting it carries and leaves the
/// others as they were, whatever came before: a string setting to the
/// string it gives (unset when the value is not a string), the token limit
/// to the count it gives, the temperature to the value itself.
#[verifier::rlimit(100)]
pub proof fn law_session_config_chunk_sets_its_keys(history: Seq<Chunk>, c: Chunk)
    requires
        is_runtime_config(c),
        unique_keys(c@.annotations),
    ensures
        ({
            let before = session_config_of(history);
            let after = session_config_of(history.push(c));
            &&& after.llm_system_prompt == str_setting(c, CONFIG_LLM_SYSTEM_PROMPT@, before.llm_system_prompt)
            &&& after.llm_temperature == json_setting(c, CONFIG_LLM_TEMPERATURE@, before.llm_temperature)
            &&& after.llm_max_tokens == u32_setting(c, CONFIG_LLM_MAX_TOKENS@, before.llm_max_tokens)
            &&& after.llm_model == str_setting(c, CONFIG_LLM_MODEL@, before.llm_model)
            &&& after.llm_backend == str_setting(c, CONFIG_LLM_BACKEND@, before.llm_backend)
            &&& after.tts_profile == str_setting(c, CONFIG_TTS_PROFILE@, before.tts_profile)
            &&& after.tts_engine == str_setting(c, CONFIG_TTS_ENGINE@, before.tts_engine)
            &&& after.tts_endpoint == str_setting(c, CONFIG_TTS_ENDPOINT@, before.tts_endpoint)
            &&& after.comfy_workflow_path == str_setting(c, CONFIG_COMFY_WORKFLOW_PATH@, before.comfy_workflow_path)
            &&& after.comfy_workflow_input_node == str_setting(c, CONFIG_COMFY_WORKFLOW_INPUT_NODE@, before.comfy_workflow_input_node)
            &&& after.comfy_endpoint == str_setting(c, CONFIG_COMFY_ENDPOINT@, before.comfy_endpoint)
            &&& after.sheetbot_url == str_setting(c, CONFIG_SHEETBOT_URL@, before.sheetbot_url)
            &&& after.sheetbot_api_key == str_setting(c, CONFIG_SHEETBOT_API_KEY@, before.sheetbot_api_key)
            &&& after.stt_base_url == str_setting(c, CONFIG_STT_BASE_URL@, before.stt_base_url)
            &&& after.stt_response_format == str_setting(c, CONFIG_STT_RESPONSE_FORMAT@, before.stt_response_format)
            &&& after.rss_url == str_setting(c, CONFIG_RSS_URL@, before.rss_url)
        }),
{
    let before = session_config_of(history);
    let anns = c@.annotations;
    assert(history.push(c).drop_last() =~= history);
    assert(history.push(c).last() == c);
    reveal_strlit("config.llm.system_prompt");
    reveal_strlit("config.llm.temperature");
    reveal_strlit("config.llm.max_tokens");
    reveal_strlit("config.llm.model");
    reveal_strlit("config.llm.backend");
    reveal_strlit("config.tts.profile");
    reveal_strlit("config.tts.engine");
    reveal_strlit("config.tts.endpoint");
    reveal_strlit("config.comfy.workflow_path");
    reveal_strlit("config.comfy.workflow_input_node");
    reveal_strlit("config.comfy.endpoint");
    reveal_strlit("config.sheetbot.url");
    reveal_strlit("config.sheetbot.api_key");
    reveal_strlit("config.stt.base_url");
    reveal_strlit("config.stt.response_format");
    reveal_strlit("config.rss.url");
    reveal_strlit("config.type");
    assert(CONFIG_LLM_SYSTEM_PROMPT@.len() != CONFIG_TYPE@.len());
    assert(CONFIG_LLM_TEMPERATURE@.len() != CONFIG_TYPE@.len());
    assert(CONFIG_LLM_MAX_TOKENS@.len() != CONFIG_TYPE@.len());
    assert(CONFIG_LLM_MODEL@.len() != CONFIG_TYPE@.len());
    assert(CONFIG_LLM_BACKEND@.len() != CONFIG_TYPE@.len());
    assert(CONFIG_TTS_PROFILE@.len() != CONFIG_TYPE@.len());
    assert(CONFIG_TTS_ENGINE@.len() != CONFIG_TYPE@.len());
    assert(CONFIG_TTS_ENDPOINT@.len() != CONFIG_TYPE@.len());
    assert(CONFIG_COMFY_WORKFLOW_PATH@.len() != CONFIG_TYPE@.len());
    assert(CONFIG_COMFY_WORKFLOW_INPUT_NODE@.len() != CONFIG_TYPE@.len());
    assert(CONFIG_COMFY_ENDPOINT@.len() != CONFIG_TYPE@.len());
    assert(CONFIG_SHEETBOT_URL@.len() != CONFIG_TYPE@.len());
    assert(CONFIG_SHEETBOT_API_KEY@.len() != CONFIG_TYPE@.len());
    assert(CONFIG_STT_BASE_URL@.len() != CONFIG_TYPE@.len());
    assert(CONFIG_STT_RESPONSE_FORMAT@.len() != CONFIG_TYPE@.len());
    assert(CONFIG_RSS_URL@.len() != CONFIG_TYPE@.len());
    assert(CONFIG_TTS_PROFILE@[7] != CONFIG_LLM_BACKEND@[7]);
    assert(CONFIG_COMFY_ENDPOINT@[7] != CONFIG_LLM_MAX_TOKENS@[7]);
    assert(CONFIG_SHEETBOT_URL@[7] != CONFIG_TTS_ENDPOINT@[7]);
    assert(CONFIG_STT_BASE_URL@[7] != CONFIG_TTS_ENDPOINT@[7]);
    assert(CONFIG_STT_BASE_URL@[8] != CONFIG_SHEETBOT_URL@[8]);
    assert(CONFIG_STT_RESPONSE_FORMAT@[7] != CONFIG_COMFY_WORKFLOW_PATH@[7]);
    lemma_apply_setting(before, anns, CONFIG_LLM_SYSTEM_PROMPT@, |s: SessionConfigView| s.llm_system_prompt, |v: JsonView| json_as_str(v));
    lemma_apply_setting(before, anns, CONFIG_LLM_TEMPERATURE@, |s: SessionConfigView| s.llm_temperature, |v: JsonView| Some(v));
    lemma_apply_setting(before, anns, CONFIG_LLM_MAX_TOKENS@, |s: SessionConfigView| s.llm_max_tokens, |v: JsonView| lenient_u32(v));
    lemma_apply_setting(before, anns, CONFIG_LLM_MODEL@, |s: SessionConfigView| s.llm_model, |v: JsonView| json_as_str(v));
    lemma_apply_setting(before, anns, CONFIG_LLM_BACKEND@, |s: SessionConfigView| s.llm_backend, |v: JsonView| json_as_str(v));
    lemma_apply_setting(before, anns, CONFIG_TTS_PROFILE@, |s: SessionConfigView| s.tts_profile, |v: JsonView| json_as_str(v));
    lemma_apply_setting(before, anns, CONFIG_TTS_ENGINE@, |s: SessionConfigView| s.tts_engine, |v: JsonView| json_as_str(v));
    lemma_apply_setting(before, anns, CONFIG_TTS_ENDPOINT@, |s: SessionConfigView| s.tts_endpoint, |v: JsonView| json_as_str(v));
    lemma_apply_setting(before, anns, CONFIG_COMFY_WORKFLOW_PATH@, |s: SessionConfigView| s.comfy_workflow_path, |v: JsonView| json_as_str(v));
    lemma_apply_setting(before, anns, CONFIG_COMFY_WORKFLOW_INPUT_NODE@, |s: SessionConfigView| s.comfy_workflow_input_node, |v: JsonView| json_as_str(v));
    lemma_apply_setting(before, anns, CONFIG_COMFY_ENDPOINT@, |s: SessionConfigView| s.comfy_endpoint, |v: JsonView| json_as_str(v));
    lemma_apply_setting(before, anns, CONFIG_SHEETBOT_URL@, |s: SessionConfigView| s.sheetbot_url, |v: JsonView| json_as_str(v));
    lemma_apply_setting(before, anns, CONFIG_SHEETBOT_API_KEY@, |s: SessionConfigView| s.sheetbot_api_key, |v: JsonView| json_as_str(v));
    lemma_apply_setting(before, anns, CONFIG_STT_BASE_URL@, |s: SessionConfigView| s.stt_base_url, |v: JsonView| json_as_str(v));
    lemma_apply_setting(before, anns, CONFIG_STT_RESPONSE_FORMAT@, |s: SessionConfigView| s.stt_response_format, |v: JsonView| json_as_str(v));
    lemma_apply_setting(before, anns, CONFIG_RSS_URL@, |s: SessionConfigView| s.rss_url, |v: JsonView| json_as_str(v));
}


/// Whether `k` is the key of one of the named settings.
pub open spec fn is_setting_key(k: Seq<char>) -> bool {
    k == CONFIG_LLM_SYSTEM_PROMPT@
        || k == CONFIG_LLM_TEMPERATURE@
        || k == CONFIG_LLM_MAX_TOKENS@
        || k == CONFIG_LLM_MODEL@
        || k == CONFIG_LLM_BACKEND@
        || k == CONFIG_TTS_PROFILE@
        || k == CONFIG_TTS_ENGINE@
        || k == CONFIG_TTS_ENDPOINT@
        || k == CONFIG_COMFY_WORKFLOW_PATH@
        || k == CONFIG_COMFY_WORKFLOW_INPUT_NODE@
        || k == CONFIG_COMFY_ENDPOINT@
        || k == CONFIG_SHEETBOT_URL@
        || k == CONFIG_SHEETBOT_API_KEY@
        || k == CONFIG_STT_BASE_URL@
        || k == CONFIG_STT_RESPONSE_FORMAT@
        || k == CONFIG_RSS_URL@
}

/// A runtime config chunk keeps any other key it carries, with its value,
/// among the extra settings.
pub proof fn law_session_config_keeps_other_keys(history: Seq<Chunk>, c: Chunk, k: Seq<char>, v: JsonView)
    requires
        is_runtime_config(c),
        unique_keys(c@.annotations),
        ann_get(c@.annotations, k) == Some(v),
        k != CONFIG_TYPE@,
        !is_setting_key(k),
    ensures
        session_config_of(history.push(c)).extra.contains_key(k),
        session_config_of(history.push(c)).extra[k] == v,
{
    let before = session_config_of(history);
    assert(history.push(c).drop_last() =~= history);
    assert(history.push(c).last() == c);
    lemma_apply_setting(
        before,
        c@.annotations,
        k,
        |s: SessionConfigView| if s.extra.contains_key(k) {
            Some(s.extra[k])
        } else {
            None
        },
        |w: JsonView| Some(w),
    );
}

} // verus!
