//! Manifests of JavaScript agents: their validation, and the directories
//! scanned for agent files.
use crate::chunk::JsonValue;
use crate::text::{chars_of, str_eq, string_of, trim, trim_string};
use vstd::prelude::*;
use vstd::string::StringExecFns;

verus! {

/// The mode of an agent without one: a fresh runtime per event.
pub fn default_mode() -> (r: String)
    ensures
        r@ == "stateless"@,
{
    String::from_str("stateless")
}

/// The default of the manifest's flags that are on unless turned off.
pub fn default_true() -> (r: bool)
    ensures
        r,
{
    true
}

/// The metadata a JavaScript agent declares.
#[derive(Debug)]
pub struct JsManifest {
    /// Unique id; also the session id of a background agent.
    pub name: String,
    pub description: String,
    pub background: bool,
    pub allows_reload: bool,
    pub persists_state: bool,
    /// `stateless` (a fresh runtime per event) or `stateful` (one runtime
    /// per session).
    pub mode: String,
    /// Cron expression for the ticks of a background agent.
    pub schedule: Option<String>,
    /// Per-agent RPC timeout in seconds.
    pub rpc_timeout_secs: Option<u64>,
    /// Annotations of the config chunk published when a session starts.
    pub initial_config: Vec<(String, JsonValue)>,
}

/// A string as Rust's `Debug` formatting writes it: quoted, with escapes.
pub uninterp spec fn debug_str_text(s: Seq<char>) -> Seq<char>;

/// `format!("{:?}", s)`.
#[verifier::external_body]
fn debug_quote(s: &str) -> (r: String)
    ensures
        r@ == debug_str_text(s@),
{
    format!("{:?}", s)
}

/// Why a manifest is refused.
#[derive(Debug)]
pub enum ManifestError {
    /// The name is empty or whitespace.
    EmptyName,
    /// The mode is neither `stateless` nor `stateful`.
    BadMode(String),
}

impl ManifestError {
    /// The message reported for the refusal.
    pub fn message(&self) -> (r: String)
        ensures
            r@ == match *self {
                ManifestError::EmptyName => "manifest.name must be a non-empty string"@,
                ManifestError::BadMode(m) => "manifest.mode must be \"stateless\" or \"stateful\", got "@ + debug_str_text(m@),
            },
    {
        match self {
            ManifestError::EmptyName => String::from_str("manifest.name must be a non-empty string"),
            ManifestError::BadMode(m) => String::from_str(
                "manifest.mode must be \"stateless\" or \"stateful\", got ",
            ).concat(debug_quote(m.as_str()).as_str()),
        }
    }
}

impl JsManifest {
    /// Checks the manifest: the name must hold more than whitespace, and the
    /// mode must be `stateless` or `stateful`.
    pub fn validate(&self) -> (r: Result<(), ManifestError>)
        ensures
            trim(self.name@).len() == 0 ==> (r matches Err(ManifestError::EmptyName)),
            trim(self.name@).len() > 0 && self.mode@ != "stateless"@ && self.mode@ != "stateful"@
                ==> (r matches Err(ManifestError::BadMode(m)) && m@ == self.mode@),
            r is Ok <==> (trim(self.name@).len() > 0 && (self.mode@ == "stateless"@ || self.mode@
                == "stateful"@)),
    {
        let t = trim_string(self.name.as_str());
        if t.as_str().is_empty() {
            return Err(ManifestError::EmptyName);
        }
        if str_eq(self.mode.as_str(), "stateless") || str_eq(self.mode.as_str(), "stateful") {
            Ok(())
        } else {
            Err(ManifestError::BadMode(self.mode.clone()))
        }
    }
}

/// The pieces of `s` between colons, in order (empty ones included).
pub open spec fn colon_split(s: Seq<char>) -> Seq<Seq<char>>
    decreases s.len(),
{
    if s.len() == 0 {
        seq![Seq::empty()]
    } else {
        let prev = colon_split(s.drop_last());
        if s.last() == ':' {
            prev.push(Seq::empty())
        } else {
            prev.drop_last().push(prev.last().push(s.last()))
        }
    }
}

/// The non-empty ones of `parts`, in order.
pub open spec fn non_empty(parts: Seq<Seq<char>>) -> Seq<Seq<char>>
    decreases parts.len(),
{
    if parts.len() == 0 {
        Seq::empty()
    } else if parts.last().len() == 0 {
        non_empty(parts.drop_last())
    } else {
        non_empty(parts.drop_last()).push(parts.last())
    }
}

/// Strings by their characters.
pub open spec fn strings_view(v: Seq<String>) -> Seq<Seq<char>> {
    v.map_values(|s: String| s@)
}

proof fn lemma_colon_split_nonempty(s: Seq<char>)
    ensures
        colon_split(s).len() > 0,
    decreases s.len(),
{
    if s.len() > 0 {
        lemma_colon_split_nonempty(s.drop_last());
    }
}

/// Splits a colon-separated path list, dropping empty pieces.
pub fn split_paths(extra: &str) -> (r: Vec<String>)
    ensures
        strings_view(r@) == non_empty(colon_split(extra@)),
{
    let v = chars_of(extra);
    let mut out: Vec<String> = Vec::new();
    let mut start: usize = 0;
    let mut i: usize = 0;
    assert(v@.take(0) =~= Seq::<char>::empty());
    while i < v.len()
        invariant
            start <= i <= v@.len(),
            v@ == extra@,
            colon_split(v@.take(i as int)).len() > 0,
            colon_split(v@.take(i as int)).last() == v@.subrange(start as int, i as int),
            strings_view(out@) == non_empty(colon_split(v@.take(i as int)).drop_last()),
        decreases v.len() - i,
    {
        let ghost prev = colon_split(v@.take(i as int));
        assert(v@.take(i + 1).drop_last() =~= v@.take(i as int));
        assert(v@.take(i + 1).last() == v@[i as int]);
        if v[i] == ':' {
            let ghost before = out@;
            if start < i {
                out.push(string_of(&v, start, i));
                assert(strings_view(out@) =~= strings_view(before).push(v@.subrange(start as int, i as int)));
            }
            assert(colon_split(v@.take(i + 1)).drop_last() =~= prev);
            assert(prev =~= prev.drop_last().push(prev.last()));
            start = i + 1;
            assert(colon_split(v@.take(i + 1)).last() =~= v@.subrange(start as int, i + 1));
        } else {
            assert(colon_split(v@.take(i + 1)).drop_last() =~= prev.drop_last());
            assert(v@.subrange(start as int, i + 1) =~= v@.subrange(start as int, i as int).push(v@[i as int]));
        }
        i = i + 1;
    }
    let ghost parts = colon_split(v@.take(i as int));
    assert(v@.take(v@.len() as int) =~= v@);
    let ghost before = out@;
    if start < v.len() {
        out.push(string_of(&v, start, v.len()));
        assert(strings_view(out@) =~= strings_view(before).push(v@.subrange(start as int, v@.len() as int)));
    }
    assert(parts =~= parts.drop_last().push(parts.last()));
    out
}

/// `dirs` without repeats, each at its first place.
pub open spec fn dedupe(dirs: Seq<Seq<char>>) -> Seq<Seq<char>>
    decreases dirs.len(),
{
    if dirs.len() == 0 {
        Seq::empty()
    } else {
        let prev = dedupe(dirs.drop_last());
        if prev.contains(dirs.last()) {
            prev
        } else {
            prev.push(dirs.last())
        }
    }
}

fn contains_string(v: &Vec<String>, s: &str) -> (r: bool)
    ensures
        r == strings_view(v@).contains(s@),
{
    let mut i: usize = 0;
    while i < v.len()
        invariant
            i <= v@.len(),
            forall|j: int| 0 <= j < i ==> (#[trigger] strings_view(v@)[j]) != s@,
        decreases v.len() - i,
    {
        if str_eq(v[i].as_str(), s) {
            assert(strings_view(v@)[i as int] == s@);
            return true;
        }
        i = i + 1;
    }
    false
}

/// Removes repeated directories, keeping each at its first place.
pub fn dedupe_dirs(dirs: Vec<String>) -> (r: Vec<String>)
    ensures
        strings_view(r@) == dedupe(strings_view(dirs@)),
{
    let ghost dv = strings_view(dirs@);
    let mut out: Vec<String> = Vec::new();
    let mut i: usize = 0;
    assert(dv.take(0) =~= Seq::<Seq<char>>::empty());
    while i < dirs.len()
        invariant
            i <= dirs@.len(),
            dv == strings_view(dirs@),
            strings_view(out@) == dedupe(dv.take(i as int)),
        decreases dirs.len() - i,
    {
        assert(dv.take(i + 1).drop_last() =~= dv.take(i as int));
        assert(dv.take(i + 1).last() == dv[i as int]);
        if !contains_string(&out, dirs[i].as_str()) {
            let ghost before = out@;
            out.push(dirs[i].clone());
            assert(strings_view(out@) =~= strings_view(before).push(dv[i as int]));
        }
        i = i + 1;
    }
    assert(dv.take(dv.len() as int) =~= dv);
    out
}

/// The directory always scanned for JavaScript agents.
pub const DEFAULT_AGENT_DIR: &'static str = "./agents-js";

/// The directories to scan: the default one, then the colon-separated
/// extras if given, without empty pieces or repeats.
pub fn agent_dirs_from(extra: Option<&str>) -> (r: Vec<String>)
    ensures
        strings_view(r@) == dedupe(
            seq![DEFAULT_AGENT_DIR@] + match extra {
                Some(e) => non_empty(colon_split(e@)),
                None => Seq::empty(),
            },
        ),
{
    let mut dirs: Vec<String> = Vec::new();
    dirs.push(String::from_str(DEFAULT_AGENT_DIR));
    let ghost first = dirs@;
    match extra {
        Some(e) => {
            let mut more = split_paths(e);
            dirs.append(&mut more);
            assert(strings_view(dirs@) =~= seq![DEFAULT_AGENT_DIR@] + non_empty(colon_split(e@)));
        },
        None => {
            assert(strings_view(dirs@) =~= seq![DEFAULT_AGENT_DIR@] + Seq::<Seq<char>>::empty());
        },
    }
    dedupe_dirs(dirs)
}

proof fn lemma_push_contains(s: Seq<Seq<char>>, e: Seq<char>, x: Seq<char>)
    ensures
        s.push(e).contains(x) <==> (s.contains(x) || x == e),
{
    if s.contains(x) {
        let k = choose|k: int| 0 <= k < s.len() && s[k] == x;
        assert(s.push(e)[k] == x);
    }
    if x == e {
        assert(s.push(e)[s.len() as int] == x);
    }
    if s.push(e).contains(x) {
        let k = choose|k: int| 0 <= k < s.push(e).len() && s.push(e)[k] == x;
        if k < s.len() {
            assert(s[k] == x);
        }
    }
}

proof fn lemma_dedupe_props(dirs: Seq<Seq<char>>)
    ensures
        forall|i: int, j: int| 0 <= i < j < dedupe(dirs).len() ==> dedupe(dirs)[i] != dedupe(dirs)[j],
        forall|x: Seq<char>| dedupe(dirs).contains(x) <==> dirs.contains(x),
    decreases dirs.len(),
{
    if dirs.len() > 0 {
        let d = dirs.drop_last();
        let x0 = dirs.last();
        lemma_dedupe_props(d);
        let prev = dedupe(d);
        assert(dirs =~= d.push(x0));
        assert forall|x: Seq<char>| dedupe(dirs).contains(x) <==> dirs.contains(x) by {
            lemma_push_contains(d, x0, x);
            lemma_push_contains(prev, x0, x);
        }
    }
}

/// Deduplication leaves no repeats and drops no directory.
pub proof fn law_dedupe_dirs(dirs: Seq<Seq<char>>)
    ensures
        forall|i: int, j: int| 0 <= i < j < dedupe(dirs).len() ==> dedupe(dirs)[i] != dedupe(dirs)[j],
        forall|x: Seq<char>| dedupe(dirs).contains(x) <==> dirs.contains(x),
{
    lemma_dedupe_props(dirs);
}

/// Splitting drops every empty piece.
pub proof fn law_split_paths_no_empties(parts: Seq<Seq<char>>)
    ensures
        forall|i: int| 0 <= i < non_empty(parts).len() ==> (#[trigger] non_empty(parts)[i]).len() > 0,
    decreases parts.len(),
{
    if parts.len() > 0 {
        law_split_paths_no_empties(parts.drop_last());
        let prev = non_empty(parts.drop_last());
        assert forall|i: int| 0 <= i < non_empty(parts).len() implies (#[trigger] non_empty(parts)[i]).len() > 0 by {
            if i < prev.len() {
                assert(non_empty(parts)[i] == prev[i]);
            }
        }
    }
}

} // verus!
