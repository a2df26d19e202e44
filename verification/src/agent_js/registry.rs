//! The registry of JavaScript agents: agent name → the file that defines
//! it. The last file defining a name wins; hot reloads replace an agent
//! unless its manifest forbids it.
use crate::agent_runtime::shadowing::{insert_sorted, strictly_sorted};
use crate::codec::{hash_bytes, hex_lower, sha256_of};
use crate::js_manifest::strings_view;
use crate::js_manifest::JsManifest;
use crate::text::str_eq;
use vstd::prelude::*;
use vstd::string::StringExecFns;
use vstd::utf8::encode_utf8;

verus! {

/// A scanned agent file: where it is, its source and its manifest.
#[derive(Debug)]
pub struct LoadedJsFile {
    pub path: String,
    pub source: String,
    pub manifest: JsManifest,
}

/// What scanning one directory gave: the agent files that loaded, and the
/// others with the reason each was skipped.
#[derive(Debug)]
pub struct ScanResult {
    pub loaded: Vec<LoadedJsFile>,
    pub skipped: Vec<(String, String)>,
}

/// A registered agent: its file, with the hash of its source.
#[derive(Debug)]
pub struct JsAgent {
    pub manifest: JsManifest,
    pub source: String,
    pub path: String,
    /// SHA-256 of the source, lowercase hex.
    pub file_hash: String,
}

/// The agent's name.
pub open spec fn name_of(a: JsAgent) -> Seq<char> {
    a.manifest.name@
}

/// The file an agent came from, without its hash.
pub open spec fn file_of(a: JsAgent) -> LoadedJsFile {
    LoadedJsFile { path: a.path, source: a.source, manifest: a.manifest }
}

/// The hash of a source text.
pub open spec fn source_hash(source: Seq<char>) -> Seq<char> {
    hex_lower(sha256_of(encode_utf8(source)))
}

impl JsAgent {
    /// The agent a scanned file defines.
    pub fn from_loaded(loaded: LoadedJsFile) -> (a: JsAgent)
        ensures
            file_of(a) == loaded,
            a.file_hash@ == source_hash(loaded.source@),
    {
        let file_hash = hash_bytes(loaded.source.as_str().as_bytes());
        let LoadedJsFile { path, source, manifest } = loaded;
        JsAgent { manifest, source, path, file_hash }
    }
}

/// The agent named `n` among `s` (its first occurrence).
pub open spec fn agent_named(s: Seq<JsAgent>, n: Seq<char>) -> Option<JsAgent>
    decreases s.len(),
{
    if s.len() == 0 {
        None
    } else if name_of(s[0]) == n {
        Some(s[0])
    } else {
        agent_named(s.drop_first(), n)
    }
}

/// No name occurs twice.
pub open spec fn unique_names(s: Seq<JsAgent>) -> bool {
    forall|i: int, j: int| 0 <= i < j < s.len() ==> name_of(s[i]) != name_of(s[j])
}

/// The warning for a name defined by a second file.
pub open spec fn redefined_text(name: Seq<char>, path: Seq<char>, prev_path: Seq<char>) -> Seq<char> {
    "agent '"@ + name + "' redefined by "@ + path + " (was "@ + prev_path + "); last file wins"@
}

/// The warning for a skipped file.
pub open spec fn skipped_text(path: Seq<char>, reason: Seq<char>) -> Seq<char> {
    "skipping "@ + path + ": "@ + reason
}

/// Whether an agent stays when file `path` now defines agent `name`: it
/// came from another file, or it is that agent.
pub open spec fn stays(a: JsAgent, path: Seq<char>, name: Seq<char>) -> bool {
    !(a.path@ == path && name_of(a) != name)
}

/// A reload the agent's manifest forbids.
#[derive(Debug)]
pub struct ReloadRefused {
    pub name: String,
}

impl ReloadRefused {
    /// The message the refusal is reported with.
    pub fn message(&self) -> (r: String)
        ensures
            r@ == "agent '"@ + self.name@ + "' sets allows_reload = false; change ignored"@,
    {
        String::from_str("agent '").concat(self.name.as_str()).concat(
            "' sets allows_reload = false; change ignored",
        )
    }
}

/// Registered agents, each name at most once.
pub struct JsRegistry {
    pub agents: Vec<JsAgent>,
}

proof fn lemma_agent_named_index(s: Seq<JsAgent>, n: Seq<char>)
    requires
        unique_names(s),
    ensures
        agent_named(s, n) matches Some(a) ==> exists|i: int| 0 <= i < s.len() && s[i] == a && name_of(a) == n,
        agent_named(s, n) is None ==> forall|i: int| 0 <= i < s.len() ==> name_of(s[i]) != n,
        forall|i: int| 0 <= i < s.len() && name_of(s[i]) == n ==> agent_named(s, n) == Some(s[i]),
    decreases s.len(),
{
    if s.len() > 0 {
        let t = s.drop_first();
        assert(unique_names(t)) by {
            assert forall|i: int, j: int| 0 <= i < j < t.len() implies name_of(t[i]) != name_of(t[j]) by {
                assert(t[i] == s[i + 1] && t[j] == s[j + 1]);
            }
        }
        lemma_agent_named_index(t, n);
        if name_of(s[0]) != n {
            if let Some(a) = agent_named(t, n) {
                let k = choose|k: int| 0 <= k < t.len() && t[k] == a && name_of(a) == n;
                assert(s[k + 1] == a);
            }
            assert forall|i: int| 0 <= i < s.len() && name_of(s[i]) == n implies agent_named(s, n) == Some(
                s[i],
            ) by {
                assert(i > 0);
                assert(t[i - 1] == s[i]);
            }
        } else {
            assert forall|i: int| 0 <= i < s.len() && name_of(s[i]) == n implies agent_named(s, n) == Some(
                s[i],
            ) by {
                if i > 0 {
                    assert(name_of(s[0]) != name_of(s[i]));
                }
            }
        }
    }
}

/// With unique names, an agent is found by name exactly when it is listed.
proof fn lemma_agent_named(s: Seq<JsAgent>, n: Seq<char>)
    requires
        unique_names(s),
    ensures
        agent_named(s, n) is None <==> forall|i: int| 0 <= i < s.len() ==> name_of(s[i]) != n,
        forall|i: int| 0 <= i < s.len() && name_of(s[i]) == n ==> agent_named(s, n) == Some(s[i]),
        agent_named(s, n) matches Some(a) ==> name_of(a) == n,
{
    lemma_agent_named_index(s, n);
}

impl JsRegistry {
    /// The registry's invariant: no name is registered twice.
    pub open spec fn wf(&self) -> bool {
        unique_names(self.agents@)
    }

    /// The agent registered under `n`.
    pub open spec fn agent(&self, n: Seq<char>) -> Option<JsAgent> {
        agent_named(self.agents@, n)
    }

    /// An empty registry.
    pub fn new() -> (r: JsRegistry)
        ensures
            r.wf(),
            forall|n: Seq<char>| r.agent(n) is None,
            r.agents@.len() == 0,
    {
        JsRegistry { agents: Vec::new() }
    }

    /// The number of registered agents.
    pub fn len(&self) -> (r: usize)
        ensures
            r == self.agents@.len(),
    {
        self.agents.len()
    }

    fn index_of(&self, name: &str) -> (r: Option<usize>)
        requires
            self.wf(),
        ensures
            match r {
                Some(i) => i < self.agents@.len() && name_of(self.agents@[i as int]) == name@,
                None => forall|i: int| 0 <= i < self.agents@.len() ==> name_of(self.agents@[i]) != name@,
            },
    {
        let mut i: usize = 0;
        while i < self.agents.len()
            invariant
                i <= self.agents@.len(),
                forall|k: int| 0 <= k < i ==> name_of(self.agents@[k]) != name@,
            decreases self.agents.len() - i,
        {
            if str_eq(self.agents[i].manifest.name.as_str(), name) {
                return Some(i);
            }
            i = i + 1;
        }
        None
    }

    /// The agent registered under `name`.
    pub fn get(&self, name: &str) -> (r: Option<&JsAgent>)
        requires
            self.wf(),
        ensures
            match r {
                Some(a) => self.agent(name@) == Some(*a),
                None => self.agent(name@) is None,
            },
    {
        proof {
            lemma_agent_named(self.agents@, name@);
        }
        match self.index_of(name) {
            Some(i) => Some(&self.agents[i]),
            None => None,
        }
    }

    /// The names of the background agents, sorted.
    pub fn background_names(&self) -> (r: Vec<String>)
        ensures
            strictly_sorted(strings_view(r@)),
            forall|y: Seq<char>|
                strings_view(r@).contains(y) <==> exists|i: int|
                    0 <= i < self.agents@.len() && self.agents@[i].manifest.background && name_of(
                        #[trigger] self.agents@[i],
                    ) == y,
    {
        let mut out: Vec<String> = Vec::new();
        let mut i: usize = 0;
        while i < self.agents.len()
            invariant
                i <= self.agents@.len(),
                strictly_sorted(strings_view(out@)),
                forall|y: Seq<char>|
                    strings_view(out@).contains(y) <==> exists|k: int|
                        0 <= k < i && self.agents@[k].manifest.background && name_of(
                            #[trigger] self.agents@[k],
                        ) == y,
            decreases self.agents.len() - i,
        {
            if self.agents[i].manifest.background {
                let ghost before = strings_view(out@);
                insert_sorted(&mut out, self.agents[i].manifest.name.clone());
                proof {
                    assert forall|y: Seq<char>| strings_view(out@).contains(y) <==> exists|k: int|
                        0 <= k < i + 1 && self.agents@[k].manifest.background && name_of(
                            #[trigger] self.agents@[k],
                        ) == y by {
                        if y == name_of(self.agents@[i as int]) {
                            assert(self.agents@[i as int].manifest.background);
                        }
                        if before.contains(y) {
                            let k = choose|k: int|
                                0 <= k < i && self.agents@[k].manifest.background && name_of(
                                    #[trigger] self.agents@[k],
                                ) == y;
                            assert(0 <= k < i + 1);
                        }
                    }
                }
            } else {
                proof {
                    assert forall|y: Seq<char>| strings_view(out@).contains(y) <==> exists|k: int|
                        0 <= k < i + 1 && self.agents@[k].manifest.background && name_of(
                            #[trigger] self.agents@[k],
                        ) == y by {
                        if exists|k: int|
                            0 <= k < i + 1 && self.agents@[k].manifest.background && name_of(
                                #[trigger] self.agents@[k],
                            ) == y {
                            let k = choose|k: int|
                                0 <= k < i + 1 && self.agents@[k].manifest.background && name_of(
                                    #[trigger] self.agents@[k],
                                ) == y;
                            assert(k != i);
                        }
                        if strings_view(out@).contains(y) {
                            let k = choose|k: int|
                                0 <= k < i && self.agents@[k].manifest.background && name_of(
                                    #[trigger] self.agents@[k],
                                ) == y;
                            assert(0 <= k < i + 1);
                        }
                    }
                }
            }
            i = i + 1;
        }
        out
    }

    /// Registers an agent; an agent of the same name is replaced, with a
    /// warning naming both files.
    pub fn insert(&mut self, agent: JsAgent) -> (warning: Option<String>)
        requires
            old(self).wf(),
        ensures
            final(self).wf(),
            final(self).agent(name_of(agent)) == Some(agent),
            forall|n: Seq<char>| n != name_of(agent) ==> final(self).agent(n) == old(self).agent(n),
            match old(self).agent(name_of(agent)) {
                Some(prev) => warning matches Some(w) && w@ == redefined_text(
                    name_of(agent),
                    agent.path@,
                    prev.path@,
                ),
                None => warning is None,
            },
    {
        let ghost old_agents = self.agents@;
        let ghost an = name_of(agent);
        proof {
            lemma_agent_named(old_agents, an);
        }
        match self.index_of(agent.manifest.name.as_str()) {
            Some(i) => {
                let warning = String::from_str("agent '").concat(agent.manifest.name.as_str()).concat(
                    "' redefined by ",
                ).concat(agent.path.as_str()).concat(" (was ").concat(self.agents[i].path.as_str()).concat(
                    "); last file wins",
                );
                let ghost ag = agent;
                self.agents.set(i, agent);
                proof {
                    let s = self.agents@;
                    assert(s == old_agents.update(i as int, ag));
                    assert(unique_names(s)) by {
                        assert forall|p: int, q: int| 0 <= p < q < s.len() implies name_of(s[p]) != name_of(
                            s[q],
                        ) by {
                            if p != i && q != i {
                                assert(s[p] == old_agents[p] && s[q] == old_agents[q]);
                            } else if p == i {
                                assert(name_of(s[p]) == name_of(old_agents[p]));
                            } else {
                                assert(name_of(s[q]) == name_of(old_agents[q]));
                            }
                        }
                    }
                    lemma_agent_named(s, an);
                    assert(s[i as int] == ag);
                    assert forall|n: Seq<char>| n != an implies agent_named(s, n) == agent_named(
                        old_agents,
                        n,
                    ) by {
                        lemma_agent_named(s, n);
                        lemma_agent_named(old_agents, n);
                        if agent_named(old_agents, n) is None {
                            assert forall|k: int| 0 <= k < s.len() implies name_of(s[k]) != n by {
                                if k != i {
                                    assert(s[k] == old_agents[k]);
                                }
                            }
                        } else {
                            let k = choose|k: int|
                                0 <= k < old_agents.len() && name_of(old_agents[k]) == n;
                            assert(k != i);
                            assert(s[k] == old_agents[k]);
                        }
                    }
                }
                Some(warning)
            },
            None => {
                let ghost ag = agent;
                self.agents.push(agent);
                proof {
                    let s = self.agents@;
                    assert(s == old_agents.push(ag));
                    assert(unique_names(s)) by {
                        assert forall|p: int, q: int| 0 <= p < q < s.len() implies name_of(s[p]) != name_of(
                            s[q],
                        ) by {
                            if q == old_agents.len() {
                                assert(s[p] == old_agents[p]);
                            } else {
                                assert(s[p] == old_agents[p] && s[q] == old_agents[q]);
                            }
                        }
                    }
                    lemma_agent_named(s, an);
                    assert(s[old_agents.len() as int] == ag);
                    assert forall|n: Seq<char>| n != an implies agent_named(s, n) == agent_named(
                        old_agents,
                        n,
                    ) by {
                        lemma_agent_named(s, n);
                        lemma_agent_named(old_agents, n);
                        if agent_named(old_agents, n) is None {
                            assert forall|k: int| 0 <= k < s.len() implies name_of(s[k]) != n by {
                                if k < old_agents.len() {
                                    assert(s[k] == old_agents[k]);
                                }
                            }
                        } else {
                            let k = choose|k: int|
                                0 <= k < old_agents.len() && name_of(old_agents[k]) == n;
                            assert(s[k] == old_agents[k]);
                        }
                    }
                }
                None
            },
        }
    }

    /// Drops the agents from `path` that are not named `name` (the file was
    /// renamed to another agent).
    fn drop_renamed(&mut self, path: &str, name: &str)
        requires
            old(self).wf(),
        ensures
            final(self).wf(),
            forall|n: Seq<char>|
                final(self).agent(n) == (match old(self).agent(n) {
                    Some(a) => if a.path@ == path@ && n != name@ {
                        None
                    } else {
                        Some(a)
                    },
                    None => None,
                }),
    {
        let ghost old_agents = self.agents@;
        let mut kept: Vec<JsAgent> = Vec::new();
        let mut rest: Vec<JsAgent> = Vec::new();
        std::mem::swap(&mut rest, &mut self.agents);
        assert(rest@ == old_agents);
        let mut i: usize = 0;
        let n = rest.len();
        let ghost mut idx: Seq<int> = Seq::empty();
        while rest.len() > 0
            invariant
                rest@.len() + i == n,
                n == old_agents.len(),
                rest@ == old_agents.skip(i as int),
                idx.len() == kept@.len(),
                forall|k: int| 0 <= k < idx.len() ==> 0 <= #[trigger] idx[k] < i && kept@[k] == old_agents[idx[k]],
                forall|k: int, l: int| 0 <= k < l < idx.len() ==> idx[k] < idx[l],
                forall|j: int|
                    0 <= j < i ==> ((exists|k: int| 0 <= k < idx.len() && idx[k] == j) <==> stays(
                        old_agents[j],
                        path@,
                        name@,
                    )),
            decreases rest@.len(),
        {
            let a = rest.remove(0);
            assert(old_agents.skip(i as int)[0] == old_agents[i as int]);
            assert(old_agents.skip(i as int).drop_first() =~= old_agents.skip(i + 1));
            let keep = !(str_eq(a.path.as_str(), path) && !str_eq(a.manifest.name.as_str(), name));
            let ghost old_idx = idx;
            if keep {
                proof {
                    idx = idx.push(i as int);
                }
                kept.push(a);
            }
            proof {
                assert forall|j: int| 0 <= j < i + 1 implies ((exists|k: int| 0 <= k < idx.len() && idx[k] == j)
                    <==> stays(old_agents[j], path@, name@)) by {
                    if j < i {
                        if exists|k: int| 0 <= k < old_idx.len() && old_idx[k] == j {
                            let k = choose|k: int| 0 <= k < old_idx.len() && old_idx[k] == j;
                            assert(idx[k] == j);
                        }
                        if exists|k: int| 0 <= k < idx.len() && idx[k] == j {
                            let k = choose|k: int| 0 <= k < idx.len() && idx[k] == j;
                            assert(k < old_idx.len());
                            assert(old_idx[k] == j);
                        }
                    } else if keep {
                        assert(idx[old_idx.len() as int] == i);
                    } else {
                        assert forall|k: int| 0 <= k < idx.len() implies idx[k] != j by {
                            assert(old_idx[k] < i);
                        }
                    }
                }
            }
            i = i + 1;
        }
        self.agents = kept;
        proof {
            let s = self.agents@;
            assert(unique_names(s)) by {
                assert forall|p: int, q: int| 0 <= p < q < s.len() implies name_of(s[p]) != name_of(s[q]) by {
                    assert(idx[p] < idx[q]);
                }
            }
            assert forall|m: Seq<char>|
                agent_named(s, m) == (match agent_named(old_agents, m) {
                    Some(a) => if a.path@ == path@ && m != name@ {
                        None
                    } else {
                        Some(a)
                    },
                    None => None,
                }) by {
                lemma_agent_named(s, m);
                lemma_agent_named(old_agents, m);
                if agent_named(old_agents, m) is None {
                    assert forall|k: int| 0 <= k < s.len() implies name_of(s[k]) != m by {
                        assert(s[k] == old_agents[idx[k]]);
                    }
                } else {
                    let j = choose|j: int| 0 <= j < old_agents.len() && name_of(old_agents[j]) == m;
                    if old_agents[j].path@ == path@ && m != name@ {
                        assert forall|k: int| 0 <= k < s.len() implies name_of(s[k]) != m by {
                            assert(s[k] == old_agents[idx[k]]);
                            if name_of(s[k]) == m {
                                assert(idx[k] == j);
                            }
                        }
                    } else {
                        let k = choose|k: int| 0 <= k < idx.len() && idx[k] == j;
                        assert(s[k] == old_agents[j]);
                    }
                }
            }
        }
    }

    /// Replaces an agent after its file changed: refused, leaving the
    /// registry as it was, when the new manifest forbids reloading;
    /// otherwise agents the file defined under another name are dropped and
    /// the new one registered. Gives the agent's name.
    pub fn reload(&mut self, agent: JsAgent) -> (r: Result<String, ReloadRefused>)
        requires
            old(self).wf(),
        ensures
            final(self).wf(),
            !agent.manifest.allows_reload ==> (r matches Err(e) && e.name@ == name_of(agent)
                && final(self).agents@ == old(self).agents@),
            agent.manifest.allows_reload ==> (r matches Ok(n) && n@ == name_of(agent)),
            agent.manifest.allows_reload ==> forall|n: Seq<char>|
                final(self).agent(n) == if n == name_of(agent) {
                    Some(agent)
                } else {
                    match old(self).agent(n) {
                        Some(a) => if a.path@ == agent.path@ {
                            None
                        } else {
                            Some(a)
                        },
                        None => None,
                    }
                },
    {
        if !agent.manifest.allows_reload {
            return Err(ReloadRefused { name: agent.manifest.name.clone() });
        }
        let name = agent.manifest.name.clone();
        self.drop_renamed(agent.path.as_str(), name.as_str());
        let _ = self.insert(agent);
        Ok(name)
    }
}

/// The registry and warnings after registering `files` in order.
pub open spec fn insert_all(
    m: Map<Seq<char>, LoadedJsFile>,
    w: Seq<Seq<char>>,
    files: Seq<LoadedJsFile>,
) -> (Map<Seq<char>, LoadedJsFile>, Seq<Seq<char>>)
    decreases files.len(),
{
    if files.len() == 0 {
        (m, w)
    } else {
        let (m1, w1) = insert_all(m, w, files.drop_last());
        let f = files.last();
        let n = f.manifest.name@;
        (
            m1.insert(n, f),
            if m1.contains_key(n) {
                w1.push(redefined_text(n, f.path@, m1[n].path@))
            } else {
                w1
            },
        )
    }
}

/// The warnings for the skipped files of a scan.
pub open spec fn skipped_texts(skipped: Seq<(String, String)>) -> Seq<Seq<char>> {
    skipped.map_values(|p: (String, String)| skipped_text(p.0@, p.1@))
}

/// The registry (name → file) and warnings that scans give, in order: each
/// directory's files registered, then its skipped files reported.
pub open spec fn load_scans(scans: Seq<ScanResult>) -> (Map<Seq<char>, LoadedJsFile>, Seq<Seq<char>>)
    decreases scans.len(),
{
    if scans.len() == 0 {
        (Map::empty(), Seq::empty())
    } else {
        let (m, w) = load_scans(scans.drop_last());
        let sc = scans.last();
        let (m2, w2) = insert_all(m, w, sc.loaded@);
        (m2, w2 + skipped_texts(sc.skipped@))
    }
}

/// Whether the registry holds exactly the files of `m` (with their hashes).
pub open spec fn holds(r: &JsRegistry, m: Map<Seq<char>, LoadedJsFile>) -> bool {
    &&& forall|n: Seq<char>| #[trigger] r.agent(n) is Some <==> m.contains_key(n)
    &&& forall|n: Seq<char>|
        #[trigger] m.contains_key(n) ==> file_of(r.agent(n)->0) == m[n] && (r.agent(n)->0).file_hash@
            == source_hash(m[n].source@)
}

/// Registers the agents of the scanned directories, in order, collecting
/// the warnings: names defined twice (the last file wins) and skipped files.
pub fn load_all(scans: Vec<ScanResult>) -> (r: (JsRegistry, Vec<String>))
    ensures
        r.0.wf(),
        holds(&r.0, load_scans(scans@).0),
        r.1@.map_values(|s: String| s@) == load_scans(scans@).1,
{
    let ghost all = scans@;
    let mut reg = JsRegistry::new();
    let mut warnings: Vec<String> = Vec::new();
    let mut scans = scans;
    let mut done: usize = 0;
    let total = scans.len();
    assert(all.take(0) =~= Seq::<ScanResult>::empty());
    assert(warnings@.map_values(|s: String| s@) =~= Seq::<Seq<char>>::empty());
    while scans.len() > 0
        invariant
            scans@.len() + done == total,
            total == all.len(),
            scans@ == all.skip(done as int),
            reg.wf(),
            holds(&reg, load_scans(all.take(done as int)).0),
            warnings@.map_values(|s: String| s@) == load_scans(all.take(done as int)).1,
        decreases scans@.len(),
    {
        let sc = scans.remove(0);
        assert(all.skip(done as int)[0] == all[done as int]);
        assert(all.skip(done as int).drop_first() =~= all.skip(done + 1));
        assert(all.take(done + 1).drop_last() =~= all.take(done as int));
        assert(all.take(done + 1).last() == all[done as int]);
        let ScanResult { loaded, skipped } = sc;
        let ghost m0 = load_scans(all.take(done as int)).0;
        let ghost w0 = load_scans(all.take(done as int)).1;
        let ghost files = loaded@;
        let mut loaded = loaded;
        let mut j: usize = 0;
        let nf = loaded.len();
        assert(files.take(0) =~= Seq::<LoadedJsFile>::empty());
        while loaded.len() > 0
            invariant
                loaded@.len() + j == nf,
                nf == files.len(),
                loaded@ == files.skip(j as int),
                reg.wf(),
                holds(&reg, insert_all(m0, w0, files.take(j as int)).0),
                warnings@.map_values(|s: String| s@) == insert_all(m0, w0, files.take(j as int)).1,
            decreases loaded@.len(),
        {
            let f = loaded.remove(0);
            assert(files.skip(j as int)[0] == files[j as int]);
            assert(files.skip(j as int).drop_first() =~= files.skip(j + 1));
            assert(files.take(j + 1).drop_last() =~= files.take(j as int));
            assert(files.take(j + 1).last() == files[j as int]);
            let ghost before = reg;
            let ghost wbefore = warnings@;
            let ghost m1 = insert_all(m0, w0, files.take(j as int)).0;
            let agent = JsAgent::from_loaded(f);
            let ghost an = name_of(agent);
            match reg.insert(agent) {
                Some(w) => {
                    warnings.push(w);
                    assert(warnings@.map_values(|s: String| s@) =~= wbefore.map_values(|s: String| s@).push(w@));
                },
                None => {},
            }
            proof {
                let m2 = insert_all(m0, w0, files.take(j + 1)).0;
                assert(m2 == m1.insert(an, files[j as int]));
                assert forall|n: Seq<char>| #[trigger] reg.agent(n) is Some <==> m2.contains_key(n) by {
                    if n != an {
                        assert(reg.agent(n) == before.agent(n));
                    }
                }
                assert forall|n: Seq<char>| #[trigger] m2.contains_key(n) implies file_of(reg.agent(n)->0) == m2[n]
                    && (reg.agent(n)->0).file_hash@ == source_hash(m2[n].source@) by {
                    if n != an {
                        assert(reg.agent(n) == before.agent(n));
                        assert(m1.contains_key(n));
                    }
                }
                if m1.contains_key(an) {
                    assert(before.agent(an) is Some);
                } else {
                    assert(before.agent(an) is None);
                }
            }
            j = j + 1;
        }
        assert(files.take(nf as int) =~= files);
        let ghost wmid = warnings@;
        let mut k: usize = 0;
        while k < skipped.len()
            invariant
                k <= skipped@.len(),
                warnings@.map_values(|s: String| s@) == wmid.map_values(|s: String| s@) + skipped_texts(
                    skipped@.take(k as int),
                ),
            decreases skipped.len() - k,
        {
            let ghost wb = warnings@;
            let text = String::from_str("skipping ").concat(skipped[k].0.as_str()).concat(": ").concat(
                skipped[k].1.as_str(),
            );
            warnings.push(text);
            assert(skipped@.take(k + 1) =~= skipped@.take(k as int).push(skipped@[k as int]));
            assert(skipped_texts(skipped@.take(k + 1)) =~= skipped_texts(skipped@.take(k as int)).push(
                skipped_text(skipped@[k as int].0@, skipped@[k as int].1@),
            ));
            assert(warnings@.map_values(|s: String| s@) =~= wb.map_values(|s: String| s@).push(text@));
            k = k + 1;
        }
        assert(skipped@.take(skipped@.len() as int) =~= skipped@);
        done = done + 1;
    }
    assert(all.take(total as int) =~= all);
    (reg, warnings)
}

/// Registering keeps the last file of each name: whatever was registered
/// before, the agent just inserted is the one found under its name.
pub proof fn law_last_file_wins(files: Seq<LoadedJsFile>, m: Map<Seq<char>, LoadedJsFile>, w: Seq<Seq<char>>)
    requires
        files.len() > 0,
    ensures
        insert_all(m, w, files).0[files.last().manifest.name@] == files.last(),
        insert_all(m, w, files).0.contains_key(files.last().manifest.name@),
{
}

} // verus!
