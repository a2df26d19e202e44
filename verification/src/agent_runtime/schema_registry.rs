//! The schemas evaluators announce: what each one is configured with and
//! what its calls take, by evaluator name. A later announcement replaces an
//! earlier one.
use crate::chunk::JsonValue;
use crate::text::str_eq;
use vstd::prelude::*;

verus! {

/// What an evaluator announces of itself.
#[derive(Debug, Clone)]
pub struct EvaluatorSchema {
    pub name: String,
    pub description: String,
    /// JSON schema of its configuration keys.
    pub config_schema: JsonValue,
    /// JSON schema of its call parameters.
    pub rpc_params_schema: JsonValue,
}

/// The schema of evaluator `n` among `s` (its first occurrence).
pub open spec fn schema_named(s: Seq<EvaluatorSchema>, n: Seq<char>) -> Option<EvaluatorSchema>
    decreases s.len(),
{
    if s.len() == 0 {
        None
    } else if s[0].name@ == n {
        Some(s[0])
    } else {
        schema_named(s.drop_first(), n)
    }
}

/// No evaluator name occurs twice.
pub open spec fn distinct_names(s: Seq<EvaluatorSchema>) -> bool {
    forall|i: int, j: int| 0 <= i < j < s.len() ==> s[i].name@ != s[j].name@
}

proof fn lemma_schema_named(s: Seq<EvaluatorSchema>, n: Seq<char>)
    requires
        distinct_names(s),
    ensures
        schema_named(s, n) is None <==> forall|i: int| 0 <= i < s.len() ==> s[i].name@ != n,
        forall|i: int| 0 <= i < s.len() && s[i].name@ == n ==> schema_named(s, n) == Some(s[i]),
    decreases s.len(),
{
    if s.len() > 0 {
        let t = s.drop_first();
        assert(distinct_names(t)) by {
            assert forall|i: int, j: int| 0 <= i < j < t.len() implies t[i].name@ != t[j].name@ by {
                assert(t[i] == s[i + 1] && t[j] == s[j + 1]);
            }
        }
        lemma_schema_named(t, n);
        if s[0].name@ != n {
            assert forall|i: int| 0 <= i < s.len() && s[i].name@ == n implies schema_named(s, n) == Some(s[i]) by {
                assert(t[i - 1] == s[i]);
            }
            if schema_named(t, n) is None {
                assert forall|i: int| 0 <= i < s.len() implies s[i].name@ != n by {
                    if i > 0 {
                        assert(t[i - 1] == s[i]);
                    }
                }
            } else {
                assert(!forall|i: int| 0 <= i < t.len() ==> t[i].name@ != n);
                let k = choose|k: int| 0 <= k < t.len() && t[k].name@ == n;
                assert(s[k + 1] == t[k]);
            }
        } else {
            assert forall|i: int| 0 <= i < s.len() && s[i].name@ == n implies schema_named(s, n) == Some(s[i]) by {
                if i > 0 {
                    assert(s[0].name@ != s[i].name@);
                }
            }
        }
    }
}

/// The announced schemas, each evaluator name at most once.
pub struct SchemaRegistry {
    pub schemas: Vec<EvaluatorSchema>,
}

impl SchemaRegistry {
    /// No name is held twice.
    pub open spec fn wf(&self) -> bool {
        distinct_names(self.schemas@)
    }

    /// The schema held for evaluator `n`.
    pub open spec fn schema(&self, n: Seq<char>) -> Option<EvaluatorSchema> {
        schema_named(self.schemas@, n)
    }

    /// An empty registry.
    pub fn new() -> (r: SchemaRegistry)
        ensures
            r.wf(),
            forall|n: Seq<char>| r.schema(n) is None,
    {
        SchemaRegistry { schemas: Vec::new() }
    }

    fn index_of(&self, name: &str) -> (r: Option<usize>)
        ensures
            match r {
                Some(i) => i < self.schemas@.len() && self.schemas@[i as int].name@ == name@,
                None => forall|i: int| 0 <= i < self.schemas@.len() ==> self.schemas@[i].name@ != name@,
            },
    {
        let mut i: usize = 0;
        while i < self.schemas.len()
            invariant
                i <= self.schemas@.len(),
                forall|k: int| 0 <= k < i ==> self.schemas@[k].name@ != name@,
            decreases self.schemas.len() - i,
        {
            if str_eq(self.schemas[i].name.as_str(), name) {
                return Some(i);
            }
            i = i + 1;
        }
        None
    }

    /// The schema of evaluator `name`, if it announced one.
    pub fn get(&self, name: &str) -> (r: Option<&EvaluatorSchema>)
        requires
            self.wf(),
        ensures
            match r {
                Some(s) => self.schema(name@) == Some(*s),
                None => self.schema(name@) is None,
            },
    {
        proof {
            lemma_schema_named(self.schemas@, name@);
        }
        match self.index_of(name) {
            Some(i) => Some(&self.schemas[i]),
            None => None,
        }
    }

    /// Records an announcement; it replaces an earlier one of the same
    /// evaluator.
    pub fn insert(&mut self, schema: EvaluatorSchema)
        requires
            old(self).wf(),
        ensures
            final(self).wf(),
            final(self).schema(schema.name@) == Some(schema),
            forall|n: Seq<char>| n != schema.name@ ==> final(self).schema(n) == old(self).schema(n),
    {
        let ghost old_s = self.schemas@;
        let ghost sc = schema;
        let ghost sn = schema.name@;
        let pos = self.index_of(schema.name.as_str());
        match pos {
            Some(i) => {
                self.schemas.set(i, schema);
            },
            None => {
                self.schemas.push(schema);
            },
        }
        proof {
            let s = self.schemas@;
            let i = match pos {
                Some(i) => i as int,
                None => old_s.len() as int,
            };
            assert(s[i] == sc);
            assert forall|k: int| 0 <= k < s.len() && k != i implies s[k] == old_s[k] by {}
            assert(distinct_names(s)) by {
                assert forall|p: int, q: int| 0 <= p < q < s.len() implies s[p].name@ != s[q].name@ by {
                    if p != i && q != i {
                        assert(s[p] == old_s[p] && s[q] == old_s[q]);
                    } else if p == i {
                        assert(s[q] == old_s[q]);
                        if pos is Some {
                            assert(old_s[p].name@ == sn);
                        }
                    } else {
                        assert(s[p] == old_s[p]);
                        if pos is Some {
                            assert(old_s[q].name@ == sn);
                        }
                    }
                }
            }
            lemma_schema_named(s, sn);
            assert forall|n: Seq<char>| n != sn implies schema_named(s, n) == schema_named(old_s, n) by {
                lemma_schema_named(s, n);
                lemma_schema_named(old_s, n);
                if schema_named(old_s, n) is None {
                    assert forall|k: int| 0 <= k < s.len() implies s[k].name@ != n by {
                        if k != i {
                            assert(s[k] == old_s[k]);
                        }
                    }
                } else {
                    assert(!forall|k: int| 0 <= k < old_s.len() ==> old_s[k].name@ != n);
                    let k = choose|k: int| 0 <= k < old_s.len() && old_s[k].name@ == n;
                    assert(k != i);
                    assert(s[k] == old_s[k]);
                }
            }
        }
    }
}

} // verus!
