//! Argument parsing of the command-line client.
use crate::chunk::{str_ann, Chunk, ChunkView, CAFE_BINARY_READ_TOKEN, CAFE_BINARY_READ_URL, CAFE_MUTATES_TARGET_ID};
use crate::text::{chars_of, str_eq, string_of};
use vstd::prelude::*;
use vstd::string::StringExecFns;

verus! {

/// A `key=value` argument that names no key (never produced: a missing
/// `=` makes the whole argument the key).
#[derive(Debug)]
pub struct MissingKey;

/// The key of a `key=value` argument: everything before the first `=`, or
/// all of it.
pub open spec fn key_part(s: Seq<char>) -> Seq<char> {
    if exists|i: int| 0 <= i < s.len() && s[i] == '=' {
        s.take(first_eq(s))
    } else {
        s
    }
}

/// Position of the first `=` in `s`.
pub open spec fn first_eq(s: Seq<char>) -> int {
    choose|i: int| 0 <= i < s.len() && s[i] == '=' && forall|j: int| 0 <= j < i ==> s[j] != '='
}

/// The value of a `key=value` argument: everything after the first `=`, or
/// nothing.
pub open spec fn value_part(s: Seq<char>) -> Seq<char> {
    if exists|i: int| 0 <= i < s.len() && s[i] == '=' {
        s.skip(first_eq(s) + 1)
    } else {
        Seq::empty()
    }
}

/// Splits a `key=value` argument at its first `=`.
pub fn parse_keyval(s: &str) -> (r: Result<(String, String), MissingKey>)
    ensures
        r matches Ok((k, v)) && k@ == key_part(s@) && v@ == value_part(s@),
{
    let v = chars_of(s);
    let mut i: usize = 0;
    while i < v.len()
        invariant
            i <= v@.len(),
            v@ == s@,
            forall|j: int| 0 <= j < i ==> v@[j] != '=',
        decreases v.len() - i,
    {
        if v[i] == '=' {
            proof {
                let k = first_eq(s@);
                assert(v@[i as int] == '=');
                if k < i {
                    assert(v@[k] != '=');
                } else if k > i {
                    assert(v@[i as int] != '=');
                }
            }
            let key = string_of(&v, 0, i);
            let val = string_of(&v, i + 1, v.len());
            assert(v@.subrange(i + 1, v@.len() as int) =~= s@.skip(i + 1));
            return Ok((key, val));
        }
        i = i + 1;
    }
    assert(v@.subrange(0, v@.len() as int) =~= v@);
    Ok((string_of(&v, 0, v.len()), String::new()))
}

/// The read address and token of blob `id`: from the latest chunk amending
/// it that carries a read address (the token empty when it carries none).
pub open spec fn read_creds(h: Seq<ChunkView>, id: Seq<char>) -> Option<(Seq<char>, Seq<char>)>
    decreases h.len(),
{
    if h.len() == 0 {
        None
    } else {
        let c = h.last();
        if str_ann(c, CAFE_MUTATES_TARGET_ID@) == Some(id) && str_ann(c, CAFE_BINARY_READ_URL@) is Some {
            Some(
                (
                    str_ann(c, CAFE_BINARY_READ_URL@)->0,
                    match str_ann(c, CAFE_BINARY_READ_TOKEN@) {
                        Some(t) => t,
                        None => Seq::empty(),
                    },
                ),
            )
        } else {
            read_creds(h.drop_last(), id)
        }
    }
}

/// No chunk of the history gives read credentials for the blob.
#[derive(Debug)]
pub struct NoReadCredentials {
    pub chunk_id: String,
}

impl NoReadCredentials {
    /// The message the command fails with.
    pub fn message(&self) -> (r: String)
        ensures
            r@ == "no read credentials found for chunk "@ + self.chunk_id@,
    {
        String::from_str("no read credentials found for chunk ").concat(self.chunk_id.as_str())
    }
}

/// Finds the binary store's read credentials for blob `chunk_id` in a
/// session history.
pub fn find_read_creds(history: &[Chunk], chunk_id: &str) -> (r: Result<(String, String), NoReadCredentials>)
    ensures
        match r {
            Ok((u, t)) => read_creds(history@.map_values(|c: Chunk| c@), chunk_id@) == Some((u@, t@)),
            Err(e) => read_creds(history@.map_values(|c: Chunk| c@), chunk_id@) is None && e.chunk_id@
                == chunk_id@,
        },
{
    let ghost hv = history@.map_values(|c: Chunk| c@);
    let mut i = history.len();
    assert(hv.take(hv.len() as int) =~= hv);
    while i > 0
        invariant
            i <= history@.len(),
            hv == history@.map_values(|c: Chunk| c@),
            read_creds(hv, chunk_id@) == read_creds(hv.take(i as int), chunk_id@),
        decreases i,
    {
        let c = &history[i - 1];
        assert(hv.take(i as int).last() == history@[i - 1]@);
        assert(hv.take(i as int).drop_last() =~= hv.take(i - 1));
        let targets = match c.is_mutation() {
            Some(t) => str_eq(t.as_str(), chunk_id),
            None => false,
        };
        if targets {
            if let Some(url) = c.str_annotation(CAFE_BINARY_READ_URL) {
                let token = match c.str_annotation(CAFE_BINARY_READ_TOKEN) {
                    Some(t) => t.clone(),
                    None => String::new(),
                };
                return Ok((url.clone(), token));
            }
        }
        i = i - 1;
    }
    assert(hv.take(0) =~= Seq::<ChunkView>::empty());
    Err(NoReadCredentials { chunk_id: String::from_str(chunk_id) })
}

} // verus!
