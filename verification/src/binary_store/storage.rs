//! On-disk layout of binary chunks and the byte arithmetic of reads and writes.
use crate::text::{
    chars_eq, chars_of, contains_seq, ends_with, range_starts_with, starts_with, string_from,
    vec_contains, vec_ends_with,
};
use vstd::prelude::*;

verus! {

/// Number of bytes of the UTF-8 encoding of `c`.
pub open spec fn utf8_len(c: char) -> nat {
    let u = c as u32;
    if u < 0x80 {
        1
    } else if u < 0x800 {
        2
    } else if u < 0x10000 {
        3
    } else {
        4
    }
}

/// Whether the first two bytes of the UTF-8 encoding of `s` can be cut off
/// (`&s[..2.min(s.len())]` does not panic).
pub open spec fn shard_cuttable(s: Seq<char>) -> bool {
    ||| s.len() == 0
    ||| s.len() == 1 && utf8_len(s[0]) <= 2
    ||| utf8_len(s[0]) == 2
    ||| utf8_len(s[0]) == 1 && utf8_len(s[1]) == 1
}

/// The characters of the first two bytes of `s` (all of `s` when shorter).
pub open spec fn shard(s: Seq<char>) -> Seq<char> {
    if s.len() <= 1 || utf8_len(s[0]) == 2 {
        s.take(if s.len() == 0 {
            0int
        } else {
            1int
        })
    } else {
        s.take(2)
    }
}

/// `base` joined with `p` as `PathBuf::join` does on Unix: an absolute `p`
/// replaces `base`, otherwise a `/` separates them unless `base` is empty or
/// already ends with one.
pub open spec fn join(base: Seq<char>, p: Seq<char>) -> Seq<char> {
    if p.len() > 0 && p[0] == '/' {
        p
    } else if base.len() == 0 || base.last() == '/' {
        base + p
    } else {
        base + seq!['/'] + p
    }
}

/// Directory holding the chunk `id`: `<data_dir>/binary/<shard>`.
pub open spec fn shard_dir(data_dir: Seq<char>, id: Seq<char>) -> Seq<char> {
    join(join(data_dir, "binary"@), shard(id))
}

/// Path of the chunk `id`: `<data_dir>/binary/<shard>/<id>`.
pub open spec fn chunk_path_spec(data_dir: Seq<char>, id: Seq<char>) -> Seq<char> {
    join(shard_dir(data_dir, id), id)
}

/// Path of the in-progress marker of chunk `id`: next to the chunk, named
/// `<id>.writing`.
pub open spec fn writing_path_spec(data_dir: Seq<char>, id: Seq<char>) -> Seq<char> {
    join(shard_dir(data_dir, id), id + ".writing"@)
}

/// A chunk id whose path ends in a file name that its marker can extend:
/// non-empty, not ending in `/`, with no empty or `.` path component, and not
/// ending in a `..` component. (On any other id the file name the marker is
/// built from is not the id's last characters, or there is none.)
pub open spec fn marker_name_ok(id: Seq<char>) -> bool {
    &&& id.len() > 0
    &&& id.last() != '/'
    &&& !contains_seq(id, "//"@)
    &&& !contains_seq(id, "/./"@)
    &&& !starts_with(id, "./"@)
    &&& id != "."@
    &&& !ends_with(id, "/."@)
    &&& id != ".."@
    &&& !ends_with(id, "/.."@)
}

/// Whether `writing_path` applies to `chunk_id` (`marker_name_ok`).
pub fn is_marker_name(chunk_id: &str) -> (r: bool)
    ensures
        r == marker_name_ok(chunk_id@),
{
    proof {
        reveal_strlit("//");
        reveal_strlit("/./");
        reveal_strlit("./");
        reveal_strlit(".");
        reveal_strlit("/.");
        reveal_strlit("..");
        reveal_strlit("/..");
    }
    let v = chars_of(chunk_id);
    if v.len() == 0 || v[v.len() - 1] == '/' {
        return false;
    }
    let r = !vec_contains(&v, &chars_of("//")) && !vec_contains(&v, &chars_of("/./"))
        && !range_starts_with(&v, 0, v.len(), &chars_of("./")) && !chars_eq(&v, &chars_of("."))
        && !vec_ends_with(&v, &chars_of("/.")) && !chars_eq(&v, &chars_of(".."))
        && !vec_ends_with(&v, &chars_of("/.."));
    assert(v@.subrange(0, v@.len() as int) == v@);
    r
}

fn join_chars(base: &Vec<char>, p: &Vec<char>) -> (r: Vec<char>)
    ensures
        r@ == join(base@, p@),
{
    if p.len() > 0 && p[0] == '/' {
        return p.clone();
    }
    let mut r = base.clone();
    if !(base.len() == 0 || base[base.len() - 1] == '/') {
        r.push('/');
    }
    let ghost mid = r@;
    let mut i: usize = 0;
    while i < p.len()
        invariant
            0 <= i <= p@.len(),
            r@ == mid + p@.take(i as int),
        decreases p.len() - i,
    {
        r.push(p[i]);
        assert(p@.take(i + 1) == p@.take(i as int).push(p@[i as int]));
        i = i + 1;
    }
    assert(p@.take(p@.len() as int) == p@);
    r
}

fn utf8_len_of(c: char) -> (n: usize)
    ensures
        n == utf8_len(c),
{
    let u = c as u32;
    if u < 0x80 {
        1
    } else if u < 0x800 {
        2
    } else if u < 0x10000 {
        3
    } else {
        4
    }
}

/// Manage binary files on disk with .writing sidecar for in-progress tracking.
pub struct Storage {
    data_dir: String,
}

/// The file name of a path (`std::path::Path::file_name`, taken as text):
/// its last component, unless that is `..` or there is none.
pub uninterp spec fn path_file_name_of(p: Seq<char>) -> Option<Seq<char>>;

/// The path `p` with its file name replaced by `name`
/// (`std::path::PathBuf::set_file_name`).
pub uninterp spec fn path_with_file_name_of(p: Seq<char>, name: Seq<char>) -> Seq<char>;

/// `Path::new(p).file_name()`, taken as text. The contract claims only that
/// the result is the one named by `path_file_name_of`.
#[verifier::external_body]
fn file_name(p: &str) -> (r: Option<String>)
    ensures
        match r {
            Some(n) => path_file_name_of(p@) == Some(n@),
            None => path_file_name_of(p@) is None,
        },
{
    std::path::Path::new(p).file_name().map(|n| n.to_string_lossy().into_owned())
}

/// `PathBuf::set_file_name` on the path `p`, taken as text. The contract
/// claims only that the result is the one named by `path_with_file_name_of`.
#[verifier::external_body]
fn with_file_name(p: &str, name: &str) -> (r: String)
    ensures
        r@ == path_with_file_name_of(p@, name@),
{
    let mut path = std::path::PathBuf::from(p);
    path.set_file_name(name);
    path.to_string_lossy().into_owned()
}

impl Storage {
    pub closed spec fn data_dir(&self) -> Seq<char> {
        self.data_dir@
    }

    pub fn new(data_dir: String) -> (s: Self)
        ensures
            s.data_dir() == data_dir@,
    {
        Self { data_dir }
    }

    fn shard_dir_chars(&self, id: &Vec<char>) -> (r: Vec<char>)
        requires
            shard_cuttable(id@),
        ensures
            r@ == shard_dir(self.data_dir(), id@),
    {
        let base = chars_of(self.data_dir.as_str());
        let b = join_chars(&base, &chars_of("binary"));
        let n: usize = if id.len() <= 1 || utf8_len_of(id[0]) == 2 {
            if id.len() == 0 {
                0
            } else {
                1
            }
        } else {
            2
        };
        let mut sh: Vec<char> = Vec::new();
        let mut i: usize = 0;
        while i < n
            invariant
                0 <= i <= n <= id@.len(),
                sh@ == id@.take(i as int),
            decreases n - i,
        {
            sh.push(id[i]);
            assert(id@.take(i + 1) == id@.take(i as int).push(id@[i as int]));
            i = i + 1;
        }
        join_chars(&b, &sh)
    }

    /// Path of the chunk `chunk_id`, sharded by its first two bytes.
    pub fn chunk_path(&self, chunk_id: &str) -> (p: String)
        requires
            shard_cuttable(chunk_id@),
        ensures
            p@ == chunk_path_spec(self.data_dir(), chunk_id@),
    {
        let id = chars_of(chunk_id);
        let d = self.shard_dir_chars(&id);
        string_from(&join_chars(&d, &id))
    }

    /// Path of the `.writing` marker of any chunk id, built as paths are:
    /// the chunk's path with its file name extended by `.writing`; `None`
    /// when that path has no file name (an id ending in `..`, say).
    pub fn marker_path(&self, chunk_id: &str) -> (r: Option<String>)
        requires
            shard_cuttable(chunk_id@),
        ensures
            match path_file_name_of(chunk_path_spec(self.data_dir(), chunk_id@)) {
                Some(n) => r matches Some(m) && m@ == path_with_file_name_of(
                    chunk_path_spec(self.data_dir(), chunk_id@),
                    n + ".writing"@,
                ),
                None => r is None,
            },
    {
        proof {
            reveal_strlit(".writing");
        }
        let p = self.chunk_path(chunk_id);
        match file_name(p.as_str()) {
            Some(n) => {
                let name = n.concat(".writing");
                Some(with_file_name(p.as_str(), name.as_str()))
            },
            None => None,
        }
    }

    /// Path of the `.writing` marker of `chunk_id`.
    pub fn writing_path(&self, chunk_id: &str) -> (p: String)
        requires
            shard_cuttable(chunk_id@),
            marker_name_ok(chunk_id@),
        ensures
            p@ == writing_path_spec(self.data_dir(), chunk_id@),
    {
        let id = chars_of(chunk_id);
        let d = self.shard_dir_chars(&id);
        let mut name = id.clone();
        let suffix = chars_of(".writing");
        let mut i: usize = 0;
        while i < suffix.len()
            invariant
                0 <= i <= suffix@.len(),
                name@ == id@ + suffix@.take(i as int),
            decreases suffix.len() - i,
        {
            name.push(suffix[i]);
            assert(suffix@.take(i + 1) == suffix@.take(i as int).push(suffix@[i as int]));
            i = i + 1;
        }
        assert(suffix@.take(suffix@.len() as int) == suffix@);
        string_from(&join_chars(&d, &name))
    }
}

/// What a read of at most `max_len` bytes at `offset` of a file of
/// `file_size` bytes returns: the offset actually used (clamped to the end
/// of the file), how many bytes are read, and whether the read is the last
/// one (the file is complete and the read reaches its end).
pub open spec fn read_window_spec(offset: nat, max_len: nat, file_size: nat, is_writing: bool) -> (
    nat,
    nat,
    bool,
) {
    let start = if offset <= file_size {
        offset
    } else {
        file_size
    };
    let remaining = (file_size - start) as nat;
    let n = if max_len <= remaining {
        max_len
    } else {
        remaining
    };
    (start, n, !is_writing && start + n >= file_size)
}

/// A chunk's file lies in the shard directory named by the first two
/// characters of its id: for a data directory `d` (non-empty, not ending in
/// `/`) and an id of at least two characters whose first is an ASCII
/// character other than `/` and whose second is no `/` either, the path is `d/binary/<first two>/<id>`, and
/// its marker is that path followed by `.writing`.
pub proof fn law_chunk_path_shards_by_prefix(d: Seq<char>, id: Seq<char>)
    requires
        d.len() > 0,
        d.last() != '/',
        id.len() >= 2,
        (id[0] as u32) < 0x80,
        id[0] != '/',
        id[1] != '/',
    ensures
        chunk_path_spec(d, id) == d + "/binary/"@ + id.take(2) + seq!['/'] + id,
        writing_path_spec(d, id) == d + "/binary/"@ + id.take(2) + seq!['/'] + id + ".writing"@,
{
    reveal_strlit("binary");
    reveal_strlit("/binary/");
    reveal_strlit(".writing");
    assert(shard(id) == id.take(2));
    let b = join(d, "binary"@);
    assert(b =~= d + seq!['/'] + "binary"@);
    assert(b.last() == 'y');
    let sd = join(b, id.take(2));
    assert(id.take(2)[0] == id[0]);
    assert(sd =~= b + seq!['/'] + id.take(2));
    assert(sd.last() == id[1]);
    assert((id + ".writing"@)[0] == id[0]);
    assert(join(sd, id) =~= sd + seq!['/'] + id);
    assert(join(sd, id + ".writing"@) =~= sd + seq!['/'] + (id + ".writing"@));
    assert(sd + seq!['/'] + id =~= d + "/binary/"@ + id.take(2) + seq!['/'] + id);
    assert(sd + seq!['/'] + (id + ".writing"@) =~= d + "/binary/"@ + id.take(2) + seq!['/'] + id + ".writing"@);
}

/// What a read of at most `max_len` bytes at `offset` returns, stated by its
/// properties: it starts at `offset`, or at the end of the file when
/// `offset` lies beyond it; it stays inside the file and reads at most
/// `max_len` bytes, stopping short of `max_len` only at the end of the file;
/// and it is the last read exactly when the file is complete (no `.writing`
/// marker) and the read reaches its end, so a read of a chunk still being
/// written is never the last one.
pub proof fn law_read_window(offset: nat, max_len: nat, file_size: nat, is_writing: bool)
    ensures
        ({
            let (start, n, done) = read_window_spec(offset, max_len, file_size, is_writing);
            &&& offset <= file_size ==> start == offset
            &&& offset > file_size ==> start == file_size
            &&& start + n <= file_size
            &&& n <= max_len
            &&& (n == max_len || start + n == file_size)
            &&& is_writing ==> !done
            &&& !is_writing ==> (done <==> start + n == file_size)
        }),
{
}

/// The byte window of a read: `(actual_offset, to_read, done)`.
pub fn read_window(offset: u64, max_len: u64, file_size: u64, is_writing: bool) -> (r: (
    u64,
    u64,
    bool,
))
    ensures
        (r.0 as nat, r.1 as nat, r.2) == read_window_spec(
            offset as nat,
            max_len as nat,
            file_size as nat,
            is_writing,
        ),
        r.0 + r.1 <= file_size,
        is_writing ==> !r.2,
{
    let actual_offset = if offset <= file_size {
        offset
    } else {
        file_size
    };
    let remaining = file_size - actual_offset;
    let to_read = if max_len <= remaining {
        max_len
    } else {
        remaining
    };
    let end_of_file = actual_offset + to_read >= file_size;
    (actual_offset, to_read, !is_writing && end_of_file)
}

/// Why an append is refused.
#[derive(Debug, Clone, PartialEq, Eq)]
pub enum AppendError {
    /// The file would grow beyond the limit: `(max_bytes, new_len)`.
    PayloadTooLarge(u64, u64),
}

/// The length a chunk file reaches when `len` bytes are written at `offset`,
/// or the refusal when that exceeds `max_bytes`.
pub fn append_limit(offset: u64, len: u64, max_bytes: u64) -> (r: Result<u64, AppendError>)
    requires
        offset + len <= u64::MAX,
    ensures
        match r {
            Ok(n) => n == offset + len && n <= max_bytes,
            Err(AppendError::PayloadTooLarge(m, n)) => m == max_bytes && n == offset + len && n
                > max_bytes,
        },
{
    let new_len = offset + len;
    if new_len > max_bytes {
        Err(AppendError::PayloadTooLarge(max_bytes, new_len))
    } else {
        Ok(new_len)
    }
}

/// The chunk id named by a stale marker file: `name` without its
/// `.writing` suffix, or `None` when `name` is no marker.
pub open spec fn stale_marker_id(name: Seq<char>) -> Option<Seq<char>> {
    if ends_with(name, ".writing"@) {
        Some(name.take(name.len() - ".writing"@.len()))
    } else {
        None
    }
}

/// The chunk id of a marker file name (`str::trim_end_matches(".writing")`
/// applied once the name is known to end with it, which strips every
/// repetition of the suffix).
pub open spec fn strip_all_writing(name: Seq<char>) -> Seq<char>
    decreases name.len(),
{
    if ends_with(name, ".writing"@) && ".writing"@.len() > 0 {
        strip_all_writing(name.take(name.len() - ".writing"@.len()))
    } else {
        name
    }
}

/// The chunk ids named by the stale in-progress markers among `names`: every
/// name ending in `.writing`, in the order given, with that suffix stripped
/// as often as it repeats.
pub open spec fn stale_ids(names: Seq<String>) -> Seq<Seq<char>>
    decreases names.len(),
{
    if names.len() == 0 {
        Seq::empty()
    } else if ends_with(names.last()@, ".writing"@) {
        stale_ids(names.drop_last()).push(strip_all_writing(names.last()@))
    } else {
        stale_ids(names.drop_last())
    }
}

/// A marker `<id>.writing` names the chunk `id`, and a name without that
/// suffix names none: each name found adds its chunk id, or nothing, to
/// those already found.
pub proof fn law_stale_ids_strip_marker(names: Seq<String>, n: String, id: Seq<char>)
    ensures
        !ends_with(n@, ".writing"@) ==> stale_ids(names.push(n)) == stale_ids(names),
        n@ == id + ".writing"@ && !ends_with(id, ".writing"@) ==> stale_ids(names.push(n)) == stale_ids(
            names,
        ).push(id),
        n@ == id + ".writing"@ + ".writing"@ && !ends_with(id, ".writing"@) ==> stale_ids(names.push(n))
            == stale_ids(names).push(id),
{
    assert(names.push(n).drop_last() =~= names);
    assert(names.push(n).last() == n);
    if n@ == id + ".writing"@ && !ends_with(id, ".writing"@) {
        reveal_strlit(".writing");
        let w = ".writing"@;
        assert((id + w).skip((id + w).len() - w.len()) =~= w);
        assert((id + w).take((id + w).len() - w.len()) =~= id);
        assert(strip_all_writing(id) == id);
        assert(strip_all_writing(id + w) == id);
    }
    if n@ == id + ".writing"@ + ".writing"@ && !ends_with(id, ".writing"@) {
        reveal_strlit(".writing");
        let w = ".writing"@;
        let iw = id + w;
        assert((iw + w).skip((iw + w).len() - w.len()) =~= w);
        assert((iw + w).take((iw + w).len() - w.len()) =~= iw);
        assert(iw.skip(iw.len() - w.len()) =~= w);
        assert(iw.take(iw.len() - w.len()) =~= id);
        assert(strip_all_writing(id) == id);
        assert(strip_all_writing(iw) == id);
        assert(strip_all_writing(iw + w) == id);
    }
}

/// Which of the file names found in the shard directories are stale
/// in-progress markers, and the chunk id each names.
pub fn stale_write_ids(names: &Vec<String>) -> (r: Vec<String>)
    ensures
        r@.len() == stale_ids(names@).len(),
        forall|i: int| 0 <= i < r@.len() ==> #[trigger] r@[i]@ == stale_ids(names@)[i],
{
    let suffix = chars_of(".writing");
    assert(suffix@.len() == 8) by {
        reveal_strlit(".writing");
    }
    let mut r: Vec<String> = Vec::new();
    let mut k: usize = 0;
    while k < names.len()
        invariant
            0 <= k <= names@.len(),
            suffix@ == ".writing"@,
            suffix@.len() == 8,
            r@.len() == stale_ids(names@.take(k as int)).len(),
            forall|i: int|
                0 <= i < r@.len() ==> #[trigger] r@[i]@ == stale_ids(names@.take(k as int))[i],
        decreases names.len() - k,
    {
        assert(names@.take(k + 1).drop_last() == names@.take(k as int));
        assert(names@.take(k + 1).last() == names@[k as int]);
        let v = chars_of(names[k].as_str());
        if vec_ends_with(&v, &suffix) {
            let id = strip_writing_suffix(&v, &suffix);
            r.push(string_from(&id));
        }
        k = k + 1;
    }
    assert(names@.take(names@.len() as int) == names@);
    r
}

fn strip_writing_suffix(v: &Vec<char>, suffix: &Vec<char>) -> (r: Vec<char>)
    requires
        suffix@ == ".writing"@,
        suffix@.len() == 8,
        ends_with(v@, ".writing"@),
    ensures
        r@ == strip_all_writing(v@),
    decreases v@.len(),
{
    let mut w: Vec<char> = Vec::new();
    let mut i: usize = 0;
    let n = v.len() - 8;
    while i < n
        invariant
            0 <= i <= n,
            n == v@.len() - 8,
            w@ == v@.take(i as int),
        decreases n - i,
    {
        w.push(v[i]);
        assert(v@.take(i + 1) == v@.take(i as int).push(v@[i as int]));
        i = i + 1;
    }
    assert(w@ == v@.take(v@.len() - ".writing"@.len()));
    assert(strip_all_writing(v@) == strip_all_writing(w@));
    if vec_ends_with(&w, suffix) {
        strip_writing_suffix(&w, suffix)
    } else {
        w
    }
}

} // verus!
