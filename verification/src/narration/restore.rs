//! What the narrator records of a session in its history, and how it finds
//! its book and reading position there again after a restart.
use crate::chunk::{
    ann_get, ann_lookup, anns_view, as_bool, as_u64, json_as_bool, json_as_u64, opt_str, str_ann,
    Chunk, ChunkView, ContentType, JsonNumber, JsonValue, JsonView, CAFE_BINARY_READ_TOKEN,
    CAFE_BINARY_READ_URL, CAFE_MUTATES_TARGET_ID, CONFIG_TYPE,
};
use crate::narration::book::Book;
use crate::narration::narrator::SessionState;
use crate::text::str_eq;
use vstd::prelude::*;
use vstd::string::StringExecFns;

verus! {

/// The producer of the narrator's chunks.
pub const EPUB_PRODUCER: &'static str = "com.nominal.cafe-epub";

/// The MIME type of an EPUB book.
pub const EPUB_MIME: &'static str = "application/epub+zip";

/// The keys under which the narrator records its state.
pub const CONFIG_EPUB_PATH: &'static str = "config.epub.path";

pub const CONFIG_EPUB_CHAPTER: &'static str = "config.epub.chapter";

pub const CONFIG_EPUB_STARTED: &'static str = "config.epub.started";

/// The read address and token of blob `id`: the first content-less chunk
/// amending it decides; it gives them only when it carries both.
pub open spec fn read_credentials(h: Seq<ChunkView>, id: Seq<char>) -> Option<(Seq<char>, Seq<char>)>
    decreases h.len(),
{
    if h.len() == 0 {
        None
    } else {
        let c = h[0];
        if c.content_type == ContentType::Null && str_ann(c, CAFE_MUTATES_TARGET_ID@) == Some(id) {
            match (str_ann(c, CAFE_BINARY_READ_URL@), str_ann(c, CAFE_BINARY_READ_TOKEN@)) {
                (Some(u), Some(t)) => Some((u, t)),
                _ => None,
            }
        } else {
            read_credentials(h.drop_first(), id)
        }
    }
}

/// Finds the read credentials of blob `chunk_id` in a session history.
pub fn find_read_credentials(history: &[Chunk], chunk_id: &str) -> (r: Option<(String, String)>)
    ensures
        match r {
            Some((u, t)) => read_credentials(history@.map_values(|c: Chunk| c@), chunk_id@) == Some(
                (u@, t@),
            ),
            None => read_credentials(history@.map_values(|c: Chunk| c@), chunk_id@) is None,
        },
{
    let ghost hv = history@.map_values(|c: Chunk| c@);
    let mut i: usize = 0;
    assert(hv.skip(0) =~= hv);
    while i < history.len()
        invariant
            i <= history@.len(),
            hv == history@.map_values(|c: Chunk| c@),
            read_credentials(hv, chunk_id@) == read_credentials(hv.skip(i as int), chunk_id@),
        decreases history.len() - i,
    {
        let c = &history[i];
        assert(hv.skip(i as int)[0] == history@[i as int]@);
        assert(hv.skip(i as int).drop_first() =~= hv.skip(i + 1));
        let targets = c.content_type == ContentType::Null && match c.is_mutation() {
            Some(t) => str_eq(t.as_str(), chunk_id),
            None => false,
        };
        if targets {
            let url = match c.str_annotation(CAFE_BINARY_READ_URL) {
                Some(u) => u,
                None => return None,
            };
            let token = match c.str_annotation(CAFE_BINARY_READ_TOKEN) {
                Some(t) => t,
                None => return None,
            };
            return Some((url.clone(), token.clone()));
        }
        i = i + 1;
    }
    None
}

/// Whether `c` is a content-less chunk amending blob `id`.
pub open spec fn amends(c: ChunkView, id: Seq<char>) -> bool {
    c.content_type == ContentType::Null && str_ann(c, CAFE_MUTATES_TARGET_ID@) == Some(id)
}

/// A blob's read credentials are those of the first chunk amending it,
/// whatever follows; a history that never amends the blob gives none.
pub proof fn law_read_credentials_first_amendment(
    h: Seq<ChunkView>,
    c: ChunkView,
    rest: Seq<ChunkView>,
    id: Seq<char>,
)
    requires
        forall|i: int| 0 <= i < h.len() ==> !amends(#[trigger] h[i], id),
    ensures
        read_credentials(h, id) is None,
        amends(c, id) ==> read_credentials(h + seq![c] + rest, id) == match (
            str_ann(c, CAFE_BINARY_READ_URL@),
            str_ann(c, CAFE_BINARY_READ_TOKEN@),
        ) {
            (Some(u), Some(t)) => Some((u, t)),
            _ => None,
        },
    decreases h.len(),
{
    if h.len() > 0 {
        let t = h.drop_first();
        assert forall|i: int| 0 <= i < t.len() implies !amends(#[trigger] t[i], id) by {
            assert(t[i] == h[i + 1]);
        }
        law_read_credentials_first_amendment(t, c, rest, id);
        assert(!amends(h[0], id));
        assert((h + seq![c] + rest)[0] == h[0]);
        assert((h + seq![c] + rest).drop_first() =~= t + seq![c] + rest);
    } else {
        assert(h + seq![c] + rest =~= seq![c] + rest);
        assert((seq![c] + rest)[0] == c);
    }
}

/// The value of annotation `key` in the latest chunk that carries it.
pub open spec fn latest_ann(h: Seq<ChunkView>, key: Seq<char>) -> Option<JsonView>
    decreases h.len(),
{
    if h.len() == 0 {
        None
    } else {
        match ann_get(h.last().annotations, key) {
            Some(v) => Some(v),
            None => latest_ann(h.drop_last(), key),
        }
    }
}

/// The value of annotation `key` in the latest chunk of `history` that
/// carries it.
pub fn latest_annotation<'a>(history: &'a [Chunk], key: &str) -> (r: Option<&'a JsonValue>)
    ensures
        match r {
            Some(v) => latest_ann(history@.map_values(|c: Chunk| c@), key@) == Some(v@),
            None => latest_ann(history@.map_values(|c: Chunk| c@), key@) is None,
        },
{
    let ghost hv = history@.map_values(|c: Chunk| c@);
    let mut i = history.len();
    assert(hv.take(hv.len() as int) =~= hv);
    while i > 0
        invariant
            i <= history@.len(),
            hv == history@.map_values(|c: Chunk| c@),
            latest_ann(hv, key@) == latest_ann(hv.take(i as int), key@),
        decreases i,
    {
        assert(hv.take(i as int).last() == history@[i - 1]@);
        assert(hv.take(i as int).drop_last() =~= hv.take(i - 1));
        match ann_lookup(&history[i - 1].annotations, key) {
            Some(v) => return Some(v),
            None => {},
        }
        i = i - 1;
    }
    assert(hv.take(0) =~= Seq::<ChunkView>::empty());
    None
}

/// Whether a chunk announces a book the narrator stored.
pub open spec fn is_book_blob(c: ChunkView) -> bool {
    &&& c.content_type == ContentType::BinaryRef
    &&& c.producer == EPUB_PRODUCER@
    &&& c.mime_type == Some(EPUB_MIME@)
}

/// The latest book announcement of a history.
pub open spec fn last_book_blob(h: Seq<ChunkView>) -> Option<ChunkView>
    decreases h.len(),
{
    if h.len() == 0 {
        None
    } else if is_book_blob(h.last()) {
        Some(h.last())
    } else {
        last_book_blob(h.drop_last())
    }
}

/// The book a restart restores is the most recent one stored: it is a book
/// announcement of the history and none follows it; there is none exactly
/// when the history announces no book; and a book announced last is the one
/// restored, whatever came before.
pub proof fn law_latest_book_restored(h: Seq<ChunkView>, b: ChunkView)
    ensures
        last_book_blob(h) is None <==> forall|i: int| 0 <= i < h.len() ==> !is_book_blob(#[trigger] h[i]),
        last_book_blob(h) matches Some(x) ==> exists|i: int|
            0 <= i < h.len() && h[i] == x && is_book_blob(x) && forall|j: int|
                i < j < h.len() ==> !is_book_blob(#[trigger] h[j]),
        is_book_blob(b) ==> last_book_blob(h.push(b)) == Some(b),
    decreases h.len(),
{
    assert(h.push(b).drop_last() =~= h);
    if h.len() > 0 {
        let t = h.drop_last();
        law_latest_book_restored(t, b);
        if is_book_blob(h.last()) {
            assert(h[h.len() - 1] == h.last());
        } else {
            assert forall|i: int| 0 <= i < t.len() implies #[trigger] t[i] == h[i] by {}
            if last_book_blob(t) is None {
                assert forall|i: int| 0 <= i < h.len() implies !is_book_blob(#[trigger] h[i]) by {
                    if i < t.len() {
                        assert(!is_book_blob(t[i]));
                    }
                }
            } else {
                let x = last_book_blob(t)->0;
                let i = choose|i: int|
                    0 <= i < t.len() && t[i] == x && is_book_blob(x) && forall|j: int|
                        i < j < t.len() ==> !is_book_blob(#[trigger] t[j]);
                assert(h[i] == x);
                assert forall|j: int| i < j < h.len() implies !is_book_blob(#[trigger] h[j]) by {
                    if j < t.len() {
                        assert(!is_book_blob(t[j]));
                    }
                }
                assert(!is_book_blob(h[h.len() - 1]));
            }
        }
    }
}

/// What a restart finds of a session: the stored book and where to fetch
/// it, the path it was loaded from, and the reading position.
#[derive(Debug)]
pub struct RestorePlan {
    pub blob_chunk_id: String,
    pub read_creds: Option<(String, String)>,
    pub source_path: Option<String>,
    pub current: u64,
    pub started: bool,
}

/// The chapter recorded last (0 when none is).
pub open spec fn recorded_chapter(h: Seq<ChunkView>) -> u64 {
    match latest_ann(h, CONFIG_EPUB_CHAPTER@) {
        Some(v) => match json_as_u64(v) {
            Some(n) => n,
            None => 0,
        },
        None => 0,
    }
}

/// Whether reading had started, as recorded last (else: whether a chapter
/// past the first was recorded).
pub open spec fn recorded_started(h: Seq<ChunkView>) -> bool {
    match latest_ann(h, CONFIG_EPUB_STARTED@) {
        Some(v) => match json_as_bool(v) {
            Some(b) => b,
            None => recorded_chapter(h) > 0,
        },
        None => recorded_chapter(h) > 0,
    }
}

/// The path recorded last, when it is a string.
pub open spec fn recorded_path(h: Seq<ChunkView>) -> Option<Seq<char>> {
    match latest_ann(h, CONFIG_EPUB_PATH@) {
        Some(JsonView::Str(p)) => Some(p),
        _ => None,
    }
}

/// Position of the latest book announcement of a history.
fn last_book_blob_index(history: &[Chunk]) -> (r: Option<usize>)
    ensures
        match r {
            Some(k) => k < history@.len() && last_book_blob(history@.map_values(|c: Chunk| c@)) == Some(
                history@[k as int]@,
            ),
            None => last_book_blob(history@.map_values(|c: Chunk| c@)) is None,
        },
{
    let ghost hv = history@.map_values(|c: Chunk| c@);
    let mut i = history.len();
    assert(hv.take(hv.len() as int) =~= hv);
    while i > 0
        invariant
            i <= history@.len(),
            hv == history@.map_values(|c: Chunk| c@),
            last_book_blob(hv) == last_book_blob(hv.take(i as int)),
        decreases i,
    {
        let c = &history[i - 1];
        assert(hv.take(i as int).last() == history@[i - 1]@);
        assert(hv.take(i as int).drop_last() =~= hv.take(i - 1));
        let is_blob = c.content_type == ContentType::BinaryRef && str_eq(c.producer.as_str(), EPUB_PRODUCER)
            && match &c.mime_type {
            Some(m) => str_eq(m.as_str(), EPUB_MIME),
            None => false,
        };
        if is_blob {
            return Some(i - 1);
        }
        i = i - 1;
    }
    assert(hv.take(0) =~= Seq::<ChunkView>::empty());
    None
}

/// Reads the narrator's records back from a session history; nothing is
/// restored when no book was stored.
pub fn restore_plan(history: &[Chunk]) -> (r: Option<RestorePlan>)
    ensures
        match r {
            None => last_book_blob(history@.map_values(|c: Chunk| c@)) is None,
            Some(p) => {
                let h = history@.map_values(|c: Chunk| c@);
                &&& last_book_blob(h) matches Some(b) && p.blob_chunk_id@ == b.id
                &&& match p.read_creds {
                    Some((u, t)) => read_credentials(h, p.blob_chunk_id@) == Some((u@, t@)),
                    None => read_credentials(h, p.blob_chunk_id@) is None,
                }
                &&& opt_str(p.source_path) == recorded_path(h)
                &&& p.current == recorded_chapter(h)
                &&& p.started == recorded_started(h)
            },
        },
{
    let k = match last_book_blob_index(history) {
        Some(k) => k,
        None => return None,
    };
    let blob_chunk_id = history[k].id.clone();
    let read_creds = find_read_credentials(history, blob_chunk_id.as_str());
    let source_path = match latest_annotation(history, CONFIG_EPUB_PATH) {
        Some(JsonValue::Str(p)) => Some(p.clone()),
        _ => None,
    };
    let current = match latest_annotation(history, CONFIG_EPUB_CHAPTER) {
        Some(v) => match as_u64(v) {
            Some(n) => n,
            None => 0,
        },
        None => 0,
    };
    let started = match latest_annotation(history, CONFIG_EPUB_STARTED) {
        Some(v) => match as_bool(v) {
            Some(b) => b,
            None => current > 0,
        },
        None => current > 0,
    };
    Some(RestorePlan { blob_chunk_id, read_creds, source_path, current, started })
}

/// The chapter a restored session resumes at: the recorded one, kept within
/// the book.
pub open spec fn resume_index(recorded: u64, chapters: nat) -> nat {
    if chapters == 0 {
        0
    } else if recorded < chapters {
        recorded as nat
    } else {
        (chapters - 1) as nat
    }
}

impl SessionState {
    /// Puts a restored book in place with the recorded reading position.
    pub fn restore(&mut self, book: Book, plan: &RestorePlan)
        ensures
            final(self).book == Some(book),
            final(self).current as nat == resume_index(plan.current, book.chapters@.len()),
            final(self).started == plan.started,
            final(self).blob_chunk_id == Some(plan.blob_chunk_id),
            final(self).source_path == plan.source_path,
    {
        let total = book.chapter_count();
        let last = if total == 0 {
            0
        } else {
            total - 1
        };
        let current: usize = if plan.current < last as u64 {
            plan.current as usize
        } else {
            last
        };
        self.book = Some(book);
        self.current = current;
        self.started = plan.started;
        self.blob_chunk_id = Some(plan.blob_chunk_id.clone());
        self.source_path = match &plan.source_path {
            Some(p) => Some(p.clone()),
            None => None,
        };
    }
}

/// The record of a session's state: a runtime config chunk with the book's
/// path (when known), the chapter index and whether reading has started.
pub fn state_chunk(state: &SessionState, id: String) -> (c: Chunk)
    ensures
        c@.content_type == ContentType::Null,
        c@.producer == EPUB_PRODUCER@,
        str_ann(c@, CONFIG_TYPE@) == Some("runtime"@),
        ann_get(c@.annotations, CONFIG_EPUB_PATH@) == match state.source_path {
            Some(p) => Some(JsonView::Str(p@)),
            None => None,
        },
        ann_get(c@.annotations, CONFIG_EPUB_CHAPTER@) == Some(
            JsonView::Number(JsonNumber::PosInt(state.current as u64)),
        ),
        ann_get(c@.annotations, CONFIG_EPUB_STARTED@) == Some(JsonView::Bool(state.started)),
{
    proof {
        reveal_strlit("config.type");
        reveal_strlit("config.epub.path");
        reveal_strlit("config.epub.chapter");
        reveal_strlit("config.epub.started");
        assert(CONFIG_TYPE@.len() == 11);
        assert(CONFIG_EPUB_PATH@.len() == 16);
        assert(CONFIG_EPUB_CHAPTER@.len() == 19);
        assert(CONFIG_EPUB_STARTED@.len() == 19);
        assert(CONFIG_EPUB_CHAPTER@ != CONFIG_EPUB_STARTED@) by {
            assert(CONFIG_EPUB_CHAPTER@[12] != CONFIG_EPUB_STARTED@[12]);
        }
    }
    let mut c = Chunk::new_null(id, String::from_str(EPUB_PRODUCER));
    assert(anns_view(c.annotations@) =~= Seq::<(Seq<char>, JsonView)>::empty());
    c.set_annotation(String::from_str(CONFIG_TYPE), JsonValue::Str(String::from_str("runtime")));
    if let Some(p) = &state.source_path {
        c.set_annotation(String::from_str(CONFIG_EPUB_PATH), JsonValue::Str(p.clone()));
    }
    c.set_annotation(
        String::from_str(CONFIG_EPUB_CHAPTER),
        JsonValue::Number(JsonNumber::PosInt(state.current as u64)),
    );
    c.set_annotation(String::from_str(CONFIG_EPUB_STARTED), JsonValue::Bool(state.started));
    c
}

/// A restart reads back what was recorded: after a state record, the
/// history gives back its chapter and whether reading had started, and its
/// path when it had one.
pub proof fn law_restore_reads_back_state(h: Seq<ChunkView>, rec: ChunkView, state: SessionState)
    requires
        str_ann(rec, CONFIG_TYPE@) == Some("runtime"@),
        ann_get(rec.annotations, CONFIG_EPUB_PATH@) == match state.source_path {
            Some(p) => Some(JsonView::Str(p@)),
            None => None,
        },
        ann_get(rec.annotations, CONFIG_EPUB_CHAPTER@) == Some(
            JsonView::Number(JsonNumber::PosInt(state.current as u64)),
        ),
        ann_get(rec.annotations, CONFIG_EPUB_STARTED@) == Some(JsonView::Bool(state.started)),
    ensures
        recorded_chapter(h.push(rec)) == state.current as u64,
        recorded_started(h.push(rec)) == state.started,
        state.source_path is Some ==> recorded_path(h.push(rec)) == opt_str(state.source_path),
{
    assert(h.push(rec).last() == rec);
}

/// Resuming keeps the position it was given whenever that position lies in
/// the book.
pub proof fn law_resume_keeps_position_in_book(recorded: u64, chapters: nat)
    requires
        (recorded as nat) < chapters,
    ensures
        resume_index(recorded, chapters) == recorded as nat,
{
}

} // verus!
