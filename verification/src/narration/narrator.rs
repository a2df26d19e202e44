//! Per-session reading position of the narrator.
use crate::narration::book::{Book, Chapter};
use vstd::prelude::*;

verus! {

/// Per-session narration state.
#[derive(Debug)]
pub struct SessionState {
    /// The loaded book, if any.
    pub book: Option<Book>,
    /// Current chapter index (0-based) into `book.chapters`.
    pub current: usize,
    /// Whether a chapter has been read since the book was loaded.
    pub started: bool,
    /// ID of the session chunk announcing the book blob (for persistence).
    pub blob_chunk_id: Option<String>,
    /// Filesystem path the book was loaded from.
    pub source_path: Option<String>,
}

/// The reading position: the chapter count of the loaded book (if any),
/// the current index and whether reading has started.
pub ghost struct Position {
    pub chapters: Option<nat>,
    pub current: nat,
    pub started: bool,
}

/// An optional index as a mathematical number.
pub open spec fn opt_nat(r: Option<usize>) -> Option<nat> {
    match r {
        Some(i) => Some(i as nat),
        None => None,
    }
}

/// The step `next` takes: the new position and the index to read.
pub open spec fn next_step(p: Position) -> (Position, Option<nat>) {
    match p.chapters {
        None => (p, None),
        Some(len) => if !p.started {
            (Position { started: true, ..p }, Some(p.current))
        } else if p.current + 1 < len {
            (Position { current: p.current + 1, ..p }, Some(p.current + 1))
        } else {
            (p, None)
        },
    }
}

/// The step `prev` takes: the new position and the index to read.
pub open spec fn prev_step(p: Position) -> (Position, Option<nat>) {
    if !p.started || p.current == 0 {
        (p, None)
    } else {
        (Position { current: (p.current - 1) as nat, ..p }, Some((p.current - 1) as nat))
    }
}

/// The step `goto(n)` takes (1-based `n`): the new position and the index.
pub open spec fn goto_step(p: Position, n: nat) -> (Position, Option<nat>) {
    match p.chapters {
        None => (p, None),
        Some(len) => if 1 <= n <= len {
            (Position { current: (n - 1) as nat, started: true, ..p }, Some((n - 1) as nat))
        } else {
            (p, None)
        },
    }
}

impl SessionState {
    pub open spec fn position(&self) -> Position {
        Position {
            chapters: match self.book {
                Some(b) => Some(b.chapters@.len()),
                None => None,
            },
            current: self.current as nat,
            started: self.started,
        }
    }

    /// Everything but the position is left as it was.
    pub open spec fn same_but_position(&self, other: &SessionState) -> bool {
        &&& self.book == other.book
        &&& self.blob_chunk_id == other.blob_chunk_id
        &&& self.source_path == other.source_path
    }

    /// A state with no book loaded.
    pub fn new() -> (s: SessionState)
        ensures
            s.book is None,
            s.current == 0,
            !s.started,
            s.blob_chunk_id is None,
            s.source_path is None,
    {
        SessionState {
            book: None,
            current: 0,
            started: false,
            blob_chunk_id: None,
            source_path: None,
        }
    }

    /// The chapter currently being read, if a book is loaded.
    pub fn current_chapter(&self) -> (r: Option<&Chapter>)
        ensures
            r == (match self.book {
                Some(b) => if (self.current as int) < b.chapters@.len() {
                    Some(&b.chapters@[self.current as int])
                } else {
                    None
                },
                None => None,
            }),
    {
        match &self.book {
            Some(b) => if self.current < b.chapters.len() {
                Some(&b.chapters[self.current])
            } else {
                None
            },
            None => None,
        }
    }

    /// Move to the next chapter. Returns the index to read, or `None` if already
    /// at the last chapter. The first call reads chapter 1 (index 0).
    pub fn next(&mut self) -> (r: Option<usize>)
        ensures
            final(self).position() == next_step(old(self).position()).0,
            opt_nat(r) == next_step(old(self).position()).1,
            final(self).same_but_position(old(self)),
    {
        let len = match &self.book {
            Some(b) => b.chapters.len(),
            None => return None,
        };
        if !self.started {
            self.started = true;
            return Some(self.current);
        }
        if len > 0 && self.current < len - 1 {
            self.current = self.current + 1;
            Some(self.current)
        } else {
            None
        }
    }

    /// Move to the previous chapter. Returns the index to read, or `None` if
    /// already at the first chapter.
    pub fn prev(&mut self) -> (r: Option<usize>)
        ensures
            final(self).position() == prev_step(old(self).position()).0,
            opt_nat(r) == prev_step(old(self).position()).1,
            final(self).same_but_position(old(self)),
    {
        if !self.started || self.current == 0 {
            None
        } else {
            self.current = self.current - 1;
            Some(self.current)
        }
    }

    /// Jump to a specific chapter (1-based, as the user types it).
    /// Returns the 0-based index, or `None` if out of range.
    pub fn goto(&mut self, chapter_one_based: usize) -> (r: Option<usize>)
        ensures
            final(self).position() == goto_step(old(self).position(), chapter_one_based as nat).0,
            opt_nat(r) == goto_step(
                old(self).position(),
                chapter_one_based as nat,
            ).1,
            final(self).same_but_position(old(self)),
    {
        let len = match &self.book {
            Some(b) => b.chapters.len(),
            None => return None,
        };
        if chapter_one_based >= 1 && chapter_one_based <= len {
            self.started = true;
            self.current = chapter_one_based - 1;
            Some(self.current)
        } else {
            None
        }
    }
}

impl Default for SessionState {
    fn default() -> (s: SessionState)
        ensures
            s.book is None,
            s.current == 0,
            !s.started,
            s.blob_chunk_id is None,
            s.source_path is None,
    {
        SessionState::new()
    }
}

/// Going back after moving forward returns to where reading was: once reading
/// has started, a `prev` right after a successful `next` restores the
/// position and reads the chapter that was current before.
pub proof fn law_prev_undoes_next(p: Position)
    requires
        p.started,
        next_step(p).1 is Some,
    ensures
        prev_step(next_step(p).0).0 == p,
        prev_step(next_step(p).0).1 == Some(p.current),
{
}

/// Moving forward after going back returns to where reading was.
pub proof fn law_next_undoes_prev(p: Position)
    requires
        prev_step(p).1 is Some,
        p.chapters is Some,
        p.current < p.chapters->0,
    ensures
        next_step(prev_step(p).0).0 == p,
        next_step(prev_step(p).0).1 == Some(p.current),
{
}

/// Every index that `next`, `prev` or `goto` hands out names a chapter of
/// the loaded book, provided the position was inside the book before.
pub proof fn law_read_index_in_book(p: Position, n: nat)
    requires
        p.chapters is Some,
        p.current < p.chapters->0,
    ensures
        next_step(p).1 matches Some(i) ==> i < p.chapters->0 && next_step(p).0.current == i,
        prev_step(p).1 matches Some(i) ==> i < p.chapters->0 && prev_step(p).0.current == i,
        goto_step(p, n).1 matches Some(i) ==> i < p.chapters->0 && goto_step(p, n).0.current
            == i && i + 1 == n,
{
}

/// `goto` is 1-based: a successful `goto(n)` makes chapter `n - 1` current
/// and starts reading, whatever the position was.
pub proof fn law_goto_one_based(p: Position, n: nat)
    requires
        p.chapters is Some,
        1 <= n <= p.chapters->0,
    ensures
        goto_step(p, n).1 == Some((n - 1) as nat),
        goto_step(p, n).0.current == n - 1,
        goto_step(p, n).0.started,
{
}

/// The first `next` after loading reads the first chapter.
pub proof fn law_first_next_reads_first(len: nat)
    requires
        len > 0,
    ensures
        next_step(Position { chapters: Some(len), current: 0, started: false }).1 == Some(0nat),
{
}

} // verus!
