//! What the narrator answers: moving through the book, and the texts it
//! publishes for each command.
use crate::narration::book::{Book, Chapter};
use crate::narration::narrator::{goto_step, next_step, prev_step, SessionState};
use crate::text::{decimal, push_decimal, string_from};
use vstd::prelude::*;
use vstd::string::StringExecFns;

verus! {

/// The answer to a command that needs a book when none is loaded.
pub const NO_BOOK: &'static str = "No book loaded. Use !load <path> first.";

/// The narrator's help text.
pub const HELP_TEXT: &'static str = "EPUB narrator commands:\n!load <path> — load an EPUB\n!next / !n — read the next chapter aloud\n!prev / !p — read the previous chapter\n!chapter <n> / !ch <n> — jump to chapter n\n!list / !l — list all chapters\n!current / !c — show current chapter\n!help — show this help";

/// A move through the book a command asks for.
#[derive(Debug, Clone, Copy, PartialEq, Eq, Structural)]
pub enum Move {
    Next,
    Prev,
    /// To the chapter with this 1-based number.
    Chapter(usize),
}

/// A move that cannot be made.
#[derive(Debug, Clone, Copy, PartialEq, Eq, Structural)]
pub enum MoveError {
    NoBook,
    AtLast,
    AtFirst,
    /// The chapter number asked for, and the chapter count.
    OutOfRange(usize, usize),
}

fn dec(n: usize) -> (r: String)
    ensures
        r@ == decimal(n as nat),
{
    let mut v: Vec<char> = Vec::new();
    push_decimal(&mut v, n as u64);
    assert(v@ =~= decimal(n as nat));
    string_from(&v)
}

impl MoveError {
    /// The message the narrator answers with.
    pub fn message(&self) -> (r: String)
        ensures
            r@ == match *self {
                MoveError::NoBook => NO_BOOK@,
                MoveError::AtLast => "Already at the last chapter."@,
                MoveError::AtFirst => "Already at the first chapter."@,
                MoveError::OutOfRange(n, total) => "Chapter "@ + decimal(n as nat) + " is out of range (1-"@
                    + decimal(total as nat) + ")."@,
            },
    {
        match self {
            MoveError::NoBook => String::from_str(NO_BOOK),
            MoveError::AtLast => String::from_str("Already at the last chapter."),
            MoveError::AtFirst => String::from_str("Already at the first chapter."),
            MoveError::OutOfRange(n, total) => String::from_str("Chapter ").concat(dec(*n).as_str()).concat(
                " is out of range (1-",
            ).concat(dec(*total).as_str()).concat(")."),
        }
    }
}

impl SessionState {
    /// Makes the move a command asks for: refused without a book, past the
    /// last or before the first chapter, or to a chapter the book does not
    /// have (the position then stays). Gives the chapter index read next.
    pub fn apply_move(&mut self, mv: Move) -> (r: Result<usize, MoveError>)
        ensures
            final(self).same_but_position(old(self)),
            old(self).book is None ==> r == Err::<usize, MoveError>(MoveError::NoBook) && final(self).position()
                == old(self).position(),
            old(self).book is Some ==> match mv {
                Move::Next => {
                    &&& final(self).position() == next_step(old(self).position()).0
                    &&& match next_step(old(self).position()).1 {
                        Some(_) => r == Ok::<usize, MoveError>(final(self).current),
                        None => r == Err::<usize, MoveError>(MoveError::AtLast),
                    }
                },
                Move::Prev => {
                    &&& final(self).position() == prev_step(old(self).position()).0
                    &&& match prev_step(old(self).position()).1 {
                        Some(_) => r == Ok::<usize, MoveError>(final(self).current),
                        None => r == Err::<usize, MoveError>(MoveError::AtFirst),
                    }
                },
                Move::Chapter(n) => {
                    &&& final(self).position() == goto_step(old(self).position(), n as nat).0
                    &&& match goto_step(old(self).position(), n as nat).1 {
                        Some(_) => r == Ok::<usize, MoveError>(final(self).current),
                        None => r == Err::<usize, MoveError>(
                            MoveError::OutOfRange(n, old(self).book->0.chapters@.len() as usize),
                        ),
                    }
                },
            },
    {
        let total = match &self.book {
            Some(b) => b.chapter_count(),
            None => return Err(MoveError::NoBook),
        };
        match mv {
            Move::Next => match self.next() {
                Some(_) => Ok(self.current),
                None => Err(MoveError::AtLast),
            },
            Move::Prev => match self.prev() {
                Some(_) => Ok(self.current),
                None => Err(MoveError::AtFirst),
            },
            Move::Chapter(n) => match self.goto(n) {
                Some(_) => Ok(self.current),
                None => Err(MoveError::OutOfRange(n, total)),
            },
        }
    }
}

/// The text published for a chapter read: its number and title, then its
/// text.
pub fn chapter_display(index: usize, title: &str, text: &str) -> (r: String)
    requires
        index < usize::MAX,
    ensures
        r@ == "Chapter "@ + decimal(index as nat + 1) + " — "@ + title@ + "\n\n"@ + text@,
{
    String::from_str("Chapter ").concat(dec(index + 1).as_str()).concat(" — ").concat(title).concat(
        "\n\n",
    ).concat(text)
}

/// The text published when a book is loaded: its title, its author when
/// known, its chapter count, and how to go on.
pub fn load_summary(book: &Book) -> (r: String)
    ensures
        r@ == "Loaded \""@ + book.title@ + "\""@ + match book.creator {
            Some(c) => " by "@ + c@,
            None => Seq::empty(),
        } + ". "@ + decimal(book.chapters@.len()) + " chapters. Say !next to start, !list for the table of contents, or !chapter N to jump."@,
{
    proof {
        reveal_strlit("");
    }
    let by = match &book.creator {
        Some(c) => String::from_str(" by ").concat(c.as_str()),
        None => String::new(),
    };
    String::from_str("Loaded \"").concat(book.title.as_str()).concat("\"").concat(by.as_str()).concat(
        ". ",
    ).concat(dec(book.chapter_count()).as_str()).concat(
        " chapters. Say !next to start, !list for the table of contents, or !chapter N to jump.",
    )
}

/// `s` right-aligned in three columns.
pub open spec fn pad3(s: Seq<char>) -> Seq<char> {
    if s.len() >= 3 {
        s
    } else {
        Seq::new((3 - s.len()) as nat, |_i: int| ' ') + s
    }
}

/// The table-of-contents line of chapter `i`: a `*` on the current one,
/// the 1-based number right-aligned, and the title.
pub open spec fn toc_line(i: nat, title: Seq<char>, current: nat) -> Seq<char> {
    (if i == current {
        "*"@
    } else {
        " "@
    }) + " "@ + pad3(decimal(i + 1)) + ". "@ + title
}

/// The lines of the table of contents, each after a newline.
pub open spec fn toc_lines(chs: Seq<Chapter>, current: nat) -> Seq<char>
    decreases chs.len(),
{
    if chs.len() == 0 {
        Seq::empty()
    } else {
        toc_lines(chs.drop_last(), current) + "\n"@ + toc_line(
            (chs.len() - 1) as nat,
            chs.last().title@,
            current,
        )
    }
}

/// The table of contents of the loaded book, or the no-book answer when
/// there are no chapters.
pub open spec fn chapter_list_spec(state: SessionState) -> Seq<char> {
    match state.book {
        Some(b) => if b.chapters@.len() > 0 {
            "\""@ + b.title@ + "\" — "@ + decimal(b.chapters@.len()) + " chapters:"@ + toc_lines(
                b.chapters@,
                state.current as nat,
            )
        } else {
            NO_BOOK@
        },
        None => NO_BOOK@,
    }
}

fn pad3_string(s: String) -> (r: String)
    ensures
        r@ == pad3(s@),
{
    let mut out = String::new();
    let n = s.as_str().unicode_len();
    let mut k: usize = n;
    while k < 3
        invariant
            n == s@.len(),
            n <= k <= 3 || (n > 3 && k == n),
            out@ == Seq::new((k - n) as nat, |_i: int| ' '),
        decreases 3 - k,
    {
        proof {
            reveal_strlit(" ");
            assert(" "@ =~= seq![' ']);
        }
        out = out.concat(" ");
        k = k + 1;
        assert(out@ =~= Seq::new((k - n) as nat, |_i: int| ' '));
    }
    let r = out.concat(s.as_str());
    assert(r@ =~= pad3(s@));
    r
}

/// The table of contents published for `!list`.
pub fn chapter_list(state: &SessionState) -> (r: String)
    ensures
        r@ == chapter_list_spec(*state),
{
    let b = match &state.book {
        Some(b) => b,
        None => return String::from_str(NO_BOOK),
    };
    let n = b.chapters.len();
    if n == 0 {
        return String::from_str(NO_BOOK);
    }
    let mut out = String::from_str("\"").concat(b.title.as_str()).concat("\" — ").concat(dec(n).as_str()).concat(
        " chapters:",
    );
    let ghost head = out@;
    let mut i: usize = 0;
    assert(b.chapters@.take(0) =~= Seq::<Chapter>::empty());
    while i < n
        invariant
            i <= n == b.chapters@.len(),
            out@ == head + toc_lines(b.chapters@.take(i as int), state.current as nat),
        decreases n - i,
    {
        assert(b.chapters@.take(i + 1).drop_last() =~= b.chapters@.take(i as int));
        assert(b.chapters@.take(i + 1).last() == b.chapters@[i as int]);
        let marker = if i == state.current {
            "*"
        } else {
            " "
        };
        let line = String::from_str(marker).concat(" ").concat(pad3_string(dec(i + 1)).as_str()).concat(
            ". ",
        ).concat(b.chapters[i].title.as_str());
        out = out.concat("\n").concat(line.as_str());
        i = i + 1;
    }
    assert(b.chapters@.take(n as int) =~= b.chapters@);
    out
}

/// The answer to `!current`: the book, the chapter number of the count, and
/// the chapter's title; the no-book answer without a readable chapter.
pub fn current_text(state: &SessionState) -> (r: String)
    ensures
        r@ == match state.book {
            Some(b) => if (state.current as int) < b.chapters@.len() {
                "\""@ + b.title@ + "\" — chapter "@ + decimal(state.current as nat + 1) + " of "@ + decimal(
                    b.chapters@.len(),
                ) + ": "@ + b.chapters@[state.current as int].title@
            } else {
                NO_BOOK@
            },
            None => NO_BOOK@,
        },
{
    match &state.book {
        Some(b) => {
            if state.current < b.chapters.len() {
                String::from_str("\"").concat(b.title.as_str()).concat("\" — chapter ").concat(
                    dec(state.current + 1).as_str(),
                ).concat(" of ").concat(dec(b.chapters.len()).as_str()).concat(": ").concat(
                    b.chapters[state.current].title.as_str(),
                )
            } else {
                String::from_str(NO_BOOK)
            }
        },
        None => String::from_str(NO_BOOK),
    }
}

} // verus!
