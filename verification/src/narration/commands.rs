//! Narrator commands typed by users (`!next`, `!chapter 3`, …).
use crate::text::{
    chars_eq, chars_of, decimal, is_whitespace, is_ws, lemma_decimal_digits, lemma_lead_ws,
    lemma_trim_padded, lemma_trim_solid, lower_seq, lower_vec, parse_unsigned,
    parse_unsigned_range, string_of, trim, trim_bounds,
};
use vstd::prelude::*;

verus! {

/// Parsed narrator command from a user message.
#[derive(Debug, Clone, PartialEq)]
pub enum Command {
    /// `!load <path>` — load an EPUB from a filesystem path.
    Load(String),
    /// `!next` / `!n` — read the next chapter aloud.
    Next,
    /// `!prev` / `!p` — read the previous chapter aloud.
    Prev,
    /// `!chapter <n>` / `!ch <n>` — jump to and read chapter n.
    Chapter(usize),
    /// `!list` / `!l` — list all chapters.
    List,
    /// `!current` / `!c` — show the current chapter.
    Current,
    /// `!help` / `!h` — show available commands.
    Help,
}

/// The mathematical value of a [`Command`].
pub ghost enum CommandView {
    Load(Seq<char>),
    Next,
    Prev,
    Chapter(nat),
    List,
    Current,
    Help,
}

impl View for Command {
    type V = CommandView;

    open spec fn view(&self) -> CommandView {
        match self {
            Command::Load(p) => CommandView::Load(p@),
            Command::Next => CommandView::Next,
            Command::Prev => CommandView::Prev,
            Command::Chapter(n) => CommandView::Chapter(*n as nat),
            Command::List => CommandView::List,
            Command::Current => CommandView::Current,
            Command::Help => CommandView::Help,
        }
    }
}

/// Index of the first whitespace character of `s`, or `s.len()`.
pub open spec fn first_ws(s: Seq<char>) -> nat
    decreases s.len(),
{
    if s.len() == 0 || is_ws(s[0]) {
        0
    } else {
        1 + first_ws(s.drop_first())
    }
}

pub proof fn lemma_first_ws(s: Seq<char>, i: int)
    requires
        0 <= i <= s.len(),
        forall|j: int| 0 <= j < i ==> !is_ws(#[trigger] s[j]),
        i == s.len() || is_ws(s[i]),
    ensures
        first_ws(s) == i,
    decreases i,
{
    if i > 0 {
        let t = s.drop_first();
        assert forall|j: int| 0 <= j < i - 1 implies !is_ws(#[trigger] t[j]) by {
            assert(t[j] == s[j + 1]);
        }
        assert(i - 1 == t.len() || t[i - 1] == s[i]);
        lemma_first_ws(t, i - 1);
    }
}

/// The verb (lowercased) and the argument (trimmed) of a command body, split
/// at its first whitespace character (`str::split_once(char::is_whitespace)`).
pub open spec fn verb_and_arg(rest: Seq<char>) -> (Seq<char>, Seq<char>) {
    let k = first_ws(rest) as int;
    if k < rest.len() {
        (lower_seq(rest.take(k)), trim(rest.skip(k + 1)))
    } else {
        (lower_seq(rest), Seq::empty())
    }
}

/// The command that a message with characters `s` denotes, if any.
pub open spec fn parse_spec(s: Seq<char>) -> Option<CommandView> {
    let text = trim(s);
    if text.len() == 0 || text[0] != '!' {
        None
    } else {
        let (verb, arg) = verb_and_arg(text.drop_first());
        if verb == "load"@ {
            if arg.len() == 0 {
                None
            } else {
                Some(CommandView::Load(arg))
            }
        } else if verb == "next"@ || verb == "n"@ {
            Some(CommandView::Next)
        } else if verb == "prev"@ || verb == "p"@ {
            Some(CommandView::Prev)
        } else if verb == "chapter"@ || verb == "ch"@ {
            match parse_unsigned(arg, usize::MAX as nat) {
                Some(n) => Some(CommandView::Chapter(n)),
                None => None,
            }
        } else if verb == "list"@ || verb == "l"@ {
            Some(CommandView::List)
        } else if verb == "current"@ || verb == "c"@ {
            Some(CommandView::Current)
        } else if verb == "help"@ || verb == "h"@ {
            Some(CommandView::Help)
        } else {
            None
        }
    }
}

/// The verb and the bounds of the argument of a message, when it starts
/// (after whitespace) with `!`.
fn split_message(v: &Vec<char>) -> (r: Option<(Vec<char>, usize, usize)>)
    ensures
        match r {
            Some((verb, aa, ab)) => {
                &&& aa <= ab <= v@.len()
                &&& trim(v@).len() > 0
                &&& trim(v@)[0] == '!'
                &&& verb_and_arg(trim(v@).drop_first()) == (verb@, v@.subrange(aa as int, ab as int))
            },
            None => trim(v@).len() == 0 || trim(v@)[0] != '!',
        },
{
    let (a, b) = trim_bounds(v, 0, v.len());
    proof {
        assert(v@.subrange(0, v@.len() as int) == v@);
    }
    let ghost t = trim(v@);
    if a == b || v[a] != '!' {
        return None;
    }
    assert(t[0] == v@[a as int]);
    let r0 = a + 1;
    let ghost rest = v@.subrange(r0 as int, b as int);
    assert(rest == t.drop_first());
    let mut k = r0;
    while k < b && !is_whitespace(v[k])
        invariant
            r0 <= k <= b <= v@.len(),
            rest == v@.subrange(r0 as int, b as int),
            forall|j: int| r0 <= j < k ==> !is_ws(#[trigger] v@[j]),
        decreases b - k,
    {
        k = k + 1;
    }
    proof {
        assert forall|j: int| 0 <= j < k - r0 implies !is_ws(#[trigger] rest[j]) by {
            assert(rest[j] == v@[r0 + j]);
        }
        if k < b {
            assert(rest[k - r0] == v@[k as int]);
        }
        lemma_first_ws(rest, k - r0);
    }
    let verb = lower_vec(v, r0, k);
    let (aa, ab) = if k < b {
        trim_bounds(v, k + 1, b)
    } else {
        (b, b)
    };
    proof {
        if k < b {
            assert(rest.take(k - r0) == v@.subrange(r0 as int, k as int));
            assert(rest.skip(k - r0 + 1) == v@.subrange(k + 1, b as int));
        } else {
            assert(rest == v@.subrange(r0 as int, k as int));
            assert(v@.subrange(b as int, b as int) == Seq::<char>::empty());
        }
    }
    Some((verb, aa, ab))
}

/// Whether `verb` is one of the two spellings `long` and `short`.
fn is_verb(verb: &Vec<char>, long: &str, short: &str) -> (r: bool)
    ensures
        r == (verb@ == long@ || verb@ == short@),
{
    chars_eq(verb, &chars_of(long)) || chars_eq(verb, &chars_of(short))
}

/// Parse a user message into a `Command`. Returns `None` if the message is not
/// a narrator command (or is malformed).
pub fn parse(text: &str) -> (r: Option<Command>)
    ensures
        match r {
            Some(c) => parse_spec(text@) == Some(c@),
            None => parse_spec(text@) is None,
        },
{
    let v = chars_of(text);
    let (verb, aa, ab) = match split_message(&v) {
        Some(x) => x,
        None => return None,
    };
    if chars_eq(&verb, &chars_of("load")) {
        if aa == ab {
            None
        } else {
            Some(Command::Load(string_of(&v, aa, ab)))
        }
    } else if is_verb(&verb, "next", "n") {
        Some(Command::Next)
    } else if is_verb(&verb, "prev", "p") {
        Some(Command::Prev)
    } else if is_verb(&verb, "chapter", "ch") {
        match parse_unsigned_range(&v, aa, ab, usize::MAX as u64) {
            Some(n) => Some(Command::Chapter(n as usize)),
            None => None,
        }
    } else if is_verb(&verb, "list", "l") {
        Some(Command::List)
    } else if is_verb(&verb, "current", "c") {
        Some(Command::Current)
    } else if is_verb(&verb, "help", "h") {
        Some(Command::Help)
    } else {
        None
    }
}

/// What a message denotes does not depend on whitespace around it.
pub proof fn law_parse_ignores_surrounding_whitespace(w1: Seq<char>, text: Seq<char>, w2: Seq<char>)
    requires
        forall|i: int| 0 <= i < w1.len() ==> is_ws(#[trigger] w1[i]),
        forall|i: int| 0 <= i < w2.len() ==> is_ws(#[trigger] w2[i]),
    ensures
        parse_spec(w1 + text + w2) == parse_spec(text),
{
    lemma_trim_padded(w1, text, w2);
}

/// A command is a message whose trimmed text starts with `!`, and the path
/// of a `load` command is never empty and carries no surrounding whitespace.
pub proof fn law_parse_shape(text: Seq<char>)
    ensures
        parse_spec(text) is Some ==> trim(text).len() > 0 && trim(text)[0] == '!',
        parse_spec(text) matches Some(CommandView::Load(p)) ==> p.len() > 0 && trim(p) == p,
{
    if parse_spec(text) matches Some(CommandView::Load(p)) {
        let rest = trim(text).drop_first();
        let k = first_ws(rest) as int;
        if k < rest.len() {
            crate::narration::book::lemma_trim_idempotent(rest.skip(k + 1));
        }
    }
}

/// A message `!` + `w`, or `!` + `w` + space + `a`, splits into the verb
/// `w` (lowercased) and the argument `a`, when `w` holds no whitespace and
/// `a` is empty or has no surrounding whitespace.
proof fn lemma_split_command(w: Seq<char>, a: Seq<char>)
    requires
        w.len() > 0,
        forall|i: int| 0 <= i < w.len() ==> !is_ws(#[trigger] w[i]),
        a.len() > 0 ==> !is_ws(a[0]) && !is_ws(a.last()),
    ensures
        ({
            let s = if a.len() == 0 { seq!['!'] + w } else { seq!['!'] + w + seq![' '] + a };
            &&& trim(s) == s
            &&& s[0] == '!'
            &&& verb_and_arg(s.drop_first()) == (lower_seq(w), a)
        }),
{
    let s = if a.len() == 0 { seq!['!'] + w } else { seq!['!'] + w + seq![' '] + a };
    let rest = s.drop_first();
    assert(s[0] == '!');
    if a.len() == 0 {
        assert(s.last() == w.last());
        assert(w.last() == w[w.len() - 1]);
        assert(rest =~= w);
        lemma_first_ws(w, w.len() as int);
        assert(trim(Seq::<char>::empty()) =~= Seq::<char>::empty()) by {
            crate::text::lemma_trim_padded(Seq::<char>::empty(), Seq::<char>::empty(), Seq::<char>::empty());
            lemma_lead_ws(Seq::<char>::empty(), 0);
        }
    } else {
        assert(s.last() == a.last());
        assert(rest =~= w + seq![' '] + a);
        assert forall|j: int| 0 <= j < w.len() implies !is_ws(#[trigger] rest[j]) by {
            assert(rest[j] == w[j]);
        }
        assert(rest[w.len() as int] == ' ');
        lemma_first_ws(rest, w.len() as int);
        assert(rest.take(w.len() as int) =~= w);
        assert(rest.skip(w.len() as int + 1) =~= a);
        lemma_trim_solid(a);
    }
    lemma_trim_solid(s);
}

/// `!load` followed by a path with no surrounding whitespace asks to load
/// that path, spaces inside it included.
pub proof fn law_parse_load_path(p: Seq<char>)
    requires
        p.len() > 0,
        !is_ws(p[0]),
        !is_ws(p.last()),
    ensures
        parse_spec("!load "@ + p) == Some(CommandView::Load(p)),
{
    reveal_strlit("!load ");
    reveal_strlit("load");
    let w = "load"@;
    lemma_split_command(w, p);
    assert("!load "@ + p =~= seq!['!'] + w + seq![' '] + p);
    assert(lower_seq(w) =~= w);
}

/// `!chapter N` and `!ch N`, with `N` in decimal, ask for chapter `N`.
pub proof fn law_parse_chapter_number(n: nat)
    requires
        n <= usize::MAX,
    ensures
        parse_spec("!chapter "@ + decimal(n)) == Some(CommandView::Chapter(n)),
        parse_spec("!ch "@ + decimal(n)) == Some(CommandView::Chapter(n)),
{
    reveal_strlit("!chapter ");
    reveal_strlit("chapter");
    reveal_strlit("!ch ");
    reveal_strlit("ch");
    reveal_strlit("load");
    reveal_strlit("next");
    reveal_strlit("n");
    reveal_strlit("prev");
    reveal_strlit("p");
    lemma_decimal_digits(n);
    let d = decimal(n);
    assert(d.last() == d[d.len() - 1]);
    let w1 = "chapter"@;
    let w2 = "ch"@;
    lemma_split_command(w1, d);
    lemma_split_command(w2, d);
    assert("!chapter "@ + d =~= seq!['!'] + w1 + seq![' '] + d);
    assert("!ch "@ + d =~= seq!['!'] + w2 + seq![' '] + d);
    assert(lower_seq(w1) =~= w1);
    assert(lower_seq(w2) =~= w2);
    assert(d[0] != '+');
    assert(parse_unsigned(d, usize::MAX as nat) == Some(n));
    assert(w1 != "load"@ && w1 != "next"@ && w1 != "n"@ && w1 != "prev"@ && w1 != "p"@) by {
        assert(w1.len() == 7);
    }
    assert(w2 != "load"@ && w2 != "next"@ && w2 != "n"@ && w2 != "prev"@ && w2 != "p"@) by {
        assert(w2.len() == 2);
    }
    let s1 = seq!['!'] + w1 + seq![' '] + d;
    assert(parse_spec(s1) == Some(CommandView::Chapter(n)));
    let s2 = seq!['!'] + w2 + seq![' '] + d;
    assert(parse_spec(s2) == Some(CommandView::Chapter(n)));
}

/// The command words are read without regard to case: `!` and any casing of
/// a word (with no whitespace in it) give the command of its lowercase form.
pub proof fn law_parse_verbs_any_case(w: Seq<char>)
    requires
        w.len() > 0,
        forall|i: int| 0 <= i < w.len() ==> !is_ws(#[trigger] w[i]),
    ensures
        lower_seq(w) == "next"@ || lower_seq(w) == "n"@ ==> parse_spec(seq!['!'] + w) == Some(CommandView::Next),
        lower_seq(w) == "prev"@ || lower_seq(w) == "p"@ ==> parse_spec(seq!['!'] + w) == Some(CommandView::Prev),
        lower_seq(w) == "list"@ || lower_seq(w) == "l"@ ==> parse_spec(seq!['!'] + w) == Some(CommandView::List),
        lower_seq(w) == "current"@ || lower_seq(w) == "c"@ ==> parse_spec(seq!['!'] + w) == Some(
            CommandView::Current,
        ),
        lower_seq(w) == "help"@ || lower_seq(w) == "h"@ ==> parse_spec(seq!['!'] + w) == Some(CommandView::Help),
        lower_seq(w) == "load"@ ==> parse_spec(seq!['!'] + w) is None,
{
    lemma_split_command(w, Seq::<char>::empty());
    reveal_strlit("load");
    reveal_strlit("next");
    reveal_strlit("n");
    reveal_strlit("prev");
    reveal_strlit("p");
    reveal_strlit("list");
    reveal_strlit("l");
    reveal_strlit("current");
    reveal_strlit("c");
    reveal_strlit("help");
    reveal_strlit("h");
    reveal_strlit("chapter");
    reveal_strlit("ch");
    let v = lower_seq(w);
    let s = seq!['!'] + w;
    assert(trim(s) == s && s[0] == '!' && verb_and_arg(s.drop_first()) == (v, Seq::<char>::empty()));
    assert(s.len() > 0);
    assert("next"@ != "load"@) by { assert("next"@[0] != "load"@[0]); }
    assert("n"@ != "load"@) by { assert("n"@.len() == 1 && "load"@.len() == 4); }
    assert("n"@ != "next"@) by { assert("n"@.len() == 1 && "next"@.len() == 4); }
    assert("prev"@ != "load"@) by { assert("prev"@[0] != "load"@[0]); }
    assert("prev"@ != "next"@) by { assert("prev"@[0] != "next"@[0]); }
    assert("prev"@ != "n"@) by { assert("prev"@.len() == 4 && "n"@.len() == 1); }
    assert("p"@ != "load"@) by { assert("p"@.len() == 1 && "load"@.len() == 4); }
    assert("p"@ != "next"@) by { assert("p"@.len() == 1 && "next"@.len() == 4); }
    assert("p"@ != "n"@) by { assert("p"@[0] != "n"@[0]); }
    assert("p"@ != "prev"@) by { assert("p"@.len() == 1 && "prev"@.len() == 4); }
    assert("chapter"@ != "load"@) by { assert("chapter"@.len() == 7 && "load"@.len() == 4); }
    assert("chapter"@ != "next"@) by { assert("chapter"@.len() == 7 && "next"@.len() == 4); }
    assert("chapter"@ != "n"@) by { assert("chapter"@.len() == 7 && "n"@.len() == 1); }
    assert("chapter"@ != "prev"@) by { assert("chapter"@.len() == 7 && "prev"@.len() == 4); }
    assert("chapter"@ != "p"@) by { assert("chapter"@.len() == 7 && "p"@.len() == 1); }
    assert("ch"@ != "load"@) by { assert("ch"@.len() == 2 && "load"@.len() == 4); }
    assert("ch"@ != "next"@) by { assert("ch"@.len() == 2 && "next"@.len() == 4); }
    assert("ch"@ != "n"@) by { assert("ch"@.len() == 2 && "n"@.len() == 1); }
    assert("ch"@ != "prev"@) by { assert("ch"@.len() == 2 && "prev"@.len() == 4); }
    assert("ch"@ != "p"@) by { assert("ch"@.len() == 2 && "p"@.len() == 1); }
    assert("ch"@ != "chapter"@) by { assert("ch"@.len() == 2 && "chapter"@.len() == 7); }
    assert("list"@ != "load"@) by { assert("list"@[1] != "load"@[1]); }
    assert("list"@ != "next"@) by { assert("list"@[0] != "next"@[0]); }
    assert("list"@ != "n"@) by { assert("list"@.len() == 4 && "n"@.len() == 1); }
    assert("list"@ != "prev"@) by { assert("list"@[0] != "prev"@[0]); }
    assert("list"@ != "p"@) by { assert("list"@.len() == 4 && "p"@.len() == 1); }
    assert("list"@ != "chapter"@) by { assert("list"@.len() == 4 && "chapter"@.len() == 7); }
    assert("list"@ != "ch"@) by { assert("list"@.len() == 4 && "ch"@.len() == 2); }
    assert("l"@ != "load"@) by { assert("l"@.len() == 1 && "load"@.len() == 4); }
    assert("l"@ != "next"@) by { assert("l"@.len() == 1 && "next"@.len() == 4); }
    assert("l"@ != "n"@) by { assert("l"@[0] != "n"@[0]); }
    assert("l"@ != "prev"@) by { assert("l"@.len() == 1 && "prev"@.len() == 4); }
    assert("l"@ != "p"@) by { assert("l"@[0] != "p"@[0]); }
    assert("l"@ != "chapter"@) by { assert("l"@.len() == 1 && "chapter"@.len() == 7); }
    assert("l"@ != "ch"@) by { assert("l"@.len() == 1 && "ch"@.len() == 2); }
    assert("l"@ != "list"@) by { assert("l"@.len() == 1 && "list"@.len() == 4); }
    assert("current"@ != "load"@) by { assert("current"@.len() == 7 && "load"@.len() == 4); }
    assert("current"@ != "next"@) by { assert("current"@.len() == 7 && "next"@.len() == 4); }
    assert("current"@ != "n"@) by { assert("current"@.len() == 7 && "n"@.len() == 1); }
    assert("current"@ != "prev"@) by { assert("current"@.len() == 7 && "prev"@.len() == 4); }
    assert("current"@ != "p"@) by { assert("current"@.len() == 7 && "p"@.len() == 1); }
    assert("current"@ != "chapter"@) by { assert("current"@[1] != "chapter"@[1]); }
    assert("current"@ != "ch"@) by { assert("current"@.len() == 7 && "ch"@.len() == 2); }
    assert("current"@ != "list"@) by { assert("current"@.len() == 7 && "list"@.len() == 4); }
    assert("current"@ != "l"@) by { assert("current"@.len() == 7 && "l"@.len() == 1); }
    assert("c"@ != "load"@) by { assert("c"@.len() == 1 && "load"@.len() == 4); }
    assert("c"@ != "next"@) by { assert("c"@.len() == 1 && "next"@.len() == 4); }
    assert("c"@ != "n"@) by { assert("c"@[0] != "n"@[0]); }
    assert("c"@ != "prev"@) by { assert("c"@.len() == 1 && "prev"@.len() == 4); }
    assert("c"@ != "p"@) by { assert("c"@[0] != "p"@[0]); }
    assert("c"@ != "chapter"@) by { assert("c"@.len() == 1 && "chapter"@.len() == 7); }
    assert("c"@ != "ch"@) by { assert("c"@.len() == 1 && "ch"@.len() == 2); }
    assert("c"@ != "list"@) by { assert("c"@.len() == 1 && "list"@.len() == 4); }
    assert("c"@ != "l"@) by { assert("c"@[0] != "l"@[0]); }
    assert("c"@ != "current"@) by { assert("c"@.len() == 1 && "current"@.len() == 7); }
    assert("help"@ != "load"@) by { assert("help"@[0] != "load"@[0]); }
    assert("help"@ != "next"@) by { assert("help"@[0] != "next"@[0]); }
    assert("help"@ != "n"@) by { assert("help"@.len() == 4 && "n"@.len() == 1); }
    assert("help"@ != "prev"@) by { assert("help"@[0] != "prev"@[0]); }
    assert("help"@ != "p"@) by { assert("help"@.len() == 4 && "p"@.len() == 1); }
    assert("help"@ != "chapter"@) by { assert("help"@.len() == 4 && "chapter"@.len() == 7); }
    assert("help"@ != "ch"@) by { assert("help"@.len() == 4 && "ch"@.len() == 2); }
    assert("help"@ != "list"@) by { assert("help"@[0] != "list"@[0]); }
    assert("help"@ != "l"@) by { assert("help"@.len() == 4 && "l"@.len() == 1); }
    assert("help"@ != "current"@) by { assert("help"@.len() == 4 && "current"@.len() == 7); }
    assert("help"@ != "c"@) by { assert("help"@.len() == 4 && "c"@.len() == 1); }
    assert("h"@ != "load"@) by { assert("h"@.len() == 1 && "load"@.len() == 4); }
    assert("h"@ != "next"@) by { assert("h"@.len() == 1 && "next"@.len() == 4); }
    assert("h"@ != "n"@) by { assert("h"@[0] != "n"@[0]); }
    assert("h"@ != "prev"@) by { assert("h"@.len() == 1 && "prev"@.len() == 4); }
    assert("h"@ != "p"@) by { assert("h"@[0] != "p"@[0]); }
    assert("h"@ != "chapter"@) by { assert("h"@.len() == 1 && "chapter"@.len() == 7); }
    assert("h"@ != "ch"@) by { assert("h"@.len() == 1 && "ch"@.len() == 2); }
    assert("h"@ != "list"@) by { assert("h"@.len() == 1 && "list"@.len() == 4); }
    assert("h"@ != "l"@) by { assert("h"@[0] != "l"@[0]); }
    assert("h"@ != "current"@) by { assert("h"@.len() == 1 && "current"@.len() == 7); }
    assert("h"@ != "c"@) by { assert("h"@[0] != "c"@[0]); }
    assert("h"@ != "help"@) by { assert("h"@.len() == 1 && "help"@.len() == 4); }
    if v == "next"@ || v == "n"@ {
        assert(parse_spec(s) == Some(CommandView::Next));
    }
    if v == "prev"@ || v == "p"@ {
        assert(parse_spec(s) == Some(CommandView::Prev));
    }
    if v == "list"@ || v == "l"@ {
        assert(parse_spec(s) == Some(CommandView::List));
    }
    if v == "current"@ || v == "c"@ {
        assert(parse_spec(s) == Some(CommandView::Current));
    }
    if v == "help"@ || v == "h"@ {
        assert(parse_spec(s) == Some(CommandView::Help));
    }
}

} // verus!
