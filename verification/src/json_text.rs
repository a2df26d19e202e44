//! JSON string literals as `serde_json` writes them.
use crate::text::{chars_of, string_from};
use vstd::prelude::*;

verus! {

/// The lowercase hexadecimal digit of `d` (below 16).
pub open spec fn hex_digit(d: nat) -> char {
    if d == 0 { '0' } else if d == 1 { '1' } else if d == 2 { '2' } else if d == 3 { '3' }
    else if d == 4 { '4' } else if d == 5 { '5' } else if d == 6 { '6' } else if d == 7 { '7' }
    else if d == 8 { '8' } else if d == 9 { '9' } else if d == 10 { 'a' } else if d == 11 { 'b' }
    else if d == 12 { 'c' } else if d == 13 { 'd' } else if d == 14 { 'e' } else { 'f' }
}

/// How one character stands inside a JSON string: `"` and `\` behind a
/// backslash; backspace, form feed, line feed, carriage return and tab as
/// `\b \f \n \r \t`; every other character below U+0020 as `\u00XX` with
/// lowercase hex digits; any other character as itself.
pub open spec fn escape_char(c: char) -> Seq<char> {
    if c == '"' {
        seq!['\\', '"']
    } else if c == '\\' {
        seq!['\\', '\\']
    } else if c == '\x08' {
        seq!['\\', 'b']
    } else if c == '\x0c' {
        seq!['\\', 'f']
    } else if c == '\n' {
        seq!['\\', 'n']
    } else if c == '\r' {
        seq!['\\', 'r']
    } else if c == '\t' {
        seq!['\\', 't']
    } else if (c as u32) < 0x20 {
        seq!['\\', 'u', '0', '0', hex_digit((c as u32 / 16) as nat), hex_digit((c as u32 % 16) as nat)]
    } else {
        seq![c]
    }
}

/// The characters of `s`, each escaped.
pub open spec fn escape_seq(s: Seq<char>) -> Seq<char>
    decreases s.len(),
{
    if s.len() == 0 {
        Seq::empty()
    } else {
        escape_seq(s.drop_last()) + escape_char(s.last())
    }
}

/// The JSON text of a string (`serde_json::to_string`): quoted, with its
/// characters escaped.
pub open spec fn json_string_text(s: Seq<char>) -> Seq<char> {
    seq!['"'] + escape_seq(s) + seq!['"']
}

fn hex_char(d: u32) -> (c: char)
    requires
        d < 16,
    ensures
        c == hex_digit(d as nat),
{
    if d == 0 { '0' } else if d == 1 { '1' } else if d == 2 { '2' } else if d == 3 { '3' }
    else if d == 4 { '4' } else if d == 5 { '5' } else if d == 6 { '6' } else if d == 7 { '7' }
    else if d == 8 { '8' } else if d == 9 { '9' } else if d == 10 { 'a' } else if d == 11 { 'b' }
    else if d == 12 { 'c' } else if d == 13 { 'd' } else if d == 14 { 'e' } else { 'f' }
}

fn push_escaped(out: &mut Vec<char>, c: char)
    ensures
        final(out)@ == old(out)@ + escape_char(c),
{
    let ghost before = out@;
    if c == '"' {
        out.push('\\');
        out.push('"');
    } else if c == '\\' {
        out.push('\\');
        out.push('\\');
    } else if c == '\x08' {
        out.push('\\');
        out.push('b');
    } else if c == '\x0c' {
        out.push('\\');
        out.push('f');
    } else if c == '\n' {
        out.push('\\');
        out.push('n');
    } else if c == '\r' {
        out.push('\\');
        out.push('r');
    } else if c == '\t' {
        out.push('\\');
        out.push('t');
    } else if (c as u32) < 0x20 {
        let code = c as u32;
        out.push('\\');
        out.push('u');
        out.push('0');
        out.push('0');
        out.push(hex_char(code / 16));
        out.push(hex_char(code % 16));
    } else {
        out.push(c);
    }
    assert(out@ =~= before + escape_char(c));
}

/// The JSON text of a string, quoted and escaped as `serde_json` writes it.
pub fn json_quote(s: &str) -> (r: String)
    ensures
        r@ == json_string_text(s@),
{
    let v = chars_of(s);
    let mut out: Vec<char> = Vec::new();
    out.push('"');
    let mut i: usize = 0;
    while i < v.len()
        invariant
            i <= v@.len(),
            v@ == s@,
            out@ == seq!['"'] + escape_seq(v@.take(i as int)),
        decreases v.len() - i,
    {
        assert(v@.take(i + 1).drop_last() == v@.take(i as int));
        push_escaped(&mut out, v[i]);
        i = i + 1;
    }
    assert(v@.take(v@.len() as int) == v@);
    out.push('"');
    string_from(&out)
}

/// A character that stands for itself in a JSON string.
pub open spec fn plain_json_char(c: char) -> bool {
    c != '"' && c != '\\' && (c as u32) >= 0x20
}

proof fn lemma_escape_seq(s: Seq<char>)
    ensures
        forall|i: int| 0 <= i < escape_seq(s).len() ==> (#[trigger] escape_seq(s)[i] as u32) >= 0x20,
        (forall|i: int| 0 <= i < s.len() ==> plain_json_char(#[trigger] s[i])) ==> escape_seq(s) == s,
    decreases s.len(),
{
    if s.len() > 0 {
        let t = s.drop_last();
        let c = s.last();
        lemma_escape_seq(t);
        let e = escape_char(c);
        let d = (c as u32 / 16) as nat;
        let m = (c as u32 % 16) as nat;
        assert(hex_digit(d) as u32 >= 0x20);
        assert(hex_digit(m) as u32 >= 0x20);
        assert forall|i: int| 0 <= i < e.len() implies (#[trigger] e[i] as u32) >= 0x20 by {}
        let r = escape_seq(t) + e;
        assert forall|i: int| 0 <= i < r.len() implies (#[trigger] r[i] as u32) >= 0x20 by {
            if i < escape_seq(t).len() {
                assert(r[i] == escape_seq(t)[i]);
            } else {
                assert(r[i] == e[i - escape_seq(t).len()]);
            }
        }
        if forall|i: int| 0 <= i < s.len() ==> plain_json_char(#[trigger] s[i]) {
            assert forall|i: int| 0 <= i < t.len() implies plain_json_char(#[trigger] t[i]) by {
                assert(t[i] == s[i]);
            }
            assert(plain_json_char(s[s.len() - 1]));
            assert(e == seq![c]);
            assert(t.push(c) =~= s);
        }
    }
}

/// A JSON string literal is the string between double quotes: characters
/// other than `"`, `\` and controls stand for themselves, and no control
/// character appears unescaped anywhere in the literal.
pub proof fn law_json_string_literal(s: Seq<char>)
    ensures
        json_string_text(s).len() >= 2,
        json_string_text(s)[0] == '"',
        json_string_text(s).last() == '"',
        forall|i: int| 0 <= i < json_string_text(s).len() ==> (#[trigger] json_string_text(s)[i] as u32) >= 0x20,
        (forall|i: int| 0 <= i < s.len() ==> plain_json_char(#[trigger] s[i])) ==> json_string_text(s) == seq!['"'] + s
            + seq!['"'],
{
    lemma_escape_seq(s);
    let e = escape_seq(s);
    let r = json_string_text(s);
    assert forall|i: int| 0 <= i < r.len() implies (#[trigger] r[i] as u32) >= 0x20 by {
        if i == 0 || i == r.len() - 1 {
        } else {
            assert(r[i] == e[i - 1]);
        }
    }
}

} // verus!
