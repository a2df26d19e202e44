//! Chunks: the unit of content carried by the session bus, with their JSON
//! annotations.
use crate::text::{chars_eq, chars_of, is_digit, parse_unsigned, parse_unsigned_range, str_eq};
use vstd::prelude::*;
use vstd::string::StringExecFns;

verus! {

/// Annotation keys understood by the platform.
pub const CHAT_ROLE: &'static str = "chat.role";

pub const CHAT_STREAM_COMPLETE: &'static str = "chat.stream_complete";

pub const CAFE_TRANSIENT: &'static str = "cafe.transient";

pub const CAFE_RETAIN_SECS: &'static str = "cafe.transient.retain_secs";

pub const CONFIG_TYPE: &'static str = "config.type";

/// The connection a chunk was published from, set by the bus.
pub const CAFE_SOURCE_CONNECTION: &'static str = "cafe.source_connection";

/// The connection a chunk is addressed to, bypassing the session.
pub const CAFE_DIRECT_TO: &'static str = "cafe.direct_to";

pub const CONFIG_TEMPERATURE: &'static str = "config.temperature";

/// A control signal for a session's agent (such as a scheduler `tick`).
pub const CAFE_FLOW_SIGNAL: &'static str = "cafe.flow.signal";

pub const SECURITY_TRUST_LEVEL: &'static str = "security.trust-level";

pub const CONFIG_LLM_BACKEND: &'static str = "config.llm.backend";

pub const CONFIG_LLM_MODEL: &'static str = "config.llm.model";

pub const CONFIG_LLM_SYSTEM_PROMPT: &'static str = "config.llm.system_prompt";

pub const CONFIG_LLM_MAX_TOKENS: &'static str = "config.llm.max_tokens";

pub const CONFIG_LLM_COMPACTION_MODE: &'static str = "config.llm.compaction_mode";

pub const CONFIG_LLM_MAX_HISTORY_MESSAGES: &'static str = "config.llm.max_history_messages";

pub const CONFIG_LLM_MAX_HISTORY_CHARS: &'static str = "config.llm.max_history_chars";

/// Keys of the configuration format that preceded the `config.llm.*`
/// namespace.
pub const CONFIG_BACKEND: &'static str = "config.backend";

pub const CONFIG_MODEL: &'static str = "config.model";

pub const CONFIG_SYSTEM_PROMPT: &'static str = "config.system_prompt";

pub const CONFIG_MAX_TOKENS: &'static str = "config.max_tokens";

/// The chunk a mutation chunk amends.
pub const CAFE_MUTATES_TARGET_ID: &'static str = "cafe.mutates.target_id";

/// Where the binary store serves a blob, and the token that reads it.
pub const CAFE_BINARY_READ_URL: &'static str = "cafe.binary.read_url";

pub const CAFE_BINARY_READ_TOKEN: &'static str = "cafe.binary.read_token";

/// A JSON number, as `serde_json` holds it: a non-negative integer, a
/// negative integer, or a finite float (kept as the bits of its `f64`).
#[derive(Debug, Clone, Copy, PartialEq, Eq, Structural)]
pub enum JsonNumber {
    PosInt(u64),
    NegInt(i64),
    Float(u64),
}

/// A JSON value. An array is held as its canonical JSON text (`serde_json`'s
/// compact serialization); an object as its members in key order, each
/// member's value as its canonical JSON text.
#[derive(Debug, Clone, PartialEq)]
pub enum JsonValue {
    Null,
    Bool(bool),
    Number(JsonNumber),
    Str(String),
    Array(String),
    Object(Vec<(String, String)>),
}

/// A JSON value with its strings taken by their characters.
pub ghost enum JsonView {
    Null,
    Bool(bool),
    Number(JsonNumber),
    Str(Seq<char>),
    Array(Seq<char>),
    Object(Seq<(Seq<char>, Seq<char>)>),
}

/// The members of an object as plain text pairs.
pub open spec fn members_view(m: Seq<(String, String)>) -> Seq<(Seq<char>, Seq<char>)> {
    m.map_values(|p: (String, String)| (p.0@, p.1@))
}

impl View for JsonValue {
    type V = JsonView;

    open spec fn view(&self) -> JsonView {
        match self {
            JsonValue::Null => JsonView::Null,
            JsonValue::Bool(b) => JsonView::Bool(*b),
            JsonValue::Number(n) => JsonView::Number(*n),
            JsonValue::Str(s) => JsonView::Str(s@),
            JsonValue::Array(s) => JsonView::Array(s@),
            JsonValue::Object(m) => JsonView::Object(members_view(m@)),
        }
    }
}

/// Kind of content a chunk carries.
#[derive(Debug, Clone, Copy, PartialEq, Eq, Structural)]
pub enum ContentType {
    Text,
    Binary,
    BinaryRef,
    Null,
}

/// A unit of session content with its annotations (key → JSON value, each
/// key at most once).
#[derive(Debug, Clone, PartialEq)]
pub struct Chunk {
    pub id: String,
    pub content_type: ContentType,
    pub content: Option<String>,
    pub data: Option<Vec<u8>>,
    pub mime_type: Option<String>,
    pub producer: String,
    pub annotations: Vec<(String, JsonValue)>,
    pub timestamp: i64,
}

/// A chunk with its strings taken by their characters.
pub ghost struct ChunkView {
    pub id: Seq<char>,
    pub content_type: ContentType,
    pub content: Option<Seq<char>>,
    pub data: Option<Seq<u8>>,
    pub mime_type: Option<Seq<char>>,
    pub producer: Seq<char>,
    pub annotations: Seq<(Seq<char>, JsonView)>,
    pub timestamp: i64,
}

/// An annotation list with its keys and values taken by their views.
pub open spec fn anns_view(a: Seq<(String, JsonValue)>) -> Seq<(Seq<char>, JsonView)> {
    a.map_values(|p: (String, JsonValue)| (p.0@, p.1@))
}

/// An optional string by its characters.
pub open spec fn opt_str(o: Option<String>) -> Option<Seq<char>> {
    match o {
        Some(s) => Some(s@),
        None => None,
    }
}

impl View for Chunk {
    type V = ChunkView;

    open spec fn view(&self) -> ChunkView {
        ChunkView {
            id: self.id@,
            content_type: self.content_type,
            content: opt_str(self.content),
            data: match self.data {
                Some(d) => Some(d@),
                None => None,
            },
            mime_type: opt_str(self.mime_type),
            producer: self.producer@,
            annotations: anns_view(self.annotations@),
            timestamp: self.timestamp,
        }
    }
}

/// The value of `key` in an annotation list (its first occurrence).
pub open spec fn ann_get(anns: Seq<(Seq<char>, JsonView)>, key: Seq<char>) -> Option<JsonView>
    decreases anns.len(),
{
    if anns.len() == 0 {
        None
    } else if anns[0].0 == key {
        Some(anns[0].1)
    } else {
        ann_get(anns.drop_first(), key)
    }
}

/// No key occurs twice in an annotation list.
pub open spec fn unique_keys(anns: Seq<(Seq<char>, JsonView)>) -> bool {
    forall|i: int, j: int| 0 <= i < j < anns.len() ==> #[trigger] anns[i].0 != #[trigger] anns[j].0
}

/// Looking a key up in a list extended at its end.
pub proof fn lemma_ann_get_push_end(anns: Seq<(Seq<char>, JsonView)>, e: (Seq<char>, JsonView), k: Seq<char>)
    ensures
        ann_get(anns.push(e), k) == if ann_get(anns, k) is Some {
            ann_get(anns, k)
        } else if e.0 == k {
            Some(e.1)
        } else {
            None
        },
    decreases anns.len(),
{
    if anns.len() > 0 {
        assert(anns.push(e).drop_first() =~= anns.drop_first().push(e));
        assert(anns.push(e)[0] == anns[0]);
        lemma_ann_get_push_end(anns.drop_first(), e, k);
        if anns[0].0 != k {
            assert(ann_get(anns.push(e), k) == ann_get(anns.push(e).drop_first(), k));
            assert(ann_get(anns, k) == ann_get(anns.drop_first(), k));
        }
    } else {
        let t = anns.push(e);
        assert(t.drop_first() =~= Seq::<(Seq<char>, JsonView)>::empty());
        assert(t[0] == e);
        assert(ann_get(t.drop_first(), k) is None);
        assert(ann_get(anns, k) is None);
    }
}

/// Float numbers are equal when their values are: the same bits, or both zero
/// (`0.0 == -0.0`).
pub open spec fn float_bits_eq(a: u64, b: u64) -> bool {
    a == b || ((a & 0x7fff_ffff_ffff_ffff) == 0 && (b & 0x7fff_ffff_ffff_ffff) == 0)
}

/// Equality of JSON numbers (`serde_json::Number == Number`).
pub open spec fn number_eq(a: JsonNumber, b: JsonNumber) -> bool {
    match (a, b) {
        (JsonNumber::PosInt(x), JsonNumber::PosInt(y)) => x == y,
        (JsonNumber::NegInt(x), JsonNumber::NegInt(y)) => x == y,
        (JsonNumber::Float(x), JsonNumber::Float(y)) => float_bits_eq(x, y),
        _ => false,
    }
}

/// Whether `t` starts with the number token `-0.0` (negative zero, as
/// `serde_json` writes it), not the start of a longer number.
pub open spec fn neg_zero_at(t: Seq<char>) -> bool {
    &&& t.len() >= 4
    &&& t[0] == '-' && t[1] == '0' && t[2] == '.' && t[3] == '0'
    &&& (t.len() == 4 || !(is_digit(t[4]) || t[4] == 'e' || t[4] == 'E'))
}

/// Compact JSON text with every negative zero outside strings written as
/// `0.0`, so that equal values have equal texts; `in_str` and `escaped`
/// give where the scan stands (inside a string, after a backslash).
pub open spec fn zero_norm_from(t: Seq<char>, in_str: bool, escaped: bool) -> Seq<char>
    decreases t.len(),
{
    if t.len() == 0 {
        Seq::empty()
    } else if in_str {
        if escaped {
            seq![t[0]] + zero_norm_from(t.drop_first(), true, false)
        } else if t[0] == '\\' {
            seq![t[0]] + zero_norm_from(t.drop_first(), true, true)
        } else if t[0] == '"' {
            seq![t[0]] + zero_norm_from(t.drop_first(), false, false)
        } else {
            seq![t[0]] + zero_norm_from(t.drop_first(), true, false)
        }
    } else if t[0] == '"' {
        seq![t[0]] + zero_norm_from(t.drop_first(), true, false)
    } else if neg_zero_at(t) {
        seq!['0', '.', '0'] + zero_norm_from(t.skip(4), false, false)
    } else {
        seq![t[0]] + zero_norm_from(t.drop_first(), false, false)
    }
}

/// The text of a nested JSON value up to the sign of its zeros.
pub open spec fn zero_norm(t: Seq<char>) -> Seq<char> {
    zero_norm_from(t, false, false)
}

/// Object members with their values' texts normalized.
pub open spec fn members_norm(m: Seq<(Seq<char>, Seq<char>)>) -> Seq<(Seq<char>, Seq<char>)> {
    m.map_values(|p: (Seq<char>, Seq<char>)| (p.0, zero_norm(p.1)))
}

/// Equality of JSON values (`serde_json::Value == Value`). Nested values are
/// compared by their compact texts, which are equal for equal values but
/// for the sign of a zero float (`0.0 == -0.0`), so that sign is set aside.
pub open spec fn json_eq(a: JsonView, b: JsonView) -> bool {
    match (a, b) {
        (JsonView::Null, JsonView::Null) => true,
        (JsonView::Bool(x), JsonView::Bool(y)) => x == y,
        (JsonView::Number(x), JsonView::Number(y)) => number_eq(x, y),
        (JsonView::Str(x), JsonView::Str(y)) => x == y,
        (JsonView::Array(x), JsonView::Array(y)) => zero_norm(x) == zero_norm(y),
        (JsonView::Object(x), JsonView::Object(y)) => members_norm(x) == members_norm(y),
        _ => false,
    }
}

/// Equality of JSON values is an equivalence: every value equals itself,
/// equality goes both ways and chains; values of different kinds are never
/// equal, and a zero float equals its negative.
pub proof fn law_json_eq_equivalence(a: JsonView, b: JsonView, c: JsonView)
    ensures
        json_eq(a, a),
        json_eq(a, b) == json_eq(b, a),
        json_eq(a, b) && json_eq(b, c) ==> json_eq(a, c),
        json_eq(a, b) ==> (a is Null <==> b is Null) && (a is Bool <==> b is Bool) && (a is Number <==> b is Number)
            && (a is Str <==> b is Str) && (a is Array <==> b is Array) && (a is Object <==> b is Object),
        json_eq(
            JsonView::Number(JsonNumber::Float(0)),
            JsonView::Number(JsonNumber::Float(0x8000_0000_0000_0000)),
        ),
{
    assert((0u64 & 0x7fff_ffff_ffff_ffffu64) == 0 && (0x8000_0000_0000_0000u64 & 0x7fff_ffff_ffff_ffffu64) == 0)
        by (bit_vector);
}

/// A nested value's text up to the sign of its zeros.
pub fn zero_normalized(t: &str) -> (r: Vec<char>)
    ensures
        r@ == zero_norm(t@),
{
    let v = chars_of(t);
    let mut out: Vec<char> = Vec::new();
    let mut i: usize = 0;
    let mut in_str = false;
    let mut escaped = false;
    assert(v@.skip(0) =~= v@);
    while i < v.len()
        invariant
            i <= v@.len(),
            v@ == t@,
            !in_str ==> !escaped,
            out@ + zero_norm_from(v@.skip(i as int), in_str, escaped) == zero_norm(t@),
        decreases v.len() - i,
    {
        let ghost rest = v@.skip(i as int);
        let ghost out0 = out@;
        let ghost st_in = in_str;
        let ghost st_esc = escaped;
        assert(rest[0] == v@[i as int]);
        assert(rest.drop_first() =~= v@.skip(i + 1));
        let c = v[i];
        let neg_zero = c == '-' && v.len() - i >= 4 && v[i + 1] == '0' && v[i + 2] == '.' && v[i + 3] == '0'
            && (v.len() - i == 4 || !(('0' <= v[i + 4] && v[i + 4] <= '9') || v[i + 4] == 'e' || v[i + 4]
            == 'E'));
        proof {
            if rest.len() >= 4 {
                assert(rest[1] == v@[i + 1]);
                assert(rest[2] == v@[i + 2]);
                assert(rest[3] == v@[i + 3]);
            }
            if rest.len() > 4 {
                assert(rest[4] == v@[i + 4]);
            }
            assert(neg_zero == neg_zero_at(rest));
        }
        if !in_str && neg_zero {
            out.push('0');
            out.push('.');
            out.push('0');
            i = i + 4;
            proof {
                assert(rest.skip(4) =~= v@.skip(i as int));
                assert(zero_norm_from(rest, st_in, st_esc) == seq!['0', '.', '0'] + zero_norm_from(
                    v@.skip(i as int),
                    false,
                    false,
                ));
                assert(out@ =~= out0 + seq!['0', '.', '0']);
            }
        } else {
            out.push(c);
            if in_str {
                if escaped {
                    escaped = false;
                } else if c == '\\' {
                    escaped = true;
                } else if c == '"' {
                    in_str = false;
                }
            } else if c == '"' {
                in_str = true;
            }
            i = i + 1;
            proof {
                assert(zero_norm_from(rest, st_in, st_esc) == seq![c] + zero_norm_from(
                    v@.skip(i as int),
                    in_str,
                    escaped,
                ));
                assert(out@ =~= out0 + seq![c]);
            }
        }
        proof {
            assert(out@ + zero_norm_from(v@.skip(i as int), in_str, escaped) =~= out0 + zero_norm_from(
                rest,
                st_in,
                st_esc,
            ));
        }
    }
    assert(out@ + Seq::<char>::empty() =~= out@);
    out
}

/// Whether two member lists hold the same keys and equal values, in order.
fn members_equal(a: &Vec<(String, String)>, b: &Vec<(String, String)>) -> (r: bool)
    ensures
        r == (members_norm(members_view(a@)) == members_norm(members_view(b@))),
{
    if a.len() != b.len() {
        proof {
            assert(members_norm(members_view(a@)).len() != members_norm(members_view(b@)).len());
        }
        return false;
    }
    let mut i: usize = 0;
    while i < a.len()
        invariant
            0 <= i <= a@.len(),
            a@.len() == b@.len(),
            forall|j: int|
                0 <= j < i ==> #[trigger] members_norm(members_view(a@))[j] == members_norm(members_view(b@))[j],
        decreases a.len() - i,
    {
        let same = str_eq(a[i].0.as_str(), b[i].0.as_str()) && chars_eq(
            &zero_normalized(a[i].1.as_str()),
            &zero_normalized(b[i].1.as_str()),
        );
        if !same {
            proof {
                assert(members_norm(members_view(a@))[i as int] != members_norm(members_view(b@))[i as int]);
            }
            return false;
        }
        i = i + 1;
    }
    proof {
        assert(members_norm(members_view(a@)) =~= members_norm(members_view(b@)));
    }
    true
}

/// A copy of an object's members.
fn members_clone(m: &Vec<(String, String)>) -> (r: Vec<(String, String)>)
    ensures
        r@ == m@,
{
    let mut out: Vec<(String, String)> = Vec::new();
    let mut i: usize = 0;
    while i < m.len()
        invariant
            0 <= i <= m@.len(),
            out@ == m@.subrange(0, i as int),
        decreases m.len() - i,
    {
        out.push((m[i].0.clone(), m[i].1.clone()));
        i = i + 1;
    }
    proof {
        assert(m@.subrange(0, m@.len() as int) == m@);
    }
    out
}

fn float_eq(a: u64, b: u64) -> (r: bool)
    ensures
        r == float_bits_eq(a, b),
{
    a == b || ((a & 0x7fff_ffff_ffff_ffff) == 0 && (b & 0x7fff_ffff_ffff_ffff) == 0)
}

/// Whether two JSON values are equal.
pub fn json_equal(a: &JsonValue, b: &JsonValue) -> (r: bool)
    ensures
        r == json_eq(a@, b@),
{
    match (a, b) {
        (JsonValue::Null, JsonValue::Null) => true,
        (JsonValue::Bool(x), JsonValue::Bool(y)) => *x == *y,
        (JsonValue::Number(x), JsonValue::Number(y)) => match (x, y) {
            (JsonNumber::PosInt(p), JsonNumber::PosInt(q)) => *p == *q,
            (JsonNumber::NegInt(p), JsonNumber::NegInt(q)) => *p == *q,
            (JsonNumber::Float(p), JsonNumber::Float(q)) => float_eq(*p, *q),
            _ => false,
        },
        (JsonValue::Str(x), JsonValue::Str(y)) => str_eq(x.as_str(), y.as_str()),
        (JsonValue::Array(x), JsonValue::Array(y)) => chars_eq(&zero_normalized(x.as_str()), &zero_normalized(y.as_str())),
        (JsonValue::Object(x), JsonValue::Object(y)) => members_equal(x, y),
        _ => false,
    }
}

/// A copy of a JSON value.
pub fn json_clone(v: &JsonValue) -> (r: JsonValue)
    ensures
        r@ == v@,
{
    match v {
        JsonValue::Null => JsonValue::Null,
        JsonValue::Bool(b) => JsonValue::Bool(*b),
        JsonValue::Number(n) => JsonValue::Number(*n),
        JsonValue::Str(s) => JsonValue::Str(s.clone()),
        JsonValue::Array(s) => JsonValue::Array(s.clone()),
        JsonValue::Object(m) => JsonValue::Object(members_clone(m)),
    }
}

/// `Value::as_str`.
pub open spec fn json_as_str(v: JsonView) -> Option<Seq<char>> {
    match v {
        JsonView::Str(s) => Some(s),
        _ => None,
    }
}

/// `Value::as_bool`.
pub open spec fn json_as_bool(v: JsonView) -> Option<bool> {
    match v {
        JsonView::Bool(b) => Some(b),
        _ => None,
    }
}

/// `Value::as_u64`: a non-negative integer.
pub open spec fn json_as_u64(v: JsonView) -> Option<u64> {
    match v {
        JsonView::Number(JsonNumber::PosInt(n)) => Some(n),
        _ => None,
    }
}

/// A number read leniently as a `u32`, as the configuration readers do: a
/// non-negative integer (truncated to 32 bits, as `n as u32`), or a string
/// holding a `u32`.
pub open spec fn lenient_u32(v: JsonView) -> Option<u32> {
    match v {
        JsonView::Number(JsonNumber::PosInt(n)) => Some(n as u32),
        JsonView::Str(s) => match parse_unsigned(s, u32::MAX as nat) {
            Some(n) => Some(n as u32),
            None => None,
        },
        _ => None,
    }
}

pub fn as_str(v: &JsonValue) -> (r: Option<&String>)
    ensures
        match r {
            Some(s) => json_as_str(v@) == Some(s@),
            None => json_as_str(v@) is None,
        },
{
    match v {
        JsonValue::Str(s) => Some(s),
        _ => None,
    }
}

pub fn as_bool(v: &JsonValue) -> (r: Option<bool>)
    ensures
        r == json_as_bool(v@),
{
    match v {
        JsonValue::Bool(b) => Some(*b),
        _ => None,
    }
}

pub fn as_u64(v: &JsonValue) -> (r: Option<u64>)
    ensures
        r == json_as_u64(v@),
{
    match v {
        JsonValue::Number(JsonNumber::PosInt(n)) => Some(*n),
        _ => None,
    }
}

pub fn to_lenient_u32(v: &JsonValue) -> (r: Option<u32>)
    ensures
        r == lenient_u32(v@),
{
    match v {
        JsonValue::Number(JsonNumber::PosInt(n)) => Some(*n as u32),
        JsonValue::Str(s) => {
            let c = chars_of(s.as_str());
            let r = parse_unsigned_range(&c, 0, c.len(), u32::MAX as u64);
            assert(c@.subrange(0, c@.len() as int) == c@);
            match r {
                Some(n) => Some(n as u32),
                None => None,
            }
        },
        _ => None,
    }
}

/// The text of member `key` of an object (its first occurrence).
pub open spec fn member_text(ms: Seq<(Seq<char>, Seq<char>)>, key: Seq<char>) -> Option<Seq<char>>
    decreases ms.len(),
{
    if ms.len() == 0 {
        None
    } else if ms[0].0 == key {
        Some(ms[0].1)
    } else {
        member_text(ms.drop_first(), key)
    }
}

/// The text of member `key` among `ms`.
pub fn member_lookup<'a>(ms: &'a Vec<(String, String)>, key: &str) -> (r: Option<&'a String>)
    ensures
        match r {
            Some(t) => member_text(members_view(ms@), key@) == Some(t@),
            None => member_text(members_view(ms@), key@) is None,
        },
{
    let ghost v = members_view(ms@);
    let mut i: usize = 0;
    assert(v.skip(0) == v);
    while i < ms.len()
        invariant
            0 <= i <= ms@.len(),
            v == members_view(ms@),
            member_text(v, key@) == member_text(v.skip(i as int), key@),
        decreases ms.len() - i,
    {
        assert(v.skip(i as int)[0] == v[i as int]);
        if str_eq(ms[i].0.as_str(), key) {
            return Some(&ms[i].1);
        }
        assert(v.skip(i as int).drop_first() == v.skip(i + 1));
        i = i + 1;
    }
    None
}

/// The value of `key` among `anns`.
pub fn ann_lookup<'a>(anns: &'a Vec<(String, JsonValue)>, key: &str) -> (r: Option<&'a JsonValue>)
    ensures
        match r {
            Some(v) => ann_get(anns_view(anns@), key@) == Some(v@),
            None => ann_get(anns_view(anns@), key@) is None,
        },
{
    let ghost v = anns_view(anns@);
    let mut i: usize = 0;
    assert(v.skip(0) == v);
    while i < anns.len()
        invariant
            0 <= i <= anns@.len(),
            v == anns_view(anns@),
            ann_get(v, key@) == ann_get(v.skip(i as int), key@),
        decreases anns.len() - i,
    {
        assert(v.skip(i as int)[0] == v[i as int]);
        if str_eq(anns[i].0.as_str(), key) {
            return Some(&anns[i].1);
        }
        assert(v.skip(i as int).drop_first() == v.skip(i + 1));
        i = i + 1;
    }
    None
}

/// A copy of an annotation list.
pub fn anns_clone(a: &Vec<(String, JsonValue)>) -> (r: Vec<(String, JsonValue)>)
    ensures
        anns_view(r@) == anns_view(a@),
{
    let mut out: Vec<(String, JsonValue)> = Vec::new();
    let mut i: usize = 0;
    while i < a.len()
        invariant
            0 <= i <= a@.len(),
            anns_view(out@) == anns_view(a@).subrange(0, i as int),
        decreases a.len() - i,
    {
        let ghost before = out@;
        out.push((a[i].0.clone(), json_clone(&a[i].1)));
        assert(anns_view(out@) =~= anns_view(before).push(anns_view(a@)[i as int]));
        i = i + 1;
    }
    assert(anns_view(a@).subrange(0, a@.len() as int) =~= anns_view(a@));
    out
}

fn bytes_clone(d: &Vec<u8>) -> (r: Vec<u8>)
    ensures
        r@ == d@,
{
    let mut out: Vec<u8> = Vec::new();
    let mut i: usize = 0;
    while i < d.len()
        invariant
            0 <= i <= d@.len(),
            out@ == d@.subrange(0, i as int),
        decreases d.len() - i,
    {
        out.push(d[i]);
        i = i + 1;
    }
    assert(d@.subrange(0, d@.len() as int) =~= d@);
    out
}

fn opt_string_clone(o: &Option<String>) -> (r: Option<String>)
    ensures
        opt_str(r) == opt_str(*o),
{
    match o {
        Some(s) => Some(s.clone()),
        None => None,
    }
}

/// A copy of a chunk.
pub fn chunk_clone(c: &Chunk) -> (r: Chunk)
    ensures
        r@ == c@,
{
    Chunk {
        id: c.id.clone(),
        content_type: c.content_type,
        content: opt_string_clone(&c.content),
        data: match &c.data {
            Some(d) => Some(bytes_clone(d)),
            None => None,
        },
        mime_type: opt_string_clone(&c.mime_type),
        producer: c.producer.clone(),
        annotations: anns_clone(&c.annotations),
        timestamp: c.timestamp,
    }
}

/// A runtime configuration chunk: a content-less chunk whose `config.type`
/// is `runtime`.
pub open spec fn is_runtime_config(c: Chunk) -> bool {
    &&& c.content_type == ContentType::Null
    &&& match ann_get(c@.annotations, CONFIG_TYPE@) {
        Some(v) => json_as_str(v) == Some("runtime"@),
        None => false,
    }
}

/// Whether `c` is a runtime configuration chunk.
pub fn is_runtime_config_chunk(c: &Chunk) -> (r: bool)
    ensures
        r == is_runtime_config(*c),
{
    if c.content_type != ContentType::Null {
        return false;
    }
    match ann_lookup(&c.annotations, CONFIG_TYPE) {
        Some(v) => match as_str(v) {
            Some(s) => str_eq(s.as_str(), "runtime"),
            None => false,
        },
        None => false,
    }
}

/// Whether the chunk is transient: its `cafe.transient` annotation is `true`.
pub open spec fn is_transient_spec(c: ChunkView) -> bool {
    ann_get(c.annotations, CAFE_TRANSIENT@) == Some(JsonView::Bool(true))
}

/// How long a transient chunk is retained for late subscribers, in seconds.
pub open spec fn retain_secs_spec(c: ChunkView) -> Option<u64> {
    match ann_get(c.annotations, CAFE_RETAIN_SECS@) {
        Some(v) => json_as_u64(v),
        None => None,
    }
}

/// The chat role of the chunk (`chat.role` as a string).
pub open spec fn role_spec(c: ChunkView) -> Option<Seq<char>> {
    match ann_get(c.annotations, CHAT_ROLE@) {
        Some(v) => json_as_str(v),
        None => None,
    }
}

/// The annotation `key` of a chunk, when it is a string.
pub open spec fn str_ann(c: ChunkView, key: Seq<char>) -> Option<Seq<char>> {
    match ann_get(c.annotations, key) {
        Some(v) => json_as_str(v),
        None => None,
    }
}

impl Chunk {
    /// The annotation `key` when it is a string.
    pub fn str_annotation(&self, key: &str) -> (r: Option<&String>)
        ensures
            match r {
                Some(s) => str_ann(self@, key@) == Some(s@),
                None => str_ann(self@, key@) is None,
            },
    {
        match ann_lookup(&self.annotations, key) {
            Some(v) => as_str(v),
            None => None,
        }
    }

    /// The chunk this one amends, for a mutation chunk.
    pub fn is_mutation(&self) -> (r: Option<&String>)
        ensures
            match r {
                Some(s) => str_ann(self@, CAFE_MUTATES_TARGET_ID@) == Some(s@),
                None => str_ann(self@, CAFE_MUTATES_TARGET_ID@) is None,
            },
    {
        self.str_annotation(CAFE_MUTATES_TARGET_ID)
    }

    pub fn is_transient(&self) -> (r: bool)
        ensures
            r == is_transient_spec(self@),
    {
        match ann_lookup(&self.annotations, CAFE_TRANSIENT) {
            Some(JsonValue::Bool(b)) => *b,
            _ => false,
        }
    }

    pub fn retain_secs(&self) -> (r: Option<u64>)
        ensures
            r == retain_secs_spec(self@),
    {
        match ann_lookup(&self.annotations, CAFE_RETAIN_SECS) {
            Some(v) => as_u64(v),
            None => None,
        }
    }

    pub fn role(&self) -> (r: Option<&String>)
        ensures
            match r {
                Some(s) => role_spec(self@) == Some(s@),
                None => role_spec(self@) is None,
            },
    {
        match ann_lookup(&self.annotations, CHAT_ROLE) {
            Some(v) => as_str(v),
            None => None,
        }
    }

    /// A text chunk.
    pub fn new_text(id: String, content: String, producer: String) -> (c: Chunk)
        ensures
            c@.id == id@,
            c@.content_type == ContentType::Text,
            c@.content == Some(content@),
            c@.data is None,
            c@.mime_type is None,
            c@.producer == producer@,
            c@.annotations.len() == 0,
            c@.timestamp == 0,
    {
        Chunk {
            id,
            content_type: ContentType::Text,
            content: Some(content),
            data: None,
            mime_type: None,
            producer,
            annotations: Vec::new(),
            timestamp: 0,
        }
    }

    /// A content-less chunk that only carries annotations.
    pub fn new_null(id: String, producer: String) -> (c: Chunk)
        ensures
            c@.id == id@,
            c@.content_type == ContentType::Null,
            c@.content is None,
            c@.data is None,
            c@.mime_type is None,
            c@.producer == producer@,
            c@.annotations.len() == 0,
            c@.timestamp == 0,
    {
        Chunk {
            id,
            content_type: ContentType::Null,
            content: None,
            data: None,
            mime_type: None,
            producer,
            annotations: Vec::new(),
            timestamp: 0,
        }
    }

    /// A content-less chunk that amends chunk `target_id`.
    pub fn mutation(id: String, target_id: String, producer: String) -> (c: Chunk)
        ensures
            c@.id == id@,
            c@.content_type == ContentType::Null,
            c@.content is None,
            c@.producer == producer@,
            c@.annotations == seq![(CAFE_MUTATES_TARGET_ID@, JsonView::Str(target_id@))],
            str_ann(c@, CAFE_MUTATES_TARGET_ID@) == Some(target_id@),
    {
        let ghost t = target_id@;
        let mut c = Chunk::new_null(id, producer);
        c.annotations.push((String::from_str(CAFE_MUTATES_TARGET_ID), JsonValue::Str(target_id)));
        assert(anns_view(c.annotations@) =~= seq![(CAFE_MUTATES_TARGET_ID@, JsonView::Str(t))]);
        c
    }

    /// Sets `key` to `value`, replacing an earlier value of `key`.
    pub fn set_annotation(&mut self, key: String, value: JsonValue)
        ensures
            ann_get(final(self)@.annotations, key@) == Some(value@),
            forall|k: Seq<char>|
                k != key@ ==> ann_get(final(self)@.annotations, k) == ann_get(
                    old(self)@.annotations,
                    k,
                ),
            final(self)@.id == old(self)@.id,
            final(self)@.content_type == old(self)@.content_type,
            final(self)@.content == old(self)@.content,
            final(self)@.data == old(self)@.data,
            final(self)@.mime_type == old(self)@.mime_type,
            final(self)@.producer == old(self)@.producer,
            final(self)@.timestamp == old(self)@.timestamp,
    {
        set_entry(&mut self.annotations, key, value);
    }
}

/// The key → value map that an annotation list stands for (the first
/// occurrence of a key counts).
pub open spec fn entries_map(anns: Seq<(Seq<char>, JsonView)>) -> Map<Seq<char>, JsonView> {
    Map::new(|k: Seq<char>| ann_get(anns, k) is Some, |k: Seq<char>| ann_get(anns, k)->0)
}

/// Sets `key` to `value` in an annotation list, replacing an earlier value
/// of `key`.
pub fn set_entry(anns: &mut Vec<(String, JsonValue)>, key: String, value: JsonValue)
    ensures
        ann_get(anns_view(final(anns)@), key@) == Some(value@),
        forall|k: Seq<char>|
            k != key@ ==> ann_get(anns_view(final(anns)@), k) == ann_get(anns_view(old(anns)@), k),
        entries_map(anns_view(final(anns)@)) == entries_map(anns_view(old(anns)@)).insert(key@, value@),
{
    let ghost orig = anns_view(anns@);
    let ghost kv = key@;
    let ghost vv = value@;
    match ann_index(anns, key.as_str()) {
        Some(i) => {
            anns.set(i, (key, value));
            proof {
                assert(anns_view(anns@) =~= orig.update(i as int, (kv, vv)));
                lemma_ann_get_update(orig, i as int, kv, vv);
            }
        },
        None => {
            anns.push((key, value));
            proof {
                assert(anns_view(anns@) =~= orig.push((kv, vv)));
                lemma_ann_get_push(orig, kv, vv);
            }
        },
    }
    assert(entries_map(anns_view(anns@)) =~= entries_map(orig).insert(kv, vv));
}

/// Position of the first occurrence of `key` among `anns`.
fn ann_index(anns: &Vec<(String, JsonValue)>, key: &str) -> (r: Option<usize>)
    ensures
        match r {
            Some(i) => i < anns@.len() && anns_view(anns@)[i as int].0 == key@ && forall|j: int|
                0 <= j < i ==> #[trigger] anns_view(anns@)[j].0 != key@,
            None => forall|j: int| 0 <= j < anns@.len() ==> #[trigger] anns_view(anns@)[j].0 != key@,
        },
{
    let mut i: usize = 0;
    while i < anns.len()
        invariant
            0 <= i <= anns@.len(),
            forall|j: int| 0 <= j < i ==> #[trigger] anns_view(anns@)[j].0 != key@,
        decreases anns.len() - i,
    {
        if str_eq(anns[i].0.as_str(), key) {
            return Some(i);
        }
        i = i + 1;
    }
    None
}

proof fn lemma_ann_get_update(s: Seq<(Seq<char>, JsonView)>, i: int, key: Seq<char>, value: JsonView)
    requires
        0 <= i < s.len(),
        s[i].0 == key,
        forall|j: int| 0 <= j < i ==> #[trigger] s[j].0 != key,
    ensures
        ann_get(s.update(i, (key, value)), key) == Some(value),
        forall|k: Seq<char>| k != key ==> ann_get(s.update(i, (key, value)), k) == ann_get(s, k),
    decreases i,
{
    let t = s.update(i, (key, value));
    if i > 0 {
        assert(t.drop_first() == s.drop_first().update(i - 1, (key, value)));
        assert forall|j: int| 0 <= j < i - 1 implies #[trigger] s.drop_first()[j].0 != key by {
            assert(s.drop_first()[j] == s[j + 1]);
        }
        lemma_ann_get_update(s.drop_first(), i - 1, key, value);
        assert(t[0] == s[0]);
        assert forall|k: Seq<char>| k != key implies ann_get(t, k) == ann_get(s, k) by {
            if s[0].0 != k {
                assert(ann_get(t, k) == ann_get(t.drop_first(), k));
                assert(ann_get(s, k) == ann_get(s.drop_first(), k));
            }
        }
    } else {
        assert(t.drop_first() == s.drop_first());
        assert(t[0] == (key, value));
        assert forall|k: Seq<char>| k != key implies ann_get(t, k) == ann_get(s, k) by {
            assert(ann_get(t, k) == ann_get(t.drop_first(), k));
            assert(ann_get(s, k) == ann_get(s.drop_first(), k));
        }
    }
}

proof fn lemma_ann_get_push(s: Seq<(Seq<char>, JsonView)>, key: Seq<char>, value: JsonView)
    requires
        forall|j: int| 0 <= j < s.len() ==> #[trigger] s[j].0 != key,
    ensures
        ann_get(s.push((key, value)), key) == Some(value),
        forall|k: Seq<char>| k != key ==> ann_get(s.push((key, value)), k) == ann_get(s, k),
    decreases s.len(),
{
    let t = s.push((key, value));
    if s.len() > 0 {
        assert(t.drop_first() == s.drop_first().push((key, value)));
        assert forall|j: int| 0 <= j < s.len() - 1 implies #[trigger] s.drop_first()[j].0 != key by {
            assert(s.drop_first()[j] == s[j + 1]);
        }
        lemma_ann_get_push(s.drop_first(), key, value);
        assert(t[0] == s[0]);
        assert forall|k: Seq<char>| k != key implies ann_get(t, k) == ann_get(s, k) by {
            if s[0].0 != k {
                assert(ann_get(t, k) == ann_get(t.drop_first(), k));
                assert(ann_get(s, k) == ann_get(s.drop_first(), k));
            }
        }
    } else {
        assert(t.drop_first() == Seq::<(Seq<char>, JsonView)>::empty());
        assert(t[0] == (key, value));
        assert forall|k: Seq<char>| k != key implies ann_get(t, k) == ann_get(s, k) by {
            assert(ann_get(t, k) == ann_get(t.drop_first(), k));
        }
    }
}

} // verus!
