//! Byte encodings: standard base64 (with padding) for bodies carried over
//! the bus, and SHA-256 digests in lowercase hex for content hashes.
use crate::text::string_from;
use base64::Engine;
use sha2::Digest;
use vstd::prelude::*;

verus! {

/// The standard base64 alphabet.
pub open spec fn b64_char(i: nat) -> char {
    if i < 26 {
        (('A' as nat) + i) as char
    } else if i < 52 {
        (('a' as nat) + (i - 26)) as char
    } else if i < 62 {
        (('0' as nat) + (i - 52)) as char
    } else if i == 62 {
        '+'
    } else {
        '/'
    }
}

/// Standard base64 with `=` padding (RFC 4648, section 4): each group of
/// three bytes becomes four characters; a final group of one or two bytes
/// is padded.
pub open spec fn b64(b: Seq<u8>) -> Seq<char>
    decreases b.len(),
{
    if b.len() == 0 {
        Seq::empty()
    } else if b.len() == 1 {
        seq![b64_char(b[0] as nat / 4), b64_char((b[0] as nat % 4) * 16), '=', '=']
    } else if b.len() == 2 {
        seq![
            b64_char(b[0] as nat / 4),
            b64_char((b[0] as nat % 4) * 16 + b[1] as nat / 16),
            b64_char((b[1] as nat % 16) * 4),
            '=',
        ]
    } else {
        seq![
            b64_char(b[0] as nat / 4),
            b64_char((b[0] as nat % 4) * 16 + b[1] as nat / 16),
            b64_char((b[1] as nat % 16) * 4 + b[2] as nat / 64),
            b64_char(b[2] as nat % 64),
        ] + b64(b.skip(3))
    }
}

/// The error `base64` reports for text that is no canonical encoding.
#[verifier::external_type_specification]
#[verifier::external_body]
pub struct ExDecodeError(base64::DecodeError);

/// `base64::engine::general_purpose::STANDARD.encode`: standard alphabet,
/// padded. It panics only when the encoded length overflows `usize`.
#[verifier::external_body]
fn b64_encode(bytes: &[u8]) -> (r: String)
    requires
        4 * ((bytes@.len() + 2) / 3) <= usize::MAX,
    ensures
        r@ == b64(bytes@),
{
    base64::engine::general_purpose::STANDARD.encode(bytes)
}

/// `base64::engine::general_purpose::STANDARD.decode`: with canonical
/// padding required and trailing bits refused, it accepts exactly the
/// encodings of byte strings and gives back those bytes.
#[verifier::external_body]
fn b64_decode(s: &str) -> (r: Result<Vec<u8>, base64::DecodeError>)
    ensures
        match r {
            Ok(v) => b64(v@) == s@,
            Err(_) => forall|b: Seq<u8>| b64(b) != s@,
        },
{
    base64::engine::general_purpose::STANDARD.decode(s)
}

/// Encodes `bytes` as standard base64.
pub fn b64_encode_bytes(bytes: &[u8]) -> (r: String)
    requires
        4 * ((bytes@.len() + 2) / 3) <= usize::MAX,
    ensures
        r@ == b64(bytes@),
{
    b64_encode(bytes)
}

/// Decodes standard base64; `None` unless `s` encodes some bytes.
pub fn b64_decode_text(s: &str) -> (r: Option<Vec<u8>>)
    ensures
        match r {
            Some(v) => b64(v@) == s@,
            None => forall|b: Seq<u8>| b64(b) != s@,
        },
{
    match b64_decode(s) {
        Ok(v) => Some(v),
        Err(_) => None,
    }
}

proof fn lemma_b64_char_injective(i: nat, j: nat)
    requires
        i < 64,
        j < 64,
        b64_char(i) == b64_char(j),
    ensures
        i == j,
{
}

proof fn lemma_b64_char_not_pad(i: nat)
    requires
        i < 64,
    ensures
        b64_char(i) != '=',
{
}

/// The first four characters of a non-empty encoding.
proof fn lemma_b64_head(a: Seq<u8>)
    requires
        a.len() > 0,
    ensures
        b64(a).len() >= 4,
        b64(a)[0] == b64_char(a[0] as nat / 4),
        b64(a)[1] == b64_char((a[0] as nat % 4) * 16 + if a.len() >= 2 { a[1] as nat / 16 } else { 0 }),
        b64(a)[2] == if a.len() == 1 {
            '='
        } else {
            b64_char((a[1] as nat % 16) * 4 + if a.len() >= 3 { a[2] as nat / 64 } else { 0 })
        },
        b64(a)[3] == if a.len() <= 2 { '=' } else { b64_char(a[2] as nat % 64) },
        a.len() >= 3 ==> b64(a).skip(4) == b64(a.skip(3)),
{
    if a.len() >= 3 {
        assert(b64(a).skip(4) =~= b64(a.skip(3)));
    }
}

/// Distinct byte strings have distinct encodings.
pub proof fn lemma_b64_injective(a: Seq<u8>, b: Seq<u8>)
    requires
        b64(a) == b64(b),
    ensures
        a == b,
    decreases a.len(),
{
    lemma_b64_len(a);
    lemma_b64_len(b);
    if a.len() == 0 || b.len() == 0 {
        assert(a.len() == 0 && b.len() == 0);
        assert(a =~= b);
    } else {
        lemma_b64_head(a);
        lemma_b64_head(b);
        let ea = b64(a);
        lemma_b64_char_injective(a[0] as nat / 4, b[0] as nat / 4);
        // A pad stands third only after a single final byte, fourth only
        // after one or two.
        if a.len() == 1 {
            if b.len() != 1 {
                lemma_b64_char_not_pad((b[1] as nat % 16) * 4 + if b.len() >= 3 { b[2] as nat / 64 } else { 0 });
            }
        } else if b.len() == 1 {
            lemma_b64_char_not_pad((a[1] as nat % 16) * 4 + if a.len() >= 3 { a[2] as nat / 64 } else { 0 });
        }
        if a.len() == 2 && b.len() >= 3 {
            lemma_b64_char_not_pad(b[2] as nat % 64);
        }
        if b.len() == 2 && a.len() >= 3 {
            lemma_b64_char_not_pad(a[2] as nat % 64);
        }
        if a.len() == 1 {
            assert(b.len() == 1);
            lemma_b64_char_injective((a[0] as nat % 4) * 16, (b[0] as nat % 4) * 16);
            assert(a =~= b);
        } else if a.len() == 2 {
            assert(b.len() == 2);
            lemma_b64_char_injective((a[0] as nat % 4) * 16 + a[1] as nat / 16, (b[0] as nat % 4) * 16 + b[1] as nat / 16);
            lemma_b64_char_injective((a[1] as nat % 16) * 4, (b[1] as nat % 16) * 4);
            assert(a =~= b);
        } else {
            assert(b.len() >= 3);
            lemma_b64_char_injective((a[0] as nat % 4) * 16 + a[1] as nat / 16, (b[0] as nat % 4) * 16 + b[1] as nat / 16);
            lemma_b64_char_injective((a[1] as nat % 16) * 4 + a[2] as nat / 64, (b[1] as nat % 16) * 4 + b[2] as nat / 64);
            lemma_b64_char_injective(a[2] as nat % 64, b[2] as nat % 64);
            lemma_b64_injective(a.skip(3), b.skip(3));
            assert(a =~= seq![a[0], a[1], a[2]] + a.skip(3));
            assert(b =~= seq![b[0], b[1], b[2]] + b.skip(3));
        }
    }
}

/// The length of an encoding: four characters per started group of three.
pub proof fn lemma_b64_len(b: Seq<u8>)
    ensures
        b64(b).len() == 4 * ((b.len() + 2) / 3),
    decreases b.len(),
{
    if b.len() >= 3 {
        lemma_b64_len(b.skip(3));
    }
}

/// Decoding an encoded body gives the bytes back.
pub proof fn law_body_roundtrip(bytes: Seq<u8>, decoded: Seq<u8>)
    requires
        b64(decoded) == b64(bytes),
    ensures
        decoded == bytes,
{
    lemma_b64_injective(decoded, bytes);
}

/// `sha2::Sha256::digest`: the SHA-256 digest of `bytes`, as named here.
pub uninterp spec fn sha256_of(bytes: Seq<u8>) -> Seq<u8>;

/// `sha2::Sha256::digest`, whose output is always 32 bytes.
#[verifier::external_body]
fn sha256(bytes: &[u8]) -> (r: Vec<u8>)
    ensures
        r@ == sha256_of(bytes@),
        r@.len() == 32,
{
    sha2::Sha256::digest(bytes).to_vec()
}

/// A lowercase hexadecimal digit.
pub open spec fn hex_digit(d: nat) -> char {
    if d < 10 {
        (('0' as nat) + d) as char
    } else {
        (('a' as nat) + (d - 10)) as char
    }
}

/// Bytes in lowercase hex, two digits each (`{:x}` of a digest).
pub open spec fn hex_lower(b: Seq<u8>) -> Seq<char>
    decreases b.len(),
{
    if b.len() == 0 {
        Seq::empty()
    } else {
        hex_lower(b.drop_last()) + seq![hex_digit(b.last() as nat / 16), hex_digit(b.last() as nat % 16)]
    }
}

fn hex_digit_of(d: u8) -> (c: char)
    requires
        d < 16,
    ensures
        c == hex_digit(d as nat),
{
    if d < 10 {
        (48 + d) as char
    } else {
        (87 + d) as char
    }
}

/// `bytes` in lowercase hex.
pub fn to_hex(bytes: &[u8]) -> (r: String)
    ensures
        r@ == hex_lower(bytes@),
        r@.len() == 2 * bytes@.len(),
{
    let mut v: Vec<char> = Vec::new();
    let mut i: usize = 0;
    assert(bytes@.take(0) =~= Seq::<u8>::empty());
    while i < bytes.len()
        invariant
            i <= bytes@.len(),
            v@ == hex_lower(bytes@.take(i as int)),
            v@.len() == 2 * i,
        decreases bytes.len() - i,
    {
        assert(bytes@.take(i + 1).drop_last() =~= bytes@.take(i as int));
        let b = bytes[i];
        v.push(hex_digit_of(b / 16));
        v.push(hex_digit_of(b % 16));
        i = i + 1;
    }
    assert(bytes@.take(bytes@.len() as int) =~= bytes@);
    string_from(&v)
}

/// The SHA-256 digest of `bytes` in lowercase hex: 64 characters.
pub fn hash_bytes(bytes: &[u8]) -> (r: String)
    ensures
        r@ == hex_lower(sha256_of(bytes@)),
        r@.len() == 64,
{
    let d = sha256(bytes);
    to_hex(d.as_slice())
}

} // verus!
