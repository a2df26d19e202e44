//! The store's tokens: HS256 JWTs made and checked with `jsonwebtoken`,
//! carrying the claims of `http`.
use crate::binary_store::http::{read_claims, write_claims, Claims, TokenError};
use crate::chunk::opt_str;
use crate::json_text::{json_quote, json_string_text};
use crate::text::{chars_of, decimal, parse_unsigned, parse_unsigned_str, push_decimal, str_eq, string_from};
use jsonwebtoken::{decode, encode, DecodingKey, EncodingKey, Header, Validation};
use vstd::prelude::*;
use vstd::string::StringExecFns;

verus! {

/// A decoded claim: its name, its text when it is a JSON string, and its
/// value as compact JSON text.
pub open spec fn member_view(e: (String, Option<String>, String)) -> (Seq<char>, Option<Seq<char>>, Seq<char>) {
    (e.0@, opt_str(e.1), e.2@)
}

/// The claims of the token `token` when `jsonwebtoken::decode` accepts it
/// under `key` (HS256 signature, expiry left to the caller, no claim
/// required), as `member_view` gives each; `None` when it refuses it.
pub uninterp spec fn jwt_members_of(token: Seq<char>, key: Seq<u8>) -> Option<
    Seq<(Seq<char>, Option<Seq<char>>, Seq<char>)>,
>;

/// The token that `jsonwebtoken::encode` makes, with the default (HS256)
/// header and `key`, of the claims whose JSON text is `payload`; `None` when
/// it refuses them.
pub uninterp spec fn jwt_token_of(payload: Seq<char>, key: Seq<u8>) -> Option<Seq<char>>;

/// Decodes `token` with `jsonwebtoken::decode` under `key`, with expiry not
/// checked, no leeway and no claim required, into its claims as a JSON
/// object. The contract claims only that the result is the one named by
/// `jwt_members_of` for these arguments. A payload that names a claim twice
/// decodes here to its last value, where decoding into a struct of the
/// claims refuses it; only a holder of the key can sign such a payload.
#[verifier::external_body]
fn jwt_decode(token: &str, key: &[u8]) -> (r: Option<Vec<(String, Option<String>, String)>>)
    ensures
        match r {
            Some(m) => jwt_members_of(token@, key@) == Some(m@.map_values(|e: (String, Option<String>, String)| member_view(e))),
            None => jwt_members_of(token@, key@) is None,
        },
{
    let mut v = Validation::default();
    v.validate_exp = false;
    v.leeway = 0;
    v.required_spec_claims.clear();
    let d = decode::<serde_json::Map<String, serde_json::Value>>(token, &DecodingKey::from_secret(key), &v).ok()?;
    Some(d.claims.into_iter().map(|(k, x)| (k, x.as_str().map(str::to_owned), x.to_string())).collect())
}

/// Signs the claims whose JSON text is `payload` with `jsonwebtoken::encode`
/// (default header, HS256 with `key`). The contract claims only that the
/// result is the token named by `jwt_token_of` for these arguments.
#[verifier::external_body]
fn jwt_encode(payload: &str, key: &[u8]) -> (r: Option<String>)
    ensures
        match r {
            Some(t) => jwt_token_of(payload@, key@) == Some(t@),
            None => jwt_token_of(payload@, key@) is None,
        },
{
    let claims: serde_json::Value = serde_json::from_str(payload).ok()?;
    encode(&Header::default(), &claims, &EncodingKey::from_secret(key)).ok()
}

/// The first claim named `name`: its string text, if a string, and its JSON
/// text.
pub open spec fn claim_lookup(m: Seq<(Seq<char>, Option<Seq<char>>, Seq<char>)>, name: Seq<char>) -> Option<
    (Option<Seq<char>>, Seq<char>),
>
    decreases m.len(),
{
    if m.len() == 0 {
        None
    } else if m[0].0 == name {
        Some((m[0].1, m[0].2))
    } else {
        claim_lookup(m.drop_first(), name)
    }
}

/// A string claim: present and a JSON string.
pub open spec fn string_claim(m: Seq<(Seq<char>, Option<Seq<char>>, Seq<char>)>, name: Seq<char>) -> Option<Seq<char>> {
    match claim_lookup(m, name) {
        Some((Some(s), _)) => Some(s),
        _ => None,
    }
}

/// The claims a token carries, as `(chunk_id, purpose, iat, exp)`: the two
/// strings, `iat` an unsigned 64-bit integer, `exp` absent, `null` or one;
/// `None` when they are not of that shape.
pub open spec fn claims_of(m: Seq<(Seq<char>, Option<Seq<char>>, Seq<char>)>) -> Option<
    (Seq<char>, Seq<char>, nat, Option<nat>),
> {
    match (string_claim(m, "chunk_id"@), string_claim(m, "purpose"@), claim_lookup(m, "iat"@)) {
        (Some(c), Some(p), Some((_, iat))) => match parse_unsigned(iat, u64::MAX as nat) {
            Some(i) => match claim_lookup(m, "exp"@) {
                None => Some((c, p, i, None)),
                Some((_, e)) => if e == "null"@ {
                    Some((c, p, i, None))
                } else {
                    match parse_unsigned(e, u64::MAX as nat) {
                        Some(x) => Some((c, p, i, Some(x))),
                        None => None,
                    }
                },
            },
            None => None,
        },
        _ => None,
    }
}

/// The claims of `token` under `key`, when it decodes to claims of the
/// expected shape.
pub open spec fn token_claims(token: Seq<char>, key: Seq<u8>) -> Option<(Seq<char>, Seq<char>, nat, Option<nat>)> {
    match jwt_members_of(token, key) {
        Some(m) => claims_of(m),
        None => None,
    }
}

fn lookup(m: &Vec<(String, Option<String>, String)>, name: &str) -> (r: Option<(Option<String>, String)>)
    ensures
        match r {
            Some((s, t)) => claim_lookup(m@.map_values(|e: (String, Option<String>, String)| member_view(e)), name@)
                == Some((opt_str(s), t@)),
            None => claim_lookup(m@.map_values(|e: (String, Option<String>, String)| member_view(e)), name@) is None,
        },
{
    let ghost mv = m@.map_values(|e: (String, Option<String>, String)| member_view(e));
    let mut i: usize = 0;
    assert(mv.skip(0) == mv);
    while i < m.len()
        invariant
            i <= m@.len(),
            mv == m@.map_values(|e: (String, Option<String>, String)| member_view(e)),
            claim_lookup(mv, name@) == claim_lookup(mv.skip(i as int), name@),
        decreases m.len() - i,
    {
        assert(mv.skip(i as int)[0] == mv[i as int]);
        if str_eq(m[i].0.as_str(), name) {
            return Some((m[i].1.clone(), m[i].2.clone()));
        }
        assert(mv.skip(i as int).drop_first() == mv.skip(i + 1));
        i = i + 1;
    }
    None
}

/// Reads the claims out of a decoded token's members.
pub fn claims_from_members(m: &Vec<(String, Option<String>, String)>) -> (r: Option<Claims>)
    ensures
        match claims_of(m@.map_values(|e: (String, Option<String>, String)| member_view(e))) {
            None => r is None,
            Some((c, p, i, e)) => r matches Some(cl) && cl.chunk_id@ == c && cl.purpose@ == p
                && cl.iat as nat == i && (match e {
                Some(x) => cl.exp matches Some(y) && y as nat == x,
                None => cl.exp is None,
            }),
        },
{
    let chunk_id = match lookup(m, "chunk_id") {
        Some((Some(s), _)) => s,
        _ => return None,
    };
    let purpose = match lookup(m, "purpose") {
        Some((Some(s), _)) => s,
        _ => return None,
    };
    let iat = match lookup(m, "iat") {
        Some((_, t)) => match parse_unsigned_str(t.as_str(), u64::MAX) {
            Some(n) => n,
            None => return None,
        },
        None => return None,
    };
    let exp = match lookup(m, "exp") {
        None => None,
        Some((_, t)) => {
            proof {
                reveal_strlit("null");
            }
            if str_eq(t.as_str(), "null") {
                None
            } else {
                match parse_unsigned_str(t.as_str(), u64::MAX) {
                    Some(n) => Some(n),
                    None => return None,
                }
            }
        },
    };
    Some(Claims { chunk_id, purpose, iat, exp })
}

/// Decodes `token` under `key` and refuses it once expired at `now`:
/// `Invalid` when it does not decode to claims, `Expired` when it carries an
/// expiry time that `now` has reached, otherwise its claims.
pub fn verify(token: &str, key: &[u8], now: u64) -> (r: Result<Claims, TokenError>)
    ensures
        match token_claims(token@, key@) {
            None => r == Err::<Claims, TokenError>(TokenError::Invalid),
            Some((c, p, i, e)) => if e matches Some(x) && now >= x {
                r == Err::<Claims, TokenError>(TokenError::Expired)
            } else {
                r matches Ok(cl) && cl.chunk_id@ == c && cl.purpose@ == p && cl.iat as nat == i && cl.exp
                    == (match e {
                    Some(x) => Some(x as u64),
                    None => None::<u64>,
                })
            },
        },
{
    let members = match jwt_decode(token, key) {
        Some(m) => m,
        None => return Err(TokenError::Invalid),
    };
    let claims = match claims_from_members(&members) {
        Some(c) => c,
        None => return Err(TokenError::Invalid),
    };
    if let Some(e) = claims.exp {
        if now >= e {
            return Err(TokenError::Expired);
        }
    }
    Ok(claims)
}

/// The JSON text of claims, members in declaration order, `exp` left out
/// when absent.
pub open spec fn claims_json(chunk_id: Seq<char>, purpose: Seq<char>, iat: nat, exp: Option<nat>) -> Seq<char> {
    "{\"chunk_id\":"@ + json_string_text(chunk_id) + ",\"purpose\":"@ + json_string_text(purpose)
        + ",\"iat\":"@ + decimal(iat) + match exp {
        Some(e) => ",\"exp\":"@ + decimal(e),
        None => Seq::empty(),
    } + "}"@
}

fn push_str(out: &mut Vec<char>, s: &str)
    ensures
        final(out)@ == old(out)@ + s@,
{
    let v = chars_of(s);
    let mut i: usize = 0;
    let ghost start = out@;
    while i < v.len()
        invariant
            i <= v@.len(),
            v@ == s@,
            out@ == start + v@.take(i as int),
        decreases v.len() - i,
    {
        assert(v@.take(i + 1) == v@.take(i as int).push(v@[i as int]));
        out.push(v[i]);
        i = i + 1;
    }
    assert(v@.take(v@.len() as int) == v@);
}

/// The JSON text of `claims`.
fn encode_claims(claims: &Claims) -> (r: String)
    ensures
        r@ == claims_json(
            claims.chunk_id@,
            claims.purpose@,
            claims.iat as nat,
            match claims.exp {
                Some(e) => Some(e as nat),
                None => None,
            },
        ),
{
    proof {
        reveal_strlit("{\"chunk_id\":");
        reveal_strlit(",\"purpose\":");
        reveal_strlit(",\"iat\":");
        reveal_strlit(",\"exp\":");
        reveal_strlit("}");
    }
    let mut out: Vec<char> = Vec::new();
    push_str(&mut out, "{\"chunk_id\":");
    push_str(&mut out, json_quote(claims.chunk_id.as_str()).as_str());
    push_str(&mut out, ",\"purpose\":");
    push_str(&mut out, json_quote(claims.purpose.as_str()).as_str());
    push_str(&mut out, ",\"iat\":");
    push_decimal(&mut out, claims.iat);
    let ghost head = out@;
    match claims.exp {
        Some(e) => {
            push_str(&mut out, ",\"exp\":");
            push_decimal(&mut out, e);
        },
        None => {
            assert(out@ == head + Seq::<char>::empty());
        },
    }
    push_str(&mut out, "}");
    string_from(&out)
}

/// A write token for `chunk_id` issued at `now`, valid for `ttl_secs`
/// seconds; `None` when the signer refuses the claims.
pub fn sign_write(chunk_id: &str, ttl_secs: u64, now: u64, key: &[u8]) -> (r: Option<String>)
    requires
        now + ttl_secs <= u64::MAX,
    ensures
        opt_str(r) == jwt_token_of(
            claims_json(chunk_id@, "write"@, now as nat, Some((now + ttl_secs) as nat)),
            key@,
        ),
{
    let claims = write_claims(chunk_id, ttl_secs, now);
    jwt_encode(encode_claims(&claims).as_str(), key)
}

/// A read token for `chunk_id` issued at `now`; it does not expire. `None`
/// when the signer refuses the claims.
pub fn sign_read(chunk_id: &str, now: u64, key: &[u8]) -> (r: Option<String>)
    ensures
        opt_str(r) == jwt_token_of(claims_json(chunk_id@, "read"@, now as nat, None), key@),
{
    let claims = read_claims(chunk_id, now);
    jwt_encode(encode_claims(&claims).as_str(), key)
}

} // verus!
