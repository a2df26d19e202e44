//! Decisions of the binary store's HTTP handlers: tokens, finalization and
//! partial-content headers.
use crate::text::{chars_eq, chars_of, decimal, push_decimal, string_from};
use vstd::prelude::*;

verus! {

/// Command-line configuration of the binary store.
#[derive(Debug, Clone)]
pub struct Config {
    /// Bus socket path
    pub bus_socket: String,
    /// HTTP listen port
    pub port: u16,
    /// Data directory for binary files + JWT key + GC DB
    pub data_dir: String,
    /// Write JWT TTL in seconds (default: 7 days)
    pub write_ttl: u64,
    /// GC interval in seconds (default: 1 hour)
    pub gc_interval: u64,
    /// GC TTL for transient assets in seconds (default: 30 days)
    pub gc_ttl: u64,
    /// Max bytes per chunk (default: 1 GB)
    pub max_chunk_bytes: u64,
    /// Public hostname/IP for URLs advertised to clients.
    pub public_host: Option<String>,
}

/// Claims carried by the store's tokens.
#[derive(Debug)]
pub struct Claims {
    pub chunk_id: String,
    pub purpose: String,
    pub iat: u64,
    pub exp: Option<u64>,
}

/// Claims of a write token issued at `now`, valid for `ttl_secs` seconds.
pub fn write_claims(chunk_id: &str, ttl_secs: u64, now: u64) -> (c: Claims)
    requires
        now + ttl_secs <= u64::MAX,
    ensures
        c.chunk_id@ == chunk_id@,
        c.purpose@ == "write"@,
        c.iat == now,
        c.exp == Some((now + ttl_secs) as u64),
{
    Claims {
        chunk_id: chunk_id.to_owned(),
        purpose: "write".to_owned(),
        iat: now,
        exp: Some(now + ttl_secs),
    }
}

/// Claims of a read token issued at `now`; read tokens do not expire.
pub fn read_claims(chunk_id: &str, now: u64) -> (c: Claims)
    ensures
        c.chunk_id@ == chunk_id@,
        c.purpose@ == "read"@,
        c.iat == now,
        c.exp is None,
{
    Claims { chunk_id: chunk_id.to_owned(), purpose: "read".to_owned(), iat: now, exp: None }
}

/// Why a token is refused.
#[derive(Debug, Clone, PartialEq, Eq)]
pub enum TokenError {
    /// The token carries an expiry time that has been reached.
    Expired,
    /// The token was issued for another purpose (`read` / `write`).
    WrongPurpose,
    /// The token was issued for another chunk.
    ChunkMismatch,
    /// The token does not decode under the store's key to claims of the
    /// expected shape.
    Invalid,
}

/// The refusal, if any, of a decoded token presented at `now` for `purpose`
/// on `chunk_id`: expiry is checked first, then the purpose, then the chunk.
pub open spec fn token_check(
    exp: Option<u64>,
    token_purpose: Seq<char>,
    token_chunk: Seq<char>,
    now: nat,
    purpose: Seq<char>,
    chunk_id: Seq<char>,
) -> Option<TokenError> {
    if exp matches Some(e) && now >= e {
        Some(TokenError::Expired)
    } else if token_purpose != purpose {
        Some(TokenError::WrongPurpose)
    } else if token_chunk != chunk_id {
        Some(TokenError::ChunkMismatch)
    } else {
        None
    }
}

/// Checks decoded claims presented at `now` for `purpose` on `chunk_id`.
pub fn check_claims(claims: &Claims, now: u64, purpose: &str, chunk_id: &str) -> (r: Result<
    (),
    TokenError,
>)
    ensures
        match r {
            Ok(()) => token_check(
                claims.exp,
                claims.purpose@,
                claims.chunk_id@,
                now as nat,
                purpose@,
                chunk_id@,
            ) is None,
            Err(e) => token_check(
                claims.exp,
                claims.purpose@,
                claims.chunk_id@,
                now as nat,
                purpose@,
                chunk_id@,
            ) == Some(e),
        },
{
    if let Some(e) = claims.exp {
        if now >= e {
            return Err(TokenError::Expired);
        }
    }
    if !chars_eq(&chars_of(claims.purpose.as_str()), &chars_of(purpose)) {
        return Err(TokenError::WrongPurpose);
    }
    if !chars_eq(&chars_of(claims.chunk_id.as_str()), &chars_of(chunk_id)) {
        return Err(TokenError::ChunkMismatch);
    }
    Ok(())
}

/// Decide whether an upload should be finalized (`.writing` removed) after this
/// part.
///
/// - An empty-body request is a terminator and always finalizes.
/// - An explicit `finalize` flag is honored as-is.
/// - Otherwise (no marker): a single-shot write (offset==0 with data) finalizes,
///   but a multi-part upload's first part (offset==0 with data) must NOT — the
///   client must pass `finalize=false` on every non-final part.
pub fn should_finalize(offset: u64, body_empty: bool, explicit: Option<bool>) -> (r: bool)
    ensures
        r == (body_empty || match explicit {
            Some(v) => v,
            None => offset == 0,
        }),
{
    if body_empty {
        true
    } else {
        match explicit {
            Some(v) => v,
            None => offset == 0,
        }
    }
}

/// The `Content-Range` value of a read of `data_len` bytes at `offset` of a
/// file of `file_size` bytes: `bytes <first>-<last>/<size>`, where `last` is
/// `offset` itself for an empty read; `None` for a read from the start.
pub open spec fn content_range_spec(offset: nat, data_len: nat, file_size: nat) -> Option<
    Seq<char>,
> {
    if offset > 0 {
        let last = offset + (if data_len > 0 {
            (data_len - 1) as nat
        } else {
            0nat
        });
        Some(
            "bytes "@ + decimal(offset) + seq!['-'] + decimal(last) + seq!['/'] + decimal(
                file_size,
            ),
        )
    } else {
        None
    }
}

/// Build the `Content-Range` header for a partial read, or `None` for a full
/// read (offset==0).
pub fn content_range_header(offset: u64, data_len: u64, file_size: u64) -> (r: Option<String>)
    requires
        offset + data_len <= u64::MAX + 1,
    ensures
        match r {
            Some(h) => content_range_spec(offset as nat, data_len as nat, file_size as nat)
                == Some(h@),
            None => content_range_spec(offset as nat, data_len as nat, file_size as nat) is None,
        },
{
    if offset > 0 {
        let data_end = offset + data_len.saturating_sub(1);
        let mut out = chars_of("bytes ");
        push_decimal(&mut out, offset);
        out.push('-');
        push_decimal(&mut out, data_end);
        out.push('/');
        push_decimal(&mut out, file_size);
        Some(string_from(&out))
    } else {
        None
    }
}

/// A token is accepted exactly when it has not expired (no expiry time, or
/// one still ahead), was issued for the purpose asked, and names the chunk
/// asked; an expired token is refused as expired whatever else is wrong.
pub proof fn law_token_accepted_exactly_when_valid(
    exp: Option<u64>,
    token_purpose: Seq<char>,
    token_chunk: Seq<char>,
    now: nat,
    purpose: Seq<char>,
    chunk_id: Seq<char>,
)
    ensures
        token_check(exp, token_purpose, token_chunk, now, purpose, chunk_id) is None <==> (match exp {
            Some(e) => now < e,
            None => true,
        }) && token_purpose == purpose && token_chunk == chunk_id,
        (exp matches Some(e) && now >= e) ==> token_check(exp, token_purpose, token_chunk, now, purpose, chunk_id)
            == Some(TokenError::Expired),
{
}

/// A read from the start of a file gets no `Content-Range`; a read of `n`
/// bytes at a later offset `o` of a file of `f` bytes names its first byte
/// `o`, its last byte `o + n - 1` (`o` itself when nothing is read) and the
/// size `f`.
pub proof fn law_content_range_names_the_bytes_read(o: nat, n: nat, f: nat)
    ensures
        content_range_spec(0, n, f) is None,
        o > 0 && n > 0 ==> content_range_spec(o, n, f) == Some(
            "bytes "@ + decimal(o) + seq!['-'] + decimal((o + n - 1) as nat) + seq!['/'] + decimal(f),
        ),
        o > 0 && n == 0 ==> content_range_spec(o, n, f) == Some(
            "bytes "@ + decimal(o) + seq!['-'] + decimal(o) + seq!['/'] + decimal(f),
        ),
{
}

} // verus!
