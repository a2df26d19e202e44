//! The HTTP proxy protocol between the web server and bus services: route
//! registrations, proxied requests and responses, and their bodies.
use crate::codec::{b64, b64_decode_text, b64_encode_bytes};
use vstd::prelude::*;

verus! {

/// The bus session that carries proxy traffic.
pub const PROXY_SESSION: &'static str = "cafe-server.http-proxy";

/// The annotation key of route registrations.
pub const HTTP_ROUTE_REGISTER: &'static str = "cafe.http.route.register";

/// The JSON-RPC method of a proxied HTTP request.
pub const HTTP_REQUEST_HANDLE: &'static str = "http.request.handle";

/// A route a bus service serves over HTTP.
#[derive(Debug, Clone, PartialEq)]
pub struct RouteRegistration {
    pub pattern: String,
    pub methods: Vec<String>,
}

/// Who made a proxied request, as the server established it.
#[derive(Debug, Clone)]
pub struct ProxyAuthInfo {
    pub user_id: String,
    pub token_type: String,
}

/// An HTTP request forwarded to a bus service.
#[derive(Debug, Clone)]
pub struct ProxyRequest {
    pub method: String,
    pub path: String,
    pub headers: Vec<(String, String)>,
    pub query: Vec<(String, String)>,
    /// The body, base64-encoded.
    pub body: String,
    pub auth: ProxyAuthInfo,
}

/// The HTTP response a bus service returns.
#[derive(Debug, Clone)]
pub struct ProxyResponse {
    pub status: u16,
    pub headers: Vec<(String, String)>,
    /// The body, base64-encoded.
    pub body: String,
}

/// A body that is no base64 encoding.
#[derive(Debug, PartialEq, Eq, Structural)]
pub struct InvalidBody;

/// Encodes a body as base64 for transport over the bus.
pub fn encode_body(bytes: &[u8]) -> (r: String)
    requires
        4 * ((bytes@.len() + 2) / 3) <= usize::MAX,
    ensures
        r@ == b64(bytes@),
{
    b64_encode_bytes(bytes)
}

/// Decodes a base64-encoded body: refused unless it is the encoding of
/// some bytes.
pub fn decode_body(encoded: &str) -> (r: Result<Vec<u8>, InvalidBody>)
    ensures
        match r {
            Ok(v) => b64(v@) == encoded@,
            Err(_) => forall|b: Seq<u8>| b64(b) != encoded@,
        },
{
    match b64_decode_text(encoded) {
        Some(v) => Ok(v),
        None => Err(InvalidBody),
    }
}

} // verus!
