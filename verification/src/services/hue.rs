//! Settings of the Hue lighting service.
use crate::services::{or_default, value_or, DEFAULT_BUS_SOCKET};
use vstd::prelude::*;

verus! {

/// Settings of the Hue lighting service.
pub struct Config {
    pub socket_path: String,
    pub bridge_url: String,
    pub api_key: String,
}

impl Config {
    /// From `CAFE_BUS_SOCKET`, `HUE_BRIDGE_URL` and `HUE_API_KEY`; the
    /// bridge and key default to empty.
    pub fn from_vars(socket: Option<String>, bridge_url: Option<String>, api_key: Option<String>) -> (r: Self)
        ensures
            r.socket_path@ == or_default(socket, DEFAULT_BUS_SOCKET@),
            r.bridge_url@ == or_default(bridge_url, Seq::empty()),
            r.api_key@ == or_default(api_key, Seq::empty()),
    {
        proof {
            reveal_strlit("");
        }
        Config {
            socket_path: value_or(socket, DEFAULT_BUS_SOCKET),
            bridge_url: value_or(bridge_url, ""),
            api_key: value_or(api_key, ""),
        }
    }
}

} // verus!
