//! Settings shared by the bus services: values read by the caller from the
//! environment, and the defaults each service falls back on.
use crate::text::{parse_unsigned, parse_unsigned_str};
use vstd::prelude::*;
use vstd::string::StringExecFns;

pub mod comfy;
pub mod hue;
pub mod knowledgebase;

verus! {

/// Where every service finds the bus unless told otherwise.
pub const DEFAULT_BUS_SOCKET: &'static str = "/tmp/cafe-bus.sock";

/// A setting's value, or its default when unset.
pub open spec fn or_default(v: Option<String>, d: Seq<char>) -> Seq<char> {
    match v {
        Some(s) => s@,
        None => d,
    }
}

/// The value given, or the default.
pub fn value_or(v: Option<String>, d: &str) -> (r: String)
    ensures
        r@ == or_default(v, d@),
{
    match v {
        Some(s) => s,
        None => String::from_str(d),
    }
}

/// A count setting: the value when it parses as one, else the default.
pub open spec fn count_or(v: Option<String>, d: usize) -> usize {
    match v {
        Some(s) => match parse_unsigned(s@, usize::MAX as nat) {
            Some(n) => n as usize,
            None => d,
        },
        None => d,
    }
}

/// The count given, or the default when unset or no count.
pub fn count_value_or(v: Option<String>, d: usize) -> (r: usize)
    ensures
        r == count_or(v, d),
{
    match v {
        Some(s) => match parse_unsigned_str(s.as_str(), usize::MAX as u64) {
            Some(n) => n as usize,
            None => d,
        },
        None => d,
    }
}

} // verus!
