//! JSON-RPC 2.0: the values of the wire protocol that carry no payload.

use vstd::prelude::*;

verus! {

/// The value of the `jsonrpc` member, always `"2.0"`.
#[derive(Debug, Clone, Copy, PartialEq, Eq)]
pub enum Version {
    V2,
}

impl Version {
    /// The text the member carries.
    pub fn as_str(self) -> (res: &'static str)
        ensures
            res@ == "2.0"@,
    {
        match self {
            Version::V2 => "2.0",
        }
    }
}

/// A request identifier: a number or a string. A missing id, `null`, is
/// `None` where an id is optional.
#[derive(Debug, Clone, PartialEq, Eq)]
pub enum RequestId {
    Number(i64),
    String(String),
}

/// Invalid JSON was received.
pub const PARSE_ERROR: i32 = -32700;
/// The JSON sent is not a valid request object.
pub const INVALID_REQUEST: i32 = -32600;
/// The method does not exist or is not available.
pub const METHOD_NOT_FOUND: i32 = -32601;
/// Invalid method parameters.
pub const INVALID_PARAMS: i32 = -32602;
/// Internal JSON-RPC error.
pub const INTERNAL_ERROR: i32 = -32603;

} // verus!
