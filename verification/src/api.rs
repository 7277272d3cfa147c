//! What the REST and MCP interfaces answer, apart from the JSON around it.

use vstd::prelude::*;

use crate::text::{chars_of, decimal, decimal_string, push_all, string_from_chars};

verus! {

/// The number of results of a search request that names none.
pub fn default_limit() -> (n: usize)
    ensures
        n == 100,
{
    100
}

/// The number of results of a search tool call that names none.
pub fn default_tool_limit() -> (n: usize)
    ensures
        n == 10,
{
    10
}

/// The answer to a reset request: `deleted <count> memories`.
pub fn reset_message(count: u64) -> (r: String)
    ensures
        r@ == "deleted "@ + decimal(count as nat) + " memories"@,
{
    let mut out = chars_of("deleted ");
    let n = decimal_string(count as u128);
    push_all(&mut out, &chars_of(n.as_str()));
    push_all(&mut out, &chars_of(" memories"));
    string_from_chars(&out)
}

/// The answer to a reset tool call: `Deleted <count> memories and all graph data.`
pub fn reset_tool_message(count: u64) -> (r: String)
    ensures
        r@ == "Deleted "@ + decimal(count as nat) + " memories and all graph data."@,
{
    let mut out = chars_of("Deleted ");
    let n = decimal_string(count as u128);
    push_all(&mut out, &chars_of(n.as_str()));
    push_all(&mut out, &chars_of(" memories and all graph data."));
    string_from_chars(&out)
}

} // verus!
