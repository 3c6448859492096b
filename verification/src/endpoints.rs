//! Request paths of the boundary contracts: the per-symbol history fetch,
//! the fire-and-forget order submit, and the per-symbol simulation
//! trigger. The transport prepends its host and performs the call.

use vstd::prelude::*;
use vstd::string::StringExecFns;

verus! {

/// Path of the history/quote fetch for one symbol.
pub fn quote_request_path(symbol: &str) -> (r: String)
    ensures
        r@ == "/stock?stock="@ + symbol@,
{
    let mut s = String::from_str("/stock?stock=");
    s.append(symbol);
    s
}

/// Path of the order submit.
pub fn transaction_path() -> (r: String)
    ensures
        r@ == "/transaction"@,
{
    String::from_str("/transaction")
}

/// Path of the per-symbol simulation trigger.
pub fn simulation_request_path(symbol: &str) -> (r: String)
    ensures
        r@ == "/simulation_start?stock="@ + symbol@,
{
    let mut s = String::from_str("/simulation_start?stock=");
    s.append(symbol);
    s
}

} // verus!
