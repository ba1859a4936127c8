//! Health-check core for an Ethereum-compatible JSON-RPC node.
//!
//! The library holds everything that can be stated and proved: hexadecimal
//! and decimal codecs, JSON-RPC request envelopes, JSON response bodies, and
//! the decision procedures behind the three monitoring endpoints. The
//! surrounding binary performs the network calls and the fixed waits, and
//! feeds their outcomes to the decision procedures here.

pub mod dec;
pub mod digits;
pub mod ext;
pub mod hex;
pub mod json;
pub mod monitor;
pub mod rpc;

use vstd::prelude::*;

verus! {

/// Default JSON-RPC endpoint used when a request names none.
pub fn default_rpc_endpoint() -> (r: String)
    ensures
        r@ == "http://127.0.0.1:8545"@,
{
    let s = "http://127.0.0.1:8545";
    s.to_owned()
}

} // verus!
