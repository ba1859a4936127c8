//! The JSON-RPC client side: request envelopes rendered exactly, and
//! upstream response bodies taken apart into heights and balances.
//!
//! The envelope and the hexadecimal payloads are this library's own
//! logic. Picking a field out of an arbitrary JSON document goes through
//! serde_json behind trusted wrappers; since parsing depends on the body
//! text alone, the extracted field text bears a name (`result_text_of`,
//! `result_number_text_of`), and each parse function states exactly,
//! over that name, when it succeeds and with which value, and which
//! failure comes back otherwise. A body succeeds exactly when the named
//! field is a well-formed hexadecimal literal in range: only `result`
//! (for tagged blocks, `result.number`) is read, and no other field is
//! required -- the resolver expects a hex-string result field and
//! decodes it.

use crate::dec::dec_encoding;
use crate::dec::render_dec_u128;
use crate::ext;
use crate::hex::{decode_hex_i64, decode_hex_u128, hex_string_value, is_hex_string};
use crate::json::{json_quote, json_string};
use vstd::prelude::*;
use vstd::string::StringExecFns;

verus! {

/// A JSON-RPC 2.0 request body: fixed protocol version, a method name,
/// a pre-rendered parameter list and a numeric request id.
pub open spec fn rpc_envelope(method: Seq<char>, params: Seq<char>, id: int) -> Seq<char> {
    "{\"jsonrpc\":\"2.0\",\"method\":"@ + json_string(method) + ",\"params\":["@ + params
        + "],\"id\":"@ + dec_encoding(id) + "}"@
}

/// Renders the envelope for a method, already-rendered parameters and an
/// id.
pub fn rpc_request_body(method: &str, params: &str, id: u32) -> (r: String)
    ensures
        r@ == rpc_envelope(method@, params@, id as int),
{
    let mut out = String::new();
    out.append("{\"jsonrpc\":\"2.0\",\"method\":");
    let m = json_quote(method);
    out.append(m.as_str());
    out.append(",\"params\":[");
    out.append(params);
    out.append("],\"id\":");
    let d = render_dec_u128(id as u128);
    out.append(d.as_str());
    out.append("}");
    proof {
        assert(out@ =~= rpc_envelope(method@, params@, id as int));
    }
    out
}

/// The request for the current chain head height: method
/// `eth_blockNumber`, no parameters.
pub fn block_number_request(id: u32) -> (r: String)
    ensures
        r@ == rpc_envelope("eth_blockNumber"@, Seq::<char>::empty(), id as int),
{
    let r = rpc_request_body("eth_blockNumber", "", id);
    proof {
        reveal_strlit("");
        assert(("")@ =~= Seq::<char>::empty());
    }
    r
}

/// The request for a tagged block: method `eth_getBlockByNumber` with the
/// tag and the non-verbose flag.
pub fn block_by_tag_request(tag: &str, id: u32) -> (r: String)
    ensures
        r@ == rpc_envelope("eth_getBlockByNumber"@, json_string(tag@) + ",false"@, id as int),
{
    let mut params = json_quote(tag);
    params.append(",false");
    rpc_request_body("eth_getBlockByNumber", params.as_str(), id)
}

/// The request for an account balance: method `eth_getBalance` with the
/// address and the `latest` tag.
pub fn balance_request(address: &str, id: u32) -> (r: String)
    ensures
        r@ == rpc_envelope("eth_getBalance"@, json_string(address@) + ",\"latest\""@, id as int),
{
    let mut params = json_quote(address);
    params.append(",\"latest\"");
    rpc_request_body("eth_getBalance", params.as_str(), id)
}

/// As `block_number_request`, with a freshly drawn id.
pub fn fresh_block_number_request() -> (r: String)
    ensures
        exists|id: int|
            1 <= id <= 100 && r@ == rpc_envelope("eth_blockNumber"@, Seq::<char>::empty(), id),
{
    let id = ext::fresh_rpc_id();
    let r = block_number_request(id);
    proof {
        assert(1 <= id as int <= 100 && r@ == rpc_envelope(
            "eth_blockNumber"@,
            Seq::<char>::empty(),
            id as int,
        ));
    }
    r
}

/// As `block_by_tag_request`, with a freshly drawn id.
pub fn fresh_block_by_tag_request(tag: &str) -> (r: String)
    ensures
        exists|id: int|
            1 <= id <= 100 && r@ == rpc_envelope(
                "eth_getBlockByNumber"@,
                json_string(tag@) + ",false"@,
                id,
            ),
{
    let id = ext::fresh_rpc_id();
    let r = block_by_tag_request(tag, id);
    proof {
        assert(1 <= id as int <= 100 && r@ == rpc_envelope(
            "eth_getBlockByNumber"@,
            json_string(tag@) + ",false"@,
            id as int,
        ));
    }
    r
}

/// As `balance_request`, with a freshly drawn id.
pub fn fresh_balance_request(address: &str) -> (r: String)
    ensures
        exists|id: int|
            1 <= id <= 100 && r@ == rpc_envelope(
                "eth_getBalance"@,
                json_string(address@) + ",\"latest\""@,
                id,
            ),
{
    let id = ext::fresh_rpc_id();
    let r = balance_request(address, id);
    proof {
        assert(1 <= id as int <= 100 && r@ == rpc_envelope(
            "eth_getBalance"@,
            json_string(address@) + ",\"latest\""@,
            id as int,
        ));
    }
    r
}

/// Why no value could be obtained from the upstream node. The three
/// kinds collapse into one `error` status at the evaluator boundary.
#[derive(Clone, Copy, Debug, PartialEq, Eq, Structural)]
pub enum Failure {
    /// The endpoint could not be reached or the transfer broke off.
    Transport,
    /// The body is not JSON or lacks the expected fields.
    Protocol,
    /// The payload is not a well-formed `0x` hexadecimal literal, or its
    /// value does not fit the target type.
    Decode,
}

/// Reads a height from an `eth_blockNumber` response body: succeeds
/// exactly when the body's `result` field is a string holding a
/// well-formed hexadecimal literal whose value fits, and then returns
/// that value; `Protocol` exactly when the field is absent or no
/// string, `Decode` exactly when its text is malformed or too large.
pub fn parse_height_response(body: &str) -> (r: Result<i64, Failure>)
    ensures
        r is Ok <==> (ext::result_text_of(body@) matches Some(t) && is_hex_string(t)
            && hex_string_value(t) <= i64::MAX),
        r matches Ok(h) ==> (ext::result_text_of(body@) matches Some(t) && h
            == hex_string_value(t)),
        r == Err::<i64, Failure>(Failure::Protocol) <==> ext::result_text_of(body@) is None,
        r == Err::<i64, Failure>(Failure::Decode) <==> (ext::result_text_of(body@)
            matches Some(t) && !(is_hex_string(t) && hex_string_value(t) <= i64::MAX)),
{
    let text = match ext::extract_result_text(body) {
        Some(t) => t,
        None => {
            return Err(Failure::Protocol);
        },
    };
    match decode_hex_i64(text.as_str()) {
        Ok(h) => Ok(h),
        Err(_) => Err(Failure::Decode),
    }
}

/// Reads a height from an `eth_getBlockByNumber` response body: as
/// `parse_height_response`, over the `number` field of the `result`
/// object. An absent or non-string `number` is `Protocol`, never a
/// crash.
pub fn parse_tag_response(body: &str) -> (r: Result<i64, Failure>)
    ensures
        r is Ok <==> (ext::result_number_text_of(body@) matches Some(t) && is_hex_string(t)
            && hex_string_value(t) <= i64::MAX),
        r matches Ok(h) ==> (ext::result_number_text_of(body@) matches Some(t) && h
            == hex_string_value(t)),
        r == Err::<i64, Failure>(Failure::Protocol) <==> ext::result_number_text_of(body@)
            is None,
        r == Err::<i64, Failure>(Failure::Decode) <==> (ext::result_number_text_of(body@)
            matches Some(t) && !(is_hex_string(t) && hex_string_value(t) <= i64::MAX)),
{
    let text = match ext::extract_result_number_text(body) {
        Some(t) => t,
        None => {
            return Err(Failure::Protocol);
        },
    };
    match decode_hex_i64(text.as_str()) {
        Ok(h) => Ok(h),
        Err(_) => Err(Failure::Decode),
    }
}

/// Reads a balance from an `eth_getBalance` response body: as
/// `parse_height_response`, decoded unsigned into the full 128-bit
/// range.
pub fn parse_balance_response(body: &str) -> (r: Result<u128, Failure>)
    ensures
        r is Ok <==> (ext::result_text_of(body@) matches Some(t) && is_hex_string(t)
            && hex_string_value(t) <= u128::MAX),
        r matches Ok(b) ==> (ext::result_text_of(body@) matches Some(t) && b
            == hex_string_value(t)),
        r == Err::<u128, Failure>(Failure::Protocol) <==> ext::result_text_of(body@) is None,
        r == Err::<u128, Failure>(Failure::Decode) <==> (ext::result_text_of(body@)
            matches Some(t) && !(is_hex_string(t) && hex_string_value(t) <= u128::MAX)),
{
    let text = match ext::extract_result_text(body) {
        Some(t) => t,
        None => {
            return Err(Failure::Protocol);
        },
    };
    match decode_hex_u128(text.as_str()) {
        Ok(b) => Ok(b),
        Err(_) => Err(Failure::Decode),
    }
}

} // verus!
