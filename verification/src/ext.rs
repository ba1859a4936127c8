//! Trusted boundary: declarations and thin wrappers for the outside
//! functions this library relies on. The verifier believes the contracts
//! stated here; everything else in the crate is proved against them.

use rand::Rng;
use vstd::prelude::*;

verus! {

/// The text of the string `result` field of `body` read as a JSON
/// document; `None` when `body` is not JSON, has no `result` field, or
/// holds a non-string `result`. Parsing depends on the text alone, so
/// the outcome bears a name that contracts can share.
pub uninterp spec fn result_text_of(body: Seq<char>) -> Option<Seq<char>>;

/// The text of the string `number` field inside the `result` object of
/// `body` read as a JSON document; `None` when anything along that path
/// is missing or of another kind.
pub uninterp spec fn result_number_text_of(body: Seq<char>) -> Option<Seq<char>>;

/// Relies on `serde_json::from_str`, `Value::get` and `Value::as_str`:
/// each depends on its arguments alone, so what this extraction hands
/// back is the named `result_text_of`. Only the `result` field is
/// required of the body; no other field is read.
#[verifier::external_body]
pub(crate) fn extract_result_text(body: &str) -> (r: Option<String>)
    ensures
        r matches Some(t) ==> result_text_of(body@) == Some(t@),
        r is None ==> result_text_of(body@) is None,
{
    match serde_json::from_str::<serde_json::Value>(body) {
        Ok(v) => match v.get("result") {
            Some(f) => match f.as_str() {
                Some(s) => Some(s.to_owned()),
                None => None,
            },
            None => None,
        },
        Err(_) => None,
    }
}

/// Relies on `serde_json::from_str`, `Value::get` and `Value::as_str`,
/// as above: what this extraction hands back is the named
/// `result_number_text_of`. Only `result.number` is read.
#[verifier::external_body]
pub(crate) fn extract_result_number_text(body: &str) -> (r: Option<String>)
    ensures
        r matches Some(t) ==> result_number_text_of(body@) == Some(t@),
        r is None ==> result_number_text_of(body@) is None,
{
    match serde_json::from_str::<serde_json::Value>(body) {
        Ok(v) => match v.get("result") {
            Some(f) => match f.get("number") {
                Some(n) => match n.as_str() {
                    Some(s) => Some(s.to_owned()),
                    None => None,
                },
                None => None,
            },
            None => None,
        },
        Err(_) => None,
    }
}

/// Relies on `rand::Rng::gen_range`: a number drawn from the inclusive
/// range it is given, here `1..=100`.
#[verifier::external_body]
pub(crate) fn fresh_rpc_id() -> (id: u32)
    ensures
        1 <= id <= 100,
{
    rand::thread_rng().gen_range(1..=100)
}

/// Relies on `String`'s `FromIterator<char>` impl: collecting characters
/// yields the string of exactly those characters, in order.
#[verifier::external_body]
pub(crate) fn chars_to_string(v: Vec<char>) -> (r: String)
    ensures
        r@ == v@,
{
    v.into_iter().collect()
}

} // verus!
