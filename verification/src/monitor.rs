//! The evaluators behind the three endpoints: each is a pure decision
//! function from upstream outcomes to a response entity, its JSON body and
//! an HTTP status code. The surrounding binary performs the network reads
//! and the fixed wait, and feeds the outcomes in.
//!
//! Status policies, stated once and kept consistent with the bodies:
//! the gap check is healthy (200) when `latest - finalized` is strictly
//! below the threshold, else 503; the balance check answers 500 for
//! `balance_sufficient` and for `error`, and 200 for `balance_low`,
//! preserving the long-standing polarity of this service.

use crate::dec::{
    dec_encoding, dec_negative, dec_string_value, is_dec_string, parse_dec_i64, parse_dec_u128,
    render_dec_i64, render_dec_u128,
};
use crate::hex::{encode_hex_i64, encode_hex_u128, hex_encoding};
use crate::json::{json_quote, json_string};
use crate::rpc::Failure;
use vstd::prelude::*;
use vstd::string::StringExecFns;

verus! {

/// An HTTP answer: a status code and a JSON body.
pub struct HttpReply {
    pub status_code: u16,
    pub body: String,
}

/// Response entity of the sync check.
pub struct SyncStatus {
    pub block_number_hex: String,
    pub block_number_decimal: i64,
    pub status: String,
}

/// Response entity of the finalized/latest gap check.
pub struct DiffStatus {
    pub finalized_block: i64,
    pub latest_block: i64,
    pub difference: i64,
    pub finalized_hex: String,
    pub latest_hex: String,
}

/// Response entity of the balance check.
pub struct BalanceStatus {
    pub address: String,
    pub balance: String,
    pub balance_decimal: u128,
    pub alert_threshold: u128,
    pub status: String,
}

/// The JSON body of a `SyncStatus`.
pub open spec fn sync_status_json(hex: Seq<char>, height: int, status: Seq<char>) -> Seq<char> {
    "{\"block_number_hex\":"@ + json_string(hex) + ",\"block_number_decimal\":"@ + dec_encoding(
        height,
    ) + ",\"status\":"@ + json_string(status) + "}"@
}

/// The JSON body of a `DiffStatus`.
pub open spec fn diff_status_json(
    finalized: int,
    latest: int,
    difference: int,
    finalized_hex: Seq<char>,
    latest_hex: Seq<char>,
) -> Seq<char> {
    "{\"finalized_block\":"@ + dec_encoding(finalized) + ",\"latest_block\":"@ + dec_encoding(
        latest,
    ) + ",\"difference\":"@ + dec_encoding(difference) + ",\"finalized_hex\":"@ + json_string(
        finalized_hex,
    ) + ",\"latest_hex\":"@ + json_string(latest_hex) + "}"@
}

/// The JSON body of a `BalanceStatus`.
pub open spec fn balance_status_json(
    address: Seq<char>,
    balance_hex: Seq<char>,
    balance: int,
    alert: int,
    status: Seq<char>,
) -> Seq<char> {
    "{\"address\":"@ + json_string(address) + ",\"balance\":"@ + json_string(balance_hex)
        + ",\"balance_decimal\":"@ + dec_encoding(balance) + ",\"alert_threshold\":"@
        + dec_encoding(alert) + ",\"status\":"@ + json_string(status) + "}"@
}

/// Renders a `SyncStatus` as its JSON body.
pub fn render_sync_status(st: &SyncStatus) -> (r: String)
    ensures
        r@ == sync_status_json(st.block_number_hex@, st.block_number_decimal as int, st.status@),
{
    let mut out = String::new();
    out.append("{\"block_number_hex\":");
    let hex = json_quote(st.block_number_hex.as_str());
    out.append(hex.as_str());
    out.append(",\"block_number_decimal\":");
    let dec = render_dec_i64(st.block_number_decimal);
    out.append(dec.as_str());
    out.append(",\"status\":");
    let status = json_quote(st.status.as_str());
    out.append(status.as_str());
    out.append("}");
    proof {
        assert(out@ =~= sync_status_json(
            st.block_number_hex@,
            st.block_number_decimal as int,
            st.status@,
        ));
    }
    out
}

/// Renders a `DiffStatus` as its JSON body.
pub fn render_diff_status(st: &DiffStatus) -> (r: String)
    ensures
        r@ == diff_status_json(
            st.finalized_block as int,
            st.latest_block as int,
            st.difference as int,
            st.finalized_hex@,
            st.latest_hex@,
        ),
{
    let mut out = String::new();
    out.append("{\"finalized_block\":");
    let fin = render_dec_i64(st.finalized_block);
    out.append(fin.as_str());
    out.append(",\"latest_block\":");
    let lat = render_dec_i64(st.latest_block);
    out.append(lat.as_str());
    out.append(",\"difference\":");
    let diff = render_dec_i64(st.difference);
    out.append(diff.as_str());
    out.append(",\"finalized_hex\":");
    let finh = json_quote(st.finalized_hex.as_str());
    out.append(finh.as_str());
    out.append(",\"latest_hex\":");
    let lath = json_quote(st.latest_hex.as_str());
    out.append(lath.as_str());
    out.append("}");
    proof {
        assert(out@ =~= diff_status_json(
            st.finalized_block as int,
            st.latest_block as int,
            st.difference as int,
            st.finalized_hex@,
            st.latest_hex@,
        ));
    }
    out
}

/// Renders a `BalanceStatus` as its JSON body.
pub fn render_balance_status(st: &BalanceStatus) -> (r: String)
    ensures
        r@ == balance_status_json(
            st.address@,
            st.balance@,
            st.balance_decimal as int,
            st.alert_threshold as int,
            st.status@,
        ),
{
    let mut out = String::new();
    out.append("{\"address\":");
    let addr = json_quote(st.address.as_str());
    out.append(addr.as_str());
    out.append(",\"balance\":");
    let bal = json_quote(st.balance.as_str());
    out.append(bal.as_str());
    out.append(",\"balance_decimal\":");
    let dec = render_dec_u128(st.balance_decimal);
    out.append(dec.as_str());
    out.append(",\"alert_threshold\":");
    let alert = render_dec_u128(st.alert_threshold);
    out.append(alert.as_str());
    out.append(",\"status\":");
    let status = json_quote(st.status.as_str());
    out.append(status.as_str());
    out.append("}");
    proof {
        assert(out@ =~= balance_status_json(
            st.address@,
            st.balance@,
            st.balance_decimal as int,
            st.alert_threshold as int,
            st.status@,
        ));
    }
    out
}

/// Status tag of the sync check: `synced` exactly when the two polls saw
/// different heights.
pub open spec fn sync_status_tag(first: int, second: int) -> Seq<char> {
    if second - first != 0 {
        "synced"@
    } else {
        "not_synced"@
    }
}

/// HTTP code of the sync check: 200 when advancing, 503 when stalled.
pub open spec fn sync_http_code(first: int, second: int) -> u16 {
    if second - first != 0 {
        200u16
    } else {
        503u16
    }
}

/// Body of a successful sync check: the second height in both forms and
/// the status tag.
pub open spec fn sync_success_json(first: int, second: int) -> Seq<char> {
    sync_status_json(hex_encoding(second as nat), second, sync_status_tag(first, second))
}

/// Body of a failed sync check: empty hex, zero height, `error`.
pub open spec fn sync_error_json() -> Seq<char> {
    sync_status_json(Seq::<char>::empty(), 0, "error"@)
}

/// The sync check after both reads came back.
pub fn sync_reply(first: i64, second: i64) -> (r: HttpReply)
    requires
        0 <= first,
        0 <= second,
    ensures
        r.status_code == sync_http_code(first as int, second as int),
        r.body@ == sync_success_json(first as int, second as int),
{
    let advancing = second != first;
    let status = if advancing {
        "synced"
    } else {
        "not_synced"
    };
    let st = SyncStatus {
        block_number_hex: encode_hex_i64(second),
        block_number_decimal: second,
        status: status.to_owned(),
    };
    let body = render_sync_status(&st);
    HttpReply { status_code: if advancing { 200 } else { 503 }, body }
}

/// The sync check after either read failed.
pub fn sync_error_reply() -> (r: HttpReply)
    ensures
        r.status_code == 500,
        r.body@ == sync_error_json(),
{
    let st = SyncStatus {
        block_number_hex: String::new(),
        block_number_decimal: 0,
        status: "error".to_owned(),
    };
    let body = render_sync_status(&st);
    HttpReply { status_code: 500, body }
}

/// What the sync check does next after one height read.
pub enum SyncStep {
    /// Answer now.
    Reply(HttpReply),
    /// Hold the first height, wait the fixed delay, read again.
    Poll(i64),
}

/// One step of the sync protocol: with no stored height, a successful
/// read starts the wait; with a stored height, the second read decides;
/// any failed read answers `error` with code 500 at once.
pub fn sync_step(first: Option<i64>, outcome: Result<i64, Failure>) -> (step: SyncStep)
    requires
        first matches Some(f) ==> f >= 0,
        outcome matches Ok(h) ==> h >= 0,
    ensures
        outcome is Err ==> (step matches SyncStep::Reply(rep) && rep.status_code == 500
            && rep.body@ == sync_error_json()),
        outcome matches Ok(h) ==> match first {
            None => step matches SyncStep::Poll(p) && p == h,
            Some(f) => step matches SyncStep::Reply(rep) && rep.status_code == sync_http_code(
                f as int,
                h as int,
            ) && rep.body@ == sync_success_json(f as int, h as int),
        },
{
    match outcome {
        Err(_) => SyncStep::Reply(sync_error_reply()),
        Ok(h) => match first {
            None => SyncStep::Poll(h),
            Some(f) => SyncStep::Reply(sync_reply(f, h)),
        },
    }
}

/// HTTP code of the gap check: 200 when the gap is strictly below the
/// threshold, else 503.
pub open spec fn diff_http_code(difference: int, threshold: int) -> u16 {
    if difference < threshold {
        200u16
    } else {
        503u16
    }
}

/// Body of a successful gap check.
pub open spec fn diff_success_json(finalized: int, latest: int) -> Seq<char> {
    diff_status_json(
        finalized,
        latest,
        latest - finalized,
        hex_encoding(finalized as nat),
        hex_encoding(latest as nat),
    )
}

/// Body when the finalized read failed: everything zeroed.
pub open spec fn diff_error_json_all() -> Seq<char> {
    diff_status_json(0, 0, 0, Seq::<char>::empty(), Seq::<char>::empty())
}

/// Body when only the latest read failed: the finalized height is kept.
pub open spec fn diff_error_json_latest(finalized: int) -> Seq<char> {
    diff_status_json(finalized, 0, 0, hex_encoding(finalized as nat), Seq::<char>::empty())
}

/// What the gap check does next after the finalized read.
pub enum DiffStep {
    /// Answer now.
    Reply(HttpReply),
    /// Hold the finalized height and read the latest one.
    NeedLatest(i64),
}

/// First step of the gap check: a failed finalized read answers at once
/// with everything zeroed; a successful one asks for the latest height.
pub fn diff_step_finalized(outcome: Result<i64, Failure>) -> (step: DiffStep)
    requires
        outcome matches Ok(h) ==> h >= 0,
    ensures
        outcome is Err ==> (step matches DiffStep::Reply(rep) && rep.status_code == 500
            && rep.body@ == diff_error_json_all()),
        outcome matches Ok(h) ==> (step matches DiffStep::NeedLatest(f) && f == h),
{
    match outcome {
        Err(_) => {
            let st = DiffStatus {
                finalized_block: 0,
                latest_block: 0,
                difference: 0,
                finalized_hex: String::new(),
                latest_hex: String::new(),
            };
            let body = render_diff_status(&st);
            DiffStep::Reply(HttpReply { status_code: 500, body })
        },
        Ok(h) => DiffStep::NeedLatest(h),
    }
}

/// Second step of the gap check: a failed latest read keeps the finalized
/// height and zeroes the rest; a successful one reports both heights and
/// their difference against the threshold.
pub fn diff_reply(finalized: i64, outcome: Result<i64, Failure>, threshold: i64) -> (r: HttpReply)
    requires
        0 <= finalized,
        outcome matches Ok(h) ==> h >= 0,
    ensures
        outcome is Err ==> r.status_code == 500 && r.body@ == diff_error_json_latest(
            finalized as int,
        ),
        outcome matches Ok(l) ==> r.status_code == diff_http_code(
            l - finalized,
            threshold as int,
        ) && r.body@ == diff_success_json(finalized as int, l as int),
{
    match outcome {
        Err(_) => {
            let st = DiffStatus {
                finalized_block: finalized,
                latest_block: 0,
                difference: 0,
                finalized_hex: encode_hex_i64(finalized),
                latest_hex: String::new(),
            };
            let body = render_diff_status(&st);
            HttpReply { status_code: 500, body }
        },
        Ok(latest) => {
            let difference = latest - finalized;
            let st = DiffStatus {
                finalized_block: finalized,
                latest_block: latest,
                difference,
                finalized_hex: encode_hex_i64(finalized),
                latest_hex: encode_hex_i64(latest),
            };
            let body = render_diff_status(&st);
            HttpReply {
                status_code: if difference < threshold {
                    200
                } else {
                    503
                },
                body,
            }
        },
    }
}

/// Status tag of the balance check: `balance_sufficient` exactly when the
/// balance is strictly above the alert threshold.
pub open spec fn balance_status_tag(alert: int, balance: int) -> Seq<char> {
    if alert < balance {
        "balance_sufficient"@
    } else {
        "balance_low"@
    }
}

/// HTTP code of the balance check: 500 for a sufficient balance, 200 for
/// a low one, preserving this service's polarity.
pub open spec fn balance_http_code(alert: int, balance: int) -> u16 {
    if alert < balance {
        500u16
    } else {
        200u16
    }
}

/// Body of a successful balance check.
pub open spec fn balance_success_json(address: Seq<char>, alert: int, balance: int) -> Seq<char> {
    balance_status_json(
        address,
        hex_encoding(balance as nat),
        balance,
        alert,
        balance_status_tag(alert, balance),
    )
}

/// Body of a failed balance check: balance zeroed, status `error`.
pub open spec fn balance_error_json(address: Seq<char>, alert: int) -> Seq<char> {
    balance_status_json(address, hex_encoding(0), 0, alert, "error"@)
}

/// The balance check: one read decides.
pub fn balance_reply(address: &str, alert: u128, outcome: Result<u128, Failure>) -> (r: HttpReply)
    ensures
        outcome is Err ==> r.status_code == 500 && r.body@ == balance_error_json(
            address@,
            alert as int,
        ),
        outcome matches Ok(b) ==> r.status_code == balance_http_code(alert as int, b as int)
            && r.body@ == balance_success_json(address@, alert as int, b as int),
{
    match outcome {
        Err(_) => {
            let st = BalanceStatus {
                address: address.to_owned(),
                balance: encode_hex_u128(0),
                balance_decimal: 0,
                alert_threshold: alert,
                status: "error".to_owned(),
            };
            let body = render_balance_status(&st);
            HttpReply { status_code: 500, body }
        },
        Ok(balance) => {
            let sufficient = alert < balance;
            let status = if sufficient {
                "balance_sufficient"
            } else {
                "balance_low"
            };
            let st = BalanceStatus {
                address: address.to_owned(),
                balance: encode_hex_u128(balance),
                balance_decimal: balance,
                alert_threshold: alert,
                status: status.to_owned(),
            };
            let body = render_balance_status(&st);
            HttpReply { status_code: if sufficient { 500 } else { 200 }, body }
        },
    }
}

/// Value of a signed numeric query parameter: the default stands in for
/// anything that does not parse.
pub open spec fn i64_param(s: Seq<char>, default: int) -> int {
    if is_dec_string(s) && i64::MIN <= dec_string_value(s) <= i64::MAX {
        dec_string_value(s)
    } else {
        default
    }
}

/// Value of an unsigned numeric query parameter, likewise.
pub open spec fn u128_param(s: Seq<char>, default: int) -> int {
    if is_dec_string(s) && !dec_negative(s) && dec_string_value(s) <= u128::MAX {
        dec_string_value(s)
    } else {
        default
    }
}

/// Reads a signed numeric query parameter; absent or malformed text is
/// silently replaced by the default, never rejected.
pub fn parse_i64_param(p: Option<&str>, default: i64) -> (r: i64)
    ensures
        p is None ==> r == default,
        p matches Some(s) ==> r == i64_param(s@, default as int),
{
    match p {
        None => default,
        Some(s) => match parse_dec_i64(s) {
            Some(v) => v,
            None => default,
        },
    }
}

/// Reads an unsigned numeric query parameter, likewise.
pub fn parse_u128_param(p: Option<&str>, default: u128) -> (r: u128)
    ensures
        p is None ==> r == default,
        p matches Some(s) ==> r == u128_param(s@, default as int),
{
    match p {
        None => default,
        Some(s) => match parse_dec_u128(s) {
            Some(v) => v,
            None => default,
        },
    }
}

/// The RPC endpoint to query: the override from the request, or the
/// fixed local default.
pub fn endpoint_or_default(p: Option<String>) -> (r: String)
    ensures
        p matches Some(s) ==> r@ == s@,
        p is None ==> r@ == "http://127.0.0.1:8545"@,
{
    match p {
        Some(s) => s,
        None => crate::default_rpc_endpoint(),
    }
}

/// Liveness signal: across two polls, an unchanged height means
/// `not_synced` with code 503, and any change means `synced` with
/// code 200 -- in both directions.
pub proof fn lemma_sync_polling(first: int, second: int)
    ensures
        sync_status_tag(first, second) == "synced"@ <==> second != first,
        sync_status_tag(first, second) == "not_synced"@ <==> second == first,
        sync_http_code(first, second) == 200 <==> second != first,
        sync_http_code(first, second) == 503 <==> second == first,
{
    reveal_strlit("synced");
    reveal_strlit("not_synced");
    assert("synced"@.len() == 6);
    assert("not_synced"@.len() == 10);
}

/// Gap policy, as documented above: the check is healthy (200) exactly
/// when `latest - finalized` is strictly below the threshold, and
/// unhealthy (503) exactly when it is at or above it.
pub proof fn lemma_gap_policy(difference: int, threshold: int)
    ensures
        diff_http_code(difference, threshold) == 200 <==> difference < threshold,
        diff_http_code(difference, threshold) == 503 <==> difference >= threshold,
{
}

/// Balance policy: the status tag is `balance_sufficient` exactly when
/// the balance is strictly above the threshold, and `balance_low`
/// exactly when it is at or below it.
pub proof fn lemma_balance_threshold(alert: int, balance: int)
    ensures
        balance_status_tag(alert, balance) == "balance_sufficient"@ <==> balance > alert,
        balance_status_tag(alert, balance) == "balance_low"@ <==> balance <= alert,
{
    reveal_strlit("balance_sufficient");
    reveal_strlit("balance_low");
    assert("balance_sufficient"@.len() == 18);
    assert("balance_low"@.len() == 11);
}

} // verus!
