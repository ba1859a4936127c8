use node_health::json::{json_escape, json_quote};
use node_health::rpc::{
    balance_request, block_by_tag_request, block_number_request, fresh_balance_request,
    fresh_block_by_tag_request, fresh_block_number_request,
};

#[test]
fn block_number_envelope_is_exact() {
    assert_eq!(
        block_number_request(7),
        r#"{"jsonrpc":"2.0","method":"eth_blockNumber","params":[],"id":7}"#
    );
}

#[test]
fn block_by_tag_envelope_is_exact() {
    assert_eq!(
        block_by_tag_request("finalized", 3),
        r#"{"jsonrpc":"2.0","method":"eth_getBlockByNumber","params":["finalized",false],"id":3}"#
    );
    assert_eq!(
        block_by_tag_request("latest", 100),
        r#"{"jsonrpc":"2.0","method":"eth_getBlockByNumber","params":["latest",false],"id":100}"#
    );
}

#[test]
fn balance_envelope_is_exact() {
    assert_eq!(
        balance_request("0xabc", 9),
        r#"{"jsonrpc":"2.0","method":"eth_getBalance","params":["0xabc","latest"],"id":9}"#
    );
}

#[test]
fn fresh_requests_carry_ids_in_range() {
    for _ in 0..20 {
        let body = fresh_block_number_request();
        let v: serde_json::Value = serde_json::from_str(&body).unwrap();
        assert_eq!(v["jsonrpc"], serde_json::Value::String("2.0".to_string()));
        assert_eq!(
            v["method"],
            serde_json::Value::String("eth_blockNumber".to_string())
        );
        let id = v["id"].as_u64().unwrap();
        assert!((1..=100).contains(&id));

        let body = fresh_block_by_tag_request("finalized");
        let v: serde_json::Value = serde_json::from_str(&body).unwrap();
        let id = v["id"].as_u64().unwrap();
        assert!((1..=100).contains(&id));

        let body = fresh_balance_request("0xabc");
        let v: serde_json::Value = serde_json::from_str(&body).unwrap();
        let id = v["id"].as_u64().unwrap();
        assert!((1..=100).contains(&id));
    }
}

#[test]
fn json_escape_matches_serde_json() {
    assert_eq!(json_escape("plain"), "plain");
    assert_eq!(json_escape("a\"b\\c"), "a\\\"b\\\\c");
    assert_eq!(json_escape("line\nbreak\ttab\rret"), "line\\nbreak\\ttab\\rret");
    assert_eq!(json_escape("\u{8}\u{c}"), "\\b\\f");
    assert_eq!(json_escape("\u{1}\u{1f}"), "\\u0001\\u001f");
    assert_eq!(json_escape("unicode \u{00e9}\u{4e16}"), "unicode \u{00e9}\u{4e16}");
}

#[test]
fn json_quote_round_trips_through_serde_json() {
    for text in ["", "0xabc", "a\"b\\c", "ctl\u{2}end", "tab\there"] {
        let quoted = json_quote(text);
        let back: serde_json::Value = serde_json::from_str(&quoted).unwrap();
        assert_eq!(back, serde_json::Value::String(text.to_string()));
        assert_eq!(serde_json::to_string(&back).unwrap(), quoted);
    }
}

#[test]
fn awkward_address_still_yields_valid_json_request() {
    let body = balance_request("a\"b\\c", 1);
    let v: serde_json::Value = serde_json::from_str(&body).unwrap();
    assert_eq!(
        v["params"][0],
        serde_json::Value::String("a\"b\\c".to_string())
    );
    assert_eq!(
        v["params"][1],
        serde_json::Value::String("latest".to_string())
    );
}
