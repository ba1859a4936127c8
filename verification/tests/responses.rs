use node_health::rpc::{
    parse_balance_response, parse_height_response, parse_tag_response, Failure,
};

#[test]
fn height_response_parses() {
    let body = r#"{"jsonrpc":"2.0","id":1,"result":"0x64"}"#;
    assert_eq!(parse_height_response(body), Ok(100));
}

#[test]
fn responses_require_only_the_result_field() {
    // The stated success condition: a string `result` (for tagged
    // blocks, `result.number`) that decodes; no other field is read.
    assert_eq!(parse_height_response(r#"{"result":"0x64"}"#), Ok(100));
    assert_eq!(parse_balance_response(r#"{"result":"0x1f4"}"#), Ok(500));
    assert_eq!(parse_tag_response(r#"{"result":{"number":"0x5"}}"#), Ok(5));
}

#[test]
fn height_response_needs_result_field() {
    let body = r#"{"jsonrpc":"2.0","id":1}"#;
    assert_eq!(parse_height_response(body), Err(Failure::Protocol));
}

#[test]
fn height_response_needs_string_result() {
    let body = r#"{"jsonrpc":"2.0","id":1,"result":100}"#;
    assert_eq!(parse_height_response(body), Err(Failure::Protocol));
}

#[test]
fn height_response_needs_hex_payload() {
    let body = r#"{"jsonrpc":"2.0","id":1,"result":"64"}"#;
    assert_eq!(parse_height_response(body), Err(Failure::Decode));
    let body = r#"{"jsonrpc":"2.0","id":1,"result":"0xffffffffffffffffff"}"#;
    assert_eq!(parse_height_response(body), Err(Failure::Decode));
}

#[test]
fn height_response_needs_json() {
    assert_eq!(parse_height_response("not json"), Err(Failure::Protocol));
    assert_eq!(parse_height_response(""), Err(Failure::Protocol));
}

#[test]
fn tag_response_parses() {
    let body = r#"{"jsonrpc":"2.0","id":5,"result":{"number":"0x5","hash":"0xdead"}}"#;
    assert_eq!(parse_tag_response(body), Ok(5));
}

#[test]
fn tag_response_without_number_field_fails_cleanly() {
    let body = r#"{"jsonrpc":"2.0","id":5,"result":{"hash":"0xdead"}}"#;
    assert_eq!(parse_tag_response(body), Err(Failure::Protocol));
}

#[test]
fn tag_response_with_non_string_number_fails_cleanly() {
    let body = r#"{"jsonrpc":"2.0","id":5,"result":{"number":5}}"#;
    assert_eq!(parse_tag_response(body), Err(Failure::Protocol));
}

#[test]
fn tag_response_without_result_fails_cleanly() {
    let body = r#"{"jsonrpc":"2.0","id":5,"error":{"code":-32000}}"#;
    assert_eq!(parse_tag_response(body), Err(Failure::Protocol));
    assert_eq!(parse_tag_response(r#"{"result":null}"#), Err(Failure::Protocol));
}

#[test]
fn tag_response_with_bad_hex_number_fails_cleanly() {
    let body = r#"{"result":{"number":"five"}}"#;
    assert_eq!(parse_tag_response(body), Err(Failure::Decode));
}

#[test]
fn balance_response_parses() {
    let body = r#"{"jsonrpc":"2.0","id":2,"result":"0x1f4"}"#;
    assert_eq!(parse_balance_response(body), Ok(500));
}

#[test]
fn balance_response_failures() {
    assert_eq!(parse_balance_response("[1,2"), Err(Failure::Protocol));
    assert_eq!(
        parse_balance_response(r#"{"result":"1f4"}"#),
        Err(Failure::Decode)
    );
}
