use node_health::monitor::{
    balance_reply, diff_reply, diff_step_finalized, endpoint_or_default, parse_i64_param,
    parse_u128_param, sync_error_reply, sync_reply, sync_step, DiffStep, HttpReply, SyncStep,
};
use node_health::rpc::Failure;

fn assert_json_body(reply: &HttpReply) {
    let v: Result<serde_json::Value, serde_json::Error> = serde_json::from_str(&reply.body);
    assert!(v.is_ok(), "body is not JSON: {}", reply.body);
}

#[test]
fn sync_constant_height_is_not_synced() {
    // First poll sees 0x64, the service waits, the second poll sees it again.
    let step = sync_step(None, Ok(100));
    let held = match step {
        SyncStep::Poll(h) => h,
        SyncStep::Reply(_) => panic!("first successful read must start the wait"),
    };
    assert_eq!(held, 100);
    let step = sync_step(Some(held), Ok(100));
    match step {
        SyncStep::Reply(rep) => {
            assert_eq!(rep.status_code, 503);
            assert_eq!(
                rep.body,
                r#"{"block_number_hex":"0x64","block_number_decimal":100,"status":"not_synced"}"#
            );
            assert_json_body(&rep);
        },
        SyncStep::Poll(_) => panic!("second read must decide"),
    }
}

#[test]
fn sync_advancing_height_is_synced() {
    let rep = sync_reply(100, 101);
    assert_eq!(rep.status_code, 200);
    assert_eq!(
        rep.body,
        r#"{"block_number_hex":"0x65","block_number_decimal":101,"status":"synced"}"#
    );
    let rep = sync_reply(101, 100);
    assert_eq!(rep.status_code, 200);
    assert!(rep.body.contains("\"synced\""));
}

#[test]
fn sync_unreachable_upstream_is_error() {
    let step = sync_step(None, Err(Failure::Transport));
    match step {
        SyncStep::Reply(rep) => {
            assert_eq!(rep.status_code, 500);
            assert_eq!(
                rep.body,
                r#"{"block_number_hex":"","block_number_decimal":0,"status":"error"}"#
            );
            assert_json_body(&rep);
        },
        SyncStep::Poll(_) => panic!("a failed read must answer at once"),
    }
}

#[test]
fn sync_second_read_failure_is_error() {
    let step = sync_step(Some(100), Err(Failure::Protocol));
    match step {
        SyncStep::Reply(rep) => {
            assert_eq!(rep.status_code, 500);
            assert_eq!(rep.body, sync_error_reply().body);
        },
        SyncStep::Poll(_) => panic!("a failed read must answer at once"),
    }
}

#[test]
fn balance_at_threshold_is_low() {
    // Balance 0x1f4 = 500 against alert 500: not strictly above, so low.
    let rep = balance_reply("0xabc", 500, Ok(500));
    assert_eq!(rep.status_code, 200);
    assert_eq!(
        rep.body,
        r#"{"address":"0xabc","balance":"0x1f4","balance_decimal":500,"alert_threshold":500,"status":"balance_low"}"#
    );
    assert_json_body(&rep);
}

#[test]
fn balance_just_above_threshold_is_sufficient() {
    let rep = balance_reply("0xabc", 500, Ok(501));
    assert_eq!(rep.status_code, 500);
    assert!(rep.body.contains("\"balance_sufficient\""));
    assert!(rep.body.contains("\"balance\":\"0x1f5\""));
    assert_json_body(&rep);
}

#[test]
fn balance_read_failure_is_error() {
    let rep = balance_reply("0xabc", 7, Err(Failure::Transport));
    assert_eq!(rep.status_code, 500);
    assert_eq!(
        rep.body,
        r#"{"address":"0xabc","balance":"0x0","balance_decimal":0,"alert_threshold":7,"status":"error"}"#
    );
}

#[test]
fn balance_body_escapes_awkward_address() {
    let rep = balance_reply("a\"b", 0, Ok(1));
    assert_json_body(&rep);
    let v: serde_json::Value = serde_json::from_str(&rep.body).unwrap();
    assert_eq!(v["address"], serde_json::Value::String("a\"b".to_string()));
}

#[test]
fn gap_below_threshold_is_healthy() {
    // finalized 0x1, latest 0x5: difference 4 against threshold 10.
    let step = diff_step_finalized(Ok(1));
    let finalized = match step {
        DiffStep::NeedLatest(f) => f,
        DiffStep::Reply(_) => panic!("a successful finalized read must continue"),
    };
    let rep = diff_reply(finalized, Ok(5), 10);
    assert_eq!(rep.status_code, 200);
    assert_eq!(
        rep.body,
        r#"{"finalized_block":1,"latest_block":5,"difference":4,"finalized_hex":"0x1","latest_hex":"0x5"}"#
    );
    assert_json_body(&rep);
}

#[test]
fn gap_at_or_above_threshold_is_unhealthy() {
    let rep = diff_reply(1, Ok(11), 10);
    assert_eq!(rep.status_code, 503);
    assert!(rep.body.contains("\"difference\":10"));
    let rep = diff_reply(1, Ok(20), 10);
    assert_eq!(rep.status_code, 503);
}

#[test]
fn gap_failed_finalized_read_zeroes_everything() {
    let step = diff_step_finalized(Err(Failure::Transport));
    match step {
        DiffStep::Reply(rep) => {
            assert_eq!(rep.status_code, 500);
            assert_eq!(
                rep.body,
                r#"{"finalized_block":0,"latest_block":0,"difference":0,"finalized_hex":"","latest_hex":""}"#
            );
        },
        DiffStep::NeedLatest(_) => panic!("a failed finalized read must answer at once"),
    }
}

#[test]
fn gap_failed_latest_read_keeps_finalized() {
    let rep = diff_reply(5, Err(Failure::Protocol), 0);
    assert_eq!(rep.status_code, 500);
    assert_eq!(
        rep.body,
        r#"{"finalized_block":5,"latest_block":0,"difference":0,"finalized_hex":"0x5","latest_hex":""}"#
    );
}

#[test]
fn numeric_params_fall_back_to_defaults() {
    assert_eq!(parse_i64_param(None, 0), 0);
    assert_eq!(parse_i64_param(Some(""), 0), 0);
    assert_eq!(parse_i64_param(Some("xyz"), 0), 0);
    assert_eq!(parse_i64_param(Some("10"), 0), 10);
    assert_eq!(parse_i64_param(Some("-3"), 0), -3);
    assert_eq!(parse_i64_param(Some("99999999999999999999999"), 0), 0);
    assert_eq!(parse_u128_param(None, 0), 0);
    assert_eq!(parse_u128_param(Some("-3"), 0), 0);
    assert_eq!(parse_u128_param(Some("500"), 0), 500);
    assert_eq!(parse_u128_param(Some("5.5"), 0), 0);
}

#[test]
fn endpoint_override_and_default() {
    assert_eq!(endpoint_or_default(None), "http://127.0.0.1:8545");
    assert_eq!(
        endpoint_or_default(Some("http://10.0.0.1:8545".to_string())),
        "http://10.0.0.1:8545"
    );
}

#[test]
fn every_reply_shape_is_json() {
    // Every combination of outcome and parameter shape yields a JSON body.
    let replies = vec![
        sync_reply(0, 0),
        sync_reply(0, i64::MAX),
        sync_error_reply(),
        balance_reply("", 0, Ok(0)),
        balance_reply("\\\"\n", u128::MAX, Ok(u128::MAX)),
        balance_reply("x", parse_u128_param(Some("junk"), 0), Err(Failure::Decode)),
        diff_reply(0, Ok(0), parse_i64_param(Some("junk"), 0)),
        diff_reply(i64::MAX, Ok(0), i64::MIN),
        diff_reply(3, Err(Failure::Transport), 0),
    ];
    for rep in &replies {
        assert_json_body(rep);
        assert!(rep.status_code == 200 || rep.status_code == 500 || rep.status_code == 503);
    }
}
