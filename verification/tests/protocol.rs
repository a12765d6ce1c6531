use eth_rpc_check::chains::Chain;
use eth_rpc_check::methods::{get_all_methods, get_basic_methods, get_extended_methods,
    get_filtered_methods, RpcMethod};
use eth_rpc_check::rpc::{build_envelope, check_connection_address, escape_json,
    outcome_from_body, outcome_from_error, outcome_from_ws_event, RpcError, WsEvent};
use eth_rpc_check::text::{split_commas_trimmed, str_eq, str_lt, str_starts_with, trim_str,
    u64_to_dec};

fn chain() -> Chain {
    Chain::new("ETH", "https://node.example")
}

#[test]
fn envelope_without_params() {
    let params: Vec<String> = Vec::new();
    let env = build_envelope("eth_blockNumber", &params);
    assert_eq!(
        env,
        "{\"jsonrpc\":\"2.0\",\"id\":1,\"method\":\"eth_blockNumber\",\"params\":[]}"
    );
}

#[test]
fn envelope_splices_params_in_order() {
    let params = vec!["\"latest\"".to_string(), "false".to_string()];
    let env = build_envelope("eth_getBlockByNumber", &params);
    assert_eq!(
        env,
        "{\"jsonrpc\":\"2.0\",\"id\":1,\"method\":\"eth_getBlockByNumber\",\"params\":[\"latest\",false]}"
    );
}

#[test]
fn envelope_escapes_method_name() {
    let params: Vec<String> = Vec::new();
    let env = build_envelope("a\"b", &params);
    assert_eq!(env, "{\"jsonrpc\":\"2.0\",\"id\":1,\"method\":\"a\\\"b\",\"params\":[]}");
}

#[test]
fn escaping_quotes_backslashes_and_controls() {
    assert_eq!(escape_json("a\"b\\c"), "a\\\"b\\\\c");
    assert_eq!(escape_json("x\ny"), "x\\u000ay");
    assert_eq!(escape_json("plain"), "plain");
}

#[test]
fn successful_body_keeps_latency() {
    let r = outcome_from_body(&chain(), "eth_chainId", "{\"result\":\"0x1\"}", 2500);
    assert!(r.success);
    assert_eq!(r.latency_us, 2500);
    assert_eq!(r.error, None);
    assert_eq!(r.chain, "ETH");
    assert_eq!(r.endpoint, "https://node.example");
    assert_eq!(r.method, "eth_chainId");
}

#[test]
fn error_member_fails_with_its_message() {
    let r = outcome_from_body(
        &chain(),
        "eth_call",
        "{\"error\":{\"code\":-32000,\"message\":\"boom\"}}",
        900,
    );
    assert!(!r.success);
    assert_eq!(r.latency_us, 900);
    assert_eq!(r.error, Some("boom".to_string()));
}

#[test]
fn error_member_without_message() {
    let r = outcome_from_body(&chain(), "eth_call", "{\"error\":{}}", 900);
    assert!(!r.success);
    assert_eq!(r.error, None);
}

#[test]
fn unparseable_body_records_parse_failure() {
    let r = outcome_from_body(&chain(), "eth_call", "not json", 900);
    assert!(!r.success);
    assert_eq!(r.latency_us, 0);
    let text = r.error.expect("a reason");
    assert!(text.starts_with("json-rpc error: failed to parse response: "));
}

#[test]
fn ws_text_frame_is_classified_like_a_body() {
    let event = WsEvent::TextFrame("{\"result\":1}".to_string());
    let r = outcome_from_ws_event(&chain(), "eth_chainId", event, 1200, 15);
    assert!(r.success);
    assert_eq!(r.latency_us, 1200);
}

#[test]
fn ws_timeout_names_the_window() {
    let r = outcome_from_ws_event(&chain(), "eth_chainId", WsEvent::TimedOut, 0, 15);
    assert!(!r.success);
    assert_eq!(r.latency_us, 0);
    assert_eq!(r.error, Some("timeout error: request timed out after 15 s".to_string()));
}

#[test]
fn ws_non_text_frame_fails() {
    let r = outcome_from_ws_event(&chain(), "m", WsEvent::NonTextFrame, 5, 15);
    assert_eq!(r.error, Some("websocket error: received a non-text response".to_string()));
    assert_eq!(r.latency_us, 0);
}

#[test]
fn ws_closed_stream_fails() {
    let r = outcome_from_ws_event(&chain(), "m", WsEvent::StreamClosed, 5, 15);
    assert_eq!(r.error, Some("websocket error: connection closed".to_string()));
}

#[test]
fn ws_stream_error_keeps_detail() {
    let r = outcome_from_ws_event(&chain(), "m", WsEvent::StreamError("pipe".to_string()), 5, 15);
    assert_eq!(r.error, Some("websocket error: response error: pipe".to_string()));
}

#[test]
fn error_outcome_renders_each_kind() {
    let r = outcome_from_error(&chain(), "m", &RpcError::NetworkError("down".to_string()));
    assert_eq!(r.error, Some("network error: down".to_string()));
    assert!(!r.success);
    assert_eq!(r.latency_us, 0);
    let r = outcome_from_error(&chain(), "m", &RpcError::ConfigError("bad".to_string()));
    assert_eq!(r.error, Some("configuration error: bad".to_string()));
}

#[test]
fn valid_ws_address_is_accepted() {
    assert!(check_connection_address("wss://node.example/path").is_ok());
}

#[test]
fn invalid_ws_address_is_refused() {
    match check_connection_address("not a url at all") {
        Err(RpcError::ConfigError(m)) => {
            assert!(m.starts_with("invalid WebSocket URL: "));
        }
        _ => panic!("expected a configuration error"),
    }
}

#[test]
fn full_catalog_has_twenty_five_methods() {
    let all = get_all_methods();
    assert_eq!(all.len(), 25);
    assert_eq!(all[0].name, "web3_clientVersion");
    assert_eq!(all[24].name, "eth_getLogs");
}

#[test]
fn basic_and_extended_sets() {
    assert_eq!(get_basic_methods().len(), 5);
    let extended = get_extended_methods();
    assert_eq!(extended.len(), 14);
    assert_eq!(extended[13].name, "net_listening");
}

#[test]
fn filtering_keeps_catalog_order() {
    let picked = get_filtered_methods("eth_blockNumber, net_version");
    let names: Vec<&str> = picked.iter().map(|m| m.name.as_str()).collect();
    assert_eq!(names, vec!["net_version", "eth_blockNumber"]);
}

#[test]
fn filtering_unknown_names_gives_nothing() {
    assert!(get_filtered_methods("no_such_method").is_empty());
}

#[test]
fn method_record_keeps_fields() {
    let m = RpcMethod::new("eth_getBalance", vec!["\"latest\"".to_string()], "balance");
    assert_eq!(m.name, "eth_getBalance");
    assert_eq!(m.params, vec!["\"latest\"".to_string()]);
    assert_eq!(m.description, "balance");
}

#[test]
fn splitting_trims_whitespace() {
    let pieces = split_commas_trimmed(" a , b\t,c ");
    assert_eq!(pieces, vec!["a".to_string(), "b".to_string(), "c".to_string()]);
}

#[test]
fn splitting_empty_text_gives_one_empty_piece() {
    assert_eq!(split_commas_trimmed(""), vec![String::new()]);
}

#[test]
fn trimming_strips_both_ends() {
    assert_eq!(trim_str("  x y\t"), "x y");
    assert_eq!(trim_str("\t \r\n"), "");
}

#[test]
fn string_utilities() {
    assert!(str_starts_with("wss://x", "wss://"));
    assert!(!str_starts_with("http://x", "wss://"));
    assert!(str_eq("same", "same"));
    assert!(!str_eq("same", "Same"));
    assert!(str_lt("BSC", "ETH"));
    assert!(!str_lt("ETH", "BSC"));
    assert!(str_lt("ab", "abc"));
    assert_eq!(u64_to_dec(0), "0");
    assert_eq!(u64_to_dec(9081726354), "9081726354");
}
