use eth_rpc_check::chains::Chain;
use eth_rpc_check::methods::RpcMethod;
use eth_rpc_check::orchestrator::{AbortPolicy, TestRun};
use eth_rpc_check::rpc::RpcResult;

fn method(name: &str) -> RpcMethod {
    RpcMethod::new(name, Vec::new(), "probe")
}

fn outcome(chain: &Chain, method_name: &str, success: bool, latency_us: u64) -> RpcResult {
    RpcResult {
        chain: chain.name.clone(),
        endpoint: chain.rpc_url.clone(),
        method: method_name.to_string(),
        success,
        latency_us,
        error: if success { None } else { Some("down".to_string()) },
        timestamp_ms: 0,
    }
}

#[test]
fn failed_first_probe_abandons_a_duplex_endpoint() {
    let chains = vec![Chain::new("WS", "wss://dead.example"), Chain::new("H", "https://ok.example")];
    let methods = vec![method("m1"), method("m2")];
    let mut run = TestRun::new(chains, methods, 3, AbortPolicy::EarlyAbort);
    // every attempt against the duplex endpoint fails; HTTP succeeds
    while let Some((ci, mi)) = run.next_request() {
        let chain = run.chain_at(ci).clone();
        let name = run.method_at(mi).name.clone();
        let ok = ci == 1;
        let r = outcome(&chain, &name, ok, 1000);
        run.record_outcome(r);
    }
    let results = run.into_results();
    let ws_results: Vec<_> = results.iter().filter(|r| r.chain == "WS").collect();
    // exactly one recorded outcome for the first method, none for the second
    assert_eq!(ws_results.len(), 1);
    assert_eq!(ws_results[0].method, "m1");
    // the HTTP endpoint still ran every attempt of both methods
    let http_results: Vec<_> = results.iter().filter(|r| r.chain == "H").collect();
    assert_eq!(http_results.len(), 6);
}

#[test]
fn http_failures_never_abort() {
    let chains = vec![Chain::new("H", "https://dead.example")];
    let methods = vec![method("m1"), method("m2")];
    let mut run = TestRun::new(chains, methods, 2, AbortPolicy::EarlyAbort);
    while let Some((ci, mi)) = run.next_request() {
        let chain = run.chain_at(ci).clone();
        let name = run.method_at(mi).name.clone();
        let r = outcome(&chain, &name, false, 0);
        run.record_outcome(r);
    }
    assert_eq!(run.into_results().len(), 4);
}

#[test]
fn test_all_policy_ignores_the_heuristic() {
    let chains = vec![Chain::new("WS", "wss://dead.example")];
    let methods = vec![method("m1"), method("m2")];
    let mut run = TestRun::new(chains, methods, 2, AbortPolicy::TestAll);
    while let Some((ci, mi)) = run.next_request() {
        let chain = run.chain_at(ci).clone();
        let name = run.method_at(mi).name.clone();
        let r = outcome(&chain, &name, false, 0);
        run.record_outcome(r);
    }
    assert_eq!(run.into_results().len(), 4);
}

#[test]
fn successful_duplex_first_probe_runs_everything() {
    let chains = vec![Chain::new("WS", "wss://ok.example")];
    let methods = vec![method("m1"), method("m2")];
    let mut run = TestRun::new(chains, methods, 3, AbortPolicy::EarlyAbort);
    while let Some((ci, mi)) = run.next_request() {
        let chain = run.chain_at(ci).clone();
        let name = run.method_at(mi).name.clone();
        let r = outcome(&chain, &name, true, 800);
        run.record_outcome(r);
    }
    assert_eq!(run.into_results().len(), 6);
}

#[test]
fn attempts_run_in_order_within_a_method() {
    let chains = vec![Chain::new("H", "https://ok.example")];
    let methods = vec![method("m1"), method("m2")];
    let mut run = TestRun::new(chains, methods, 2, AbortPolicy::EarlyAbort);
    let mut seen = Vec::new();
    while let Some((ci, mi)) = run.next_request() {
        let attempt = run.current_attempt();
        seen.push((ci, mi, attempt));
        let chain = run.chain_at(ci).clone();
        let name = run.method_at(mi).name.clone();
        let r = outcome(&chain, &name, true, 1);
        run.record_outcome(r);
    }
    assert_eq!(seen, vec![(0, 0, 0), (0, 0, 1), (0, 1, 0), (0, 1, 1)]);
}

#[test]
fn empty_method_list_finishes_immediately() {
    let chains = vec![Chain::new("H", "https://ok.example")];
    let methods: Vec<RpcMethod> = Vec::new();
    let run = TestRun::new(chains, methods, 5, AbortPolicy::EarlyAbort);
    assert!(run.is_done());
    assert_eq!(run.next_request(), None);
}
