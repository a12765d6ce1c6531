use eth_rpc_check::rpc::RpcResult;
use eth_rpc_check::stats::{calculate_stats, csv_header, csv_row, format_latency_ms, MethodStats};

fn result(chain: &str, endpoint: &str, method: &str, success: bool, latency_us: u64) -> RpcResult {
    RpcResult {
        chain: chain.to_string(),
        endpoint: endpoint.to_string(),
        method: method.to_string(),
        success,
        latency_us,
        error: if success { None } else { Some("down".to_string()) },
        timestamp_ms: 0,
    }
}

fn only(stats: Vec<MethodStats>) -> MethodStats {
    assert_eq!(stats.len(), 1);
    stats.into_iter().next().unwrap()
}

#[test]
fn median_of_three_is_the_middle_value() {
    let results = vec![
        result("E", "u", "m", true, 10),
        result("E", "u", "m", true, 20),
        result("E", "u", "m", true, 30),
    ];
    let s = only(calculate_stats(&results));
    assert_eq!(s.median_latency, 20);
}

#[test]
fn median_of_two_averages_the_middle_values() {
    let results = vec![result("E", "u", "m", true, 10), result("E", "u", "m", true, 20)];
    let s = only(calculate_stats(&results));
    assert_eq!(s.median_latency, 15);
}

#[test]
fn p95_of_ten_values_is_the_last() {
    let mut results = Vec::new();
    for l in 1..=10 {
        results.push(result("E", "u", "m", true, l));
    }
    let s = only(calculate_stats(&results));
    assert_eq!(s.p95_latency, 10);
}

#[test]
fn p95_of_one_value_is_that_value() {
    let results = vec![result("E", "u", "m", true, 7)];
    let s = only(calculate_stats(&results));
    assert_eq!(s.p95_latency, 7);
}

#[test]
fn summary_statistics_of_one_group() {
    let results = vec![
        result("E", "u", "m", true, 30),
        result("E", "u", "m", true, 10),
        result("E", "u", "m", true, 20),
        result("E", "u", "m", false, 999),
    ];
    let s = only(calculate_stats(&results));
    assert_eq!(s.call_count, 4);
    assert_eq!(s.success_count, 3);
    assert_eq!(s.min_latency, 10);
    assert_eq!(s.max_latency, 30);
    assert_eq!(s.avg_latency, 20);
    assert_eq!(s.median_latency, 20);
    // among three ascending values the 95% index reads the last
    assert_eq!(s.p95_latency, 30);
}

#[test]
fn all_failed_group_reports_zero_latencies() {
    let results = vec![
        result("E", "u", "m", false, 5),
        result("E", "u", "m", false, 6),
    ];
    let s = only(calculate_stats(&results));
    assert_eq!(s.call_count, 2);
    assert_eq!(s.success_count, 0);
    assert_eq!(s.min_latency, 0);
    assert_eq!(s.max_latency, 0);
    assert_eq!(s.avg_latency, 0);
    assert_eq!(s.median_latency, 0);
    assert_eq!(s.p95_latency, 0);
    assert_eq!(s.success_rate_basis_points(), 0);
}

#[test]
fn success_rate_is_the_exact_ratio() {
    let results = vec![
        result("E", "u", "m", true, 5),
        result("E", "u", "m", false, 0),
    ];
    let s = only(calculate_stats(&results));
    assert_eq!(s.success_rate_basis_points(), 5000);
    assert!(s.success_count <= s.call_count);
}

#[test]
fn higher_success_rate_sorts_first_on_one_endpoint() {
    let results = vec![
        // rate 0.5, very fast
        result("E", "u", "half", true, 1),
        result("E", "u", "half", false, 0),
        // rate 1.0, slow
        result("E", "u", "full", true, 100000),
        result("E", "u", "full", true, 100000),
    ];
    let stats = calculate_stats(&results);
    assert_eq!(stats.len(), 2);
    assert_eq!(stats[0].method, "full");
    assert_eq!(stats[1].method, "half");
}

#[test]
fn chains_sort_by_name_before_rate() {
    let results = vec![
        result("ETH", "u", "m", true, 1),
        result("BSC", "u", "m", false, 0),
    ];
    let stats = calculate_stats(&results);
    assert_eq!(stats.len(), 2);
    assert_eq!(stats[0].chain, "BSC");
    assert_eq!(stats[1].chain, "ETH");
}

#[test]
fn equal_rates_sort_by_average_latency() {
    let results = vec![
        result("E", "u", "slow", true, 9000),
        result("E", "u", "fast", true, 1000),
    ];
    let stats = calculate_stats(&results);
    assert_eq!(stats[0].method, "fast");
    assert_eq!(stats[1].method, "slow");
}

#[test]
fn groups_are_keyed_by_all_three_fields() {
    let results = vec![
        result("E", "u1", "m", true, 1),
        result("E", "u2", "m", true, 2),
        result("E", "u1", "n", true, 3),
    ];
    let stats = calculate_stats(&results);
    assert_eq!(stats.len(), 3);
    for s in &stats {
        assert_eq!(s.call_count, 1);
    }
}

#[test]
fn empty_results_give_no_summaries() {
    let results: Vec<RpcResult> = Vec::new();
    assert!(calculate_stats(&results).is_empty());
}

#[test]
fn latency_formatting_rounds_half_up() {
    assert_eq!(format_latency_ms(12345), "12.35");
    assert_eq!(format_latency_ms(12344), "12.34");
    assert_eq!(format_latency_ms(0), "0.00");
    assert_eq!(format_latency_ms(999), "1.00");
    assert_eq!(format_latency_ms(994), "0.99");
}

#[test]
fn csv_header_columns() {
    let header = csv_header();
    assert_eq!(
        header,
        vec![
            "chain",
            "endpoint",
            "method",
            "call_count",
            "success_count",
            "min_latency_ms",
            "max_latency_ms",
            "avg_latency_ms",
            "median_latency_ms",
            "p95_latency_ms",
            "success_rate_percent",
        ]
    );
}

#[test]
fn csv_row_renders_every_field() {
    let results = vec![
        result("ETH", "https://node.example", "eth_chainId", true, 12345),
        result("ETH", "https://node.example", "eth_chainId", false, 0),
    ];
    let s = only(calculate_stats(&results));
    let row = csv_row(&s);
    assert_eq!(
        row,
        vec![
            "ETH",
            "https://node.example",
            "eth_chainId",
            "2",
            "1",
            "12.35",
            "12.35",
            "12.35",
            "12.35",
            "12.35",
            "50.00",
        ]
    );
}
