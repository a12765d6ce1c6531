use eth_rpc_check::chains::{Chain, ConnectionType};
use eth_rpc_check::rpc::{Config, RpcManager, WebSocketManager};

#[test]
fn wss_address_is_persistent() {
    let c = Chain::new("ETH-WS", "wss://x");
    assert_eq!(c.connection_type, ConnectionType::WebSocket);
    assert_eq!(c.name, "ETH-WS");
    assert_eq!(c.rpc_url, "wss://x");
}

#[test]
fn ws_address_is_persistent() {
    let c = Chain::new("ETH-WS", "ws://node.example");
    assert_eq!(c.connection_type, ConnectionType::WebSocket);
}

#[test]
fn https_address_is_http() {
    let c = Chain::new("ETH", "https://x");
    assert_eq!(c.connection_type, ConnectionType::Http);
}

#[test]
fn classification_is_deterministic() {
    let a = Chain::new("A", "wss://same.example");
    let b = Chain::new("B", "wss://same.example");
    assert_eq!(a.connection_type, b.connection_type);
}

#[test]
fn explicit_constructors_fix_the_kind() {
    let h = Chain::new_http("H", "wss://odd");
    assert_eq!(h.connection_type, ConnectionType::Http);
    let w = Chain::new_ws("W", "https://odd");
    assert_eq!(w.connection_type, ConnectionType::WebSocket);
}

#[test]
fn default_config_values() {
    let c = Config::default();
    assert_eq!(c.http_timeout_secs, 10);
    assert_eq!(c.ws_timeout_secs, 15);
    assert_eq!(c.request_delay_ms, 100);
    assert_eq!(c.max_concurrent_requests, 10);
}

#[test]
fn registry_reuses_one_connection_per_address() {
    let mut registry = WebSocketManager::new(Config::default());
    let mut establishments = 0;
    for _ in 0..2 {
        match registry.lookup("wss://pool.example") {
            Some(h) => assert_eq!(h, 41),
            None => {
                establishments += 1;
                registry.register("wss://pool.example", 41);
            }
        }
    }
    assert_eq!(establishments, 1);
    assert_eq!(registry.connection_count(), 1);
}

#[test]
fn registry_tracks_addresses_separately() {
    let mut registry = WebSocketManager::new(Config::default());
    registry.register("wss://a.example", 1);
    registry.register("wss://b.example", 2);
    assert_eq!(registry.lookup("wss://a.example"), Some(1));
    assert_eq!(registry.lookup("wss://b.example"), Some(2));
    assert_eq!(registry.lookup("wss://c.example"), None);
    assert_eq!(registry.connection_count(), 2);
}

#[test]
fn drain_returns_every_handle_and_empties() {
    let mut registry = WebSocketManager::new(Config::default());
    registry.register("wss://a.example", 10);
    registry.register("wss://b.example", 20);
    let handles = registry.drain_handles();
    assert_eq!(handles, vec![10, 20]);
    assert_eq!(registry.connection_count(), 0);
    assert_eq!(registry.lookup("wss://a.example"), None);
}

#[test]
fn manager_close_hands_back_handles() {
    let mut manager = RpcManager::new(Config::default());
    manager.ws_manager.register("wss://a.example", 3);
    let handles = manager.close();
    assert_eq!(handles, vec![3]);
    assert_eq!(manager.ws_manager.connection_count(), 0);
}
