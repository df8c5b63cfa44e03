use polygone::discovery::DiscoveryService;

#[test]
fn test_discovery_service() {
    let service = DiscoveryService::new();
    assert_eq!(service.peer_count(), 0);
    assert!(!service.has_peers());
}

#[test]
fn peers_are_recorded_once() {
    let mut s = DiscoveryService::default();
    s.record_peer("12D3KooWA".to_string());
    s.record_peer("12D3KooWB".to_string());
    s.record_peer("12D3KooWA".to_string());
    assert_eq!(s.peer_count(), 2);
    assert!(s.has_peers());
    assert_eq!(s.get_peers(), vec!["12D3KooWA".to_string(), "12D3KooWB".to_string()]);
}

#[test]
fn bootstrap_nodes_and_clearing() {
    let mut s = DiscoveryService::new();
    s.add_bootstrap("boot-1".to_string());
    s.add_bootstrap("boot-1".to_string());
    s.record_peer("p".to_string());
    assert_eq!(s.bootstrap_count(), 2);
    s.clear_peers();
    assert_eq!(s.peer_count(), 0);
    assert_eq!(s.bootstrap_count(), 2);
}
