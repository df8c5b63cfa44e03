use polygone::proxy::{HideProxy, HopAddr, IpAddress, ProxyConfig};

fn local(port: u16) -> HopAddr {
    HopAddr { ip: IpAddress::V4(0x7f00_0001), port }
}

fn cfg() -> ProxyConfig {
    ProxyConfig { bind: local(9051), guards: vec![local(4001)], exits: vec![local(5001)], rotation_ms: 600_000 }
}

#[test]
fn empty_start() {
    let p = HideProxy::new(cfg());
    assert_eq!(p.stats().active_conns, 0);
    assert_eq!(p.stats().bytes_relayed, 0);
}

#[test]
fn build_circuit() {
    let mut p = HideProxy::new(cfg());
    assert!(p.build_circuit().unwrap().starts_with("circ:"));
}

#[test]
fn refused_when_no_exits() {
    let mut c = cfg();
    c.exits.clear();
    let mut p = HideProxy::new(c);
    assert!(p.build_circuit().is_none());
    assert_eq!(p.stats().refused, 1);
}

#[test]
fn pick_reuses_circuit() {
    let mut p = HideProxy::new(cfg());
    let a = p.pick_circuit().unwrap();
    let b = p.pick_circuit().unwrap();
    assert_eq!(a, b);
}

#[test]
fn sweep_drops_expired() {
    let mut p = HideProxy::new(cfg());
    // Built at the epoch: long expired now.
    p.build_circuit_at(0).unwrap();
    assert_eq!(p.sweep(), 1);
}

#[test]
fn conn_counters() {
    let mut p = HideProxy::new(cfg());
    p.open_conn();
    p.open_conn();
    assert_eq!(p.stats().active_conns, 2);
    p.close_conn();
    assert_eq!(p.stats().active_conns, 1);
}

#[test]
fn circuit_id_names_the_ports() {
    let mut p = HideProxy::new(cfg());
    assert_eq!(p.build_circuit_at(10).unwrap(), "circ:4001:5001");
}

#[test]
fn dead_circuit_is_rebuilt() {
    let mut p = HideProxy::new(cfg());
    p.build_circuit_at(0).unwrap();
    // Alive up to 599 999 ms after it was built.
    assert_eq!(p.pick_circuit_at(599_999), Some("circ:4001:5001".to_string()));
    assert_eq!(p.sweep_at(599_999), 0);
    assert_eq!(p.pick_circuit_at(600_000), Some("circ:4001:5001".to_string()));
    assert_eq!(p.sweep_at(600_000), 0);
    assert_eq!(p.sweep_at(1_200_000), 1);
}

#[test]
fn counters_track_traffic_and_connections() {
    let mut p = HideProxy::new(cfg());
    assert_eq!(p.open_conn(), 1);
    assert_eq!(p.open_conn(), 2);
    p.record_traffic(1500);
    p.record_traffic(500);
    p.close_conn();
    p.close_conn();
    p.close_conn();
    let s = p.stats();
    assert_eq!((s.bytes_relayed, s.active_conns, s.total_conns, s.refused), (2000, 0, 2, 0));
}

#[test]
fn default_config_listens_locally() {
    let c = ProxyConfig::default();
    assert_eq!(c.bind, local(9050));
    assert_eq!(c.rotation_ms, 600_000);
    assert!(c.guards.is_empty() && c.exits.is_empty());
}
