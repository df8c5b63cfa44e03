use polygone::procfs::{parse_lscpu, cgroup_path, parse_process_status};
use polygone::procfs::{interface_from_route, parse_meminfo, parse_net_dev};
use polygone::resources::{primary_interface_name, systemd_unit, BandwidthInfo, NetInterface, ServiceConfig};

const MEMINFO: &str = "MemTotal:       16000000 kB\nMemFree:         2000000 kB\nMemAvailable:    8000000 kB\nBuffers:          100 kB\nSwapTotal:       1000 kB\nSwapFree:         500 kB\n";

#[test]
fn meminfo_in_bytes() {
    let m = parse_meminfo(MEMINFO).unwrap();
    assert_eq!(m.total_bytes, 16_000_000 * 1024);
    assert_eq!(m.free_bytes, 2_000_000 * 1024);
    assert_eq!(m.available_bytes, 8_000_000 * 1024);
    assert_eq!(m.used_bytes, 8_000_000 * 1024);
    assert_eq!(m.swap_total_bytes, 1000 * 1024);
    assert_eq!(m.swap_free_bytes, 500 * 1024);
}

#[test]
fn meminfo_missing_and_overflowing_values() {
    let m = parse_meminfo("MemTotal: 10 kB\nMemAvailable: 20 kB\nMemFree: junk kB\n").unwrap();
    assert_eq!(m.used_bytes, 0);
    assert_eq!(m.free_bytes, 0);
    assert_eq!(m.swap_total_bytes, 0);
    assert!(parse_meminfo("Huge: 18446744073709551615 kB\n").is_none());
}

const NETDEV: &str = "Inter-|   Receive                                                |  Transmit\n face |bytes    packets errs drop fifo frame compressed multicast|bytes    packets errs drop fifo colls carrier compressed\n    lo: 500 5 0 0 0 0 0 0 500 5 0 0 0 0 0 0\n  eth0: 1000 10 1 0 0 0 0 0 2000 20 2 0 0 0 0 0\nshort: 1 2\n";

#[test]
fn net_dev_skips_loopback_and_headers() {
    let b = parse_net_dev(NETDEV);
    assert_eq!(b.interfaces.len(), 1);
    let e = &b.interfaces[0];
    assert_eq!(e.name, "eth0");
    assert_eq!((e.rx_bytes, e.tx_bytes), (1000, 2000));
    assert_eq!((e.rx_packets, e.tx_packets), (10, 20));
    assert_eq!((e.rx_errors, e.tx_errors), (1, 2));
    assert!(e.is_up && !e.is_loopback);
    assert_eq!(b.primary_rx_tx(), (1000, 2000));
    assert_eq!(primary_interface_name(&b), "eth0");
}

#[test]
fn route_names_the_device() {
    assert_eq!(interface_from_route("1.1.1.1 via 192.168.1.1 dev wlan0 src 192.168.1.5 uid 1000\n"), "wlan0");
    assert_eq!(interface_from_route("unreachable"), "eth0");
    assert_eq!(interface_from_route("x dev "), "eth0");
}

#[test]
fn primary_interface_skips_down_and_loopback() {
    let iface = |name: &str, up: bool, lo: bool, rx: u64| NetInterface {
        name: name.into(),
        rx_bytes: rx,
        tx_bytes: rx / 2,
        rx_packets: 0,
        tx_packets: 0,
        rx_errors: 0,
        tx_errors: 0,
        speed_mbps: 0,
        is_up: up,
        is_loopback: lo,
    };
    let b = BandwidthInfo { interfaces: vec![iface("lo", true, true, 9), iface("eth0", false, false, 7), iface("wlan0", true, false, 40)] };
    assert_eq!(b.primary_rx_tx(), (40, 20));
    assert_eq!(b.total_rx_tx(), (47, 23));
    assert_eq!(primary_interface_name(&BandwidthInfo { interfaces: vec![] }), "unknown");
}

#[test]
fn systemd_unit_text() {
    let c = ServiceConfig {
        name: "polygoned".into(),
        display_name: "Polygone".into(),
        description: "Polygone daemon".into(),
        executable: "/usr/bin/polygoned".into(),
        args: vec!["--tier".into(), "eco".into()],
        env: vec![("RUST_LOG".into(), "info".into()), ("A".into(), "b".into())],
        auto_start: true,
        user: None,
    };
    assert_eq!(
        systemd_unit(&c),
        "[Unit]\nDescription=Polygone daemon\nAfter=network.target\n\n[Service]\nType=simple\nExecStart=/usr/bin/polygoned --tier eco\nEnvironment=RUST_LOG=info A=b\nRestart=on-failure\nRestartSec=5\n\n[Install]\nWantedBy=default.target\n"
    );
}

#[test]
fn process_status_gives_rss_and_size() {
    let status = "Name:\tpolygoned\nVmPeak:\t  9000 kB\nVmSize:\t  8192 kB\nVmRSS:\t  1024 kB\nThreads:\t4\n";
    let m = parse_process_status(status).unwrap();
    assert_eq!(m.rss_bytes, 1024 * 1024);
    assert_eq!(m.vms_bytes, 8192 * 1024);
    assert_eq!(m.working_set_bytes, 0);
    let later_wins = parse_process_status("VmRSS: 1 kB\nVmRSS: 2 kB\nVmSize:\n").unwrap();
    assert_eq!(later_wins.rss_bytes, 2048);
    assert_eq!(later_wins.vms_bytes, 0);
    assert!(parse_process_status("VmRSS: 18446744073709551615 kB\n").is_none());
    let empty = parse_process_status("").unwrap();
    assert_eq!((empty.rss_bytes, empty.vms_bytes), (0, 0));
}

#[test]
fn cgroup_path_is_relative_to_the_mount() {
    assert_eq!(cgroup_path("0::/user.slice/user-1000.slice/session-2.scope\n").as_deref(), Some("user.slice/user-1000.slice/session-2.scope"));
    assert_eq!(cgroup_path("0::/\n").as_deref(), Some(""));
    assert_eq!(cgroup_path("12:memory:/docker/abc:def\n1:cpu:/x").as_deref(), Some("docker/abc"));
    assert_eq!(cgroup_path("garbage"), None);
    assert_eq!(cgroup_path(""), None);
}

#[test]
fn lscpu_fields_are_read_by_name() {
    let json = br#"{"lscpu":[{"field":"Model name","data":"Ryzen"},{"field":"CPU(s)","data":"16"},{"field":"Socket(s)","data":"2"},{"field":"Thread(s) per core","data":"2"},{"field":"CPU(s)","data":"99"}]}"#;
    let c = parse_lscpu(json).unwrap();
    assert_eq!(c.cores, 16);
    assert_eq!(c.topology.sockets, 2);
    // Missing: the CPUs over the sockets.
    assert_eq!(c.topology.cores_per_socket, 8);
    assert_eq!(c.topology.threads_per_core, 2);
    assert_eq!(c.model, "Ryzen");
    assert!(c.per_core.is_empty());
}

#[test]
fn lscpu_defaults_and_errors() {
    // No array, or fields that are not numbers: counts of one, no model.
    let c = parse_lscpu(br#"{"other":1}"#).unwrap();
    assert_eq!((c.cores, c.topology.sockets, c.topology.cores_per_socket, c.topology.threads_per_core), (1, 1, 1, 1));
    assert_eq!(c.model, "");
    let c = parse_lscpu(br#"{"lscpu":[{"field":"CPU(s)","data":"many"},{"field":"Socket(s)","data":"0"}]}"#).unwrap();
    assert_eq!((c.cores, c.topology.sockets, c.topology.cores_per_socket), (1, 0, 1));
    // Field names carry no colon here, as they are looked up.
    let c = parse_lscpu(br#"{"lscpu":[{"field":"CPU(s):","data":"8"}]}"#).unwrap();
    assert_eq!(c.cores, 1);
    assert!(parse_lscpu(b"not json").is_none());
}
