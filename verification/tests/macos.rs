use polygone::resources::ServiceConfig;
use polygone::macos::{
    interface_from_route_mac, launchd_plist, parse_netstat, parse_ps_memory, parse_sysctl_cpu, parse_vm_stat, qos_class,
};

#[test]
fn sysctl_cpu_lines() {
    let c = parse_sysctl_cpu("10\n8\nApple M2 Pro\n");
    assert_eq!(c.cores, 10);
    assert_eq!(c.model, "Apple M2 Pro");
    assert_eq!(c.topology.sockets, 1);
    assert_eq!(c.topology.cores_per_socket, 8);
    assert_eq!(c.topology.threads_per_core, 1);
    let d = parse_sysctl_cpu("");
    assert_eq!((d.cores, d.topology.cores_per_socket, d.model.as_str()), (1, 1, "Apple Silicon"));
    let z = parse_sysctl_cpu("8\n0\n");
    assert_eq!(z.topology.threads_per_core, 8);
}

#[test]
fn vm_stat_free_pages() {
    let vm = "Mach Virtual Memory Statistics: (page size of 4096 bytes)\nPages free:                               12345.\nPages active:                             999.\n";
    let m = parse_vm_stat(" 17179869184\n", vm).unwrap();
    assert_eq!(m.total_bytes, 17_179_869_184);
    assert_eq!(m.free_bytes, 12345 * 4096);
    assert_eq!(m.available_bytes, 12345 * 4096);
    assert_eq!(m.used_bytes, 17_179_869_184 - 12345 * 4096);
    assert_eq!(m.swap_total_bytes, 0);
    let none = parse_vm_stat("junk", "").unwrap();
    assert_eq!((none.total_bytes, none.free_bytes), (0, 0));
    assert!(parse_vm_stat("1", "Pages free: 18446744073709551615.\n").is_none());
}

#[test]
fn ps_rss_and_vsz() {
    let m = parse_ps_memory("  RSS      VSZ\n 2048  409600\n").unwrap();
    assert_eq!(m.rss_bytes, 2048 * 1024);
    assert_eq!(m.vms_bytes, 409600 * 1024);
    assert_eq!(m.working_set_bytes, 2048 * 1024);
    let header_only = parse_ps_memory("RSS VSZ\n").unwrap();
    assert_eq!(header_only.rss_bytes, 0);
}

#[test]
fn netstat_interfaces() {
    let out = "Name  Mtu   Network       Address            Ipkts Ierrs     Ibytes    Opkts Oerrs     Obytes  Coll\n\
lo0   16384 <Link#1>                         100     0      5000      100     0      5000     0\n\
en0   1500  <Link#6>    aa:bb:cc:dd:ee:ff   2000     0   3000000     1500     0    400000     0\n\
short line\n";
    let b = parse_netstat(out);
    assert_eq!(b.interfaces.len(), 1);
    assert_eq!(b.interfaces[0].name, "en0");
    assert_eq!(b.interfaces[0].rx_bytes, 3_000_000);
    assert_eq!(b.interfaces[0].tx_bytes, 400_000);
    assert!(b.interfaces[0].is_up && !b.interfaces[0].is_loopback);
}

#[test]
fn route_interface_and_qos() {
    let out = "   route to: 1.1.1.1\ndestination: default\n  interface: en1\n      flags: <UP,GATEWAY>\n";
    assert_eq!(interface_from_route_mac(out), "en1");
    assert_eq!(interface_from_route_mac("nothing here\n"), "en0");
    assert_eq!(qos_class(19), 0);
    assert_eq!(qos_class(10), 0);
    assert_eq!(qos_class(5), 1);
    assert_eq!(qos_class(0), 1);
    assert_eq!(qos_class(-5), 2);
}

#[test]
fn launchd_agent_text() {
    let c = ServiceConfig {
        name: "polygoned".into(),
        display_name: "Polygone".into(),
        description: "daemon".into(),
        executable: "/usr/local/bin/polygoned".into(),
        args: vec!["--tier".into(), "eco".into()],
        env: vec![],
        auto_start: true,
        user: None,
    };
    let expected = "<?xml version=\"1.0\" encoding=\"UTF-8\"?>\n<!DOCTYPE plist PUBLIC \"-//Apple//DTD PLIST 1.0//EN\" \"http://www.apple.com/DTDs/PropertyList-1.0.dtd\">\n<plist version=\"1.0\"><dict>\n<key>Label</key><string>polygoned</string>\n<key>ProgramArguments</key><array><string>/usr/local/bin/polygoned</string><string>--tier</string><string>eco</string></array>\n<key>RunAtLoad</key><true/>\n<key>KeepAlive</key><true/>\n<key>StandardOutPath</key><string>/logs/polygoned.log</string>\n<key>StandardErrorPath</key><string>/logs/polygoned.err.log</string>\n</dict></plist>";
    assert_eq!(launchd_plist(&c, "/logs"), expected);
}
