//! Readings of the macOS tools the daemon runs: `sysctl`, `vm_stat`, `ps`,
//! `netstat -ibn` and `route -n get`. Running them belongs to the program
//! around the library.

use vstd::prelude::*;
use crate::numfmt::{parse_unsigned, parse_unsigned_u64};
use crate::procfs::{contains_text, find_sub, number_or_zero};
use crate::resources::{BandwidthInfo, CpuInfo, CpuTopology, MemoryInfo, NetInterface, ProcessMemory, ServiceConfig};
use crate::text::{
    chars_of, lines, owned, push_str, seq_starts_with, split_any, split_any_spec, split_lines, split_words,
    str_eq, string_from_chars, strings_view, trim, trimmed, words,
};

verus! {

/// A `usize` as `str::parse` reads it, or `default`.
pub open spec fn usize_or(t: Seq<char>, default: nat) -> nat {
    match parse_unsigned(t, usize::MAX as nat) {
        Some(v) => v,
        None => default,
    }
}

fn read_usize_or(s: &str, default: usize) -> (res: usize)
    ensures
        res == usize_or(s@, default as nat),
{
    let cs = chars_of(s);
    match parse_unsigned_u64(cs.as_slice(), usize::MAX as u64) {
        Some(v) => v as usize,
        None => default,
    }
}

fn read_u64_or_zero(s: &str) -> (res: u64)
    ensures
        res == number_or_zero(s@),
{
    let cs = chars_of(s);
    match parse_unsigned_u64(cs.as_slice(), 0xffff_ffff_ffff_ffff) {
        Some(v) => v,
        None => 0,
    }
}

/// Line `i` of a text, or `default` when there is none.
pub open spec fn line_or(ls: Seq<Seq<char>>, i: int, default: Seq<char>) -> Seq<char> {
    if 0 <= i < ls.len() { ls[i] } else { default }
}

/// What `sysctl -n hw.logicalcpu hw.physicalcpu machdep.cpu.brand_string`
/// says: logical cores (1 when unreadable), physical cores (1 when
/// unreadable) and the model (`Apple Silicon` when missing).
pub open spec fn sysctl_cpu(out: Seq<char>) -> (nat, nat, Seq<char>) {
    let ls = split_lines(out);
    (usize_or(line_or(ls, 0, "1"@), 1), usize_or(line_or(ls, 1, "1"@), 1), line_or(ls, 2, "Apple Silicon"@))
}

/// The CPU `sysctl` describes: one socket, the physical cores per socket,
/// and logical cores over physical (at least one) threads per core.
pub fn parse_sysctl_cpu(out: &str) -> (res: CpuInfo)
    ensures
        res.cores == sysctl_cpu(out@).0,
        res.model@ == sysctl_cpu(out@).2,
        res.topology.sockets == 1,
        res.topology.cores_per_socket == sysctl_cpu(out@).1,
        res.topology.threads_per_core == sysctl_cpu(out@).0 / (if sysctl_cpu(out@).1 >= 1 { sysctl_cpu(out@).1 } else { 1 }),
        res.per_core@.len() == 0,
{
    let ls = lines(out);
    let ghost lv = strings_view(ls@);
    assert(lv == split_lines(out@));
    let logical = if ls.len() > 0 {
        assert(lv[0] == ls@[0]@);
        read_usize_or(ls[0].as_str(), 1)
    } else {
        read_usize_or("1", 1)
    };
    let physical = if ls.len() > 1 {
        assert(lv[1] == ls@[1]@);
        read_usize_or(ls[1].as_str(), 1)
    } else {
        read_usize_or("1", 1)
    };
    let model = if ls.len() > 2 {
        assert(lv[2] == ls@[2]@);
        ls[2].clone()
    } else {
        owned("Apple Silicon")
    };
    let per = if physical >= 1 { physical } else { 1 };
    CpuInfo {
        cores: logical,
        model,
        topology: CpuTopology { sockets: 1, cores_per_socket: physical, threads_per_core: logical / per },
        per_core: Vec::new(),
    }
}

/// `s` without the dots at its end (`trim_end_matches('.')`).
pub open spec fn without_dots(s: Seq<char>) -> Seq<char>
    decreases s.len(),
{
    if s.len() > 0 && s.last() == '.' {
        without_dots(s.drop_last())
    } else {
        s
    }
}

fn strip_dots(s: &str) -> (res: String)
    ensures
        res@ == without_dots(s@),
{
    let cs = chars_of(s);
    let mut end = cs.len();
    proof {
        assert(cs@.take(end as int) =~= s@);
    }
    while end > 0 && cs[end - 1] == '.'
        invariant
            0 <= end <= cs@.len(),
            cs@ == s@,
            without_dots(s@) == without_dots(cs@.take(end as int)),
        decreases end,
    {
        proof {
            assert(cs@.take(end as int).drop_last() =~= cs@.take(end - 1));
        }
        end = end - 1;
    }
    proof {
        assert(cs@.take(end as int) =~= cs@.subrange(0, end as int));
    }
    string_from_chars(cs.as_slice(), 0, end)
}

/// The free pages a `vm_stat` line gives: its third word (or `0`) without
/// trailing dots, read as a number (0 when it is not one).
pub open spec fn pages_of(line: Seq<char>) -> nat {
    let w = words(line);
    number_or_zero(without_dots(if w.len() >= 3 { w[2] } else { "0"@ }))
}

/// The free pages the last line holding `Pages free:` gives, or 0.
pub open spec fn free_pages(ls: Seq<Seq<char>>) -> nat
    decreases ls.len(),
{
    if ls.len() == 0 {
        0
    } else if find_sub(ls.last(), "Pages free:"@) >= 0 {
        pages_of(ls.last())
    } else {
        free_pages(ls.drop_last())
    }
}

/// Bytes per page.
pub const PAGE_SIZE: u64 = 4096;

/// What `sysctl -n hw.memsize` (`total_out`) and `vm_stat` (`vm_out`) say:
/// total, available, used and free memory in bytes, no swap. `None` when
/// the free bytes would not fit in 64 bits.
pub open spec fn vm_reading(total_out: Seq<char>, vm_out: Seq<char>) -> Option<(nat, nat, nat, nat)> {
    let total = number_or_zero(trimmed(total_out));
    let free = free_pages(split_lines(vm_out)) * 4096;
    if free <= 0xffff_ffff_ffff_ffff {
        Some((total, free, (if total >= free { total - free } else { 0 }) as nat, free))
    } else {
        None
    }
}

/// Reads the memory of a Mac from `sysctl` and `vm_stat`.
pub fn parse_vm_stat(total_out: &str, vm_out: &str) -> (res: Option<MemoryInfo>)
    ensures
        match vm_reading(total_out@, vm_out@) {
            Some((t, a, u, f)) => res matches Some(m) && m.total_bytes == t && m.available_bytes == a && m.used_bytes == u
                && m.free_bytes == f && m.swap_total_bytes == 0 && m.swap_free_bytes == 0,
            None => res is None,
        },
{
    let t = trim(total_out);
    let total = read_u64_or_zero(t.as_str());
    let ls = lines(vm_out);
    let ghost lv = strings_view(ls@);
    assert(lv == split_lines(vm_out@));
    let mut pages: u64 = 0;
    let mut i: usize = 0;
    while i < ls.len()
        invariant
            0 <= i <= ls@.len(),
            lv == strings_view(ls@),
            pages == free_pages(lv.take(i as int)),
        decreases ls@.len() - i,
    {
        proof {
            assert(lv.take(i + 1).drop_last() =~= lv.take(i as int));
            assert(lv.take(i + 1).last() == ls@[i as int]@);
        }
        if contains_text(ls[i].as_str(), "Pages free:") {
            let w = split_words(ls[i].as_str());
            proof {
                assert(strings_view(w@) == words(ls@[i as int]@));
            }
            let third = if w.len() >= 3 {
                proof {
                    assert(strings_view(w@)[2] == w@[2]@);
                }
                strip_dots(w[2].as_str())
            } else {
                strip_dots("0")
            };
            pages = read_u64_or_zero(third.as_str());
        }
        i = i + 1;
    }
    proof {
        assert(lv.take(ls@.len() as int) =~= lv);
    }
    if pages > 0xffff_ffff_ffff_ffff / 4096 {
        proof {
            assert(pages * 4096 > 0xffff_ffff_ffff_ffffu64) by (nonlinear_arith)
                requires
                    pages > 0xffff_ffff_ffff_ffffu64 / 4096,
            ;
        }
        return None;
    }
    let free = pages * PAGE_SIZE;
    Some(MemoryInfo {
        total_bytes: total,
        available_bytes: free,
        used_bytes: total.saturating_sub(free),
        free_bytes: free,
        swap_total_bytes: 0,
        swap_free_bytes: 0,
    })
}

/// The `(rss, vsz)` KiB of the last line of exactly two words after the
/// header of `ps -o rss,vsz`, or `(0, 0)` without one.
pub open spec fn ps_pair(ls: Seq<Seq<char>>) -> (nat, nat)
    decreases ls.len(),
{
    if ls.len() == 0 {
        (0, 0)
    } else if words(ls.last()).len() == 2 {
        (number_or_zero(words(ls.last())[0]), number_or_zero(words(ls.last())[1]))
    } else {
        ps_pair(ls.drop_last())
    }
}

/// Every pair line's bytes fit in 64 bits.
pub open spec fn ps_fits(line: Seq<char>) -> bool {
    let w = words(line);
    w.len() == 2 ==> number_or_zero(w[0]) * 1024 <= 0xffff_ffff_ffff_ffff && number_or_zero(w[1]) * 1024
        <= 0xffff_ffff_ffff_ffff
}

/// The lines of a text after its first (the header).
pub open spec fn body_lines(out: Seq<char>) -> Seq<Seq<char>> {
    let ls = split_lines(out);
    if ls.len() == 0 { ls } else { ls.drop_first() }
}

/// What `ps -o rss,vsz -p <pid>` says of a process, in bytes: resident
/// size, virtual size, and the resident size again as its working set.
/// `None` when a value would not fit in 64 bits.
pub open spec fn ps_reading(out: Seq<char>) -> Option<(nat, nat)> {
    let ls = body_lines(out);
    if forall|i: int| 0 <= i < ls.len() ==> ps_fits(#[trigger] ls[i]) {
        Some((ps_pair(ls).0 * 1024, ps_pair(ls).1 * 1024))
    } else {
        None
    }
}

/// Reads a process's memory from the output of `ps`.
pub fn parse_ps_memory(out: &str) -> (res: Option<ProcessMemory>)
    ensures
        match ps_reading(out@) {
            Some((rss, vms)) => res matches Some(m) && m.rss_bytes == rss && m.vms_bytes == vms
                && m.working_set_bytes == rss,
            None => res is None,
        },
{
    let ls = lines(out);
    let ghost all = strings_view(ls@);
    assert(all == split_lines(out@));
    let ghost lv = body_lines(out@);
    let mut rss: u64 = 0;
    let mut vms: u64 = 0;
    if ls.len() == 0 {
        assert(lv.len() == 0);
        return Some(ProcessMemory { rss_bytes: 0, vms_bytes: 0, working_set_bytes: 0 });
    }
    let mut i: usize = 1;
    proof {
        assert(lv.take(0) =~= Seq::<Seq<char>>::empty());
    }
    while i < ls.len()
        invariant
            1 <= i <= ls@.len(),
            all == strings_view(ls@),
            all == split_lines(out@),
            lv == body_lines(out@),
            lv == all.drop_first(),
            forall|j: int| 0 <= j < i - 1 ==> ps_fits(#[trigger] lv[j]),
            rss == ps_pair(lv.take(i - 1)).0 * 1024,
            vms == ps_pair(lv.take(i - 1)).1 * 1024,
        decreases ls@.len() - i,
    {
        proof {
            assert(lv.take(i as int).drop_last() =~= lv.take(i - 1));
            assert(lv.take(i as int).last() == ls@[i as int]@);
            assert(lv[i - 1] == ls@[i as int]@);
        }
        let w = split_words(ls[i].as_str());
        proof {
            assert(strings_view(w@) == words(ls@[i as int]@));
        }
        if w.len() == 2 {
            proof {
                assert(strings_view(w@)[0] == w@[0]@);
                assert(strings_view(w@)[1] == w@[1]@);
            }
            let a = read_u64_or_zero(w[0].as_str());
            let b = read_u64_or_zero(w[1].as_str());
            if a > 0xffff_ffff_ffff_ffff / 1024 || b > 0xffff_ffff_ffff_ffff / 1024 {
                proof {
                    if a > 0xffff_ffff_ffff_ffffu64 / 1024 {
                        assert(a * 1024 > 0xffff_ffff_ffff_ffffu64) by (nonlinear_arith)
                            requires
                                a > 0xffff_ffff_ffff_ffffu64 / 1024,
                        ;
                    } else {
                        assert(b * 1024 > 0xffff_ffff_ffff_ffffu64) by (nonlinear_arith)
                            requires
                                b > 0xffff_ffff_ffff_ffffu64 / 1024,
                        ;
                    }
                    assert(!ps_fits(lv[i - 1]));
                }
                return None;
            }
            rss = a * 1024;
            vms = b * 1024;
        }
        i = i + 1;
    }
    proof {
        assert(lv.take(i - 1) =~= lv);
    }
    Some(ProcessMemory { rss_bytes: rss, vms_bytes: vms, working_set_bytes: rss })
}

/// An interface as plain values: name and received and sent bytes.
pub type MacIfaceView = (Seq<char>, u64, u64);

/// The interface a `netstat -ibn` line describes: ten words or more, the
/// loopback `lo0` excepted.
pub open spec fn netstat_entry(line: Seq<char>) -> Option<MacIfaceView> {
    let w = words(line);
    if w.len() >= 10 && w[0] != "lo0"@ {
        Some((w[0], number_or_zero(w[6]) as u64, number_or_zero(w[9]) as u64))
    } else {
        None
    }
}

/// The interfaces of some lines, in order.
pub open spec fn netstat_entries(ls: Seq<Seq<char>>) -> Seq<MacIfaceView>
    decreases ls.len(),
{
    if ls.len() == 0 {
        Seq::empty()
    } else {
        match netstat_entry(ls.last()) {
            Some(e) => netstat_entries(ls.drop_last()).push(e),
            None => netstat_entries(ls.drop_last()),
        }
    }
}

/// An interface reading as the plain values `netstat` gives.
pub open spec fn mac_iface_view(i: NetInterface) -> MacIfaceView {
    (i.name@, i.rx_bytes, i.tx_bytes)
}

/// Reads `netstat -ibn`: every interface line but the loopback's, each up,
/// with its received and sent bytes and nothing else known.
pub fn parse_netstat(out: &str) -> (res: BandwidthInfo)
    ensures
        res.interfaces@.map_values(|i: NetInterface| mac_iface_view(i)) == netstat_entries(body_lines(out@)),
        forall|k: int| 0 <= k < res.interfaces@.len() ==> {
            let i = #[trigger] res.interfaces@[k];
            i.rx_packets == 0 && i.tx_packets == 0 && i.rx_errors == 0 && i.tx_errors == 0 && i.speed_mbps == 0
                && i.is_up && !i.is_loopback
        },
{
    let ls = lines(out);
    let ghost all = strings_view(ls@);
    assert(all == split_lines(out@));
    let ghost lv = body_lines(out@);
    let mut found: Vec<NetInterface> = Vec::new();
    if ls.len() == 0 {
        assert(lv.len() == 0);
        assert(found@.map_values(|i: NetInterface| mac_iface_view(i)) =~= Seq::<MacIfaceView>::empty());
        return BandwidthInfo { interfaces: found };
    }
    let mut i: usize = 1;
    while i < ls.len()
        invariant
            1 <= i <= ls@.len(),
            all == strings_view(ls@),
            lv == all.drop_first(),
            found@.map_values(|i: NetInterface| mac_iface_view(i)) == netstat_entries(lv.take(i - 1)),
            forall|k: int| 0 <= k < found@.len() ==> {
                let x = #[trigger] found@[k];
                x.rx_packets == 0 && x.tx_packets == 0 && x.rx_errors == 0 && x.tx_errors == 0 && x.speed_mbps == 0
                    && x.is_up && !x.is_loopback
            },
        decreases ls@.len() - i,
    {
        proof {
            assert(lv.take(i as int).drop_last() =~= lv.take(i - 1));
            assert(lv.take(i as int).last() == ls@[i as int]@);
        }
        let w = split_words(ls[i].as_str());
        proof {
            assert(strings_view(w@) == words(ls@[i as int]@));
        }
        if w.len() >= 10 && !str_eq(w[0].as_str(), "lo0") {
            proof {
                assert(strings_view(w@)[0] == w@[0]@);
                assert(strings_view(w@)[6] == w@[6]@);
                assert(strings_view(w@)[9] == w@[9]@);
            }
            let ghost before = found@;
            let iface = NetInterface {
                name: w[0].clone(),
                rx_bytes: read_u64_or_zero(w[6].as_str()),
                tx_bytes: read_u64_or_zero(w[9].as_str()),
                rx_packets: 0,
                tx_packets: 0,
                rx_errors: 0,
                tx_errors: 0,
                speed_mbps: 0,
                is_up: true,
                is_loopback: false,
            };
            found.push(iface);
            proof {
                assert(found@.map_values(|i: NetInterface| mac_iface_view(i)) =~= before.map_values(
                    |i: NetInterface| mac_iface_view(i),
                ).push(mac_iface_view(iface)));
            }
        }
        i = i + 1;
    }
    proof {
        assert(lv.take(i - 1) =~= lv);
    }
    BandwidthInfo { interfaces: found }
}

/// The interface `route -n get` names: on the first line that starts with
/// `interface:` once trimmed, its second `:`-separated field, trimmed; `en0`
/// when there is no such line.
pub open spec fn route_interface_mac(ls: Seq<Seq<char>>) -> Seq<char>
    decreases ls.len(),
{
    if ls.len() == 0 {
        "en0"@
    } else if seq_starts_with(trimmed(ls[0]), "interface:"@) {
        let f = split_any_spec(ls[0], seq![':']);
        trimmed(if f.len() >= 2 { f[1] } else { "en0"@ })
    } else {
        route_interface_mac(ls.drop_first())
    }
}

/// The interface the default route leaves by, from `route -n get`.
pub fn interface_from_route_mac(out: &str) -> (res: String)
    ensures
        res@ == route_interface_mac(split_lines(out@)),
{
    let ls = lines(out);
    let ghost lv = strings_view(ls@);
    assert(lv == split_lines(out@));
    let colon: [char; 1] = [':'];
    assert(colon@ =~= seq![':']);
    let mut i: usize = 0;
    proof {
        assert(lv.skip(0) =~= lv);
    }
    while i < ls.len()
        invariant
            0 <= i <= ls@.len(),
            lv == strings_view(ls@),
            lv == split_lines(out@),
            colon@ == seq![':'],
            route_interface_mac(lv) == route_interface_mac(lv.skip(i as int)),
        decreases ls@.len() - i,
    {
        proof {
            assert(lv.skip(i as int)[0] == ls@[i as int]@);
            assert(lv.skip(i as int).drop_first() =~= lv.skip(i + 1));
        }
        let t = trim(ls[i].as_str());
        let sp = crate::text::strip_prefix(t.as_str(), "interface:");
        if sp.is_some() {
            proof {
                assert(seq_starts_with(trimmed(lv.skip(i as int)[0]), "interface:"@));
            }
            let f = split_any(ls[i].as_str(), &colon);
            if f.len() >= 2 {
                proof {
                    assert(strings_view(f@)[1] == f@[1]@);
                }
                return trim(f[1].as_str());
            } else {
                return trim("en0");
            }
        }
        i = i + 1;
    }
    proof {
        assert(lv.skip(i as int) =~= Seq::<Seq<char>>::empty());
    }
    owned("en0")
}

/// The QoS class a priority level maps to: background (0) from 10 up,
/// utility (1) from 0 to 9, user-initiated (2) below 0.
pub fn qos_class(level: i32) -> (res: u8)
    ensures
        res == (if level >= 10 { 0u8 } else if level >= 0 { 1u8 } else { 2u8 }),
{
    if level >= 10 {
        0
    } else if level >= 0 {
        1
    } else {
        2
    }
}


/// Each argument as a plist `<string>` element, one after another.
pub open spec fn string_items(args: Seq<Seq<char>>) -> Seq<char>
    decreases args.len(),
{
    if args.len() == 0 {
        Seq::empty()
    } else {
        string_items(args.drop_last()) + "<string>"@ + args.last() + "</string>"@
    }
}

/// The launchd agent that runs a service: its label, the program and its
/// arguments, started at load and kept alive, logging under `log_dir`.
pub open spec fn launchd_plist_text(c: ServiceConfig, log_dir: Seq<char>) -> Seq<char> {
    "<?xml version=\"1.0\" encoding=\"UTF-8\"?>\n<!DOCTYPE plist PUBLIC \"-//Apple//DTD PLIST 1.0//EN\" \"http://www.apple.com/DTDs/PropertyList-1.0.dtd\">\n<plist version=\"1.0\"><dict>\n<key>Label</key><string>"@
        + c.name@ + "</string>\n<key>ProgramArguments</key><array><string>"@ + c.executable@ + "</string>"@
        + string_items(c.args@.map_values(|a: String| a@))
        + "</array>\n<key>RunAtLoad</key><true/>\n<key>KeepAlive</key><true/>\n<key>StandardOutPath</key><string>"@
        + log_dir + "/polygoned.log</string>\n<key>StandardErrorPath</key><string>"@ + log_dir
        + "/polygoned.err.log</string>\n</dict></plist>"@
}

/// The text of the launchd agent for a service, logging under `log_dir`.
pub fn launchd_plist(c: &ServiceConfig, log_dir: &str) -> (res: String)
    ensures
        res@ == launchd_plist_text(*c, log_dir@),
{
    let mut s = owned("<?xml version=\"1.0\" encoding=\"UTF-8\"?>\n<!DOCTYPE plist PUBLIC \"-//Apple//DTD PLIST 1.0//EN\" \"http://www.apple.com/DTDs/PropertyList-1.0.dtd\">\n<plist version=\"1.0\"><dict>\n<key>Label</key><string>");
    push_str(&mut s, c.name.as_str());
    push_str(&mut s, "</string>\n<key>ProgramArguments</key><array><string>");
    push_str(&mut s, c.executable.as_str());
    push_str(&mut s, "</string>");
    let ghost head = s@;
    let ghost av = c.args@.map_values(|a: String| a@);
    let mut i: usize = 0;
    while i < c.args.len()
        invariant
            0 <= i <= c.args@.len(),
            av == c.args@.map_values(|a: String| a@),
            s@ == head + string_items(av.take(i as int)),
        decreases c.args@.len() - i,
    {
        proof {
            assert(av.take(i + 1).drop_last() =~= av.take(i as int));
            assert(av.take(i + 1).last() == c.args@[i as int]@);
        }
        push_str(&mut s, "<string>");
        push_str(&mut s, c.args[i].as_str());
        push_str(&mut s, "</string>");
        proof {
            assert(s@ =~= head + string_items(av.take(i + 1)));
        }
        i = i + 1;
    }
    proof {
        assert(av.take(c.args@.len() as int) =~= av);
    }
    push_str(&mut s, "</array>\n<key>RunAtLoad</key><true/>\n<key>KeepAlive</key><true/>\n<key>StandardOutPath</key><string>");
    push_str(&mut s, log_dir);
    push_str(&mut s, "/polygoned.log</string>\n<key>StandardErrorPath</key><string>");
    push_str(&mut s, log_dir);
    push_str(&mut s, "/polygoned.err.log</string>\n</dict></plist>");
    s
}

} // verus!
