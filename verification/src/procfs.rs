//! Readings of Linux's text reports: `/proc/meminfo`, `/proc/self/status`,
//! `/proc/self/cgroup`, `/proc/net/dev` and the output of `ip route get`
//! and `lscpu -J`.
//! Reading the files and running the tool belong to the program around the
//! library.

use vstd::prelude::*;
use crate::numfmt::{parse_unsigned, parse_unsigned_u64};
use crate::resources::{BandwidthInfo, CpuInfo, CpuTopology, MemoryInfo, NetInterface, ProcessMemory};
use crate::vllm::json_parses;
use crate::text::{
    chars_of, lines, owned, seq_starts_with, split_any, split_any_spec, split_lines, split_words, str_eq,
    strip_prefix, string_from_chars, strings_view, words, first_word, first_word_of,
};

verus! {

/// A decimal `u64` as `str::parse` reads it, or 0.
pub open spec fn number_or_zero(s: Seq<char>) -> nat {
    match parse_unsigned(s, 0xffff_ffff_ffff_ffff) {
        Some(v) => v,
        None => 0,
    }
}

fn read_number(s: &str) -> (res: u64)
    ensures
        res == number_or_zero(s@),
{
    let cs = chars_of(s);
    match parse_unsigned_u64(cs.as_slice(), 0xffff_ffff_ffff_ffff) {
        Some(v) => v,
        None => 0,
    }
}

/// A `/proc/meminfo` line's value in bytes fits in 64 bits (every line of
/// two words or more has its second word read as KiB).
pub open spec fn kib_fits(line: Seq<char>) -> bool {
    let w = words(line);
    w.len() >= 2 ==> number_or_zero(w[1]) * 1024 <= 0xffff_ffff_ffff_ffff
}

/// The bytes the last line named `key` gives (its second word, in KiB),
/// or 0 without one.
pub open spec fn meminfo_field(ls: Seq<Seq<char>>, key: Seq<char>) -> nat
    decreases ls.len(),
{
    if ls.len() == 0 {
        0
    } else {
        let w = words(ls.last());
        if w.len() >= 2 && w[0] == key {
            number_or_zero(w[1]) * 1024
        } else {
            meminfo_field(ls.drop_last(), key)
        }
    }
}

/// What `/proc/meminfo` says: total, free and available memory and swap
/// in bytes, the used memory being what is not available. `None` when a
/// value would not fit in 64 bits.
pub open spec fn meminfo_reading(content: Seq<char>) -> Option<(nat, nat, nat, nat, nat, nat)> {
    let ls = split_lines(content);
    if forall|i: int| 0 <= i < ls.len() ==> kib_fits(#[trigger] ls[i]) {
        let total = meminfo_field(ls, "MemTotal:"@);
        let avail = meminfo_field(ls, "MemAvailable:"@);
        Some((
            total,
            avail,
            (if total >= avail { total - avail } else { 0 }) as nat,
            meminfo_field(ls, "MemFree:"@),
            meminfo_field(ls, "SwapTotal:"@),
            meminfo_field(ls, "SwapFree:"@),
        ))
    } else {
        None
    }
}

/// A memory reading as plain values: total, available, used, free, swap
/// total, swap free.
pub open spec fn memory_view(m: MemoryInfo) -> (nat, nat, nat, nat, nat, nat) {
    (
        m.total_bytes as nat,
        m.available_bytes as nat,
        m.used_bytes as nat,
        m.free_bytes as nat,
        m.swap_total_bytes as nat,
        m.swap_free_bytes as nat,
    )
}

/// Reads `/proc/meminfo`.
pub fn parse_meminfo(content: &str) -> (res: Option<MemoryInfo>)
    ensures
        match meminfo_reading(content@) {
            Some(v) => res matches Some(m) && memory_view(m) == v,
            None => res is None,
        },
{
    let ls = lines(content);
    let ghost lv = strings_view(ls@);
    let mut total: u64 = 0;
    let mut free: u64 = 0;
    let mut avail: u64 = 0;
    let mut swap_total: u64 = 0;
    let mut swap_free: u64 = 0;
    let mut i: usize = 0;
    while i < ls.len()
        invariant
            0 <= i <= ls@.len(),
            lv == strings_view(ls@),
            lv == split_lines(content@),
            lv.len() == ls@.len(),
            forall|j: int| 0 <= j < i ==> kib_fits(#[trigger] lv[j]),
            total == meminfo_field(lv.take(i as int), "MemTotal:"@),
            free == meminfo_field(lv.take(i as int), "MemFree:"@),
            avail == meminfo_field(lv.take(i as int), "MemAvailable:"@),
            swap_total == meminfo_field(lv.take(i as int), "SwapTotal:"@),
            swap_free == meminfo_field(lv.take(i as int), "SwapFree:"@),
        decreases ls@.len() - i,
    {
        let ghost l = lv[i as int];
        proof {
            assert(lv.take(i + 1).drop_last() =~= lv.take(i as int));
            assert(lv.take(i + 1).last() == l);
            assert(l == ls@[i as int]@);
        }
        let w = split_words(ls[i].as_str());
        proof {
            assert(strings_view(w@) == words(l));
        }
        if w.len() >= 2 {
            proof {
                assert(strings_view(w@)[1] == w@[1]@);
                assert(strings_view(w@)[0] == w@[0]@);
            }
            let v = read_number(w[1].as_str());
            if v > 0xffff_ffff_ffff_ffff / 1024 {
                proof {
                    assert(v * 1024 > 0xffff_ffff_ffff_ffffu64) by (nonlinear_arith)
                        requires
                            v > 0xffff_ffff_ffff_ffffu64 / 1024,
                    ;
                    assert(!kib_fits(lv[i as int]));
                    assert(lv == split_lines(content@));
                    assert(!kib_fits(split_lines(content@)[i as int]));
                }
                return None;
            }
            let val = v * 1024;
            let key = w[0].as_str();
            if str_eq(key, "MemTotal:") {
                total = val;
            }
            if str_eq(key, "MemFree:") {
                free = val;
            }
            if str_eq(key, "MemAvailable:") {
                avail = val;
            }
            if str_eq(key, "SwapTotal:") {
                swap_total = val;
            }
            if str_eq(key, "SwapFree:") {
                swap_free = val;
            }
        }
        i = i + 1;
    }
    proof {
        assert(lv.take(ls@.len() as int) =~= lv);
        assert(lv == split_lines(content@));
    }
    let used = total.saturating_sub(avail);
    Some(MemoryInfo {
        total_bytes: total,
        available_bytes: avail,
        used_bytes: used,
        free_bytes: free,
        swap_total_bytes: swap_total,
        swap_free_bytes: swap_free,
    })
}

/// `s` without the colons at its end (`trim_end_matches(':')`).
pub open spec fn without_colons(s: Seq<char>) -> Seq<char>
    decreases s.len(),
{
    if s.len() > 0 && s.last() == ':' {
        without_colons(s.drop_last())
    } else {
        s
    }
}

/// An interface as plain values: name, received and sent bytes, packets
/// and errors.
pub type IfaceView = (Seq<char>, u64, u64, u64, u64, u64, u64);

/// The interface a `/proc/net/dev` line describes: lines of seventeen
/// words or more, the loopback excepted.
pub open spec fn netdev_entry(line: Seq<char>) -> Option<IfaceView> {
    let w = words(line);
    let name = without_colons(w[0]);
    if w.len() >= 17 && name != "lo"@ {
        Some((
            name,
            number_or_zero(w[1]) as u64,
            number_or_zero(w[9]) as u64,
            number_or_zero(w[2]) as u64,
            number_or_zero(w[10]) as u64,
            number_or_zero(w[3]) as u64,
            number_or_zero(w[11]) as u64,
        ))
    } else {
        None
    }
}

/// The interfaces of some lines, in order.
pub open spec fn netdev_entries(ls: Seq<Seq<char>>) -> Seq<IfaceView>
    decreases ls.len(),
{
    if ls.len() == 0 {
        Seq::empty()
    } else {
        let r = netdev_entries(ls.drop_last());
        match netdev_entry(ls.last()) {
            Some(e) => r.push(e),
            None => r,
        }
    }
}

/// The interfaces `/proc/net/dev` lists after its two header lines.
pub open spec fn netdev_reading(content: Seq<char>) -> Seq<IfaceView> {
    let ls = split_lines(content);
    if ls.len() <= 2 {
        Seq::empty()
    } else {
        netdev_entries(ls.skip(2))
    }
}

/// An interface reading as plain values.
pub open spec fn iface_view(i: NetInterface) -> IfaceView {
    (i.name@, i.rx_bytes, i.tx_bytes, i.rx_packets, i.tx_packets, i.rx_errors, i.tx_errors)
}

fn strip_colons(s: &str) -> (res: String)
    ensures
        res@ == without_colons(s@),
{
    let cs = chars_of(s);
    let mut end = cs.len();
    proof {
        assert(cs@.take(end as int) =~= s@);
    }
    while end > 0 && cs[end - 1] == ':'
        invariant
            0 <= end <= cs@.len(),
            cs@ == s@,
            without_colons(s@) == without_colons(cs@.take(end as int)),
        decreases end,
    {
        proof {
            assert(cs@.take(end as int).drop_last() =~= cs@.take(end - 1));
        }
        end = end - 1;
    }
    proof {
        assert(cs@.take(end as int) =~= cs@.subrange(0, end as int));
    }
    string_from_chars(cs.as_slice(), 0, end)
}

/// Reads `/proc/net/dev`: every interface but the loopback, each up, with
/// no speed known.
pub fn parse_net_dev(content: &str) -> (res: BandwidthInfo)
    ensures
        res.interfaces@.map_values(|i: NetInterface| iface_view(i)) == netdev_reading(content@),
        forall|k: int| 0 <= k < res.interfaces@.len() ==> (#[trigger] res.interfaces@[k]).is_up
            && !res.interfaces@[k].is_loopback && res.interfaces@[k].speed_mbps == 0,
{
    let ls = lines(content);
    let ghost lv = strings_view(ls@);
    let mut out: Vec<NetInterface> = Vec::new();
    if ls.len() <= 2 {
        proof {
            assert(out@.map_values(|i: NetInterface| iface_view(i)) =~= Seq::<IfaceView>::empty());
        }
        return BandwidthInfo { interfaces: out };
    }
    let mut i: usize = 2;
    proof {
        assert(lv.subrange(2, 2) =~= Seq::<Seq<char>>::empty());
        assert(out@.map_values(|i: NetInterface| iface_view(i)) =~= Seq::<IfaceView>::empty());
    }
    while i < ls.len()
        invariant
            2 <= i <= ls@.len(),
            lv == strings_view(ls@),
            lv.len() == ls@.len(),
            out@.map_values(|i: NetInterface| iface_view(i)) == netdev_entries(lv.subrange(2, i as int)),
            forall|k: int| 0 <= k < out@.len() ==> (#[trigger] out@[k]).is_up && !out@[k].is_loopback
                && out@[k].speed_mbps == 0,
        decreases ls@.len() - i,
    {
        let ghost l = lv[i as int];
        let ghost before = out@;
        proof {
            assert(lv.subrange(2, i + 1).drop_last() =~= lv.subrange(2, i as int));
            assert(lv.subrange(2, i + 1).last() == l);
            assert(l == ls@[i as int]@);
        }
        let w = split_words(ls[i].as_str());
        proof {
            assert(strings_view(w@) == words(l));
        }
        if w.len() >= 17 {
            proof {
                assert forall|k: int| 0 <= k < 17 implies strings_view(w@)[k] == (#[trigger] w@[k])@ by {}
            }
            let name = strip_colons(w[0].as_str());
            if !str_eq(name.as_str(), "lo") {
                let iface = NetInterface {
                    name,
                    rx_bytes: read_number(w[1].as_str()),
                    tx_bytes: read_number(w[9].as_str()),
                    rx_packets: read_number(w[2].as_str()),
                    tx_packets: read_number(w[10].as_str()),
                    rx_errors: read_number(w[3].as_str()),
                    tx_errors: read_number(w[11].as_str()),
                    speed_mbps: 0,
                    is_up: true,
                    is_loopback: false,
                };
                let ghost v = iface_view(iface);
                out.push(iface);
                proof {
                    assert(out@.map_values(|i: NetInterface| iface_view(i)) =~= before.map_values(
                        |i: NetInterface| iface_view(i),
                    ).push(v));
                }
            }
        }
        i = i + 1;
    }
    proof {
        assert(lv.subrange(2, lv.len() as int) =~= lv.skip(2));
        assert(lv == split_lines(content@));
    }
    BandwidthInfo { interfaces: out }
}

/// The index of the first place `pat` starts in `s`, or -1.
pub open spec fn find_sub(s: Seq<char>, pat: Seq<char>) -> int
    decreases s.len(),
{
    if seq_starts_with(s, pat) {
        0
    } else if s.len() == 0 {
        -1
    } else {
        let r = find_sub(s.drop_first(), pat);
        if r < 0 { -1 } else { r + 1 }
    }
}

/// The interface `ip route get` names: the first word after the first
/// `dev `, or `eth0`.
pub open spec fn route_interface(out: Seq<char>) -> Seq<char> {
    let k = find_sub(out, "dev "@);
    if k < 0 {
        "eth0"@
    } else {
        match first_word(out.skip(k + 4)) {
            Some(w) => w,
            None => "eth0"@,
        }
    }
}

proof fn lemma_find_sub(s: Seq<char>, pat: Seq<char>)
    ensures
        -1 <= find_sub(s, pat) <= s.len(),
        find_sub(s, pat) >= 0 ==> seq_starts_with(s.skip(find_sub(s, pat)), pat),
    decreases s.len(),
{
    if seq_starts_with(s, pat) {
        assert(s.skip(0) =~= s);
    } else if s.len() > 0 {
        lemma_find_sub(s.drop_first(), pat);
        let r = find_sub(s.drop_first(), pat);
        if r >= 0 {
            assert(s.skip(r + 1) =~= s.drop_first().skip(r));
        }
    }
}

fn starts_at(cs: &[char], k: usize, ps: &[char]) -> (res: bool)
    requires
        k <= cs@.len(),
    ensures
        res == seq_starts_with(cs@.skip(k as int), ps@),
{
    if ps.len() > cs.len() - k {
        return false;
    }
    let m_len = cs.len();
    let mut j: usize = 0;
    while j < ps.len()
        invariant
            0 <= j <= ps@.len(),
            m_len == cs@.len(),
            k + ps@.len() <= cs@.len(),
            forall|m: int| 0 <= m < j ==> cs@[k + m] == ps@[m],
        decreases ps@.len() - j,
    {
        if cs[k + j] != ps[j] {
            proof {
                assert(cs@.skip(k as int).take(ps@.len() as int)[j as int] != ps@[j as int]);
            }
            return false;
        }
        j = j + 1;
    }
    assert(cs@.skip(k as int).take(ps@.len() as int) =~= ps@);
    true
}

/// Whether `pat` occurs in `s` (std `str::contains`).
pub fn contains_text(s: &str, pat: &str) -> (res: bool)
    ensures
        res == (find_sub(s@, pat@) >= 0),
{
    let cs = chars_of(s);
    let ps = chars_of(pat);
    let n = cs.len();
    let mut k: usize = 0;
    proof {
        assert(s@.skip(0) =~= s@);
    }
    while k <= n
        invariant
            0 <= k <= n + 1,
            n == cs@.len(),
            cs@ == s@,
            ps@ == pat@,
            k <= n ==> (find_sub(s@, pat@) >= 0) == (find_sub(s@.skip(k as int), pat@) >= 0),
            k > n ==> find_sub(s@, pat@) < 0,
        decreases n + 1 - k,
    {
        if starts_at(cs.as_slice(), k, ps.as_slice()) {
            return true;
        }
        proof {
            if k < n {
                assert(s@.skip(k as int).drop_first() =~= s@.skip(k + 1));
            } else {
                assert(s@.skip(k as int).len() == 0);
            }
        }
        if k == n {
            return false;
        }
        k = k + 1;
    }
    false
}

/// The interface the default route leaves by, from `ip route get`'s output.
pub fn interface_from_route(out: &str) -> (res: String)
    ensures
        res@ == route_interface(out@),
{
    let cs = chars_of(out);
    let n = cs.len();
    let mut k: usize = 0;
    let ghost s = out@;
    proof {
        assert(s.skip(0) =~= s);
    }
    while k < n
        invariant
            0 <= k <= n,
            n == cs@.len(),
            cs@ == s,
            s == out@,
            find_sub(s, "dev "@) == if find_sub(s.skip(k as int), "dev "@) < 0 {
                -1
            } else {
                k + find_sub(s.skip(k as int), "dev "@)
            },
        decreases n - k,
    {
        proof {
            reveal_strlit("dev ");
        }
        let hit = n - k >= 4 && cs[k] == 'd' && cs[k + 1] == 'e' && cs[k + 2] == 'v' && cs[k + 3] == ' ';
        proof {
            let t = s.skip(k as int);
            assert(hit == seq_starts_with(t, "dev "@)) by {
                reveal_strlit("dev ");
                assert("dev "@ =~= seq!['d', 'e', 'v', ' ']);
                if k + 4 <= n {
                    assert(t.take(4) =~= seq![cs@[k as int], cs@[k + 1], cs@[k + 2], cs@[k + 3]]);
                }
            }
            assert(t.drop_first() =~= s.skip(k + 1));
        }
        if hit {
            let rest = string_from_chars(cs.as_slice(), k + 4, n);
            proof {
                assert(rest@ =~= s.skip(k + 4));
            }
            return match first_word_of(rest.as_str()) {
                Some(w) => w,
                None => owned("eth0"),
            };
        }
        k = k + 1;
    }
    proof {
        assert(s.skip(n as int) =~= Seq::<char>::empty());
        reveal_strlit("dev ");
        assert(!seq_starts_with(Seq::<char>::empty(), "dev "@));
    }
    owned("eth0")
}


/// The KiB a status line gives: its second word read as a number (0 when
/// there is none or it is not one).
pub open spec fn status_kib(line: Seq<char>) -> nat {
    let w = words(line);
    if w.len() >= 2 { number_or_zero(w[1]) } else { 0 }
}

/// A line `/proc/self/status` is read for.
pub open spec fn is_status_line(line: Seq<char>) -> bool {
    seq_starts_with(line, "VmRSS:"@) || seq_starts_with(line, "VmSize:"@)
}

/// The bytes of a line that is read fit in 64 bits.
pub open spec fn status_fits(line: Seq<char>) -> bool {
    is_status_line(line) ==> status_kib(line) * 1024 <= 0xffff_ffff_ffff_ffff
}

/// The bytes the last line starting with `key` gives, or 0 without one.
pub open spec fn status_field(ls: Seq<Seq<char>>, key: Seq<char>) -> nat
    decreases ls.len(),
{
    if ls.len() == 0 {
        0
    } else if seq_starts_with(ls.last(), key) {
        status_kib(ls.last()) * 1024
    } else {
        status_field(ls.drop_last(), key)
    }
}

/// What `/proc/self/status` says of this process: resident and virtual
/// size in bytes. `None` when a value would not fit in 64 bits.
pub open spec fn status_reading(content: Seq<char>) -> Option<(nat, nat)> {
    let ls = split_lines(content);
    if forall|i: int| 0 <= i < ls.len() ==> status_fits(#[trigger] ls[i]) {
        Some((status_field(ls, "VmRSS:"@), status_field(ls, "VmSize:"@)))
    } else {
        None
    }
}

/// Reads `/proc/self/status` (no working set is reported on Linux).
pub fn parse_process_status(content: &str) -> (res: Option<ProcessMemory>)
    ensures
        match status_reading(content@) {
            Some((rss, vms)) => res matches Some(m) && m.rss_bytes == rss && m.vms_bytes == vms
                && m.working_set_bytes == 0,
            None => res is None,
        },
{
    let ls = lines(content);
    let ghost lv = strings_view(ls@);
    let mut rss: u64 = 0;
    let mut vms: u64 = 0;
    let mut i: usize = 0;
    while i < ls.len()
        invariant
            0 <= i <= ls@.len(),
            lv == strings_view(ls@),
            lv == split_lines(content@),
            forall|j: int| 0 <= j < i ==> status_fits(#[trigger] lv[j]),
            rss == status_field(lv.take(i as int), "VmRSS:"@),
            vms == status_field(lv.take(i as int), "VmSize:"@),
        decreases ls@.len() - i,
    {
        let ghost l = lv[i as int];
        proof {
            assert(lv.take(i + 1).drop_last() =~= lv.take(i as int));
            assert(lv.take(i + 1).last() == l);
            assert(l == ls@[i as int]@);
        }
        let rss_line = strip_prefix(ls[i].as_str(), "VmRSS:").is_some();
        let size_line = strip_prefix(ls[i].as_str(), "VmSize:").is_some();
        if rss_line || size_line {
            let w = split_words(ls[i].as_str());
            proof {
                assert(strings_view(w@) == words(l));
            }
            let kib: u64 = if w.len() >= 2 {
                proof {
                    assert(strings_view(w@)[1] == w@[1]@);
                }
                read_number(w[1].as_str())
            } else {
                0
            };
            if kib > 0xffff_ffff_ffff_ffff / 1024 {
                proof {
                    assert(kib * 1024 > 0xffff_ffff_ffff_ffffu64) by (nonlinear_arith)
                        requires
                            kib > 0xffff_ffff_ffff_ffffu64 / 1024,
                    ;
                    assert(!status_fits(lv[i as int]));
                }
                return None;
            }
            let val = kib * 1024;
            if rss_line {
                rss = val;
            }
            if size_line {
                vms = val;
            }
        }
        i = i + 1;
    }
    proof {
        assert(lv.take(ls@.len() as int) =~= lv);
    }
    Some(ProcessMemory { rss_bytes: rss, vms_bytes: vms, working_set_bytes: 0 })
}

/// `s` without the slashes at its start (`trim_start_matches('/')`).
pub open spec fn without_leading_slashes(s: Seq<char>) -> Seq<char>
    decreases s.len(),
{
    if s.len() > 0 && s[0] == '/' {
        without_leading_slashes(s.drop_first())
    } else {
        s
    }
}

/// The cgroup of this process, relative to the cgroup mount: the third
/// `:`-separated field of the first line of `/proc/self/cgroup`, without
/// its leading slashes. `None` when there is no first line or no third
/// field.
pub open spec fn cgroup_relative(content: Seq<char>) -> Option<Seq<char>> {
    let ls = split_lines(content);
    if ls.len() == 0 {
        None
    } else {
        let f = split_any_spec(ls[0], seq![':']);
        if f.len() >= 3 {
            Some(without_leading_slashes(f[2]))
        } else {
            None
        }
    }
}

/// Reads this process's cgroup, relative to the cgroup mount, from
/// `/proc/self/cgroup`.
pub fn cgroup_path(content: &str) -> (res: Option<String>)
    ensures
        match cgroup_relative(content@) {
            Some(p) => res matches Some(r) && r@ == p,
            None => res is None,
        },
{
    let ls = lines(content);
    proof {
        assert(strings_view(ls@) == split_lines(content@));
    }
    if ls.len() == 0 {
        return None;
    }
    proof {
        assert(strings_view(ls@)[0] == ls@[0]@);
    }
    let colon: [char; 1] = [':'];
    assert(colon@ =~= seq![':']);
    let f = split_any(ls[0].as_str(), &colon);
    if f.len() < 3 {
        return None;
    }
    proof {
        assert(strings_view(f@)[2] == f@[2]@);
    }
    let cs = chars_of(f[2].as_str());
    let mut start: usize = 0;
    proof {
        assert(cs@.skip(0) =~= cs@);
    }
    while start < cs.len() && cs[start] == '/'
        invariant
            0 <= start <= cs@.len(),
            without_leading_slashes(cs@) == without_leading_slashes(cs@.skip(start as int)),
        decreases cs@.len() - start,
    {
        proof {
            assert(cs@.skip(start as int).drop_first() =~= cs@.skip(start + 1));
        }
        start = start + 1;
    }
    proof {
        assert(cs@.skip(start as int) =~= cs@.subrange(start as int, cs@.len() as int));
    }
    Some(string_from_chars(cs.as_slice(), start, cs.len()))
}

/// The entries of `lscpu -J` output as `serde_json` reads them: for each
/// element of the top-level `lscpu` array, its `field` and its `data` when
/// they are strings; `None` when there is no such array.
pub uninterp spec fn lscpu_entries(bytes: Seq<u8>) -> Option<Seq<(Option<Seq<char>>, Option<Seq<char>>)>>;

/// The view of one entry.
pub open spec fn entry_view(e: (Option<String>, Option<String>)) -> (Option<Seq<char>>, Option<Seq<char>>) {
    (
        match e.0 {
            Some(s) => Some(s@),
            None => None,
        },
        match e.1 {
            Some(s) => Some(s@),
            None => None,
        },
    )
}

/// The view of what was read of the entries.
pub open spec fn entries_view(r: Option<Vec<(Option<String>, Option<String>)>>) -> Option<Seq<(Option<Seq<char>>, Option<Seq<char>>)>> {
    match r {
        Some(v) => Some(v@.map_values(|e: (Option<String>, Option<String>)| entry_view(e))),
        None => None,
    }
}

/// `serde_json::from_slice::<Value>`, then the `lscpu` array with each
/// element's `field` and `data` read by `Value::as_str`. Trusted: `None`
/// exactly when the bytes are not JSON; otherwise the entries as a function
/// of the bytes.
#[verifier::external_body]
fn read_lscpu(bytes: &[u8]) -> (res: Option<Option<Vec<(Option<String>, Option<String>)>>>)
    ensures
        res is Some <==> json_parses(bytes@),
        res matches Some(r) ==> entries_view(r) == lscpu_entries(bytes@),
{
    match serde_json::from_slice::<serde_json::Value>(bytes) {
        Ok(v) => Some(v["lscpu"].as_array().map(|a| {
            a.iter().map(|e| (e["field"].as_str().map(|s| s.to_string()), e["data"].as_str().map(|s| s.to_string()))).collect()
        })),
        Err(_) => None,
    }
}

/// The data of the first entry whose field is `field`, or the empty text
/// when there is none or its data is not a string.
pub open spec fn lscpu_get(entries: Option<Seq<(Option<Seq<char>>, Option<Seq<char>>)>>, field: Seq<char>) -> Seq<char> {
    match entries {
        None => Seq::empty(),
        Some(es) => if exists|i: int| 0 <= i < es.len() && (#[trigger] es[i]).0 == Some(field) {
            let i = choose|i: int|
                0 <= i < es.len() && (#[trigger] es[i]).0 == Some(field) && forall|j: int|
                    0 <= j < i ==> es[j].0 != Some(field);
            match es[i].1 {
                Some(d) => d,
                None => Seq::empty(),
            }
        } else {
            Seq::empty()
        },
    }
}

/// A count as `str::parse::<usize>` reads it, or `default`.
pub open spec fn count_or(s: Seq<char>, default: nat) -> nat {
    match parse_unsigned(s, usize::MAX as nat) {
        Some(v) => v,
        None => default,
    }
}

fn lookup(es: &Vec<(Option<String>, Option<String>)>, field: &str) -> (res: String)
    ensures
        res@ == lscpu_get(Some(es@.map_values(|e: (Option<String>, Option<String>)| entry_view(e))), field@),
{
    let ghost v = es@.map_values(|e: (Option<String>, Option<String>)| entry_view(e));
    let mut i: usize = 0;
    while i < es.len()
        invariant
            0 <= i <= es@.len(),
            v == es@.map_values(|e: (Option<String>, Option<String>)| entry_view(e)),
            forall|j: int| 0 <= j < i ==> v[j].0 != Some(field@),
        decreases es@.len() - i,
    {
        assert(v[i as int] == entry_view(es@[i as int]));
        let hit = match &es[i].0 {
            Some(f) => str_eq(f.as_str(), field),
            None => false,
        };
        if hit {
            proof {
                assert(v[i as int].0 == Some(field@));
                let k = choose|k: int|
                    0 <= k < v.len() && (#[trigger] v[k]).0 == Some(field@) && forall|j: int|
                        0 <= j < k ==> v[j].0 != Some(field@);
                if k < i {
                    assert(v[k].0 != Some(field@));
                } else if k > i {
                    assert(v[i as int].0 != Some(field@));
                }
            }
            return match &es[i].1 {
                Some(d) => d.clone(),
                None => String::new(),
            };
        }
        i = i + 1;
    }
    String::new()
}

fn read_count(s: &str, default: usize) -> (res: usize)
    ensures
        res == count_or(s@, default as nat),
{
    let cs = chars_of(s);
    match parse_unsigned_u64(cs.as_slice(), usize::MAX as u64) {
        Some(v) => v as usize,
        None => default,
    }
}

/// What the CPU report holds for the counts and the model, read from the
/// entries.
pub open spec fn lscpu_counts(es: Option<Seq<(Option<Seq<char>>, Option<Seq<char>>)>>, c: CpuInfo) -> bool {
    let cores = count_or(lscpu_get(es, "CPU(s)"@), 1);
    let sockets = count_or(lscpu_get(es, "Socket(s)"@), 1);
    &&& c.cores == cores
    &&& c.topology.sockets == sockets
    &&& c.topology.cores_per_socket == count_or(
        lscpu_get(es, "Core(s) per socket"@),
        cores / (if sockets >= 1 { sockets } else { 1 }),
    )
    &&& c.topology.threads_per_core == count_or(lscpu_get(es, "Thread(s) per core"@), 1)
    &&& c.model@ == lscpu_get(es, "Model name"@)
}

/// Reads the CPU from `lscpu -J` output: the CPU, socket, core-per-socket
/// and thread-per-core counts (1 when missing or not a number; cores per
/// socket default to the CPUs over the sockets) and the model name (empty
/// when missing). No per-core speeds. `None` when the output is not JSON.
pub fn parse_lscpu(json: &[u8]) -> (res: Option<CpuInfo>)
    ensures
        res is Some <==> json_parses(json@),
        res matches Some(c) ==> lscpu_counts(lscpu_entries(json@), c) && c.per_core@.len() == 0,
{
    let read = match read_lscpu(json) {
        None => return None,
        Some(r) => r,
    };
    let es: Vec<(Option<String>, Option<String>)> = match read {
        Some(v) => v,
        None => Vec::new(),
    };
    let ghost ev = es@.map_values(|e: (Option<String>, Option<String>)| entry_view(e));
    proof {
        if read is None {
            assert(ev =~= Seq::<(Option<Seq<char>>, Option<Seq<char>>)>::empty());
            assert(lscpu_entries(json@) is None);
        } else {
            assert(lscpu_entries(json@) == Some(ev));
        }
        assert forall|f: Seq<char>| lscpu_get(Some(ev), f) == lscpu_get(lscpu_entries(json@), f) by {
            if read is None {
                assert(!(exists|i: int| 0 <= i < ev.len() && (#[trigger] ev[i]).0 == Some(f)));
            }
        }
    }
    let cores = read_count(lookup(&es, "CPU(s)").as_str(), 1);
    let sockets = read_count(lookup(&es, "Socket(s)").as_str(), 1);
    let per = if sockets >= 1 { sockets } else { 1 };
    let cores_per_socket = read_count(lookup(&es, "Core(s) per socket").as_str(), cores / per);
    let threads_per_core = read_count(lookup(&es, "Thread(s) per core").as_str(), 1);
    let model = lookup(&es, "Model name");
    Some(CpuInfo {
        cores,
        model,
        topology: CpuTopology { sockets, cores_per_socket, threads_per_core },
        per_core: Vec::new(),
    })
}

} // verus!
