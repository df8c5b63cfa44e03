//! What the daemon knows of the machine: CPU, memory, network interfaces,
//! GPUs, and what each operating system lets it control.

use vstd::prelude::*;
use crate::text::{joined, owned, push_joined, push_str, to_lowercase, unicode_lowercase};

verus! {

/// CPU topology.
#[derive(Debug, Clone, Default)]
pub struct CpuTopology {
    pub sockets: usize,
    pub cores_per_socket: usize,
    pub threads_per_core: usize,
}

/// CPU information.
#[derive(Debug, Clone)]
pub struct CpuInfo {
    pub cores: usize,
    pub model: String,
    pub topology: CpuTopology,
    /// MHz per core.
    pub per_core: Vec<u32>,
}

/// Memory information, in bytes.
#[derive(Debug, Clone, Default)]
pub struct MemoryInfo {
    pub total_bytes: u64,
    pub available_bytes: u64,
    pub used_bytes: u64,
    pub free_bytes: u64,
    pub swap_total_bytes: u64,
    pub swap_free_bytes: u64,
}

/// Statistics of one network interface.
#[derive(Debug, Clone)]
pub struct NetInterface {
    pub name: String,
    pub rx_bytes: u64,
    pub tx_bytes: u64,
    pub rx_packets: u64,
    pub tx_packets: u64,
    pub rx_errors: u64,
    pub tx_errors: u64,
    pub speed_mbps: u64,
    pub is_up: bool,
    pub is_loopback: bool,
}

/// Bandwidth information.
#[derive(Debug, Clone)]
pub struct BandwidthInfo {
    pub interfaces: Vec<NetInterface>,
}

/// The index of the first interface that is up and not the loopback, or -1.
pub open spec fn primary_index(ifs: Seq<NetInterface>) -> int
    decreases ifs.len(),
{
    if ifs.len() == 0 {
        -1
    } else {
        let p = primary_index(ifs.drop_last());
        if p >= 0 {
            p
        } else if !ifs.last().is_loopback && ifs.last().is_up {
            ifs.len() - 1
        } else {
            -1
        }
    }
}

/// The received and sent bytes of the interfaces that are not loopbacks.
pub open spec fn external_totals(ifs: Seq<NetInterface>) -> (int, int)
    decreases ifs.len(),
{
    if ifs.len() == 0 {
        (0, 0)
    } else {
        let p = external_totals(ifs.drop_last());
        if ifs.last().is_loopback {
            p
        } else {
            (p.0 + ifs.last().rx_bytes, p.1 + ifs.last().tx_bytes)
        }
    }
}

proof fn lemma_primary_index(ifs: Seq<NetInterface>)
    ensures
        -1 <= primary_index(ifs) < ifs.len(),
        primary_index(ifs) >= 0 ==> !ifs[primary_index(ifs)].is_loopback && ifs[primary_index(ifs)].is_up,
        forall|j: int|
            0 <= j < ifs.len() && (primary_index(ifs) < 0 || j < primary_index(ifs)) ==> (
            #[trigger] ifs[j]).is_loopback || !ifs[j].is_up,
    decreases ifs.len(),
{
    if ifs.len() > 0 {
        let t = ifs.drop_last();
        lemma_primary_index(t);
        assert forall|j: int|
            0 <= j < ifs.len() && (primary_index(ifs) < 0 || j < primary_index(ifs)) implies (
            #[trigger] ifs[j]).is_loopback || !ifs[j].is_up by {
            if j < ifs.len() - 1 {
                assert(ifs[j] == t[j]);
            }
        }
    }
}

proof fn lemma_totals_monotone(ifs: Seq<NetInterface>, i: int)
    requires
        0 <= i <= ifs.len(),
    ensures
        external_totals(ifs.take(i)).0 <= external_totals(ifs).0,
        external_totals(ifs.take(i)).1 <= external_totals(ifs).1,
        external_totals(ifs).0 >= 0 && external_totals(ifs).1 >= 0,
    decreases ifs.len() - i,
{
    if i < ifs.len() {
        lemma_totals_monotone(ifs, i + 1);
        assert(ifs.take(i + 1).drop_last() =~= ifs.take(i));
        lemma_totals_nonneg(ifs.take(i));
    } else {
        assert(ifs.take(i) =~= ifs);
        lemma_totals_nonneg(ifs);
    }
}

proof fn lemma_totals_nonneg(ifs: Seq<NetInterface>)
    ensures
        external_totals(ifs).0 >= 0 && external_totals(ifs).1 >= 0,
    decreases ifs.len(),
{
    if ifs.len() > 0 {
        lemma_totals_nonneg(ifs.drop_last());
    }
}

impl BandwidthInfo {
    /// The index of the primary interface (the first that is up and not a
    /// loopback), if any.
    pub fn primary_index(&self) -> (res: Option<usize>)
        ensures
            match res {
                Some(i) => i as int == primary_index(self.interfaces@) && i < self.interfaces@.len(),
                None => primary_index(self.interfaces@) < 0,
            },
    {
        let ghost s = self.interfaces@;
        proof {
            lemma_primary_index(s);
        }
        let mut i: usize = 0;
        while i < self.interfaces.len()
            invariant
                0 <= i <= s.len(),
                s == self.interfaces@,
                forall|j: int| 0 <= j < i ==> (#[trigger] s[j]).is_loopback || !s[j].is_up,
            decreases s.len() - i,
        {
            if !self.interfaces[i].is_loopback && self.interfaces[i].is_up {
                proof {
                    lemma_primary_index(s);
                    let p = primary_index(s);
                    if p < 0 || i < p {
                        assert(s[i as int].is_loopback || !s[i as int].is_up);
                    }
                    if p >= 0 && p < i {
                        assert(s[p].is_loopback || !s[p].is_up);
                    }
                }
                return Some(i);
            }
            i = i + 1;
        }
        proof {
            lemma_primary_index(s);
            if primary_index(s) >= 0 {
                let p = primary_index(s);
                assert(s[p].is_loopback || !s[p].is_up);
            }
        }
        None
    }

    /// (received, sent) bytes of the primary interface; (0, 0) without one.
    pub fn primary_rx_tx(&self) -> (res: (u64, u64))
        ensures
            ({
                let k = primary_index(self.interfaces@);
                if k >= 0 {
                    res == (self.interfaces@[k].rx_bytes, self.interfaces@[k].tx_bytes)
                } else {
                    res == (0u64, 0u64)
                }
            }),
    {
        match self.primary_index() {
            Some(i) => (self.interfaces[i].rx_bytes, self.interfaces[i].tx_bytes),
            None => (0, 0),
        }
    }

    /// (received, sent) bytes summed over the interfaces that are not loopbacks.
    pub fn total_rx_tx(&self) -> (res: (u64, u64))
        requires
            external_totals(self.interfaces@).0 <= u64::MAX,
            external_totals(self.interfaces@).1 <= u64::MAX,
        ensures
            res.0 == external_totals(self.interfaces@).0,
            res.1 == external_totals(self.interfaces@).1,
    {
        let ghost s = self.interfaces@;
        let mut rx: u64 = 0;
        let mut tx: u64 = 0;
        let mut i: usize = 0;
        proof {
            assert(s.take(0) =~= Seq::<NetInterface>::empty());
        }
        while i < self.interfaces.len()
            invariant
                0 <= i <= s.len(),
                s == self.interfaces@,
                external_totals(s).0 <= u64::MAX,
                external_totals(s).1 <= u64::MAX,
                rx == external_totals(s.take(i as int)).0,
                tx == external_totals(s.take(i as int)).1,
            decreases s.len() - i,
        {
            proof {
                assert(s.take(i + 1).drop_last() =~= s.take(i as int));
                lemma_totals_monotone(s, i + 1);
            }
            if !self.interfaces[i].is_loopback {
                rx = rx + self.interfaces[i].rx_bytes;
                tx = tx + self.interfaces[i].tx_bytes;
            }
            i = i + 1;
        }
        proof {
            assert(s.take(s.len() as int) =~= s);
        }
        (rx, tx)
    }
}

/// Information on one GPU.
#[derive(Debug, Clone)]
pub struct GpuInfo {
    pub device_id: u32,
    pub name: String,
    pub vendor: String,
    pub total_vram_mb: u32,
    pub used_vram_mb: u32,
    pub free_vram_mb: u32,
    pub driver_version: String,
    pub temperature_c: u32,
    pub power_watts: u32,
    pub utilization_pct: u32,
}

impl GpuInfo {
    /// Total minus used VRAM, or 0.
    pub fn free_vram_mb(&self) -> (res: u32)
        ensures
            res == (if self.total_vram_mb >= self.used_vram_mb { self.total_vram_mb - self.used_vram_mb } else { 0 }),
    {
        self.total_vram_mb.saturating_sub(self.used_vram_mb)
    }
}

/// Memory of one process.
#[derive(Debug, Clone, Default)]
pub struct ProcessMemory {
    pub rss_bytes: u64,
    pub vms_bytes: u64,
    pub working_set_bytes: u64,
}

/// A server-side IPC endpoint.
#[derive(Debug, Clone)]
pub struct IpcEndpoint {
    pub name: String,
    /// The socket or pipe path.
    pub path: String,
    pub platform_data: Vec<u8>,
}

/// A client-side IPC connection.
pub trait IpcConnection {
    /// Sends bytes.
    fn send(&mut self, data: &[u8]) -> Result<(), String>;
    /// Receives into `buf`; returns how many bytes arrived.
    fn recv(&mut self, buf: &mut [u8]) -> Result<usize, String>;
    /// Closes the connection.
    fn close(&mut self) -> Result<(), String>;
}

/// How to install a system service.
#[derive(Debug, Clone)]
pub struct ServiceConfig {
    pub name: String,
    pub display_name: String,
    pub description: String,
    /// The program to run.
    pub executable: String,
    pub args: Vec<String>,
    pub env: Vec<(String, String)>,
    pub auto_start: bool,
    pub user: Option<String>,
}

/// What a platform lets the daemon do.
#[derive(Debug, Clone, Copy, PartialEq, Eq, Structural)]
pub struct PlatformCaps {
    pub cpu_affinity: bool,
    pub cpu_priority: bool,
    pub memory_limit: bool,
    pub bandwidth_monitor: bool,
    pub gpu_monitor: bool,
    pub named_pipes: bool,
    pub unix_sockets: bool,
    pub cgroups_v2: bool,
    pub launchd: bool,
    pub windows_service: bool,
}

/// How work is pinned to cores.
#[derive(Debug, Clone, Copy, PartialEq, Eq, Structural)]
pub enum CpuAffinityMode {
    Auto,
    Spread,
    Compact,
    Performance,
    Off,
}

impl Default for CpuAffinityMode {
    fn default() -> (res: CpuAffinityMode)
        ensures
            res == CpuAffinityMode::Auto,
    {
        CpuAffinityMode::Auto
    }
}

/// The name of each affinity mode.
pub open spec fn affinity_name(m: CpuAffinityMode) -> Seq<char> {
    match m {
        CpuAffinityMode::Auto => "auto"@,
        CpuAffinityMode::Spread => "spread"@,
        CpuAffinityMode::Compact => "compact"@,
        CpuAffinityMode::Performance => "performance"@,
        CpuAffinityMode::Off => "off"@,
    }
}

/// The mode a lower-case name stands for.
pub open spec fn affinity_named(s: Seq<char>) -> Option<CpuAffinityMode> {
    if s == "auto"@ {
        Some(CpuAffinityMode::Auto)
    } else if s == "spread"@ {
        Some(CpuAffinityMode::Spread)
    } else if s == "compact"@ {
        Some(CpuAffinityMode::Compact)
    } else if s == "performance"@ {
        Some(CpuAffinityMode::Performance)
    } else if s == "off"@ {
        Some(CpuAffinityMode::Off)
    } else {
        None
    }
}

impl CpuAffinityMode {
    /// The mode's name.
    pub fn as_str(&self) -> (res: &'static str)
        ensures
            res@ == affinity_name(*self),
    {
        match self {
            CpuAffinityMode::Auto => "auto",
            CpuAffinityMode::Spread => "spread",
            CpuAffinityMode::Compact => "compact",
            CpuAffinityMode::Performance => "performance",
            CpuAffinityMode::Off => "off",
        }
    }

    /// Reads a mode name in any case; anything else is refused with
    /// `unknown cpu affinity mode: ` and the text given.
    pub fn parse(s: &str) -> (res: Result<CpuAffinityMode, String>)
        ensures
            match affinity_named(unicode_lowercase(s@)) {
                Some(m) => res == Ok::<CpuAffinityMode, String>(m),
                None => res matches Err(e) && e@ == "unknown cpu affinity mode: "@ + s@,
            },
    {
        let lower = to_lowercase(s);
        let l = lower.as_str();
        if crate::text::str_eq(l, "auto") {
            Ok(CpuAffinityMode::Auto)
        } else if crate::text::str_eq(l, "spread") {
            Ok(CpuAffinityMode::Spread)
        } else if crate::text::str_eq(l, "compact") {
            Ok(CpuAffinityMode::Compact)
        } else if crate::text::str_eq(l, "performance") {
            Ok(CpuAffinityMode::Performance)
        } else if crate::text::str_eq(l, "off") {
            Ok(CpuAffinityMode::Off)
        } else {
            let mut e = owned("unknown cpu affinity mode: ");
            push_str(&mut e, s);
            Err(e)
        }
    }
}

impl std::str::FromStr for CpuAffinityMode {
    type Err = String;

    /// Reads a mode name as [`CpuAffinityMode::parse`] does.
    fn from_str(s: &str) -> (res: Result<CpuAffinityMode, String>)
        ensures
            match affinity_named(unicode_lowercase(s@)) {
                Some(m) => res == Ok::<CpuAffinityMode, String>(m),
                None => res matches Err(e) && e@ == "unknown cpu affinity mode: "@ + s@,
            },
    {
        CpuAffinityMode::parse(s)
    }
}

/// The Linux platform; memory limits need cgroups v2.
pub struct LinuxPlatform {
    pub cgroups_v2: bool,
}

/// The macOS platform.
pub struct MacOSPlatform;

/// The Windows platform.
pub struct WindowsPlatform;

impl LinuxPlatform {
    /// The platform, given whether cgroups v2 is mounted.
    pub fn new(cgroups_v2: bool) -> (res: LinuxPlatform)
        ensures
            res.cgroups_v2 == cgroups_v2,
    {
        LinuxPlatform { cgroups_v2 }
    }

    /// The platform's name.
    pub fn name(&self) -> (res: &'static str)
        ensures
            res@ == "linux"@,
    {
        "linux"
    }

    /// Affinity, priority, bandwidth and GPU monitoring and Unix sockets;
    /// memory limits exactly when cgroups v2 is there.
    pub fn capabilities(&self) -> (res: PlatformCaps)
        ensures
            res == (PlatformCaps {
                cpu_affinity: true,
                cpu_priority: true,
                memory_limit: self.cgroups_v2,
                bandwidth_monitor: true,
                gpu_monitor: true,
                named_pipes: false,
                unix_sockets: true,
                cgroups_v2: self.cgroups_v2,
                launchd: false,
                windows_service: false,
            }),
    {
        PlatformCaps {
            cpu_affinity: true,
            cpu_priority: true,
            memory_limit: self.cgroups_v2,
            bandwidth_monitor: true,
            gpu_monitor: true,
            named_pipes: false,
            unix_sockets: true,
            cgroups_v2: self.cgroups_v2,
            launchd: false,
            windows_service: false,
        }
    }
}

impl MacOSPlatform {
    /// The platform.
    pub fn new() -> (res: MacOSPlatform) {
        MacOSPlatform
    }

    /// The platform's name.
    pub fn name(&self) -> (res: &'static str)
        ensures
            res@ == "macos"@,
    {
        "macos"
    }

    /// Affinity, priority, bandwidth and GPU monitoring, Unix sockets and launchd.
    pub fn capabilities(&self) -> (res: PlatformCaps)
        ensures
            res == (PlatformCaps {
                cpu_affinity: true,
                cpu_priority: true,
                memory_limit: false,
                bandwidth_monitor: true,
                gpu_monitor: true,
                named_pipes: false,
                unix_sockets: true,
                cgroups_v2: false,
                launchd: true,
                windows_service: false,
            }),
    {
        PlatformCaps {
            cpu_affinity: true,
            cpu_priority: true,
            memory_limit: false,
            bandwidth_monitor: true,
            gpu_monitor: true,
            named_pipes: false,
            unix_sockets: true,
            cgroups_v2: false,
            launchd: true,
            windows_service: false,
        }
    }
}

impl WindowsPlatform {
    /// The platform.
    pub fn new() -> (res: WindowsPlatform) {
        WindowsPlatform
    }

    /// The platform's name.
    pub fn name(&self) -> (res: &'static str)
        ensures
            res@ == "windows"@,
    {
        "windows"
    }

    /// Named pipes and Windows services only.
    pub fn capabilities(&self) -> (res: PlatformCaps)
        ensures
            res == (PlatformCaps {
                cpu_affinity: false,
                cpu_priority: false,
                memory_limit: false,
                bandwidth_monitor: false,
                gpu_monitor: false,
                named_pipes: true,
                unix_sockets: false,
                cgroups_v2: false,
                launchd: false,
                windows_service: true,
            }),
    {
        PlatformCaps {
            cpu_affinity: false,
            cpu_priority: false,
            memory_limit: false,
            bandwidth_monitor: false,
            gpu_monitor: false,
            named_pipes: true,
            unix_sockets: false,
            cgroups_v2: false,
            launchd: false,
            windows_service: true,
        }
    }
}

/// A memory snapshot for one tick.
#[derive(Debug, Clone)]
pub struct MemorySnapshot {
    pub total_bytes: u64,
    pub used_bytes: u64,
    pub free_bytes: u64,
    pub available_bytes: u64,
    pub swap_used_bytes: u64,
    pub swap_total_bytes: u64,
}

impl MemorySnapshot {
    /// The snapshot of memory information: swap used is total minus free swap.
    pub fn from_info(m: &MemoryInfo) -> (res: MemorySnapshot)
        ensures
            res.total_bytes == m.total_bytes,
            res.used_bytes == m.used_bytes,
            res.free_bytes == m.free_bytes,
            res.available_bytes == m.available_bytes,
            res.swap_used_bytes == (if m.swap_total_bytes >= m.swap_free_bytes { m.swap_total_bytes - m.swap_free_bytes } else { 0 }),
            res.swap_total_bytes == m.swap_total_bytes,
    {
        MemorySnapshot {
            total_bytes: m.total_bytes,
            used_bytes: m.used_bytes,
            free_bytes: m.free_bytes,
            available_bytes: m.available_bytes,
            swap_used_bytes: m.swap_total_bytes.saturating_sub(m.swap_free_bytes),
            swap_total_bytes: m.swap_total_bytes,
        }
    }
}

/// A GPU snapshot for one tick.
#[derive(Debug, Clone)]
pub struct GpuSnapshot {
    pub device_id: u32,
    pub name: String,
    pub vram_total_mb: u32,
    pub vram_used_mb: u32,
    pub vram_free_mb: u32,
    pub utilization_pct: u32,
    pub temperature_c: u32,
    pub power_watts: u32,
}

impl GpuSnapshot {
    /// The snapshot of one GPU's information.
    pub fn from_info(g: &GpuInfo) -> (res: GpuSnapshot)
        ensures
            res.device_id == g.device_id,
            res.name@ == g.name@,
            res.vram_total_mb == g.total_vram_mb,
            res.vram_used_mb == g.used_vram_mb,
            res.vram_free_mb == g.free_vram_mb,
            res.utilization_pct == g.utilization_pct,
            res.temperature_c == g.temperature_c,
            res.power_watts == g.power_watts,
    {
        GpuSnapshot {
            device_id: g.device_id,
            name: g.name.clone(),
            vram_total_mb: g.total_vram_mb,
            vram_used_mb: g.used_vram_mb,
            vram_free_mb: g.free_vram_mb,
            utilization_pct: g.utilization_pct,
            temperature_c: g.temperature_c,
            power_watts: g.power_watts,
        }
    }
}

/// The name of the primary interface, or `unknown`.
pub fn primary_interface_name(b: &BandwidthInfo) -> (res: String)
    ensures
        ({
            let k = primary_index(b.interfaces@);
            if k >= 0 {
                res@ == b.interfaces@[k].name@
            } else {
                res@ == "unknown"@
            }
        }),
{
    match b.primary_index() {
        Some(i) => b.interfaces[i].name.clone(),
        None => owned("unknown"),
    }
}

/// Each environment variable as `NAME=value`.
pub open spec fn env_assignments(env: Seq<(String, String)>) -> Seq<Seq<char>> {
    env.map_values(|p: (String, String)| p.0@ + "="@ + p.1@)
}

/// The systemd user unit that runs a service.
pub open spec fn systemd_unit_text(c: ServiceConfig) -> Seq<char> {
    "[Unit]\nDescription="@ + c.description@ + "\nAfter=network.target\n\n[Service]\nType=simple\nExecStart="@
        + c.executable@ + " "@ + joined(c.args@.map_values(|a: String| a@), " "@) + "\nEnvironment="@
        + joined(env_assignments(c.env@), " "@)
        + "\nRestart=on-failure\nRestartSec=5\n\n[Install]\nWantedBy=default.target\n"@
}

/// The text of the systemd user unit for a service: its description, the
/// program with its arguments, its environment, restarted on failure.
pub fn systemd_unit(c: &ServiceConfig) -> (res: String)
    ensures
        res@ == systemd_unit_text(*c),
{
    let mut s = owned("[Unit]\nDescription=");
    push_str(&mut s, c.description.as_str());
    push_str(&mut s, "\nAfter=network.target\n\n[Service]\nType=simple\nExecStart=");
    push_str(&mut s, c.executable.as_str());
    push_str(&mut s, " ");
    push_joined(&mut s, c.args.as_slice(), " ");
    push_str(&mut s, "\nEnvironment=");
    let mut env: Vec<String> = Vec::new();
    let mut i: usize = 0;
    while i < c.env.len()
        invariant
            0 <= i <= c.env@.len(),
            env@.map_values(|e: String| e@) == env_assignments(c.env@).take(i as int),
        decreases c.env@.len() - i,
    {
        let ghost before = env@;
        let mut e = c.env[i].0.clone();
        push_str(&mut e, "=");
        push_str(&mut e, c.env[i].1.as_str());
        assert(e@ == c.env@[i as int].0@ + "="@ + c.env@[i as int].1@);
        let ghost ev = e@;
        env.push(e);
        proof {
            assert(env@.map_values(|e: String| e@) =~= before.map_values(|e: String| e@).push(ev));
            assert(env@.map_values(|e: String| e@) =~= env_assignments(c.env@).take(i + 1));
        }
        i = i + 1;
    }
    proof {
        assert(env_assignments(c.env@).take(c.env@.len() as int) =~= env_assignments(c.env@));
    }
    push_joined(&mut s, env.as_slice(), " ");
    push_str(&mut s, "\nRestart=on-failure\nRestartSec=5\n\n[Install]\nWantedBy=default.target\n");
    s
}

} // verus!
