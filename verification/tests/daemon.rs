use polygone::gpu::gpu_rows;
use polygone::allocator::{bandwidth_from_bytes, safety_margin_for, settle, shrink_to_zero, Allocation, GIB, MIB, Allocator, AllocatorLimits};
use polygone::bandwidth::{busiest_interface, primary_interface, read_counter};
use polygone::cpu::{allocation_from, pick_cores, usable_cores, visible_cores};
use polygone::glow_up::{apply_safety, effective_limits, tier_presets, AllocationTier, ResourceLimits};
use polygone::gpu::{read_gpu_memory, GpuAllocation};
use polygone::socket::{notify_allocation, notify_grow, notify_shrink, notify_status, DaemonMsg};

fn allocation(ram_bytes: u64) -> Allocation {
    Allocation { ram_bytes, bandwidth_mbps: 0, shrink_streak: 0, free_mem_avg_bytes: 0, shrinking: false }
}

#[test]
fn test_bandwidth_clamped_to_1_to_100() {
    assert_eq!(bandwidth_from_bytes(0), 1);
    assert!(bandwidth_from_bytes(50 * 1024 * 1024 * 1024) <= 100);
}

#[test]
fn bandwidth_is_ten_per_gib() {
    assert_eq!(bandwidth_from_bytes(GIB), 10);
    assert_eq!(bandwidth_from_bytes(GIB + GIB / 2), 15);
    assert_eq!(bandwidth_from_bytes(50 * GIB), 100);
}

#[test]
fn test_shrink_to_zero_is_zero() {
    let a = shrink_to_zero(allocation(3 * GIB));
    assert_eq!(a.ram_bytes, 0);
    assert_eq!(a.bandwidth_mbps, 0);
}

#[test]
fn safety_margin_steps() {
    assert_eq!(safety_margin_for(2 * GIB), 512 * MIB);
    assert_eq!(safety_margin_for(6 * GIB), GIB);
    assert_eq!(safety_margin_for(16 * GIB), 2 * GIB);
}

#[test]
fn settle_waits_three_low_ticks_before_shrinking() {
    let mut a = allocation(4 * GIB);
    let low = GIB;
    let mut shrinking = false;
    for _ in 0..2 {
        let (next, s) = settle(a, shrinking, 0, 8 * GIB, low / 2, 8 * GIB, GIB, low);
        assert_eq!(next.ram_bytes, 4 * GIB);
        a = next;
        shrinking = s;
    }
    let (next, s) = settle(a, shrinking, 0, 8 * GIB, low / 2, 8 * GIB, GIB, low);
    assert!(next.ram_bytes < 4 * GIB);
    assert!(s);
    assert_eq!(next.shrink_streak, 3);
}

#[test]
fn settle_grows_within_ceiling() {
    let (next, s) = settle(allocation(GIB), true, 0, 2 * GIB, 4 * GIB, 8 * GIB, 16 * GIB, GIB);
    assert_eq!(next.ram_bytes, 2 * GIB);
    assert_eq!(next.bandwidth_mbps, 20);
    assert!(!s);
}

#[test]
fn pick_cores_never_zero_and_within_bounds() {
    let total = 16;
    for want in 1..=4 {
        let cores = pick_cores(total, want);
        assert_eq!(cores.len() as u32, want);
        for &c in &cores {
            assert!(c > 0 && c < total - 1, "core {} out of safe zone", c);
        }
    }
}

#[test]
fn pick_cores_from_the_middle() {
    assert_eq!(pick_cores(16, 3), vec![7, 8, 9]);
    assert_eq!(pick_cores(1, 3), vec![0]);
    assert_eq!(pick_cores(2, 3), vec![1]);
    assert_eq!(pick_cores(4, 10), vec![1, 2]);
}

#[test]
fn allocation_reserves_one_core_and_is_polite() {
    let a = allocation_from(4, 3);
    assert_eq!(a.total, 4);
    assert_eq!(a.allocated, 3);
    assert_eq!(a.nice, 0);
    let b = allocation_from(8, 0);
    assert_eq!(b.allocated, 1);
    assert_eq!(b.nice, 5);
    assert_eq!(b.affinity_mask, vec![4]);
    let c = allocation_from(0, 9);
    assert_eq!(c.total, 1);
    assert_eq!(c.allocated, 1);
    assert_eq!(c.affinity_mask, vec![0]);
}

#[test]
fn visible_cores_prefers_affinity() {
    assert_eq!(visible_cores(Some(4), 8), 4);
    assert_eq!(visible_cores(Some(16), 8), 8);
    assert_eq!(visible_cores(Some(0), 8), 8);
    assert_eq!(visible_cores(None, 6), 6);
}

#[test]
fn test_tier_presets() {
    let presets = tier_presets();
    assert_eq!(presets[0].0, "eco");
    assert_eq!(presets[1].0, "balanced");
    assert_eq!(presets[2].0, "performance");
    assert_eq!(presets[3].0, "max");
}

#[test]
fn test_safety_application() {
    let limits = ResourceLimits { max_cpu_percent: 60, max_ram_percent: 45, max_bandwidth_percent: 70, max_gpu_percent: 40 };
    // The default safety ceiling for CPU is 85 %.
    let safe = apply_safety(limits, 85);
    assert!(safe.max_cpu_percent <= 85);
    assert_eq!(safe, limits);
    let capped = apply_safety(ResourceLimits { max_cpu_percent: 95, ..limits }, 85);
    assert_eq!(capped.max_cpu_percent, 85);
}

#[test]
fn effective_limits_by_tier() {
    let eco = effective_limits(AllocationTier::Eco, None);
    assert_eq!(eco, ResourceLimits { max_cpu_percent: 25, max_ram_percent: 30, max_bandwidth_percent: 40, max_gpu_percent: 20 });
    let custom = effective_limits(AllocationTier::Custom, None);
    assert_eq!(custom.max_bandwidth_percent, 60);
    let given = ResourceLimits { max_cpu_percent: 1, max_ram_percent: 2, max_bandwidth_percent: 3, max_gpu_percent: 4 };
    assert_eq!(effective_limits(AllocationTier::Max, Some(given)), given);
}

#[test]
fn tier_names_round_trip() {
    for t in [AllocationTier::Eco, AllocationTier::Balanced, AllocationTier::Performance, AllocationTier::Max, AllocationTier::Custom] {
        assert_eq!(AllocationTier::parse(t.as_str()), Ok(t));
    }
    assert_eq!(AllocationTier::parse("ECO"), Ok(AllocationTier::Eco));
    assert!(AllocationTier::parse("turbo").is_err());
}

#[test]
fn none_is_not_available() {
    let alloc = GpuAllocation::none();
    assert!(!alloc.is_available());
}

#[test]
fn gpu_reading_parses_first_line() {
    assert_eq!(read_gpu_memory("8192, 2048\n4096, 0\n"), Some((8192, 2048)));
    assert_eq!(read_gpu_memory(" 100 ,+5 "), Some((100, 5)));
    assert_eq!(read_gpu_memory("0, 0\n"), None);
    assert_eq!(read_gpu_memory("1, 2, 3\n"), None);
    assert_eq!(read_gpu_memory("abc, 2\n"), None);
    assert_eq!(read_gpu_memory(""), None);
    let a = GpuAllocation::with_share(8192, 9000, 0);
    assert_eq!(a.free_mb, 0);
    assert!(a.is_available());
}

#[test]
fn busiest_interface_takes_most_traffic() {
    let cands = vec![("eth0".to_string(), 10u64), ("wlan0".to_string(), 99), ("eth1".to_string(), 99)];
    assert_eq!(busiest_interface(&cands), Some("wlan0".to_string()));
    assert_eq!(busiest_interface(&[]), None);
}

#[test]
fn counters_read_or_zero() {
    assert_eq!(read_counter("12345\n"), 12345);
    assert_eq!(read_counter("garbage"), 0);
    assert_eq!(read_counter(""), 0);
}

#[test]
fn daemon_messages_carry_their_values() {
    let a = Allocation { ram_bytes: 3 * GIB, bandwidth_mbps: 30, shrink_streak: 0, free_mem_avg_bytes: 0, shrinking: true };
    match notify_allocation(&a, true) {
        DaemonMsg::SetAlloc { ram_mb, bandwidth_mbps, .. } => {
            assert_eq!(ram_mb, 3072);
            assert_eq!(bandwidth_mbps, 30);
        },
        other => panic!("unexpected {:?}", other),
    }
    assert!(matches!(notify_shrink("shutdown"), DaemonMsg::Shrink { ref reason, .. } if reason == "shutdown"));
    assert!(matches!(notify_grow(512), DaemonMsg::Grow { headroom_mb: 512, .. }));
    assert!(matches!(notify_status(1, 2, true), DaemonMsg::Status { ram_mb: 1, bandwidth_mbps: 2, shrinking: true, .. }));
}

#[test]
fn nvidia_rows_are_read_field_by_field() {
    let out = "0, 24576, 1024, NVIDIA GeForce RTX 4090, 550.54, 41, 31.25\n1, 8192, x, Tesla, 535.1, 60\n 2 ,16384,0,A2,1.0,[N/A],N/A\n";
    let rows = gpu_rows(out);
    assert_eq!(rows.len(), 2);
    assert_eq!(rows[0].device_id, 0);
    assert_eq!(rows[0].total_vram_mb, 24576);
    assert_eq!(rows[0].used_vram_mb, 1024);
    assert_eq!(rows[0].name, "NVIDIA GeForce RTX 4090");
    assert_eq!(rows[0].driver_version, "550.54");
    assert_eq!(rows[0].temperature_c, 41);
    assert_eq!(rows[0].power_text, "31.25");
    assert_eq!(rows[1].device_id, 2);
    assert_eq!(rows[1].temperature_c, 0);
    assert_eq!(rows[1].power_text, "N/A");
    assert!(gpu_rows("").is_empty());
}

#[test]
fn allocation_never_takes_more_than_nine_tenths() {
    assert_eq!(usable_cores(0), 1);
    assert_eq!(usable_cores(1), 1);
    assert_eq!(usable_cores(4), 3);
    assert_eq!(usable_cores(8), 7);
    assert_eq!(usable_cores(10), 9);
    assert_eq!(usable_cores(11), 9);
    assert_eq!(usable_cores(100), 90);
    let a = allocation_from(100, 99);
    assert_eq!(a.allocated, 90);
    assert_eq!(a.nice, 0);
    assert_eq!(a.affinity_mask.len(), 90);
}

#[test]
fn allocator_shrinks_only_after_three_low_ticks() {
    let limits = AllocatorLimits { safety_margin_bytes: 0, min_alloc_bytes: 0, max_alloc_bytes: 16 * GIB };
    let mut a = Allocator::with_limits(limits, 8 * GIB, 0);
    assert_eq!(a.average_after(0), 0);
    // Two low ticks: the streak grows, the RAM stays.
    assert_eq!(a.tick_with(0, 0, 1).ram_bytes, 8 * GIB);
    assert_eq!(a.tick_with(0, 0, 1).ram_bytes, 8 * GIB);
    assert!(!a.is_shrinking());
    // The third takes back a fifth of the gap.
    let r = a.tick_with(0, 0, 1);
    assert_eq!(r.shrink_streak, 3);
    assert_eq!(r.ram_bytes, 8 * GIB - 8 * GIB / 5);
    assert!(a.is_shrinking());
    // A tick that is not low resets the streak and holds.
    let r = a.tick_with(5, 0, 1);
    assert_eq!(r.shrink_streak, 0);
    assert_eq!(r.ram_bytes, 8 * GIB - 8 * GIB / 5);
    assert_eq!(r.free_mem_avg_bytes, 1);
}

#[test]
fn allocator_grows_by_a_quarter_of_available_at_most() {
    let limits = AllocatorLimits { safety_margin_bytes: 0, min_alloc_bytes: 0, max_alloc_bytes: 16 * GIB };
    let mut a = Allocator::with_limits(limits, 0, 0);
    // Average 8 GiB free: grow toward 4 GiB by at most 2 GiB.
    let r = a.tick_with(8 * GIB, 4 * GIB, 0);
    assert_eq!(r.ram_bytes, 2 * GIB);
    assert_eq!(r.bandwidth_mbps, 20);
    assert_eq!(a.current().ram_bytes, 2 * GIB);
}

/// The allocation `cpu::allocate` makes for a ratio of the usable cores on
/// `total` cores: the share is a float product, taken here as the daemon
/// takes it.
fn allocate_on(total: u32, target_ratio: f64) -> polygone::cpu::CpuAllocation {
    let usable = usable_cores(total);
    let raw = (usable as f64 * target_ratio.clamp(0.0, 0.95)) as u32;
    allocation_from(total, raw)
}

#[test]
fn allocate_reserves_one_for_host() {
    let total = 4;
    let a = allocate_on(total, 0.95);
    assert!(a.allocated <= total - 1, "must leave a core");
}

#[test]
fn allocate_returns_at_least_one() {
    let a = allocate_on(8, 0.01);
    assert!(a.allocated >= 1, "must always allocate at least 1 core");
}

#[test]
fn ratio_is_correct() {
    let a = allocate_on(8, 1.0);
    let ratio = a.allocated as f64 / a.total as f64;
    let expected_usable = 7.0;
    assert!((ratio - a.allocated as f64 / 8.0).abs() < f64::EPSILON);
    assert!(ratio <= expected_usable / 8.0 + 0.01);
}

#[test]
fn detect_primary_interface_skips_loopback() {
    let cands = vec![("lo".to_string(), 9_000_000), ("eth0".to_string(), 500), ("wlan0".to_string(), 700)];
    let iface = primary_interface(&cands);
    assert!(iface.is_none() || iface.as_ref().map(|s| s != "lo").unwrap(), "should not return lo");
    assert_eq!(iface.as_deref(), Some("wlan0"));
    assert_eq!(primary_interface(&[("lo".to_string(), 1)]), None);
    assert_eq!(busiest_interface(&cands).as_deref(), Some("lo"));
}

#[test]
fn allocator_averages_samples_of_any_size() {
    let limits = AllocatorLimits { safety_margin_bytes: 0, min_alloc_bytes: 0, max_alloc_bytes: GIB };
    let mut a = Allocator::with_limits(limits, 0, 0);
    a.tick_with(u64::MAX, 0, 0);
    assert_eq!(a.average_after(u64::MAX), u64::MAX);
    assert_eq!(a.average_after(u64::MAX - 1), u64::MAX - 1);
}
