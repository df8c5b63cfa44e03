//! The allocation policy: tiers, their limits, and the smoothing of RAM.
//!
//! A tier names a preset of utilisation limits; custom limits override it.
//! RAM grows toward its target by a share of the current allocation (at
//! least 64 MiB) and shrinks only when the recent trend is downward and
//! enough history has been seen; it never overshoots the target.

use vstd::prelude::*;
use crate::allocator::MIN_STEP;
use crate::text::{owned, push_str, to_lowercase, unicode_lowercase};

verus! {

/// User-facing allocation presets.
#[derive(Debug, Clone, Copy, PartialEq, Eq, Hash, Structural)]
pub enum AllocationTier {
    Eco,
    Balanced,
    Performance,
    Max,
    Custom,
}

impl Default for AllocationTier {
    fn default() -> (res: AllocationTier)
        ensures
            res == AllocationTier::Balanced,
    {
        AllocationTier::Balanced
    }
}

/// The name of each tier.
pub open spec fn tier_name(t: AllocationTier) -> Seq<char> {
    match t {
        AllocationTier::Eco => "eco"@,
        AllocationTier::Balanced => "balanced"@,
        AllocationTier::Performance => "performance"@,
        AllocationTier::Max => "max"@,
        AllocationTier::Custom => "custom"@,
    }
}

/// The tier a lower-case name stands for.
pub open spec fn tier_named(s: Seq<char>) -> Option<AllocationTier> {
    if s == "eco"@ {
        Some(AllocationTier::Eco)
    } else if s == "balanced"@ {
        Some(AllocationTier::Balanced)
    } else if s == "performance"@ {
        Some(AllocationTier::Performance)
    } else if s == "max"@ {
        Some(AllocationTier::Max)
    } else if s == "custom"@ {
        Some(AllocationTier::Custom)
    } else {
        None
    }
}

impl AllocationTier {
    /// The tier's name.
    pub fn as_str(&self) -> (res: &'static str)
        ensures
            res@ == tier_name(*self),
    {
        match self {
            AllocationTier::Eco => "eco",
            AllocationTier::Balanced => "balanced",
            AllocationTier::Performance => "performance",
            AllocationTier::Max => "max",
            AllocationTier::Custom => "custom",
        }
    }

    /// Reads a tier name in any case; anything else is refused with
    /// `unknown tier: ` and the text given.
    pub fn parse(s: &str) -> (res: Result<AllocationTier, String>)
        ensures
            match tier_named(unicode_lowercase(s@)) {
                Some(t) => res == Ok::<AllocationTier, String>(t),
                None => res matches Err(m) && m@ == "unknown tier: "@ + s@,
            },
    {
        let lower = to_lowercase(s);
        let l = lower.as_str();
        if crate::text::str_eq(l, "eco") {
            Ok(AllocationTier::Eco)
        } else if crate::text::str_eq(l, "balanced") {
            Ok(AllocationTier::Balanced)
        } else if crate::text::str_eq(l, "performance") {
            Ok(AllocationTier::Performance)
        } else if crate::text::str_eq(l, "max") {
            Ok(AllocationTier::Max)
        } else if crate::text::str_eq(l, "custom") {
            Ok(AllocationTier::Custom)
        } else {
            let mut m = owned("unknown tier: ");
            push_str(&mut m, s);
            Err(m)
        }
    }
}

impl std::str::FromStr for AllocationTier {
    type Err = String;

    /// Reads a tier name as [`AllocationTier::parse`] does.
    fn from_str(s: &str) -> (res: Result<AllocationTier, String>)
        ensures
            match tier_named(unicode_lowercase(s@)) {
                Some(t) => res == Ok::<AllocationTier, String>(t),
                None => res matches Err(m) && m@ == "unknown tier: "@ + s@,
            },
    {
        AllocationTier::parse(s)
    }
}

/// Maximum utilisation percentages within a tier.
#[derive(Debug, Clone, Copy, PartialEq, Eq, Structural)]
pub struct ResourceLimits {
    pub max_cpu_percent: u8,
    pub max_ram_percent: u8,
    pub max_bandwidth_percent: u8,
    pub max_gpu_percent: u8,
}

impl Default for ResourceLimits {
    fn default() -> (res: ResourceLimits)
        ensures
            res == (ResourceLimits { max_cpu_percent: 0, max_ram_percent: 0, max_bandwidth_percent: 0, max_gpu_percent: 0 }),
    {
        ResourceLimits { max_cpu_percent: 0, max_ram_percent: 0, max_bandwidth_percent: 0, max_gpu_percent: 0 }
    }
}

/// A named tier preset.
#[derive(Debug, Clone, Copy)]
pub struct TierPreset {
    pub name: &'static str,
    pub cpu_pct: u8,
    pub ram_pct: u8,
    pub bandwidth_pct: u8,
    pub gpu_pct: u8,
}

/// The percentages (cpu, ram, bandwidth, gpu) of each named tier.
pub open spec fn preset_pcts(t: AllocationTier) -> Option<(u8, u8, u8, u8)> {
    match t {
        AllocationTier::Eco => Some((25, 30, 40, 20)),
        AllocationTier::Balanced => Some((50, 50, 60, 40)),
        AllocationTier::Performance => Some((75, 70, 80, 60)),
        AllocationTier::Max => Some((90, 85, 95, 80)),
        AllocationTier::Custom => None,
    }
}

/// The percentages of a preset.
pub open spec fn pcts_of(p: TierPreset) -> (u8, u8, u8, u8) {
    (p.cpu_pct, p.ram_pct, p.bandwidth_pct, p.gpu_pct)
}

/// The four named presets, in order: eco, balanced, performance, max.
pub fn tier_presets() -> (res: [(&'static str, TierPreset); 4])
    ensures
        res[0].0@ == "eco"@ && res[0].1.name@ == "eco"@ && pcts_of(res[0].1) == (25u8, 30u8, 40u8, 20u8),
        res[1].0@ == "balanced"@ && res[1].1.name@ == "balanced"@ && pcts_of(res[1].1) == (50u8, 50u8, 60u8, 40u8),
        res[2].0@ == "performance"@ && res[2].1.name@ == "performance"@ && pcts_of(res[2].1) == (75u8, 70u8, 80u8, 60u8),
        res[3].0@ == "max"@ && res[3].1.name@ == "max"@ && pcts_of(res[3].1) == (90u8, 85u8, 95u8, 80u8),
{
    [
        ("eco", TierPreset { name: "eco", cpu_pct: 25, ram_pct: 30, bandwidth_pct: 40, gpu_pct: 20 }),
        ("balanced", TierPreset { name: "balanced", cpu_pct: 50, ram_pct: 50, bandwidth_pct: 60, gpu_pct: 40 }),
        ("performance", TierPreset { name: "performance", cpu_pct: 75, ram_pct: 70, bandwidth_pct: 80, gpu_pct: 60 }),
        ("max", TierPreset { name: "max", cpu_pct: 90, ram_pct: 85, bandwidth_pct: 95, gpu_pct: 80 }),
    ]
}

/// The preset of a named tier; `None` for `Custom`.
pub fn preset_for(tier: AllocationTier) -> (res: Option<TierPreset>)
    ensures
        match preset_pcts(tier) {
            Some(p) => res matches Some(q) && pcts_of(q) == p && q.name@ == tier_name(tier),
            None => res is None,
        },
{
    let presets = tier_presets();
    match tier {
        AllocationTier::Eco => Some(presets[0].1),
        AllocationTier::Balanced => Some(presets[1].1),
        AllocationTier::Performance => Some(presets[2].1),
        AllocationTier::Max => Some(presets[3].1),
        AllocationTier::Custom => None,
    }
}

/// The limits that apply: custom limits when given, else the tier's
/// preset, else (for `Custom` without limits) 50/50/60/40.
pub fn effective_limits(tier: AllocationTier, custom: Option<ResourceLimits>) -> (res: ResourceLimits)
    ensures
        res == match custom {
            Some(c) => c,
            None => match preset_pcts(tier) {
                Some(p) => ResourceLimits { max_cpu_percent: p.0, max_ram_percent: p.1, max_bandwidth_percent: p.2, max_gpu_percent: p.3 },
                None => ResourceLimits { max_cpu_percent: 50, max_ram_percent: 50, max_bandwidth_percent: 60, max_gpu_percent: 40 },
            },
        },
{
    match custom {
        Some(c) => c,
        None => match preset_for(tier) {
            Some(p) => ResourceLimits {
                max_cpu_percent: p.cpu_pct,
                max_ram_percent: p.ram_pct,
                max_bandwidth_percent: p.bandwidth_pct,
                max_gpu_percent: p.gpu_pct,
            },
            None => ResourceLimits { max_cpu_percent: 50, max_ram_percent: 50, max_bandwidth_percent: 60, max_gpu_percent: 40 },
        },
    }
}

/// Caps the CPU limit at the safety ceiling; the other limits pass.
pub fn apply_safety(limits: ResourceLimits, safety_max_cpu_percent: u8) -> (res: ResourceLimits)
    ensures
        res == (ResourceLimits {
            max_cpu_percent: if limits.max_cpu_percent > safety_max_cpu_percent { safety_max_cpu_percent } else { limits.max_cpu_percent },
            ..limits
        }),
        res.max_cpu_percent <= safety_max_cpu_percent,
{
    let mut out = limits;
    if out.max_cpu_percent > safety_max_cpu_percent {
        out.max_cpu_percent = safety_max_cpu_percent;
    }
    out
}

/// Hysteresis, step sizes and activity throttling.
#[derive(Debug, Clone)]
pub struct BehaviorConfig {
    pub grow_step_pct: u8,
    pub shrink_step_pct: u8,
    pub shrink_hysteresis_ticks: u32,
    pub throttle_on_user_activity: bool,
    pub tick_interval_secs: u64,
}

impl Default for BehaviorConfig {
    fn default() -> (res: BehaviorConfig)
        ensures
            res.grow_step_pct == 10,
            res.shrink_step_pct == 5,
            res.shrink_hysteresis_ticks == 5,
            res.throttle_on_user_activity,
            res.tick_interval_secs == 5,
    {
        BehaviorConfig {
            grow_step_pct: 10,
            shrink_step_pct: 5,
            shrink_hysteresis_ticks: 5,
            throttle_on_user_activity: true,
            tick_interval_secs: 5,
        }
    }
}

/// The recent allocations, oldest first.
#[derive(Debug, Clone)]
pub struct AllocationHistory {
    /// RAM allocations in bytes.
    pub ram_allocations: Vec<u64>,
    /// CPU core allocations.
    pub cpu_allocations: Vec<usize>,
    /// Bandwidth allocations in Mbps.
    pub bw_allocations: Vec<u32>,
    /// GPU allocations in MB.
    pub gpu_allocations: Vec<u32>,
    /// How many entries are kept.
    pub max_len: usize,
}

/// The RAM entries after recording one: at most `max_len` newest kept.
pub open spec fn ram_after(s: Seq<u64>, ram: u64, max_len: usize) -> Seq<u64> {
    let p = s.push(ram);
    if p.len() > max_len {
        p.drop_first()
    } else {
        p
    }
}

impl AllocationHistory {
    /// An empty history keeping `max_len` entries.
    pub fn new(max_len: usize) -> (res: AllocationHistory)
        ensures
            res.ram_allocations@.len() == 0,
            res.cpu_allocations@.len() == 0,
            res.bw_allocations@.len() == 0,
            res.gpu_allocations@.len() == 0,
            res.max_len == max_len,
    {
        AllocationHistory {
            ram_allocations: Vec::new(),
            cpu_allocations: Vec::new(),
            bw_allocations: Vec::new(),
            gpu_allocations: Vec::new(),
            max_len,
        }
    }

    /// Records an allocation's RAM, dropping the oldest beyond `max_len`.
    pub fn push(&mut self, ram_bytes: u64)
        ensures
            final(self).ram_allocations@ == ram_after(old(self).ram_allocations@, ram_bytes, old(self).max_len),
            final(self).max_len == old(self).max_len,
            final(self).cpu_allocations@ == old(self).cpu_allocations@,
            final(self).bw_allocations@ == old(self).bw_allocations@,
            final(self).gpu_allocations@ == old(self).gpu_allocations@,
    {
        self.ram_allocations.push(ram_bytes);
        if self.ram_allocations.len() > self.max_len {
            self.ram_allocations.remove(0);
        }
    }

    /// Newest RAM minus oldest RAM; 0 with fewer than two entries.
    pub fn trend_ram(&self) -> (res: i64)
        requires
            self.ram_allocations@.len() >= 2 ==> self.ram_allocations@[0] <= i64::MAX
                && self.ram_allocations@.last() <= i64::MAX,
        ensures
            res == (if self.ram_allocations@.len() < 2 {
                0
            } else {
                self.ram_allocations@.last() - self.ram_allocations@[0]
            }),
    {
        if self.ram_allocations.len() < 2 {
            return 0;
        }
        let first = self.ram_allocations[0] as i64;
        let last = self.ram_allocations[self.ram_allocations.len() - 1] as i64;
        last - first
    }

    /// The number of RAM entries.
    pub fn len(&self) -> (res: usize)
        ensures
            res == self.ram_allocations@.len(),
    {
        self.ram_allocations.len()
    }
}

/// The RAM a fresh engine starts with: the tier's RAM share of 1 GiB per
/// percent point, at most 2 GiB (balanced when the tier has no preset).
pub fn initial_ram_for(tier: AllocationTier) -> (res: u64)
    ensures
        res == ({
            let pct = match preset_pcts(tier) {
                Some(p) => p.1,
                None => 50u8,
            };
            let r = pct * 1_073_741_824 / 100;
            if r < 2_147_483_648 { r } else { 2_147_483_648 }
        }),
{
    let pct = match preset_for(tier) {
        Some(p) => p.ram_pct,
        None => 50,
    };
    let r = (pct as u64) * 1_073_741_824 / 100;
    if r < 2_147_483_648 { r } else { 2_147_483_648 }
}

/// The RAM one tick moves to, from `current` toward `target`.
pub open spec fn smoothed_ram(current: u64, target: u64, grow_pct: u8, shrink_pct: u8, trend: i64, history_len: nat, hysteresis: u32) -> int {
    if target > current {
        let share = current * grow_pct / 100;
        let step = if share > MIN_STEP { share } else { MIN_STEP as int };
        if current + step < target { current + step } else { target as int }
    } else if target < current {
        if trend < 0 && history_len >= hysteresis {
            let share = current * shrink_pct / 100;
            let step = if share > MIN_STEP { share } else { MIN_STEP as int };
            let down = if current >= step { current - step } else { 0 };
            if down > target { down } else { target as int }
        } else {
            current as int
        }
    } else {
        current as int
    }
}

/// Moves RAM one tick toward the target: growing by `grow_pct` percent of
/// the current allocation (at least 64 MiB), shrinking by `shrink_pct`
/// percent (at least 64 MiB) only when the trend is downward and at least
/// `hysteresis` entries are in the history, and never past the target.
pub fn smooth_ram(current: u64, target: u64, grow_pct: u8, shrink_pct: u8, trend: i64, history_len: usize, hysteresis: u32) -> (res: u64)
    requires
        target > current ==> current * grow_pct <= u64::MAX && current + MIN_STEP + current * grow_pct / 100 <= u64::MAX,
        target < current ==> current * shrink_pct <= u64::MAX,
    ensures
        res == smoothed_ram(current, target, grow_pct, shrink_pct, trend, history_len as nat, hysteresis),
        target >= current ==> current <= res <= target,
        target <= current ==> target <= res <= current,
        target < current && !(trend < 0 && history_len >= hysteresis) ==> res == current,
        res < current ==> trend < 0 && history_len >= hysteresis && target < current,
{
    if target > current {
        let share = current * (grow_pct as u64) / 100;
        let step = if share > MIN_STEP { share } else { MIN_STEP };
        if current + step < target { current + step } else { target }
    } else if target < current {
        if trend < 0 && history_len >= hysteresis as usize {
            let share = current * (shrink_pct as u64) / 100;
            let step = if share > MIN_STEP { share } else { MIN_STEP };
            let down = current.saturating_sub(step);
            if down > target { down } else { target }
        } else {
            current
        }
    } else {
        current
    }
}

/// The nice level for an allocation: full priority above 512 MiB, else 5.
pub fn nice_for(ram_bytes: u64) -> (res: i32)
    ensures
        res == (if ram_bytes > 536_870_912 { 0i32 } else { 5i32 }),
{
    if ram_bytes > 536_870_912 { 0 } else { 5 }
}

/// RAM is never taken back without a downward trend over a full
/// hysteresis window: whenever the smoothed RAM is below the current RAM,
/// the target is lower, the trend is negative and the history holds at
/// least `hysteresis` entries; otherwise, with the target lower, the RAM
/// holds. It never moves past the target.
pub proof fn lemma_shrink_needs_downtrend_and_window(
    current: u64,
    target: u64,
    grow_pct: u8,
    shrink_pct: u8,
    trend: i64,
    history_len: nat,
    hysteresis: u32,
)
    ensures
        smoothed_ram(current, target, grow_pct, shrink_pct, trend, history_len, hysteresis) < current
            ==> trend < 0 && history_len >= hysteresis && target < current,
        target < current && !(trend < 0 && history_len >= hysteresis) ==> smoothed_ram(
            current,
            target,
            grow_pct,
            shrink_pct,
            trend,
            history_len,
            hysteresis,
        ) == current,
        target <= current ==> target <= smoothed_ram(current, target, grow_pct, shrink_pct, trend, history_len, hysteresis)
            <= current,
        target >= current ==> current <= smoothed_ram(current, target, grow_pct, shrink_pct, trend, history_len, hysteresis)
            <= target,
{
}

} // verus!
