//! The daemon's RAM allocation control loop, in integers.
//!
//! Each tick the free-memory sample joins a window of the last twelve;
//! their average drives the target. The allocation grows toward the target
//! quickly but shrinks only after three consecutive low-memory ticks, by
//! a fifth of the gap at a time (at least 64 MiB), and always stays within
//! the configured floor and ceiling. Bandwidth follows RAM: 10 Mbps per
//! allocated GiB, between 1 and 100.
//!
//! The target itself (a ratio of the average, halved under CPU load or
//! user activity) is computed by the caller, in floating point.

use vstd::prelude::*;

verus! {

/// Samples in the moving average (12 ticks of 5 s).
pub const MEM_WINDOW: usize = 12;

/// Consecutive low-memory ticks before shrinking starts.
pub const SHRINK_HYSTERESIS: u32 = 3;

/// Bytes in a GiB.
pub const GIB: u64 = 1_073_741_824;

/// Bytes in a MiB.
pub const MIB: u64 = 1_048_576;

/// The smallest shrink or growth step: 64 MiB.
pub const MIN_STEP: u64 = 67_108_864;

/// The current allocation.
#[derive(Debug, Clone, Copy)]
pub struct Allocation {
    pub ram_bytes: u64,
    pub bandwidth_mbps: u32,
    /// Consecutive low-memory ticks.
    pub shrink_streak: u32,
    /// Moving average of free RAM.
    pub free_mem_avg_bytes: u64,
    /// True while the allocation is being shrunk.
    pub shrinking: bool,
}

impl Allocation {
    /// The RAM in whole MiB.
    pub fn ram_mb(&self) -> (res: u64)
        ensures
            res == self.ram_bytes / MIB,
    {
        self.ram_bytes / MIB
    }
}

/// 10 Mbps per allocated GiB (rounded down), between 1 and 100.
pub open spec fn bandwidth_for(ram_bytes: u64) -> u32 {
    let g = ram_bytes * 10 / (GIB as int);
    if g < 1 {
        1
    } else if g > 100 {
        100
    } else {
        g as u32
    }
}

/// The bandwidth that goes with an allocation of `ram_bytes`.
pub fn bandwidth_from_bytes(ram_bytes: u64) -> (res: u32)
    ensures
        res == bandwidth_for(ram_bytes),
        1 <= res <= 100,
{
    let g: u128 = (ram_bytes as u128) * 10 / (GIB as u128);
    if g < 1 {
        1
    } else if g > 100 {
        100
    } else {
        g as u32
    }
}

/// The RAM kept free for the host, by total RAM: 512 MiB under 4 GiB,
/// 1 GiB under 8 GiB, else 2 GiB.
pub fn safety_margin_for(total_bytes: u64) -> (res: u64)
    ensures
        res == (if total_bytes < 4 * GIB {
            512 * MIB
        } else if total_bytes < 8 * GIB {
            GIB as int
        } else {
            2 * GIB
        }),
{
    if total_bytes < 4 * GIB {
        512 * MIB
    } else if total_bytes < 8 * GIB {
        GIB
    } else {
        2 * GIB
    }
}

/// The sum of a list of samples.
pub open spec fn sample_sum(s: Seq<u64>) -> nat
    decreases s.len(),
{
    if s.len() == 0 {
        0
    } else {
        sample_sum(s.drop_last()) + s.last() as nat
    }
}

/// The window after a new sample: the last twelve samples.
pub open spec fn window_after(s: Seq<u64>, sample: u64) -> Seq<u64> {
    let p = s.push(sample);
    if p.len() > MEM_WINDOW {
        p.drop_first()
    } else {
        p
    }
}

/// The moving window of free-RAM samples, newest last.
pub struct MemoryHistory {
    samples: Vec<u64>,
}

impl MemoryHistory {
    /// The samples in the window.
    pub closed spec fn window(&self) -> Seq<u64> {
        self.samples@
    }

    /// An empty window.
    pub fn new() -> (res: MemoryHistory)
        ensures
            res.window().len() == 0,
    {
        MemoryHistory { samples: Vec::new() }
    }

    /// Adds a sample (dropping the oldest beyond twelve) and returns the
    /// average of the window, rounded down.
    pub fn push_sample(&mut self, sample: u64) -> (res: u64)
        requires
            old(self).window().len() <= MEM_WINDOW,
        ensures
            final(self).window() == window_after(old(self).window(), sample),
            final(self).window().len() <= MEM_WINDOW,
            res == sample_sum(final(self).window()) / final(self).window().len() as nat,
    {
        self.samples.push(sample);
        if self.samples.len() > MEM_WINDOW {
            self.samples.remove(0);
            proof {
                assert(self.samples@ =~= window_after(old(self).samples@, sample));
            }
        }
        let ghost w = self.samples@;
        let mut sum: u128 = 0;
        let mut i: usize = 0;
        while i < self.samples.len()
            invariant
                0 <= i <= w.len(),
                w.len() <= MEM_WINDOW,
                w == self.samples@,
                sum == sample_sum(w.take(i as int)),
            decreases w.len() - i,
        {
            proof {
                assert(w.take(i + 1).drop_last() =~= w.take(i as int));
                lemma_sample_sum_bound(w.take(i + 1));
            }
            sum = sum + self.samples[i] as u128;
            i = i + 1;
        }
        proof {
            assert(w.take(w.len() as int) =~= w);
            lemma_sample_sum_bound(w);
            let n = w.len() as int;
            let t = sample_sum(w) as int;
            assert(t / n <= 0xffff_ffff_ffff_ffff) by (nonlinear_arith)
                requires
                    t <= n * 0xffff_ffff_ffff_ffff,
                    n >= 1,
            ;
        }
        (sum / (self.samples.len() as u128)) as u64
    }
}

/// Samples sum to at most their number times the largest `u64`.
pub proof fn lemma_sample_sum_bound(s: Seq<u64>)
    ensures
        sample_sum(s) <= s.len() * 0xffff_ffff_ffff_ffff,
    decreases s.len(),
{
    if s.len() > 0 {
        lemma_sample_sum_bound(s.drop_last());
    }
}

/// `min(max(x, lo), hi)` applied as the loop does: first the ceiling, then
/// the floor.
pub open spec fn bounded(x: u64, floor: u64, ceiling: u64) -> u64 {
    let c = if x < ceiling { x } else { ceiling };
    if c > floor { c } else { floor }
}

/// The RAM after one tick, before the final bounds: shrink by a fifth of
/// the gap (at least 64 MiB, never below the floor) when allowed, grow by
/// the gap but at most a quarter of the available RAM (at least 64 MiB,
/// never above the ceiling), else hold.
pub open spec fn moved_ram(cur: u64, target: u64, allow_shrink: bool, available: u64, floor: u64, ceiling: u64) -> u64 {
    if target < cur && allow_shrink {
        let step: int = if (cur - target) / 5 > MIN_STEP { (cur - target) / 5 } else { MIN_STEP as int };
        let r = if cur >= step { cur - step } else { 0 };
        if r > floor { r as u64 } else { floor }
    } else if target > cur {
        let cap: int = if available / 4 > MIN_STEP { (available / 4) as int } else { MIN_STEP as int };
        let step = if target - cur < cap { target - cur } else { cap };
        let r = if cur + step <= u64::MAX { cur + step } else { u64::MAX as int };
        if r < ceiling { r as u64 } else { ceiling }
    } else {
        cur
    }
}

/// The low-memory streak after a tick with average `avg`.
pub open spec fn next_streak(streak: u32, avg: u64, low_threshold: u64) -> u32 {
    if avg < low_threshold {
        if streak < u32::MAX { (streak + 1) as u32 } else { u32::MAX }
    } else {
        0
    }
}

/// One tick of the control loop after the target is known: updates the
/// low-memory streak, moves RAM toward `target` (shrinking only after
/// three low ticks), applies the floor and the ceiling, and derives the
/// bandwidth. Returns the new allocation and whether it is shrinking.
pub fn settle(
    current: Allocation,
    shrinking: bool,
    floor: u64,
    ceiling: u64,
    avg: u64,
    available: u64,
    target: u64,
    low_threshold: u64,
) -> (res: (Allocation, bool))
    ensures
        res.0.shrink_streak == next_streak(current.shrink_streak, avg, low_threshold),
        res.0.ram_bytes == bounded(
            moved_ram(
                current.ram_bytes,
                target,
                next_streak(current.shrink_streak, avg, low_threshold) >= SHRINK_HYSTERESIS,
                available,
                floor,
                ceiling,
            ),
            floor,
            ceiling,
        ),
        res.0.bandwidth_mbps == bandwidth_for(res.0.ram_bytes),
        res.0.free_mem_avg_bytes == avg,
        res.0.shrinking == current.shrinking,
        res.1 == (if target < current.ram_bytes && next_streak(current.shrink_streak, avg, low_threshold)
            >= SHRINK_HYSTERESIS {
            true
        } else if target > current.ram_bytes && avg > low_threshold {
            false
        } else {
            shrinking
        }),
{
    let mut cur = current;
    if avg < low_threshold {
        cur.shrink_streak = cur.shrink_streak.saturating_add(1);
    } else {
        cur.shrink_streak = 0;
    }
    let allow_shrink = cur.shrink_streak >= SHRINK_HYSTERESIS;
    let mut now_shrinking = shrinking;
    if target < cur.ram_bytes && allow_shrink {
        let delta = cur.ram_bytes - target;
        let step = if delta / 5 > MIN_STEP { delta / 5 } else { MIN_STEP };
        let r = cur.ram_bytes.saturating_sub(step);
        cur.ram_bytes = if r > floor { r } else { floor };
        now_shrinking = true;
    } else if target > cur.ram_bytes {
        let delta = target - cur.ram_bytes;
        let cap = if available / 4 > MIN_STEP { available / 4 } else { MIN_STEP };
        let step = if delta < cap { delta } else { cap };
        let r = cur.ram_bytes.saturating_add(step);
        cur.ram_bytes = if r < ceiling { r } else { ceiling };
        if avg > low_threshold {
            now_shrinking = false;
        }
    }
    let c = if cur.ram_bytes < ceiling { cur.ram_bytes } else { ceiling };
    cur.ram_bytes = if c > floor { c } else { floor };
    cur.bandwidth_mbps = bandwidth_from_bytes(cur.ram_bytes);
    cur.free_mem_avg_bytes = avg;
    (cur, now_shrinking)
}

/// The allocation always ends within the floor and the ceiling (at the
/// floor when the floor is above the ceiling), and its bandwidth within
/// 1..=100.
pub proof fn lemma_settle_bounds(x: u64, floor: u64, ceiling: u64)
    ensures
        floor <= ceiling ==> floor <= bounded(x, floor, ceiling) <= ceiling,
        floor > ceiling ==> bounded(x, floor, ceiling) == floor,
        1 <= bandwidth_for(bounded(x, floor, ceiling)) <= 100,
{
}

/// RAM is never taken back before three consecutive low-memory ticks:
/// when the allocation already lies within its bounds and goes down, the
/// streak has reached the hysteresis.
pub proof fn lemma_shrink_needs_streak(cur: u64, target: u64, streak: u32, avg: u64, low: u64, available: u64, floor: u64, ceiling: u64)
    requires
        floor <= cur <= ceiling,
        bounded(
            moved_ram(cur, target, next_streak(streak, avg, low) >= SHRINK_HYSTERESIS, available, floor, ceiling),
            floor,
            ceiling,
        ) < cur,
    ensures
        next_streak(streak, avg, low) >= SHRINK_HYSTERESIS,
{
}

/// The low-memory streak after a run of ticks from a fresh start, `true`
/// for each tick whose average was low: the ticks counted back from the
/// last one to the first that was not low (never past `u32::MAX`).
pub open spec fn streak_after(lows: Seq<bool>) -> u32
    decreases lows.len(),
{
    if lows.len() == 0 {
        0
    } else {
        let s = streak_after(lows.drop_last());
        if lows.last() {
            if s < u32::MAX { (s + 1) as u32 } else { u32::MAX }
        } else {
            0
        }
    }
}

/// A streak of `k` means the last `k` ticks were all low.
pub proof fn lemma_streak_counts_trailing_lows(lows: Seq<bool>, k: int)
    requires
        0 <= k <= streak_after(lows),
    ensures
        k <= lows.len(),
        forall|i: int| lows.len() - k <= i < lows.len() ==> #[trigger] lows[i],
    decreases lows.len(),
{
    if lows.len() > 0 && k > 0 {
        let d = lows.drop_last();
        assert(lows.last());
        lemma_streak_counts_trailing_lows(d, k - 1);
        assert forall|i: int| lows.len() - k <= i < lows.len() implies #[trigger] lows[i] by {
            if i < lows.len() - 1 {
                assert(lows[i] == d[i]);
            }
        }
    }
}

/// The byte bounds an allocator keeps to.
#[derive(Clone, Copy, Debug)]
pub struct AllocatorLimits {
    /// Free RAM the allocation never counts on.
    pub safety_margin_bytes: u64,
    /// The allocation never goes below this.
    pub min_alloc_bytes: u64,
    /// The allocation never goes above this.
    pub max_alloc_bytes: u64,
}

/// The allocation engine's state: the window of free-RAM samples, the
/// current allocation and whether it is shrinking. The ideal target of a
/// tick scales by a ratio and is throttled by fractions, so the caller
/// works it out; [`Allocator::tick_with`] does the rest of the tick.
pub struct Allocator {
    limits: AllocatorLimits,
    history: MemoryHistory,
    current: Allocation,
    shrinking: bool,
    lows: Ghost<Seq<bool>>,
}

impl Allocator {
    /// The bounds.
    pub closed spec fn bounds(&self) -> AllocatorLimits {
        self.limits
    }

    /// The free-RAM samples in the window.
    pub closed spec fn window(&self) -> Seq<u64> {
        self.history.window()
    }

    /// The current allocation.
    pub closed spec fn state(&self) -> Allocation {
        self.current
    }

    /// Whether the allocation is being shrunk.
    pub closed spec fn shrinking_now(&self) -> bool {
        self.shrinking
    }

    /// For each tick so far, whether its average free RAM was low.
    pub closed spec fn low_ticks(&self) -> Seq<bool> {
        self.lows@
    }

    /// The window holds at most twelve samples, and the streak counts the
    /// low ticks at the end of the run.
    pub closed spec fn wf(&self) -> bool {
        &&& self.history.window().len() <= MEM_WINDOW
        &&& self.current.shrink_streak == streak_after(self.lows@)
    }

    /// A fresh allocator at `ram_bytes`, having seen `free_bytes` free.
    pub fn with_limits(limits: AllocatorLimits, ram_bytes: u64, free_bytes: u64) -> (res: Allocator)
        ensures
            res.wf(),
            res.bounds() == limits,
            res.window().len() == 0,
            res.low_ticks().len() == 0,
            !res.shrinking_now(),
            res.state() == (Allocation {
                ram_bytes,
                bandwidth_mbps: bandwidth_for(ram_bytes),
                shrink_streak: 0,
                free_mem_avg_bytes: free_bytes,
                shrinking: false,
            }),
    {
        let current = Allocation {
            ram_bytes,
            bandwidth_mbps: bandwidth_from_bytes(ram_bytes),
            shrink_streak: 0,
            free_mem_avg_bytes: free_bytes,
            shrinking: false,
        };
        Allocator { limits, history: MemoryHistory::new(), current, shrinking: false, lows: Ghost(Seq::empty()) }
    }

    /// The current allocation.
    pub fn current(&self) -> (res: Allocation)
        ensures
            res == self.state(),
    {
        self.current
    }

    /// Whether the allocation is being shrunk.
    pub fn is_shrinking(&self) -> (res: bool)
        ensures
            res == self.shrinking_now(),
    {
        self.shrinking
    }

    /// The bounds.
    pub fn limits(&self) -> (res: AllocatorLimits)
        ensures
            res == self.bounds(),
    {
        self.limits
    }

    /// Sets the allocated RAM.
    pub fn set_ram_bytes(&mut self, bytes: u64)
        requires
            old(self).wf(),
        ensures
            final(self).wf(),
            final(self).state() == (Allocation { ram_bytes: bytes, ..old(self).state() }),
            final(self).bounds() == old(self).bounds(),
            final(self).window() == old(self).window(),
            final(self).low_ticks() == old(self).low_ticks(),
            final(self).shrinking_now() == old(self).shrinking_now(),
    {
        self.current.ram_bytes = bytes;
    }

    /// The moving average a tick with this sample would see: the mean of
    /// the window once the sample is in, rounded down.
    pub fn average_after(&self, sample: u64) -> (res: u64)
        requires
            self.wf(),
        ensures
            res == sample_sum(window_after(self.window(), sample)) / window_after(self.window(), sample).len() as nat,
    {
        let mut h = MemoryHistory { samples: self.history.samples.clone() };
        assert(h.samples@ =~= self.history.samples@);
        h.push_sample(sample)
    }

    /// One tick, once the caller has the target for this tick's average
    /// (see [`Allocator::average_after`]) and the low-memory threshold:
    /// takes in the sample, counts a low tick when the average is below the
    /// threshold, and settles the allocation between the bounds, with
    /// RAM available above the safety margin. RAM is only taken back after
    /// three low ticks in a row.
    pub fn tick_with(&mut self, sample: u64, target: u64, low_threshold: u64) -> (res: Allocation)
        requires
            old(self).wf(),
        ensures
            final(self).wf(),
            final(self).bounds() == old(self).bounds(),
            final(self).window() == window_after(old(self).window(), sample),
            res == final(self).state(),
            ({
                let avg = (sample_sum(final(self).window()) / final(self).window().len() as nat) as u64;
                let lim = old(self).bounds();
                let available: u64 = if avg >= lim.safety_margin_bytes { (avg - lim.safety_margin_bytes) as u64 } else { 0 };
                let streak = next_streak(old(self).state().shrink_streak, avg, low_threshold);
                let old_ram = old(self).state().ram_bytes;
                &&& final(self).low_ticks() == old(self).low_ticks().push(avg < low_threshold)
                &&& res.shrink_streak == streak
                &&& res.ram_bytes == bounded(
                    moved_ram(old_ram, target, streak >= SHRINK_HYSTERESIS, available, lim.min_alloc_bytes, lim.max_alloc_bytes),
                    lim.min_alloc_bytes,
                    lim.max_alloc_bytes,
                )
                &&& res.bandwidth_mbps == bandwidth_for(res.ram_bytes)
                &&& res.free_mem_avg_bytes == avg
                &&& res.shrinking == old(self).state().shrinking
                &&& final(self).shrinking_now() == (if target < old_ram && streak >= SHRINK_HYSTERESIS {
                    true
                } else if target > old_ram && avg > low_threshold {
                    false
                } else {
                    old(self).shrinking_now()
                })
            }),
            old(self).state().ram_bytes <= old(self).bounds().max_alloc_bytes && res.ram_bytes < old(self).state().ram_bytes
                ==> res.shrink_streak >= SHRINK_HYSTERESIS && final(self).shrinking_now() && {
                let l = final(self).low_ticks();
                l.len() >= 3 && l[l.len() - 1] && l[l.len() - 2] && l[l.len() - 3]
            },
    {
        let avg = self.history.push_sample(sample);
        let lim = self.limits;
        let available = avg.saturating_sub(lim.safety_margin_bytes);
        let ghost old_lows = self.lows@;
        let (next, now_shrinking) = settle(
            self.current,
            self.shrinking,
            lim.min_alloc_bytes,
            lim.max_alloc_bytes,
            avg,
            available,
            target,
            low_threshold,
        );
        self.current = next;
        self.shrinking = now_shrinking;
        self.lows = Ghost(old_lows.push(avg < low_threshold));
        proof {
            let l = self.lows@;
            assert(l.drop_last() =~= old_lows);
            assert(l.last() == (avg < low_threshold));
            assert(self.current.shrink_streak == streak_after(l));
            if old(self).current.ram_bytes <= lim.max_alloc_bytes && next.ram_bytes < old(self).current.ram_bytes {
                lemma_settle_bounds(
                    moved_ram(old(self).current.ram_bytes, target, next.shrink_streak >= SHRINK_HYSTERESIS, available, lim.min_alloc_bytes, lim.max_alloc_bytes),
                    lim.min_alloc_bytes,
                    lim.max_alloc_bytes,
                );
                assert(next.shrink_streak >= SHRINK_HYSTERESIS);
                lemma_streak_counts_trailing_lows(l, 3);
                assert(l[l.len() - 1] && l[l.len() - 2] && l[l.len() - 3]);
            }
        }
        next
    }
}

/// Dropping the allocation to nothing, for shutdown.
pub fn shrink_to_zero(current: Allocation) -> (res: Allocation)
    ensures
        res == (Allocation { ram_bytes: 0, bandwidth_mbps: 0, ..current }),
{
    Allocation { ram_bytes: 0, bandwidth_mbps: 0, ..current }
}

/// The window keeps the newest samples: after a sample is pushed, it holds
/// the last `MEM_WINDOW` samples (all of them while there are fewer), in
/// the order they came, ending with the new one. The oldest sample of a
/// full window leaves.
pub proof fn lemma_window_keeps_newest(s: Seq<u64>, x: u64)
    requires
        s.len() <= MEM_WINDOW,
    ensures
        ({
            let w = window_after(s, x);
            let p = s.push(x);
            &&& w.len() == (if p.len() > MEM_WINDOW { MEM_WINDOW as nat } else { p.len() })
            &&& w.last() == x
            &&& forall|i: int| 0 <= i < w.len() ==> #[trigger] w[i] == p[p.len() - w.len() + i]
        }),
{
}

/// Pushing `MEM_WINDOW` equal samples leaves a window of that sample only,
/// whatever was there before.
pub proof fn lemma_window_forgets_after_a_full_turn(s: Seq<u64>, x: u64, n: nat)
    requires
        s.len() <= MEM_WINDOW,
    ensures
        ({
            let w = pushed_n(s, x, n);
            &&& w.len() <= MEM_WINDOW
            &&& n >= MEM_WINDOW ==> w.len() == MEM_WINDOW && forall|i: int| 0 <= i < w.len() ==> #[trigger] w[i] == x
        }),
{
    lemma_pushed_n_tail(s, x, n);
}

/// The window after `n` more pushes of `x`.
pub open spec fn pushed_n(s: Seq<u64>, x: u64, n: nat) -> Seq<u64>
    decreases n,
{
    if n == 0 {
        s
    } else {
        window_after(pushed_n(s, x, (n - 1) as nat), x)
    }
}

proof fn lemma_pushed_n_tail(s: Seq<u64>, x: u64, n: nat)
    requires
        s.len() <= MEM_WINDOW,
    ensures
        pushed_n(s, x, n).len() <= MEM_WINDOW,
        pushed_n(s, x, n).len() >= (if n <= MEM_WINDOW { n } else { MEM_WINDOW as nat }),
        forall|i: int|
            pushed_n(s, x, n).len() - (if n <= MEM_WINDOW { n as int } else { MEM_WINDOW as int }) <= i < pushed_n(s, x, n).len()
                ==> #[trigger] pushed_n(s, x, n)[i] == x,
    decreases n,
{
    if n > 0 {
        lemma_pushed_n_tail(s, x, (n - 1) as nat);
        let w0 = pushed_n(s, x, (n - 1) as nat);
        lemma_window_keeps_newest(w0, x);
    }
}

} // verus!
