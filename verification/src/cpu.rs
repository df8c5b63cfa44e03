//! Which CPU cores the daemon may pin work to.
//!
//! Core 0 (which serves the timer interrupt) and the last core are never
//! chosen; cores closest to the middle come first, the lower of two at the
//! same distance first. The chosen cores are returned in increasing order.

use vstd::prelude::*;

verus! {

/// A CPU allocation.
#[derive(Debug, Clone)]
pub struct CpuAllocation {
    /// Cores the daemon can see.
    pub total: u32,
    /// Cores given to the work.
    pub allocated: u32,
    /// Nice level (0..19; higher is lower priority).
    pub nice: i32,
    /// The cores to pin to.
    pub affinity_mask: Vec<u32>,
}

/// A core that may be chosen out of `total`: neither core 0 nor the last.
pub open spec fn safe_core(total: u32, c: int) -> bool {
    1 <= c && c + 2 <= total
}

/// The order cores are taken in: by distance to the middle core
/// (`total / 2`), the lower of two at the same distance first.
pub open spec fn core_rank(total: u32, c: int) -> int {
    let centre = (total / 2) as int;
    if c > centre {
        2 * (c - centre) + 1
    } else {
        2 * (centre - c)
    }
}

/// Strictly increasing.
pub open spec fn increasing(s: Seq<u32>) -> bool {
    forall|i: int, j: int| 0 <= i < j < s.len() ==> s[i] < s[j]
}

/// The core met at step `p` of the walk outward from the middle: step
/// `2k` is `k` below the middle, step `2k + 1` is `k` above it.
pub open spec fn core_at_step(total: u32, p: int) -> int {
    let centre = (total / 2) as int;
    if p % 2 == 0 {
        centre - p / 2
    } else {
        centre + p / 2
    }
}

proof fn lemma_rank_step(total: u32, c: int)
    requires
        safe_core(total, c),
    ensures
        core_at_step(total, core_rank(total, c)) == c,
        core_rank(total, c) >= 0,
        core_rank(total, c) < 2 * total,
{
}

/// Inserts `x` (not present) into a strictly increasing vector.
fn insert_sorted(v: &mut Vec<u32>, x: u32)
    requires
        increasing(old(v)@),
        !old(v)@.contains(x),
    ensures
        increasing(final(v)@),
        final(v)@.len() == old(v)@.len() + 1,
        forall|c: u32| final(v)@.contains(c) <==> (old(v)@.contains(c) || c == x),
{
    let mut pos: usize = 0;
    while pos < v.len() && v[pos] < x
        invariant
            0 <= pos <= v@.len(),
            v@ == old(v)@,
            forall|j: int| 0 <= j < pos ==> v@[j] < x,
        decreases v@.len() - pos,
    {
        pos = pos + 1;
    }
    let ghost v0 = v@;
    proof {
        if pos < v0.len() {
            assert(v0[pos as int] != x) by {
                if v0[pos as int] == x {
                    assert(v0.contains(x));
                }
            }
        }
    }
    v.insert(pos, x);
    proof {
        assert forall|i: int, j: int| 0 <= i < j < v@.len() implies v@[i] < v@[j] by {
            if j < pos {
                assert(v@[i] == v0[i] && v@[j] == v0[j]);
            } else if j == pos {
                assert(v@[i] == v0[i]);
            } else if i < pos {
                assert(v@[i] == v0[i] && v@[j] == v0[j - 1]);
                assert(v0[pos as int] > x);
                assert(v0[pos as int] <= v0[j - 1]);
            } else if i == pos {
                assert(v@[j] == v0[j - 1]);
                assert(v0[pos as int] <= v0[j - 1]);
            } else {
                assert(v@[i] == v0[i - 1] && v@[j] == v0[j - 1]);
            }
        }
        assert forall|c: u32| v@.contains(c) <==> (v0.contains(c) || c == x) by {
            if v@.contains(c) {
                let k = choose|k: int| 0 <= k < v@.len() && v@[k] == c;
                if k < pos {
                    assert(v0[k] == c);
                } else if k > pos {
                    assert(v0[k - 1] == c);
                }
            }
            if v0.contains(c) {
                let k = choose|k: int| 0 <= k < v0.len() && v0[k] == c;
                if k < pos {
                    assert(v@[k] == c);
                } else {
                    assert(v@[k + 1] == c);
                }
            }
            if c == x {
                assert(v@[pos as int] == x);
            }
        }
    }
}

fn contains_u32(v: &Vec<u32>, x: u32) -> (res: bool)
    ensures
        res == v@.contains(x),
{
    let mut i: usize = 0;
    while i < v.len()
        invariant
            0 <= i <= v@.len(),
            forall|j: int| 0 <= j < i ==> v@[j] != x,
        decreases v@.len() - i,
    {
        if v[i] == x {
            return true;
        }
        i = i + 1;
    }
    false
}

/// `res` is what [`pick_cores`] gives for `total` cores and `want`: core 0
/// with one core or none; core 1 when nothing safe can be picked (`want`
/// is 0, or only two cores exist); otherwise between one and `want` safe
/// cores in increasing order, all safe cores when fewer than `want` were
/// taken, each ranked before every safe core left out.
pub open spec fn picked(total: u32, want: u32, res: Seq<u32>) -> bool {
    &&& total <= 1 ==> res =~= seq![0u32]
    &&& total >= 2 && (want == 0 || total == 2) ==> res =~= seq![1u32]
    &&& total >= 3 && want >= 1 ==> {
        &&& 1 <= res.len() <= want
        &&& increasing(res)
        &&& forall|i: int| 0 <= i < res.len() ==> safe_core(total, res[i] as int)
        &&& res.len() < want ==> forall|c: int| safe_core(total, c) ==> res.contains(c as u32)
        &&& forall|i: int, c: int|
            0 <= i < res.len() && safe_core(total, c) && !res.contains(c as u32) ==> core_rank(
                total,
                res[i] as int,
            ) < core_rank(total, c)
    }
}

/// Picks up to `want` cores for the work out of `total`: the safe cores
/// nearest the middle, in increasing order. With one core or none the
/// answer is core 0; when nothing safe is picked (`want` is 0, or only two
/// cores exist) it is core 1.
pub fn pick_cores(total: u32, want: u32) -> (res: Vec<u32>)
    requires
        total <= 0x7fff_ffff,
    ensures
        picked(total, want, res@),
{
    if total <= 1 {
        return vec![0];
    }
    let centre: u32 = total / 2;
    let mut out: Vec<u32> = Vec::new();
    let mut offset: u32 = 0;
    let ghost mut m: int = 0;
    while out.len() < want as usize && offset < total
        invariant
            2 <= total <= 0x7fff_ffff,
            centre == total / 2,
            m == 2 * offset || (m + 1 == 2 * offset && out@.len() >= want),
            offset <= total,
            out@.len() <= want,
            increasing(out@),
            forall|c: u32| out@.contains(c) <==> (safe_core(total, c as int) && core_rank(total, c as int) < m),
        decreases total - offset,
    {
        // the core below the middle
        let ghost cand: int = core_at_step(total, m);
        let ghost old_out = out@;
        let mut added = false;
        if offset <= centre {
            let c = centre - offset;
            proof {
                assert(cand == c as int);
            }
            if c != 0 && c < total - 1 && !contains_u32(&out, c) {
                proof {
                    assert(core_rank(total, c as int) == m);
                }
                insert_sorted(&mut out, c);
                added = true;
            }
        }
        proof {
            assert(added ==> safe_core(total, cand) && core_rank(total, cand) == m);
            assert(!added ==> !safe_core(total, cand) || offset > centre);
            assert(added ==> forall|d: u32| out@.contains(d) <==> (old_out.contains(d) || d as int == cand));
            assert(!added ==> out@ == old_out);
            assert forall|d: u32| out@.contains(d) <==> (safe_core(total, d as int) && core_rank(total, d as int) < m + 1) by {
                if safe_core(total, d as int) && core_rank(total, d as int) == m {
                    lemma_rank_step(total, d as int);
                    assert(d as int == cand);
                }
            }
            m = m + 1;
        }
        // the core above the middle
        if out.len() < want as usize {
            let c = centre + offset;
            proof {
                assert(core_at_step(total, m) == c as int);
            }
            if c < total && c != 0 && c < total - 1 && !contains_u32(&out, c) {
                proof {
                    if offset == 0 {
                        assert(core_rank(total, c as int) == 0);
                    } else {
                        assert(core_rank(total, c as int) == m);
                    }
                }
                insert_sorted(&mut out, c);
            }
            proof {
                assert forall|c: u32| out@.contains(c) <==> (safe_core(total, c as int) && core_rank(total, c as int) < m + 1) by {
                    if safe_core(total, c as int) && core_rank(total, c as int) == m {
                        lemma_rank_step(total, c as int);
                    }
                }
                m = m + 1;
            }
        }
        assert(forall|c: u32| out@.contains(c) <==> (safe_core(total, c as int) && core_rank(total, c as int) < m));
        offset = offset + 1;
    }
    if out.len() == 0 {
        return vec![if total - 1 < 1 { total - 1 } else { 1 }];
    }
    proof {
        assert(forall|c: u32| out@.contains(c) <==> (safe_core(total, c as int) && core_rank(total, c as int) < m));
        let c0 = out@[0];
        assert(out@.contains(c0));
        assert(safe_core(total, c0 as int));
        assert(total >= 3);
        assert forall|i: int, c: int|
            0 <= i < out@.len() && safe_core(total, c) && !out@.contains(c as u32) implies core_rank(
                total,
                out@[i] as int,
            ) < core_rank(total, c) by {
            let oi = out@[i];
            assert(out@.contains(oi));
            assert(safe_core(total, oi as int) && core_rank(total, oi as int) < m);
            let cu = c as u32;
            assert(cu as int == c);
            assert(!out@.contains(cu));
            assert(!(safe_core(total, cu as int) && core_rank(total, cu as int) < m));
            assert(core_rank(total, c) >= m);
        }
        if out@.len() < want {
            assert forall|c: int| safe_core(total, c) implies out@.contains(c as u32) by {
                lemma_rank_step(total, c);
                let cu = c as u32;
                assert(cu as int == c);
            }
        }
        assert forall|i: int| 0 <= i < out@.len() implies safe_core(total, out@[i] as int) by {
            assert(out@.contains(out@[i]));
        }
    }
    out
}

/// The cores usable by the work out of `cores` visible (at least one is
/// counted): never more than nine tenths of them, rounded down, and one is
/// always left to the host, but at least one is given.
pub open spec fn usable_of(cores: u32) -> u32 {
    let total: u32 = if cores >= 1 { cores } else { 1 };
    let leave_one: int = if total >= 2 { total - 1 } else { 1 };
    let nine_tenths: int = (9 * total) / 10;
    let cap: int = if leave_one <= nine_tenths { leave_one } else { nine_tenths };
    if cap >= 1 { cap as u32 } else { 1 }
}

/// The cores the work may use out of `cores` visible; see [`usable_of`].
pub fn usable_cores(cores: u32) -> (res: u32)
    ensures
        res == usable_of(cores),
        1 <= res,
        cores >= 2 ==> res < cores,
        10 * res <= 9 * cores || res == 1,
{
    let total: u32 = if cores >= 1 { cores } else { 1 };
    let leave_one: u64 = if total >= 2 { (total - 1) as u64 } else { 1 };
    let nine_tenths: u64 = (9 * (total as u64)) / 10;
    let cap: u64 = if leave_one <= nine_tenths { leave_one } else { nine_tenths };
    if cap >= 1 { cap as u32 } else { 1 }
}

/// The allocation for `cores` visible cores (at least one is counted) when
/// the share asked for comes to `raw` cores: `raw` brought between 1 and
/// the usable cores, a nice level of 5 when less than seven tenths of the
/// cores are taken (0 otherwise), and the cores picked for it.
pub fn allocation_from(cores: u32, raw: u32) -> (res: CpuAllocation)
    requires
        cores <= 0x7fff_ffff,
    ensures
        res.total == (if cores >= 1 { cores } else { 1u32 }),
        res.allocated == (if raw < 1 { 1 } else if raw > usable_of(cores) { usable_of(cores) } else { raw }),
        res.nice == (if 10 * res.allocated < 7 * res.total { 5i32 } else { 0i32 }),
        picked(res.total, res.allocated, res.affinity_mask@),
{
    let total: u32 = if cores >= 1 { cores } else { 1 };
    let usable: u32 = usable_cores(cores);
    let alloc: u32 = if raw < 1 { 1 } else if raw > usable { usable } else { raw };
    let nice: i32 = if (alloc as u64) * 10 < (total as u64) * 7 { 5 } else { 0 };
    let affinity_mask = pick_cores(total, alloc);
    CpuAllocation { total, allocated: alloc, nice, affinity_mask }
}

/// The cores this process may use: the cores its affinity mask allows
/// (`affinity`, when it could be read), at most the hardware's, unless
/// that leaves none; the hardware's count otherwise.
pub fn visible_cores(affinity: Option<u32>, hardware: u32) -> (res: u32)
    ensures
        res == (match affinity {
            Some(c) if c >= 1 && hardware >= 1 => if c <= hardware { c } else { hardware },
            _ => hardware,
        }),
{
    match affinity {
        Some(c) => {
            let n = if c <= hardware { c } else { hardware };
            if n > 0 { n } else { hardware }
        },
        None => hardware,
    }
}

} // verus!
