//! Renting out compute: resource kinds and the allocation scheduler.
//!
//! A [`ResourceAllocator`] hands out RAM (in MB) and CPU units to tasks up to
//! two fixed capacities. Storage and GPU allocations are recorded but not
//! counted against any capacity. When a request does not fit, allocations
//! of the same kind with a lower priority are evicted, lowest priority
//! first (earlier allocations first among equals), only until the request
//! fits; if it would not fit even with all of them gone, nothing is evicted
//! and the request is refused.

use vstd::prelude::*;
use crate::clock::{now_ms, random_u64};
use crate::numfmt::{hex_digits, push_hex_u64};
use crate::text::{owned, str_eq};

verus! {

/// A resource that a node can rent out.
#[derive(Clone, Copy, Debug, PartialEq, Eq, Hash, Structural)]
pub enum ResourceType {
    /// RAM in MB.
    RamMB,
    /// CPU units (one unit is one thread at about 1 GHz).
    CpuUnits,
    /// Scratch storage in GB.
    ScratchGB,
    /// Shared GPU cores.
    GpuCores,
}

/// The display label of each resource kind.
pub open spec fn resource_label(r: ResourceType) -> Seq<char> {
    match r {
        ResourceType::RamMB => "RAM (MB)"@,
        ResourceType::CpuUnits => "CPU Units"@,
        ResourceType::ScratchGB => "Storage (GB)"@,
        ResourceType::GpuCores => "GPU Cores"@,
    }
}

impl ResourceType {
    /// The display label.
    pub fn label(&self) -> (res: &'static str)
        ensures
            res@ == resource_label(*self),
    {
        match self {
            ResourceType::RamMB => "RAM (MB)",
            ResourceType::CpuUnits => "CPU Units",
            ResourceType::ScratchGB => "Storage (GB)",
            ResourceType::GpuCores => "GPU Cores",
        }
    }
}

/// The state of a rental contract.
#[derive(Clone, Copy, Debug, PartialEq, Eq, Structural)]
pub enum RentalStatus {
    Active,
    Completed,
    Defaulted,
}

/// True when an offer listed at `since_ms` with a time-to-live of `ttl_ms`
/// has expired at `now_ms` (a clock that went backwards counts as no time).
pub fn offer_is_expired(now_ms: u64, since_ms: u64, ttl_ms: u64) -> (res: bool)
    ensures
        res == ((if now_ms >= since_ms { now_ms - since_ms } else { 0 }) > ttl_ms),
{
    now_ms.saturating_sub(since_ms) > ttl_ms
}

/// One resource allocation.
#[derive(Clone, Debug)]
pub struct Allocation {
    pub id: String,
    pub task_id: String,
    pub resource: ResourceType,
    pub amount: u64,
    pub priority: u8,
    pub started_ms: u64,
    pub expires_ms: u64,
}

impl Allocation {
    /// A field-for-field copy.
    pub fn copy(&self) -> (res: Allocation)
        ensures
            res == *self,
    {
        Allocation {
            id: self.id.clone(),
            task_id: self.task_id.clone(),
            resource: self.resource,
            amount: self.amount,
            priority: self.priority,
            started_ms: self.started_ms,
            expires_ms: self.expires_ms,
        }
    }
}

/// The total amount of kind `r` held by a list of allocations.
pub open spec fn amount_of(s: Seq<Allocation>, r: ResourceType) -> nat
    decreases s.len(),
{
    if s.len() == 0 {
        0
    } else {
        amount_of(s.drop_last(), r) + (if s.last().resource == r {
            s.last().amount as nat
        } else {
            0
        })
    }
}

/// `amount_of` adds up over a concatenation.
pub proof fn lemma_amount_concat(s: Seq<Allocation>, t: Seq<Allocation>, r: ResourceType)
    ensures
        amount_of(s + t, r) == amount_of(s, r) + amount_of(t, r),
    decreases t.len(),
{
    if t.len() == 0 {
        assert(s + t =~= s);
    } else {
        assert((s + t).drop_last() =~= s + t.drop_last());
        lemma_amount_concat(s, t.drop_last(), r);
    }
}

/// `amount_of` splits at any index.
pub proof fn lemma_amount_split(s: Seq<Allocation>, i: int, r: ResourceType)
    requires
        0 <= i <= s.len(),
    ensures
        amount_of(s, r) == amount_of(s.take(i), r) + amount_of(s.skip(i), r),
{
    assert(s =~= s.take(i) + s.skip(i));
    lemma_amount_concat(s.take(i), s.skip(i), r);
}

/// One more element of a prefix adds its amount.
pub proof fn lemma_amount_take_step(s: Seq<Allocation>, i: int, r: ResourceType)
    requires
        0 <= i < s.len(),
    ensures
        amount_of(s.take(i + 1), r) == amount_of(s.take(i), r) + (if s[i].resource == r {
            s[i].amount as nat
        } else {
            0
        }),
{
    assert(s.take(i + 1).drop_last() =~= s.take(i));
}

/// The indices `j < n` of allocations of kind `r` at priority level `lv`,
/// in increasing order.
pub open spec fn level_indices(s: Seq<Allocation>, r: ResourceType, lv: int, n: int) -> Seq<int>
    decreases n,
{
    if n <= 0 {
        Seq::empty()
    } else {
        let p = level_indices(s, r, lv, n - 1);
        if s[n - 1].resource == r && s[n - 1].priority == lv {
            p.push(n - 1)
        } else {
            p
        }
    }
}

/// The order in which allocations of kind `r` below priority `p` are
/// considered for eviction: by priority, then by position.
pub open spec fn eviction_order(s: Seq<Allocation>, r: ResourceType, p: int) -> Seq<int>
    decreases p,
{
    if p <= 0 {
        Seq::empty()
    } else {
        eviction_order(s, r, p - 1) + level_indices(s, r, p - 1, s.len() as int)
    }
}

/// Each index in `level_indices` is below `n`, of kind `r`, at level `lv`.
pub proof fn lemma_level_indices(s: Seq<Allocation>, r: ResourceType, lv: int, n: int)
    requires
        n <= s.len(),
    ensures
        forall|k: int|
            0 <= k < level_indices(s, r, lv, n).len() ==> {
                let j = #[trigger] level_indices(s, r, lv, n)[k];
                0 <= j < n && s[j].resource == r && s[j].priority == lv
            },
    decreases n,
{
    if n > 0 {
        lemma_level_indices(s, r, lv, n - 1);
    }
}

/// Each index in the eviction order is of kind `r` and below priority `p`.
pub proof fn lemma_eviction_order(s: Seq<Allocation>, r: ResourceType, p: int)
    ensures
        forall|k: int|
            0 <= k < eviction_order(s, r, p).len() ==> {
                let j = #[trigger] eviction_order(s, r, p)[k];
                0 <= j < s.len() && s[j].resource == r && s[j].priority < p
            },
    decreases p,
{
    if p > 0 {
        lemma_eviction_order(s, r, p - 1);
        lemma_level_indices(s, r, p - 1, s.len() as int);
        let a = eviction_order(s, r, p - 1);
        let b = level_indices(s, r, p - 1, s.len() as int);
        assert forall|k: int| 0 <= k < (a + b).len() implies {
            let j = #[trigger] (a + b)[k];
            0 <= j < s.len() && s[j].resource == r && s[j].priority < p
        } by {
            if k < a.len() {
                assert((a + b)[k] == a[k]);
            } else {
                assert((a + b)[k] == b[k - a.len()]);
            }
        }
    }
}

/// Whatever a scan takes comes from its candidates.
pub proof fn lemma_scan_taken(s: Seq<Allocation>, order: Seq<int>, amount: nat)
    ensures
        forall|j: int| scan(s, order, amount).2.contains(j) ==> order.contains(j),
    decreases order.len(),
{
    if order.len() > 0 {
        let t = order.drop_last();
        lemma_scan_taken(s, t, amount);
        assert forall|j: int| scan(s, order, amount).2.contains(j) implies order.contains(j) by {
            if j != order.last() {
                assert(scan(s, t, amount).2.contains(j));
                assert(t.contains(j));
                let k = choose|k: int| 0 <= k < t.len() && t[k] == j;
                assert(order[k] == j);
            } else {
                assert(order[order.len() - 1] == j);
            }
        }
    }
}

/// Eviction only ever takes allocations of the requested kind with a lower
/// priority than the request.
pub proof fn lemma_eviction_targets(s: Seq<Allocation>, r: ResourceType, p: int, amount: nat)
    ensures
        forall|j: int|
            evicted_by(s, r, p, amount).2.contains(j) ==> 0 <= j < s.len() && s[j].resource == r
                && s[j].priority < p,
{
    lemma_eviction_order(s, r, p);
    lemma_scan_taken(s, eviction_order(s, r, p), amount);
    assert forall|j: int| evicted_by(s, r, p, amount).2.contains(j) implies 0 <= j < s.len()
        && s[j].resource == r && s[j].priority < p by {
        let o = eviction_order(s, r, p);
        assert(o.contains(j));
        let k = choose|k: int| 0 <= k < o.len() && o[k] == j;
        assert(o[k] == j);
    }
}

/// Walking candidates in order, each is taken until the amount taken
/// reaches `amount`: (amount taken, whether it was reached, indices taken).
pub open spec fn scan(s: Seq<Allocation>, order: Seq<int>, amount: nat) -> (nat, bool, Set<int>)
    decreases order.len(),
{
    if order.len() == 0 {
        (0, false, Set::empty())
    } else {
        let st = scan(s, order.drop_last(), amount);
        if st.1 {
            st
        } else {
            let f = st.0 + s[order.last()].amount as nat;
            (f, f >= amount, st.2.insert(order.last()))
        }
    }
}

/// What eviction would take to make room for `amount` of kind `r` at
/// priority `p`.
pub open spec fn evicted_by(s: Seq<Allocation>, r: ResourceType, p: int, amount: nat) -> (nat, bool, Set<int>) {
    scan(s, eviction_order(s, r, p), amount)
}

/// The allocations among the first `n` whose index is not in `m`, in order.
pub open spec fn kept_after(s: Seq<Allocation>, m: Set<int>, n: int) -> Seq<Allocation>
    decreases n,
{
    if n <= 0 {
        Seq::empty()
    } else {
        let p = kept_after(s, m, n - 1);
        if m.contains(n - 1) {
            p
        } else {
            p.push(s[n - 1])
        }
    }
}

/// The amount of kind `r` held by the allocations among the first `n`
/// whose index is in `m`.
pub open spec fn marked_amount(s: Seq<Allocation>, m: Set<int>, n: int, r: ResourceType) -> nat
    decreases n,
{
    if n <= 0 {
        0
    } else {
        marked_amount(s, m, n - 1, r) + (if m.contains(n - 1) && s[n - 1].resource == r {
            s[n - 1].amount as nat
        } else {
            0
        })
    }
}

/// Removing the marked allocations removes exactly their amounts.
pub proof fn lemma_kept_amount(s: Seq<Allocation>, m: Set<int>, n: int, r: ResourceType)
    requires
        0 <= n <= s.len(),
    ensures
        amount_of(s.take(n), r) == amount_of(kept_after(s, m, n), r) + marked_amount(s, m, n, r),
    decreases n,
{
    if n > 0 {
        lemma_kept_amount(s, m, n - 1, r);
        lemma_amount_take_step(s, n - 1, r);
        let p = kept_after(s, m, n - 1);
        if !m.contains(n - 1) {
            assert(p.push(s[n - 1]).drop_last() =~= p);
        }
    } else {
        assert(s.take(0) =~= Seq::<Allocation>::empty());
    }
}

/// Nothing marked, nothing counted.
pub proof fn lemma_marked_empty(s: Seq<Allocation>, n: int, r: ResourceType)
    ensures
        marked_amount(s, Set::empty(), n, r) == 0,
    decreases n,
{
    if n > 0 {
        lemma_marked_empty(s, n - 1, r);
    }
}

/// Marking one more index adds its amount.
pub proof fn lemma_marked_insert(s: Seq<Allocation>, m: Set<int>, n: int, i: int, r: ResourceType)
    requires
        !m.contains(i),
        0 <= i,
    ensures
        marked_amount(s, m.insert(i), n, r) == marked_amount(s, m, n, r) + (if i < n
            && s[i].resource == r {
            s[i].amount as nat
        } else {
            0
        }),
    decreases n,
{
    if n > 0 {
        lemma_marked_insert(s, m, n - 1, i, r);
    }
}

/// A newly made allocation: its id is `alloc:` and the nonce in lower-case
/// hex, it starts at `now` and lasts `duration_secs`.
pub open spec fn is_fresh_allocation(
    a: Allocation,
    task: Seq<char>,
    resource: ResourceType,
    amount: u64,
    priority: u8,
    duration_secs: u64,
    now: u64,
    nonce: u64,
) -> bool {
    &&& a.id@ == "alloc:"@ + hex_digits(nonce as nat)
    &&& a.task_id@ == task
    &&& a.resource == resource
    &&& a.amount == amount
    &&& a.priority == priority
    &&& a.started_ms == now
    &&& a.expires_ms == now + duration_secs * 1000
}

/// True when a request of `amount` fits beside the allocations `s`
/// within the capacities.
pub open spec fn fits(s: Seq<Allocation>, ram_cap: u64, cpu_cap: u32, resource: ResourceType, amount: u64) -> bool {
    match resource {
        ResourceType::RamMB => amount_of(s, ResourceType::RamMB) + amount <= ram_cap,
        ResourceType::CpuUnits => amount_of(s, ResourceType::CpuUnits) + amount <= cpu_cap,
        _ => true,
    }
}

/// How much of kind `resource` has to be freed for a request of `amount`
/// to fit beside the allocations `s`: what usage plus the request exceeds
/// the capacity by (nothing for the kinds not counted).
pub open spec fn room_needed(s: Seq<Allocation>, ram_cap: u64, cpu_cap: u32, resource: ResourceType, amount: u64) -> nat {
    match resource {
        ResourceType::RamMB => if amount_of(s, ResourceType::RamMB) + amount > ram_cap {
            (amount_of(s, ResourceType::RamMB) + amount - ram_cap) as nat
        } else {
            0
        },
        ResourceType::CpuUnits => if amount_of(s, ResourceType::CpuUnits) + amount > cpu_cap {
            (amount_of(s, ResourceType::CpuUnits) + amount - cpu_cap) as nat
        } else {
            0
        },
        _ => 0,
    }
}

/// The outcome of granting a request beside the allocations `s`: a CPU
/// request beyond 32 bits is refused; otherwise it is granted when it fits,
/// or else when evicting lower-priority allocations of its kind, in
/// [`eviction_order`] and only until the request fits, frees enough;
/// `after` is the resulting list.
pub open spec fn grant_outcome(
    s: Seq<Allocation>,
    ram_cap: u64,
    cpu_cap: u32,
    task: Seq<char>,
    resource: ResourceType,
    amount: u64,
    priority: u8,
    duration_secs: u64,
    now: u64,
    nonce: u64,
    res: Option<Allocation>,
    after: Seq<Allocation>,
) -> bool {
    let need = room_needed(s, ram_cap, cpu_cap, resource, amount);
    let ev = evicted_by(s, resource, priority as int, need);
    if resource is CpuUnits && amount > u32::MAX {
        res is None && after == s
    } else if fits(s, ram_cap, cpu_cap, resource, amount) {
        &&& res matches Some(a)
        &&& is_fresh_allocation(a, task, resource, amount, priority, duration_secs, now, nonce)
        &&& after == s.push(a)
    } else if ev.0 >= need {
        &&& res matches Some(a)
        &&& is_fresh_allocation(a, task, resource, amount, priority, duration_secs, now, nonce)
        &&& after == kept_after(s, ev.2, s.len() as int).push(a)
    } else {
        res is None && after == s
    }
}

/// The amount of kind `r` held by the first `n` allocations whose
/// priority is below `p`.
pub open spec fn lower_amount(s: Seq<Allocation>, r: ResourceType, p: int, n: int) -> nat
    decreases n,
{
    if n <= 0 {
        0
    } else {
        lower_amount(s, r, p, n - 1) + (if s[n - 1].resource == r && s[n - 1].priority < p {
            s[n - 1].amount as nat
        } else {
            0
        })
    }
}

/// The amount of kind `r` held by the first `n` allocations at priority
/// `lv`.
pub open spec fn level_amount(s: Seq<Allocation>, r: ResourceType, lv: int, n: int) -> nat
    decreases n,
{
    if n <= 0 {
        0
    } else {
        level_amount(s, r, lv, n - 1) + (if s[n - 1].resource == r && s[n - 1].priority == lv {
            s[n - 1].amount as nat
        } else {
            0
        })
    }
}

/// The amount held by the allocations at the given indices.
pub open spec fn order_total(s: Seq<Allocation>, order: Seq<int>) -> nat
    decreases order.len(),
{
    if order.len() == 0 {
        0
    } else {
        order_total(s, order.drop_last()) + s[order.last()].amount as nat
    }
}

proof fn lemma_order_total_concat(s: Seq<Allocation>, a: Seq<int>, b: Seq<int>)
    ensures
        order_total(s, a + b) == order_total(s, a) + order_total(s, b),
    decreases b.len(),
{
    if b.len() == 0 {
        assert(a + b =~= a);
    } else {
        assert((a + b).drop_last() =~= a + b.drop_last());
        lemma_order_total_concat(s, a, b.drop_last());
    }
}

proof fn lemma_level_total(s: Seq<Allocation>, r: ResourceType, lv: int, n: int)
    ensures
        order_total(s, level_indices(s, r, lv, n)) == level_amount(s, r, lv, n),
    decreases n,
{
    if n > 0 {
        lemma_level_total(s, r, lv, n - 1);
        let p = level_indices(s, r, lv, n - 1);
        if s[n - 1].resource == r && s[n - 1].priority == lv {
            assert(p.push(n - 1).drop_last() =~= p);
        }
    }
}

proof fn lemma_lower_split(s: Seq<Allocation>, r: ResourceType, p: int, n: int)
    ensures
        lower_amount(s, r, p, n) == lower_amount(s, r, p - 1, n) + level_amount(s, r, p - 1, n),
    decreases n,
{
    if n > 0 {
        lemma_lower_split(s, r, p, n - 1);
    }
}

proof fn lemma_lower_none(s: Seq<Allocation>, r: ResourceType, p: int, n: int)
    requires
        p <= 0,
    ensures
        lower_amount(s, r, p, n) == 0,
    decreases n,
{
    if n > 0 {
        lemma_lower_none(s, r, p, n - 1);
    }
}

proof fn lemma_eviction_total(s: Seq<Allocation>, r: ResourceType, p: int)
    ensures
        order_total(s, eviction_order(s, r, p)) == lower_amount(s, r, p, s.len() as int),
    decreases p,
{
    if p <= 0 {
        lemma_lower_none(s, r, p, s.len() as int);
    } else {
        lemma_eviction_total(s, r, p - 1);
        lemma_order_total_concat(s, eviction_order(s, r, p - 1), level_indices(s, r, p - 1, s.len() as int));
        lemma_level_total(s, r, p - 1, s.len() as int);
        lemma_lower_split(s, r, p, s.len() as int);
    }
}

proof fn lemma_scan_reaches(s: Seq<Allocation>, order: Seq<int>, amount: nat)
    ensures
        scan(s, order, amount).1 ==> scan(s, order, amount).0 >= amount && order_total(s, order) >= amount,
        !scan(s, order, amount).1 ==> scan(s, order, amount).0 == order_total(s, order),
    decreases order.len(),
{
    if order.len() > 0 {
        lemma_scan_reaches(s, order.drop_last(), amount);
    }
}

/// What a kind holds beside its capacity once every allocation of it
/// below priority `p` is gone, with `amount` more: within the capacity.
/// Always true of the kinds not counted.
pub open spec fn fits_after_eviction(
    s: Seq<Allocation>,
    ram_cap: u64,
    cpu_cap: u32,
    resource: ResourceType,
    amount: u64,
    p: int,
) -> bool {
    match resource {
        ResourceType::RamMB => amount_of(s, ResourceType::RamMB) + amount <= ram_cap + lower_amount(
            s,
            ResourceType::RamMB,
            p,
            s.len() as int,
        ),
        ResourceType::CpuUnits => amount_of(s, ResourceType::CpuUnits) + amount <= cpu_cap + lower_amount(
            s,
            ResourceType::CpuUnits,
            p,
            s.len() as int,
        ),
        _ => true,
    }
}

/// The eviction rule: a request is granted exactly when it fits once the
/// allocations of its kind with a lower priority are evicted (a CPU request
/// also has to fit in 32 bits). Those are then evicted lowest priority
/// first, only until the request fits. A grant carries the task, kind,
/// amount and priority asked for and lasts the duration asked for; a
/// refusal leaves the allocations as they were.
pub proof fn lemma_grant_when_room_or_lower_priority(
    s: Seq<Allocation>,
    ram_cap: u64,
    cpu_cap: u32,
    task: Seq<char>,
    resource: ResourceType,
    amount: u64,
    priority: u8,
    duration_secs: u64,
    now: u64,
    nonce: u64,
    res: Option<Allocation>,
    after: Seq<Allocation>,
)
    requires
        grant_outcome(s, ram_cap, cpu_cap, task, resource, amount, priority, duration_secs, now, nonce, res, after),
    ensures
        res is Some <==> !(resource is CpuUnits && amount > u32::MAX) && fits_after_eviction(
            s,
            ram_cap,
            cpu_cap,
            resource,
            amount,
            priority as int,
        ),
        res matches Some(a) ==> {
            &&& a.task_id@ == task
            &&& a.resource == resource
            &&& a.amount == amount
            &&& a.priority == priority
            &&& a.expires_ms == a.started_ms + duration_secs * 1000
        },
        res is None ==> after == s,
{
    let need = room_needed(s, ram_cap, cpu_cap, resource, amount);
    lemma_eviction_total(s, resource, priority as int);
    lemma_scan_reaches(s, eviction_order(s, resource, priority as int), need);
}

/// The allocations of `s` still running at `now`.
pub open spec fn unexpired(s: Seq<Allocation>, now: u64) -> Seq<Allocation> {
    s.filter(|a: Allocation| a.expires_ms > now)
}

/// The outcome of a request made at `now` after dropping what expired at
/// `swept`: refused when the expiry time would not fit in a `u64`, else as
/// [`grant_outcome`] says.
pub open spec fn allocate_outcome(
    s: Seq<Allocation>,
    ram_cap: u64,
    cpu_cap: u32,
    task: Seq<char>,
    resource: ResourceType,
    amount: u64,
    priority: u8,
    duration_secs: u64,
    swept: u64,
    now: u64,
    nonce: u64,
    res: Option<Allocation>,
    after: Seq<Allocation>,
) -> bool {
    let live = unexpired(s, swept);
    if now + duration_secs * 1000 > u64::MAX {
        res is None && after == live
    } else {
        grant_outcome(
            live,
            ram_cap,
            cpu_cap,
            task,
            resource,
            amount,
            priority,
            duration_secs,
            now,
            nonce,
            res,
            after,
        )
    }
}

/// The index of the first allocation with the given id, or -1.
pub open spec fn first_index_of_id(s: Seq<Allocation>, id: Seq<char>) -> int
    decreases s.len(),
{
    if s.len() == 0 {
        -1
    } else {
        let p = first_index_of_id(s.drop_last(), id);
        if p >= 0 {
            p
        } else if s.last().id@ == id {
            s.len() - 1
        } else {
            -1
        }
    }
}

/// `first_index_of_id` finds the first match, if any.
pub proof fn lemma_first_index_of_id(s: Seq<Allocation>, id: Seq<char>)
    ensures
        -1 <= first_index_of_id(s, id) < s.len(),
        first_index_of_id(s, id) >= 0 ==> s[first_index_of_id(s, id)].id@ == id,
        forall|j: int|
            0 <= j < s.len() && (first_index_of_id(s, id) < 0 || j < first_index_of_id(s, id))
                ==> s[j].id@ != id,
    decreases s.len(),
{
    if s.len() > 0 {
        let t = s.drop_last();
        lemma_first_index_of_id(t, id);
        assert forall|j: int|
            0 <= j < s.len() && (first_index_of_id(s, id) < 0 || j < first_index_of_id(s, id))
                implies s[j].id@ != id by {
            if j < s.len() - 1 {
                assert(s[j] == t[j]);
            }
        }
    }
}

/// Releasing the id of an allocation just added, when no older allocation
/// carries that id, gives back the list as it was before.
pub proof fn lemma_release_undoes_add(s: Seq<Allocation>, a: Allocation)
    requires
        first_index_of_id(s, a.id@) < 0,
    ensures
        first_index_of_id(s.push(a), a.id@) == s.len(),
        s.push(a).remove(s.len() as int) == s,
{
    assert(s.push(a).drop_last() =~= s);
    assert(s.push(a).remove(s.len() as int) =~= s);
}

/// The allocation scheduler.
pub struct ResourceAllocator {
    max_ram_mb: u64,
    max_cpu_units: u32,
    allocated_ram_mb: u64,
    allocated_cpu_units: u32,
    allocations: Vec<Allocation>,
}

impl ResourceAllocator {
    /// The RAM capacity in MB.
    pub closed spec fn ram_cap(&self) -> u64 {
        self.max_ram_mb
    }

    /// The CPU capacity in units.
    pub closed spec fn cpu_cap(&self) -> u32 {
        self.max_cpu_units
    }

    /// The RAM counted as allocated.
    pub closed spec fn ram_used(&self) -> u64 {
        self.allocated_ram_mb
    }

    /// The CPU units counted as allocated.
    pub closed spec fn cpu_used(&self) -> u32 {
        self.allocated_cpu_units
    }

    /// The active allocations, oldest first.
    pub closed spec fn allocs(&self) -> Seq<Allocation> {
        self.allocations@
    }

    /// The counters are the sums of the allocations, within capacity.
    pub open spec fn wf(&self) -> bool {
        &&& self.ram_used() == amount_of(self.allocs(), ResourceType::RamMB)
        &&& self.cpu_used() == amount_of(self.allocs(), ResourceType::CpuUnits)
        &&& self.ram_used() <= self.ram_cap()
        &&& self.cpu_used() <= self.cpu_cap()
    }

    /// An empty scheduler with the given capacities.
    pub fn new(max_ram_mb: u64, max_cpu_units: u32) -> (res: ResourceAllocator)
        ensures
            res.wf(),
            res.ram_cap() == max_ram_mb,
            res.cpu_cap() == max_cpu_units,
            res.allocs().len() == 0,
    {
        let res = ResourceAllocator {
            max_ram_mb,
            max_cpu_units,
            allocated_ram_mb: 0,
            allocated_cpu_units: 0,
            allocations: Vec::new(),
        };
        assert(res.allocs() =~= Seq::<Allocation>::empty());
        res
    }

    /// (RAM used, RAM capacity, CPU used, CPU capacity).
    pub fn utilization(&self) -> (res: (u64, u64, u32, u32))
        ensures
            res == (self.ram_used(), self.ram_cap(), self.cpu_used(), self.cpu_cap()),
    {
        (self.allocated_ram_mb, self.max_ram_mb, self.allocated_cpu_units, self.max_cpu_units)
    }

    /// The number of active allocations.
    pub fn active_count(&self) -> (res: usize)
        ensures
            res == self.allocs().len(),
    {
        self.allocations.len()
    }

    /// Grants or refuses a request at time `now`, with `nonce` for its id,
    /// on the allocations as they stand (expired ones are not dropped here).
    pub fn grant(
        &mut self,
        task_id: &str,
        resource: ResourceType,
        amount: u64,
        duration_secs: u64,
        priority: u8,
        now: u64,
        nonce: u64,
    ) -> (res: Option<Allocation>)
        requires
            old(self).wf(),
            now + duration_secs * 1000 <= u64::MAX,
            resource is RamMB ==> old(self).ram_used() + amount <= u64::MAX,
            resource is CpuUnits && amount <= u32::MAX ==> old(self).cpu_used() + amount <= u32::MAX,
        ensures
            final(self).wf(),
            final(self).ram_cap() == old(self).ram_cap(),
            final(self).cpu_cap() == old(self).cpu_cap(),
            grant_outcome(
                old(self).allocs(),
                old(self).ram_cap(),
                old(self).cpu_cap(),
                task_id@,
                resource,
                amount,
                priority,
                duration_secs,
                now,
                nonce,
                res,
                final(self).allocs(),
            ),
    {
        let ghost s = self.allocations@;
        if resource == ResourceType::CpuUnits && amount > 0xffff_ffffu64 {
            return None;
        }
        let (can_allocate, need) = match resource {
            ResourceType::RamMB => {
                let total = self.allocated_ram_mb + amount;
                if total <= self.max_ram_mb { (true, 0u64) } else { (false, total - self.max_ram_mb) }
            },
            ResourceType::CpuUnits => {
                let total = self.allocated_cpu_units as u64 + amount;
                let cap = self.max_cpu_units as u64;
                if total <= cap { (true, 0u64) } else { (false, total - cap) }
            },
            _ => (true, 0u64),
        };
        assert(!can_allocate ==> need == room_needed(s, self.max_ram_mb, self.max_cpu_units, resource, amount));
        if !can_allocate {
            if !self.try_evict_lower_priority(resource, need, priority) {
                return None;
            }
        }
        let ghost mid = self.allocations@;
        proof {
            let ev = evicted_by(s, resource, priority as int, need as nat);
            if !can_allocate {
                lemma_kept_amount(s, ev.2, s.len() as int, resource);
                assert(s.take(s.len() as int) =~= s);
            }
        }
        let mut id = owned("alloc:");
        push_hex_u64(&mut id, nonce);
        let alloc = Allocation {
            id,
            task_id: owned(task_id),
            resource,
            amount,
            priority,
            started_ms: now,
            expires_ms: now + duration_secs * 1000,
        };
        match resource {
            ResourceType::RamMB => self.allocated_ram_mb = self.allocated_ram_mb + amount,
            ResourceType::CpuUnits => self.allocated_cpu_units = self.allocated_cpu_units + amount as u32,
            _ => {},
        }
        let c = alloc.copy();
        proof {
            assert(mid.push(c).drop_last() =~= mid);
        }
        self.allocations.push(c);
        Some(alloc)
    }

    /// Drops expired allocations, then grants or refuses a request (see
    /// [`ResourceAllocator::grant`]) at the current time, with a random id.
    /// The request is refused, after the expired allocations are dropped,
    /// when its expiry time would not fit in a `u64`.
    pub fn allocate(
        &mut self,
        task_id: &str,
        resource: ResourceType,
        amount: u64,
        duration_secs: u64,
        priority: u8,
    ) -> (res: Option<Allocation>)
        requires
            old(self).wf(),
            resource is RamMB ==> old(self).ram_used() + amount <= u64::MAX,
            resource is CpuUnits && amount <= u32::MAX ==> old(self).cpu_used() + amount <= u32::MAX,
        ensures
            final(self).wf(),
            final(self).ram_cap() == old(self).ram_cap(),
            final(self).cpu_cap() == old(self).cpu_cap(),
            exists|swept: u64, now: u64, nonce: u64|
                #[trigger] allocate_outcome(
                    old(self).allocs(),
                    old(self).ram_cap(),
                    old(self).cpu_cap(),
                    task_id@,
                    resource,
                    amount,
                    priority,
                    duration_secs,
                    swept,
                    now,
                    nonce,
                    res,
                    final(self).allocs(),
                ),
    {
        let swept = now_ms();
        self.cleanup_at(swept);
        let now = now_ms();
        let expires = match duration_secs.checked_mul(1000) {
            Some(d) => now.checked_add(d),
            None => None,
        };
        if expires.is_none() {
            assert(allocate_outcome(
                old(self).allocs(),
                old(self).ram_cap(),
                old(self).cpu_cap(),
                task_id@,
                resource,
                amount,
                priority,
                duration_secs,
                swept,
                now,
                0,
                None,
                self.allocs(),
            ));
            return None;
        }
        let nonce = random_u64();
        let res = self.grant(task_id, resource, amount, duration_secs, priority, now, nonce);
        assert(allocate_outcome(
            old(self).allocs(),
            old(self).ram_cap(),
            old(self).cpu_cap(),
            task_id@,
            resource,
            amount,
            priority,
            duration_secs,
            swept,
            now,
            nonce,
            res,
            self.allocs(),
        ));
        res
    }

    /// Releases the first allocation with the given id; false when there is none.
    pub fn release(&mut self, allocation_id: &str) -> (res: bool)
        requires
            old(self).wf(),
        ensures
            final(self).wf(),
            final(self).ram_cap() == old(self).ram_cap(),
            final(self).cpu_cap() == old(self).cpu_cap(),
            res == (first_index_of_id(old(self).allocs(), allocation_id@) >= 0),
            res ==> final(self).allocs() == old(self).allocs().remove(
                first_index_of_id(old(self).allocs(), allocation_id@),
            ),
            !res ==> final(self).allocs() == old(self).allocs(),
    {
        let ghost s = self.allocations@;
        let n = self.allocations.len();
        let mut i: usize = 0;
        proof {
            lemma_first_index_of_id(s, allocation_id@);
        }
        while i < n
            invariant
                0 <= i <= n,
                n == s.len(),
                self.allocations@ == s,
                forall|j: int| 0 <= j < i ==> s[j].id@ != allocation_id@,
            ensures
                0 <= i <= n,
                forall|j: int| 0 <= j < i ==> s[j].id@ != allocation_id@,
                i < n ==> s[i as int].id@ == allocation_id@,
            decreases n - i,
        {
            if str_eq(self.allocations[i].id.as_str(), allocation_id) {
                break;
            }
            i = i + 1;
        }
        if i == n {
            return false;
        }
        proof {
            lemma_amount_split(s, i as int, ResourceType::RamMB);
            lemma_amount_split(s, i as int, ResourceType::CpuUnits);
            lemma_amount_split(s, i + 1, ResourceType::RamMB);
            lemma_amount_split(s, i + 1, ResourceType::CpuUnits);
            lemma_amount_take_step(s, i as int, ResourceType::RamMB);
            lemma_amount_take_step(s, i as int, ResourceType::CpuUnits);
            assert(s.remove(i as int) =~= s.take(i as int) + s.skip(i + 1));
            lemma_amount_concat(s.take(i as int), s.skip(i + 1), ResourceType::RamMB);
            lemma_amount_concat(s.take(i as int), s.skip(i + 1), ResourceType::CpuUnits);
        }
        let alloc = self.allocations.remove(i);
        match alloc.resource {
            ResourceType::RamMB => {
                self.allocated_ram_mb = self.allocated_ram_mb.saturating_sub(alloc.amount);
            },
            ResourceType::CpuUnits => {
                self.allocated_cpu_units = self.allocated_cpu_units.saturating_sub(alloc.amount as u32);
            },
            _ => {},
        }
        true
    }

    /// Evicts allocations of kind `resource` below `priority` to free
    /// `amount`, in [`eviction_order`], stopping as soon as enough is freed.
    /// Evicts nothing and returns false when all of them would not suffice.
    fn try_evict_lower_priority(&mut self, resource: ResourceType, amount: u64, priority: u8) -> (res: bool)
        requires
            old(self).wf(),
        ensures
            final(self).wf(),
            final(self).ram_cap() == old(self).ram_cap(),
            final(self).cpu_cap() == old(self).cpu_cap(),
            ({
                let s = old(self).allocs();
                let ev = evicted_by(s, resource, priority as int, amount as nat);
                &&& res == (ev.0 >= amount)
                &&& ev.0 == marked_amount(s, ev.2, s.len() as int, resource)
                &&& forall|j: int|
                    ev.2.contains(j) ==> 0 <= j < s.len() && s[j].resource == resource && s[j].priority
                        < priority
                &&& res ==> final(self).allocs() == kept_after(s, ev.2, s.len() as int)
                &&& !res ==> final(self).allocs() == s
            }),
    {
        let ghost s = self.allocations@;
        let n = self.allocations.len();
        let mut mask: Vec<bool> = Vec::new();
        let mut k: usize = 0;
        while k < n
            invariant
                0 <= k <= n,
                mask@.len() == k,
                forall|j: int| 0 <= j < k ==> !mask@[j],
            decreases n - k,
        {
            mask.push(false);
            k = k + 1;
        }
        let mut freed: u128 = 0;
        let mut done = false;
        let mut lv: u8 = 0;
        proof {
            assert(Set::new(|j: int| 0 <= j < n && mask@[j]) =~= Set::<int>::empty());
            lemma_marked_empty(s, n as int, resource);
        }
        while lv < priority
            invariant
                0 <= lv <= priority,
                n == s.len(),
                self.allocations@ == s,
                mask@.len() == n,
                (freed as nat, done, Set::new(|j: int| 0 <= j < n && mask@[j])) == scan(
                    s,
                    eviction_order(s, resource, lv as int),
                    amount as nat,
                ),
                forall|j: int|
                    0 <= j < n && #[trigger] mask@[j] ==> s[j].resource == resource && s[j].priority
                        < lv,
                freed == marked_amount(s, Set::new(|j: int| 0 <= j < n && mask@[j]), n as int, resource),
                !done ==> freed <= amount,
                freed <= amount + 0xffff_ffff_ffff_ffffu64,
            decreases priority - lv,
        {
            let mut i: usize = 0;
            proof {
                assert(eviction_order(s, resource, lv as int) + level_indices(s, resource, lv as int, 0)
                    =~= eviction_order(s, resource, lv as int));
            }
            while i < n
                invariant
                    0 <= lv < priority,
                    0 <= i <= n,
                    n == s.len(),
                    self.allocations@ == s,
                    mask@.len() == n,
                    (freed as nat, done, Set::new(|j: int| 0 <= j < n && mask@[j])) == scan(
                        s,
                        eviction_order(s, resource, lv as int) + level_indices(
                            s,
                            resource,
                            lv as int,
                            i as int,
                        ),
                        amount as nat,
                    ),
                    forall|j: int|
                        0 <= j < n && #[trigger] mask@[j] ==> s[j].resource == resource && (
                        s[j].priority < lv || (s[j].priority == lv && j < i)),
                    freed == marked_amount(s, Set::new(|j: int| 0 <= j < n && mask@[j]), n as int, resource),
                    !done ==> freed <= amount,
                    freed <= amount + 0xffff_ffff_ffff_ffffu64,
                decreases n - i,
            {
                let a = &self.allocations[i];
                let ghost before = eviction_order(s, resource, lv as int) + level_indices(
                    s,
                    resource,
                    lv as int,
                    i as int,
                );
                let ghost m0 = Set::new(|j: int| 0 <= j < n && mask@[j]);
                if a.resource == resource && a.priority == lv {
                    proof {
                        assert(eviction_order(s, resource, lv as int) + level_indices(
                            s,
                            resource,
                            lv as int,
                            i + 1,
                        ) =~= before.push(i as int));
                        assert(before.push(i as int).drop_last() =~= before);
                    }
                    if !done {
                        proof {
                            assert(!m0.contains(i as int));
                            lemma_marked_insert(s, m0, n as int, i as int, resource);
                        }
                        freed = freed + a.amount as u128;
                        done = freed >= amount as u128;
                        mask.set(i, true);
                        proof {
                            assert(Set::new(|j: int| 0 <= j < n && mask@[j]) =~= m0.insert(i as int));
                        }
                    }
                } else {
                    proof {
                        assert(eviction_order(s, resource, lv as int) + level_indices(
                            s,
                            resource,
                            lv as int,
                            i + 1,
                        ) =~= before);
                    }
                }
                i = i + 1;
            }
            proof {
                assert(eviction_order(s, resource, lv + 1) =~= eviction_order(s, resource, lv as int)
                    + level_indices(s, resource, lv as int, n as int));
            }
            lv = lv + 1;
        }
        let ghost marked = Set::new(|j: int| 0 <= j < n && mask@[j]);
        if freed < amount as u128 {
            return false;
        }
        let mut kept: Vec<Allocation> = Vec::new();
        let mut i: usize = 0;
        let ghost ram0 = self.allocated_ram_mb;
        let ghost cpu0 = self.allocated_cpu_units;
        while i < n
            invariant
                0 <= i <= n,
                n == s.len(),
                self.allocations@ == s,
                mask@.len() == n,
                marked == Set::new(|j: int| 0 <= j < n && mask@[j]),
                forall|j: int|
                    0 <= j < n && #[trigger] mask@[j] ==> s[j].resource == resource && s[j].priority
                        < priority,
                self.max_ram_mb == old(self).max_ram_mb,
                self.max_cpu_units == old(self).max_cpu_units,
                ram0 == amount_of(s, ResourceType::RamMB),
                cpu0 == amount_of(s, ResourceType::CpuUnits),
                ram0 <= self.max_ram_mb,
                cpu0 <= self.max_cpu_units,
                kept@ == kept_after(s, marked, i as int),
                self.allocated_ram_mb + marked_amount(s, marked, i as int, ResourceType::RamMB) == ram0,
                self.allocated_cpu_units + marked_amount(s, marked, i as int, ResourceType::CpuUnits)
                    == cpu0,
            decreases n - i,
        {
            let a = &self.allocations[i];
            proof {
                lemma_kept_amount(s, marked, i as int, ResourceType::RamMB);
                lemma_kept_amount(s, marked, i as int, ResourceType::CpuUnits);
                lemma_amount_take_step(s, i as int, ResourceType::RamMB);
                lemma_amount_take_step(s, i as int, ResourceType::CpuUnits);
                lemma_amount_split(s, i + 1, ResourceType::RamMB);
                lemma_amount_split(s, i + 1, ResourceType::CpuUnits);
            }
            if mask[i] {
                match a.resource {
                    ResourceType::RamMB => {
                        self.allocated_ram_mb = self.allocated_ram_mb.saturating_sub(a.amount);
                    },
                    ResourceType::CpuUnits => {
                        self.allocated_cpu_units = self.allocated_cpu_units.saturating_sub(
                            a.amount as u32,
                        );
                    },
                    _ => {},
                }
            } else {
                let c = a.copy();
                kept.push(c);
            }
            i = i + 1;
        }
        proof {
            lemma_kept_amount(s, marked, n as int, ResourceType::RamMB);
            lemma_kept_amount(s, marked, n as int, ResourceType::CpuUnits);
            assert(s.take(n as int) =~= s);
        }
        self.allocations = kept;
        true
    }

    /// Drops every allocation that has expired at `now` (`expires_ms <= now`).
    pub fn cleanup_at(&mut self, now: u64)
        requires
            old(self).wf(),
        ensures
            final(self).wf(),
            final(self).allocs() == unexpired(old(self).allocs(), now),
            final(self).ram_used() <= old(self).ram_used(),
            final(self).cpu_used() <= old(self).cpu_used(),
            final(self).ram_cap() == old(self).ram_cap(),
            final(self).cpu_cap() == old(self).cpu_cap(),
    {
        let ghost s = self.allocations@;
        let ghost pred = |a: Allocation| a.expires_ms > now;
        let mut kept: Vec<Allocation> = Vec::new();
        let n = self.allocations.len();
        let mut i: usize = 0;
        proof {
            reveal(Seq::filter);
            assert(s.take(0) =~= Seq::<Allocation>::empty());
        }
        while i < n
            invariant
                0 <= i <= n,
                n == s.len(),
                self.allocations@ == s,
                self.max_ram_mb == old(self).max_ram_mb,
                self.max_cpu_units == old(self).max_cpu_units,
                amount_of(s, ResourceType::RamMB) <= self.max_ram_mb,
                amount_of(s, ResourceType::CpuUnits) <= self.max_cpu_units,
                pred == (|a: Allocation| a.expires_ms > now),
                kept@ == s.take(i as int).filter(pred),
                self.allocated_ram_mb <= amount_of(s, ResourceType::RamMB),
                self.allocated_cpu_units <= amount_of(s, ResourceType::CpuUnits),
                self.allocated_ram_mb + amount_of(s.take(i as int), ResourceType::RamMB)
                    == amount_of(s, ResourceType::RamMB) + amount_of(kept@, ResourceType::RamMB),
                self.allocated_cpu_units + amount_of(s.take(i as int), ResourceType::CpuUnits)
                    == amount_of(s, ResourceType::CpuUnits) + amount_of(
                    kept@,
                    ResourceType::CpuUnits,
                ),
            decreases n - i,
        {
            let a = &self.allocations[i];
            proof {
                reveal(Seq::filter);
                assert(s.take(i + 1).drop_last() =~= s.take(i as int));
                assert(s.take(i + 1).last() == s[i as int]);
                assert(s.take(i + 1).filter(pred) == if pred(s[i as int]) {
                    s.take(i as int).filter(pred).push(s[i as int])
                } else {
                    s.take(i as int).filter(pred)
                });
                lemma_amount_take_step(s, i as int, ResourceType::RamMB);
                lemma_amount_take_step(s, i as int, ResourceType::CpuUnits);
                lemma_amount_split(s, i + 1, ResourceType::RamMB);
                lemma_amount_split(s, i + 1, ResourceType::CpuUnits);
            }
            if a.expires_ms <= now {
                assert(!pred(s[i as int]));
                match a.resource {
                    ResourceType::RamMB => {
                        self.allocated_ram_mb = self.allocated_ram_mb.saturating_sub(a.amount);
                    },
                    ResourceType::CpuUnits => {
                        self.allocated_cpu_units = self.allocated_cpu_units.saturating_sub(
                            a.amount as u32,
                        );
                    },
                    _ => {},
                }
            } else {
                let c = a.copy();
                assert(pred(s[i as int]));
                proof {
                    assert(kept@.push(c).drop_last() =~= kept@);
                }
                kept.push(c);
            }
            i = i + 1;
        }
        proof {
            assert(s.take(n as int) =~= s);
        }
        self.allocations = kept;
    }
}

} // verus!
