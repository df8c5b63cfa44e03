//! The messages the daemon pushes to the node, one JSON line each: the
//! allocation, a shrink or a grow, and the status. Encoding and writing
//! them to the node's socket belong to the program that runs the daemon.

use vstd::prelude::*;
use crate::allocator::{Allocation, MIB};
use crate::clock::epoch_secs;
use crate::text::owned;

verus! {

/// A message to the node.
#[derive(Debug, Clone)]
pub enum DaemonMsg {
    /// The memory and bandwidth the node may use.
    SetAlloc { ram_mb: u64, bandwidth_mbps: u32, timestamp: i64 },
    /// The allocation is being shrunk.
    Shrink { reason: String, timestamp: i64 },
    /// There is room to grow.
    Grow { headroom_mb: u64, timestamp: i64 },
    /// The current state.
    Status { ram_mb: u64, bandwidth_mbps: u32, shrinking: bool, timestamp: i64 },
}

/// The seconds since the epoch as a signed count (`as i64` of the
/// unsigned count).
pub fn timestamp_now() -> i64 {
    let secs = epoch_secs();
    #[verifier::truncate]
    (secs as i64)
}

/// The message that tells the node about a new allocation: its RAM in
/// whole MiB and its bandwidth (whether it is shrinking is not sent).
pub fn notify_allocation(allocation: &Allocation, shrinking: bool) -> (res: DaemonMsg)
    ensures
        res matches DaemonMsg::SetAlloc { ram_mb, bandwidth_mbps, .. } && ram_mb == allocation.ram_bytes / MIB
            && bandwidth_mbps == allocation.bandwidth_mbps,
{
    DaemonMsg::SetAlloc {
        ram_mb: allocation.ram_mb(),
        bandwidth_mbps: allocation.bandwidth_mbps,
        timestamp: timestamp_now(),
    }
}

/// The message that tells the node the allocation shrinks, and why.
pub fn notify_shrink(reason: &str) -> (res: DaemonMsg)
    ensures
        res matches DaemonMsg::Shrink { reason: r, .. } && r@ == reason@,
{
    DaemonMsg::Shrink { reason: owned(reason), timestamp: timestamp_now() }
}

/// The message that tells the node how much room there is to grow.
pub fn notify_grow(headroom_mb: u64) -> (res: DaemonMsg)
    ensures
        res matches DaemonMsg::Grow { headroom_mb: h, .. } && h == headroom_mb,
{
    DaemonMsg::Grow { headroom_mb, timestamp: timestamp_now() }
}

/// The message that tells the node the current state.
pub fn notify_status(ram_mb: u64, bandwidth_mbps: u32, shrinking: bool) -> (res: DaemonMsg)
    ensures
        res matches DaemonMsg::Status { ram_mb: r, bandwidth_mbps: b, shrinking: s, .. } && r == ram_mb
            && b == bandwidth_mbps && s == shrinking,
{
    DaemonMsg::Status { ram_mb, bandwidth_mbps, shrinking, timestamp: timestamp_now() }
}

} // verus!
