//! Messages of the peer-to-peer compute protocol, the rules they must
//! follow, and the identifiers its requests and allocations are given.

use vstd::prelude::*;
use crate::clock::random_u64;
use crate::numfmt::{hex_fixed, push_hex_fixed};
use crate::text::owned;

pub use crate::clock::now_ms;

verus! {

/// The protocol identifier for compute sharing.
pub const COMPUTE_PROTOCOL_VERSION: &'static str = "/polygone/compute/1.0.0";

/// The gossip topic of capability announcements.
pub const COMPUTE_ANNOUNCE_TOPIC: &'static str = "polygone-compute-announce";

/// The request-response protocol of direct negotiations.
pub const COMPUTE_REQUEST_PROTOCOL: &'static str = "/polygone/compute/rr/1.0.0";

/// The largest message, in bytes.
pub const MAX_MESSAGE_SIZE: usize = 1_048_576;

/// Resource kinds in the compute protocol.
#[derive(Debug, Clone, Copy, PartialEq, Eq, Hash, Structural)]
pub enum ComputeResourceType {
    RamMB,
    CpuCores,
    StorageGB,
    GpuUnits,
}

/// The label of each resource kind.
pub open spec fn compute_resource_label(r: ComputeResourceType) -> Seq<char> {
    match r {
        ComputeResourceType::RamMB => "RAM (MB)"@,
        ComputeResourceType::CpuCores => "CPU Cores"@,
        ComputeResourceType::StorageGB => "Storage (GB)"@,
        ComputeResourceType::GpuUnits => "GPU Units"@,
    }
}

impl ComputeResourceType {
    /// The resource kind's label.
    pub fn label(&self) -> (res: &'static str)
        ensures
            res@ == compute_resource_label(*self),
    {
        match self {
            ComputeResourceType::RamMB => "RAM (MB)",
            ComputeResourceType::CpuCores => "CPU Cores",
            ComputeResourceType::StorageGB => "Storage (GB)",
            ComputeResourceType::GpuUnits => "GPU Units",
        }
    }
}

/// Why a resource request was refused.
#[derive(Debug, Clone)]
pub enum RejectReason {
    /// No resources available.
    InsufficientResources,
    /// The offered price is too low.
    PriceTooLow,
    /// The requester's reputation is too low.
    ReputationTooLow,
    /// The lender is at capacity.
    AtCapacity,
    /// The resource is reserved for another borrower.
    Reserved,
    /// The lender's user is coming back.
    UserReturning,
    /// Any other reason.
    Other(String),
}

/// The label of each reason.
pub open spec fn reject_label(r: RejectReason) -> Seq<char> {
    match r {
        RejectReason::InsufficientResources => "Insufficient resources"@,
        RejectReason::PriceTooLow => "Price too low"@,
        RejectReason::ReputationTooLow => "Reputation too low"@,
        RejectReason::AtCapacity => "At capacity"@,
        RejectReason::Reserved => "Reserved"@,
        RejectReason::UserReturning => "User returning"@,
        RejectReason::Other(_) => "Other"@,
    }
}

impl RejectReason {
    /// The reason's label (any other reason reads `Other`).
    pub fn label(&self) -> (res: &'static str)
        ensures
            res@ == reject_label(*self),
    {
        match self {
            RejectReason::InsufficientResources => "Insufficient resources",
            RejectReason::PriceTooLow => "Price too low",
            RejectReason::ReputationTooLow => "Reputation too low",
            RejectReason::AtCapacity => "At capacity",
            RejectReason::Reserved => "Reserved",
            RejectReason::UserReturning => "User returning",
            RejectReason::Other(_) => "Other",
        }
    }
}

/// Refusal of a resource request.
#[derive(Debug, Clone)]
pub struct ResourceRejectMessage {
    /// The refused request.
    pub request_id: String,
    /// Why it was refused.
    pub reason: RejectReason,
    /// A readable explanation.
    pub explanation: String,
    /// Another lender to ask, if any.
    pub suggest_alternative: Option<String>,
    /// Epoch milliseconds.
    pub timestamp_ms: u64,
}

/// Cancellation of an allocation.
#[derive(Debug, Clone)]
pub struct CancelMessage {
    /// The allocation to cancel.
    pub allocation_id: String,
    /// The node that cancels.
    pub node_id: String,
    /// Why.
    pub reason: String,
    /// Epoch milliseconds.
    pub timestamp_ms: u64,
}

/// A peer says it is shutting down.
#[derive(Debug, Clone)]
pub struct ShutdownMessage {
    /// The node that shuts down.
    pub node_id: String,
    /// Why.
    pub reason: String,
    /// Epoch milliseconds.
    pub timestamp_ms: u64,
}

/// A node's announcement of what it can lend. Its prices are fractional
/// amounts of POLY and travel beside this value in the program around the
/// library; nothing here reads them.
#[derive(Debug, Clone)]
pub struct CapabilityAnnounce {
    pub node_id: String,
    pub node_name: String,
    pub available_ram_mb: u64,
    pub available_cpu_cores: u32,
    pub available_storage_gb: u64,
    pub available_gpu_units: u32,
    pub uptime_secs: u64,
    /// Reputation, 0 to 100.
    pub reputation: u32,
    /// Epoch milliseconds.
    pub timestamp_ms: u64,
    pub ttl_secs: u32,
}

/// A request for resources. Of its maximum price (a fractional amount)
/// only whether it is below zero is held here.
#[derive(Debug, Clone)]
pub struct ResourceRequestMessage {
    pub request_id: String,
    pub requester_id: String,
    pub requester_reputation: u32,
    pub resource_type: ComputeResourceType,
    pub amount: u64,
    /// True when the maximum price per unit-hour is below zero.
    pub price_below_zero: bool,
    pub duration_secs: u64,
    /// 0 background, 1 normal, 2 high, 3 critical.
    pub priority: u32,
    pub timestamp_ms: u64,
    pub signature: String,
}

/// Acceptance of a request. Of the agreed price only its sign is held.
#[derive(Debug, Clone)]
pub struct ResourceAcceptMessage {
    pub request_id: String,
    pub allocation_id: String,
    pub lender_id: String,
    /// True when the agreed price per unit-hour is below zero.
    pub price_below_zero: bool,
    pub start_ms: u64,
    pub end_ms: u64,
    pub endpoint: String,
    pub auth_token: String,
    pub timestamp_ms: u64,
}

/// A heartbeat that keeps an allocation alive (the CPU share it reports is
/// fractional and travels beside it).
#[derive(Debug, Clone)]
pub struct HeartbeatMessage {
    pub allocation_id: String,
    pub node_id: String,
    pub ram_usage_mb: u64,
    pub timestamp_ms: u64,
}

/// The lender asks to be paid. Of the amount owed only its sign is held.
#[derive(Debug, Clone)]
pub struct PaymentRequestMessage {
    pub allocation_id: String,
    pub lender_id: String,
    pub borrower_id: String,
    /// True when the amount owed is below zero.
    pub owed_below_zero: bool,
    pub resource_type: ComputeResourceType,
    pub amount_used: u64,
    pub duration_used_secs: u64,
    pub timestamp_ms: u64,
}

/// A receipt. Of the amount paid only its sign is held.
#[derive(Debug, Clone)]
pub struct PaymentProofMessage {
    pub allocation_id: String,
    pub payer_id: String,
    pub payee_id: String,
    /// True when the amount paid is below zero.
    pub paid_below_zero: bool,
    pub tx_hash: String,
    pub timestamp_ms: u64,
}

/// Usage during an allocation (the CPU cores in use are fractional and
/// travel beside it).
#[derive(Debug, Clone)]
pub struct UsageUpdateMessage {
    pub allocation_id: String,
    pub node_id: String,
    pub ram_mb: u64,
    pub storage_gb: u64,
    pub timestamp_ms: u64,
}

/// Every message of the compute protocol.
#[derive(Debug, Clone)]
pub enum ComputeMessage {
    AnnounceCapabilities(CapabilityAnnounce),
    ResourceRequest(ResourceRequestMessage),
    ResourceAccept(ResourceAcceptMessage),
    ResourceReject(ResourceRejectMessage),
    Heartbeat(HeartbeatMessage),
    CancelAllocation(CancelMessage),
    RequestPayment(PaymentRequestMessage),
    PaymentProof(PaymentProofMessage),
    UsageUpdate(UsageUpdateMessage),
    PeerShutdown(ShutdownMessage),
}

/// The first rule a message breaks, in the order they are checked, or
/// `None` when it is well formed.
pub open spec fn validation_error(m: ComputeMessage) -> Option<Seq<char>> {
    match m {
        ComputeMessage::AnnounceCapabilities(a) => if a.node_id@.len() == 0 {
            Some("empty node_id"@)
        } else if a.timestamp_ms == 0 {
            Some("invalid timestamp"@)
        } else if a.ttl_secs == 0 {
            Some("zero TTL"@)
        } else {
            None
        },
        ComputeMessage::ResourceRequest(r) => if r.request_id@.len() == 0 {
            Some("empty request_id"@)
        } else if r.requester_id@.len() == 0 {
            Some("empty requester_id"@)
        } else if r.amount == 0 {
            Some("zero amount"@)
        } else if r.duration_secs == 0 {
            Some("zero duration"@)
        } else if r.price_below_zero {
            Some("negative price"@)
        } else {
            None
        },
        ComputeMessage::ResourceAccept(a) => if a.request_id@.len() == 0 {
            Some("empty request_id"@)
        } else if a.allocation_id@.len() == 0 {
            Some("empty allocation_id"@)
        } else if a.price_below_zero {
            Some("negative price"@)
        } else {
            None
        },
        ComputeMessage::ResourceReject(r) => if r.request_id@.len() == 0 {
            Some("empty request_id"@)
        } else {
            None
        },
        ComputeMessage::Heartbeat(h) => if h.allocation_id@.len() == 0 {
            Some("empty allocation_id"@)
        } else {
            None
        },
        ComputeMessage::CancelAllocation(c) => if c.allocation_id@.len() == 0 {
            Some("empty allocation_id"@)
        } else {
            None
        },
        ComputeMessage::RequestPayment(p) => if p.owed_below_zero {
            Some("negative payment"@)
        } else {
            None
        },
        ComputeMessage::PaymentProof(p) => if p.paid_below_zero {
            Some("negative payment"@)
        } else if p.tx_hash@.len() == 0 {
            Some("empty tx_hash"@)
        } else {
            None
        },
        ComputeMessage::UsageUpdate(u) => if u.allocation_id@.len() == 0 {
            Some("empty allocation_id"@)
        } else {
            None
        },
        ComputeMessage::PeerShutdown(s) => if s.node_id@.len() == 0 {
            Some("empty node_id"@)
        } else {
            None
        },
    }
}

/// The name of each message kind, for logs.
pub open spec fn message_kind_name(m: ComputeMessage) -> Seq<char> {
    match m {
        ComputeMessage::AnnounceCapabilities(_) => "AnnounceCapabilities"@,
        ComputeMessage::ResourceRequest(_) => "ResourceRequest"@,
        ComputeMessage::ResourceAccept(_) => "ResourceAccept"@,
        ComputeMessage::ResourceReject(_) => "ResourceReject"@,
        ComputeMessage::Heartbeat(_) => "Heartbeat"@,
        ComputeMessage::CancelAllocation(_) => "CancelAllocation"@,
        ComputeMessage::RequestPayment(_) => "RequestPayment"@,
        ComputeMessage::PaymentProof(_) => "PaymentProof"@,
        ComputeMessage::UsageUpdate(_) => "UsageUpdate"@,
        ComputeMessage::PeerShutdown(_) => "PeerShutdown"@,
    }
}

fn blank(s: &String) -> (res: bool)
    ensures
        res == (s@.len() == 0),
{
    s.as_str().is_empty()
}

impl ComputeMessage {
    /// Checks the message's basic rules: identifiers that must be given,
    /// amounts and durations that must not be zero, prices and payments
    /// that must not be negative. The error names the first rule broken.
    pub fn validate(&self) -> (res: Result<(), &'static str>)
        ensures
            match validation_error(*self) {
                None => res is Ok,
                Some(e) => res matches Err(x) && x@ == e,
            },
    {
        match self {
            ComputeMessage::AnnounceCapabilities(a) => {
                if blank(&a.node_id) {
                    return Err("empty node_id");
                }
                if a.timestamp_ms == 0 {
                    return Err("invalid timestamp");
                }
                if a.ttl_secs == 0 {
                    return Err("zero TTL");
                }
                Ok(())
            },
            ComputeMessage::ResourceRequest(r) => {
                if blank(&r.request_id) {
                    return Err("empty request_id");
                }
                if blank(&r.requester_id) {
                    return Err("empty requester_id");
                }
                if r.amount == 0 {
                    return Err("zero amount");
                }
                if r.duration_secs == 0 {
                    return Err("zero duration");
                }
                if r.price_below_zero {
                    return Err("negative price");
                }
                Ok(())
            },
            ComputeMessage::ResourceAccept(a) => {
                if blank(&a.request_id) {
                    return Err("empty request_id");
                }
                if blank(&a.allocation_id) {
                    return Err("empty allocation_id");
                }
                if a.price_below_zero {
                    return Err("negative price");
                }
                Ok(())
            },
            ComputeMessage::ResourceReject(r) => {
                if blank(&r.request_id) {
                    return Err("empty request_id");
                }
                Ok(())
            },
            ComputeMessage::Heartbeat(h) => {
                if blank(&h.allocation_id) {
                    return Err("empty allocation_id");
                }
                Ok(())
            },
            ComputeMessage::CancelAllocation(c) => {
                if blank(&c.allocation_id) {
                    return Err("empty allocation_id");
                }
                Ok(())
            },
            ComputeMessage::RequestPayment(p) => {
                if p.owed_below_zero {
                    return Err("negative payment");
                }
                Ok(())
            },
            ComputeMessage::PaymentProof(p) => {
                if p.paid_below_zero {
                    return Err("negative payment");
                }
                if blank(&p.tx_hash) {
                    return Err("empty tx_hash");
                }
                Ok(())
            },
            ComputeMessage::UsageUpdate(u) => {
                if blank(&u.allocation_id) {
                    return Err("empty allocation_id");
                }
                Ok(())
            },
            ComputeMessage::PeerShutdown(s) => {
                if blank(&s.node_id) {
                    return Err("empty node_id");
                }
                Ok(())
            },
        }
    }

    /// The message kind's name.
    pub fn kind_name(&self) -> (res: &'static str)
        ensures
            res@ == message_kind_name(*self),
    {
        match self {
            ComputeMessage::AnnounceCapabilities(_) => "AnnounceCapabilities",
            ComputeMessage::ResourceRequest(_) => "ResourceRequest",
            ComputeMessage::ResourceAccept(_) => "ResourceAccept",
            ComputeMessage::ResourceReject(_) => "ResourceReject",
            ComputeMessage::Heartbeat(_) => "Heartbeat",
            ComputeMessage::CancelAllocation(_) => "CancelAllocation",
            ComputeMessage::RequestPayment(_) => "RequestPayment",
            ComputeMessage::PaymentProof(_) => "PaymentProof",
            ComputeMessage::UsageUpdate(_) => "UsageUpdate",
            ComputeMessage::PeerShutdown(_) => "PeerShutdown",
        }
    }
}

/// The text of an identifier made from a number: `id:` and sixteen
/// lower-case hexadecimal digits.
pub open spec fn id_text(r: u64) -> Seq<char> {
    "id:"@ + hex_fixed(r as nat, 16)
}

/// The identifier made from `r`.
pub fn id_from(r: u64) -> (res: String)
    ensures
        res@ == id_text(r),
{
    let mut s = owned("id:");
    push_hex_fixed(&mut s, r, 16);
    s
}

/// A fresh random identifier for a request or an allocation.
pub fn random_id() -> (res: String)
    ensures
        exists|r: u64| res@ == id_text(r),
{
    let r = random_u64();
    let s = id_from(r);
    assert(s@ == id_text(r));
    s
}

} // verus!
