use polygone::protocol::{
    id_from, now_ms, random_id, CancelMessage, CapabilityAnnounce, ComputeMessage, ComputeResourceType, HeartbeatMessage,
    PaymentProofMessage, PaymentRequestMessage, RejectReason, ResourceAcceptMessage, ResourceRejectMessage,
    ResourceRequestMessage, ShutdownMessage, UsageUpdateMessage, MAX_MESSAGE_SIZE,
};

#[test]
fn reject_reason_labels() {
    assert_eq!(RejectReason::InsufficientResources.label(), "Insufficient resources");
    assert_eq!(RejectReason::PriceTooLow.label(), "Price too low");
}

#[test]
fn other_reason_reads_other() {
    assert_eq!(RejectReason::Other("busy".into()).label(), "Other");
    assert_eq!(RejectReason::UserReturning.label(), "User returning");
    assert_eq!(RejectReason::AtCapacity.label(), "At capacity");
}

#[test]
fn compute_resource_labels() {
    assert_eq!(ComputeResourceType::RamMB.label(), "RAM (MB)");
    assert_eq!(ComputeResourceType::CpuCores.label(), "CPU Cores");
    assert_eq!(ComputeResourceType::StorageGB.label(), "Storage (GB)");
    assert_eq!(ComputeResourceType::GpuUnits.label(), "GPU Units");
}

#[test]
fn ids_are_sixteen_hex_digits() {
    assert_eq!(id_from(0), "id:0000000000000000");
    assert_eq!(id_from(0xdead_beef), "id:00000000deadbeef");
    assert_eq!(id_from(u64::MAX), "id:ffffffffffffffff");
    let r = random_id();
    assert!(r.starts_with("id:"));
    assert_eq!(r.len(), 19);
}

fn request(request_id: &str, amount: u64, duration_secs: u64, price_below_zero: bool) -> ComputeMessage {
    ComputeMessage::ResourceRequest(ResourceRequestMessage {
        request_id: request_id.into(),
        requester_id: "node-2".into(),
        requester_reputation: 70,
        resource_type: ComputeResourceType::RamMB,
        amount,
        price_below_zero,
        duration_secs,
        priority: 1,
        timestamp_ms: now_ms(),
        signature: "abc123".into(),
    })
}

#[test]
fn resource_request_validation() {
    // The maximum price of 0.005 POLY is not below zero.
    let msg = request("", 512, 3600, false);
    assert!(msg.validate().is_err());
}

fn announce(node_id: &str, timestamp_ms: u64, ttl_secs: u32) -> ComputeMessage {
    ComputeMessage::AnnounceCapabilities(CapabilityAnnounce {
        node_id: node_id.into(),
        node_name: "Test Node".into(),
        available_ram_mb: 4096,
        available_cpu_cores: 4,
        available_storage_gb: 100,
        available_gpu_units: 0,
        uptime_secs: 3600,
        reputation: 85,
        timestamp_ms,
        ttl_secs,
    })
}

#[test]
fn announce_rules_in_order() {
    assert_eq!(announce("node-1", 5, 300).validate(), Ok(()));
    assert_eq!(announce("", 0, 0).validate(), Err("empty node_id"));
    assert_eq!(announce("node-1", 0, 0).validate(), Err("invalid timestamp"));
    assert_eq!(announce("node-1", 5, 0).validate(), Err("zero TTL"));
    assert_eq!(announce("node-1", 5, 300).kind_name(), "AnnounceCapabilities");
}

#[test]
fn request_rules_in_order() {
    assert_eq!(request("r", 512, 3600, false).validate(), Ok(()));
    assert_eq!(request("", 0, 0, true).validate(), Err("empty request_id"));
    assert_eq!(request("r", 0, 0, true).validate(), Err("zero amount"));
    assert_eq!(request("r", 1, 0, true).validate(), Err("zero duration"));
    assert_eq!(request("r", 1, 1, true).validate(), Err("negative price"));
    let no_requester = ComputeMessage::ResourceRequest(ResourceRequestMessage {
        request_id: "r".into(),
        requester_id: String::new(),
        requester_reputation: 0,
        resource_type: ComputeResourceType::CpuCores,
        amount: 1,
        price_below_zero: false,
        duration_secs: 1,
        priority: 0,
        timestamp_ms: 1,
        signature: String::new(),
    });
    assert_eq!(no_requester.validate(), Err("empty requester_id"));
    assert_eq!(no_requester.kind_name(), "ResourceRequest");
}

#[test]
fn accept_reject_and_allocation_rules() {
    let accept = |req: &str, alloc: &str, neg: bool| {
        ComputeMessage::ResourceAccept(ResourceAcceptMessage {
            request_id: req.into(),
            allocation_id: alloc.into(),
            lender_id: "l".into(),
            price_below_zero: neg,
            start_ms: 0,
            end_ms: 0,
            endpoint: String::new(),
            auth_token: String::new(),
            timestamp_ms: 0,
        })
    };
    assert_eq!(accept("r", "a", false).validate(), Ok(()));
    assert_eq!(accept("", "", true).validate(), Err("empty request_id"));
    assert_eq!(accept("r", "", true).validate(), Err("empty allocation_id"));
    assert_eq!(accept("r", "a", true).validate(), Err("negative price"));
    let reject = ComputeMessage::ResourceReject(ResourceRejectMessage {
        request_id: String::new(),
        reason: RejectReason::AtCapacity,
        explanation: String::new(),
        suggest_alternative: None,
        timestamp_ms: 0,
    });
    assert_eq!(reject.validate(), Err("empty request_id"));
    assert_eq!(reject.kind_name(), "ResourceReject");
    let hb = ComputeMessage::Heartbeat(HeartbeatMessage { allocation_id: String::new(), node_id: "n".into(), ram_usage_mb: 1, timestamp_ms: 1 });
    assert_eq!(hb.validate(), Err("empty allocation_id"));
    let cancel = ComputeMessage::CancelAllocation(CancelMessage { allocation_id: "a".into(), node_id: String::new(), reason: String::new(), timestamp_ms: 0 });
    assert_eq!(cancel.validate(), Ok(()));
    let usage = ComputeMessage::UsageUpdate(UsageUpdateMessage { allocation_id: String::new(), node_id: "n".into(), ram_mb: 0, storage_gb: 0, timestamp_ms: 0 });
    assert_eq!(usage.validate(), Err("empty allocation_id"));
    let bye = ComputeMessage::PeerShutdown(ShutdownMessage { node_id: String::new(), reason: "update".into(), timestamp_ms: 0 });
    assert_eq!(bye.validate(), Err("empty node_id"));
    assert_eq!(bye.kind_name(), "PeerShutdown");
}

#[test]
fn payment_rules() {
    let owed = |neg: bool| {
        ComputeMessage::RequestPayment(PaymentRequestMessage {
            allocation_id: String::new(),
            lender_id: String::new(),
            borrower_id: String::new(),
            owed_below_zero: neg,
            resource_type: ComputeResourceType::GpuUnits,
            amount_used: 0,
            duration_used_secs: 0,
            timestamp_ms: 0,
        })
    };
    assert_eq!(owed(false).validate(), Ok(()));
    assert_eq!(owed(true).validate(), Err("negative payment"));
    let proof = |neg: bool, tx: &str| {
        ComputeMessage::PaymentProof(PaymentProofMessage {
            allocation_id: "a".into(),
            payer_id: "p".into(),
            payee_id: "q".into(),
            paid_below_zero: neg,
            tx_hash: tx.into(),
            timestamp_ms: 0,
        })
    };
    assert_eq!(proof(true, "").validate(), Err("negative payment"));
    assert_eq!(proof(false, "").validate(), Err("empty tx_hash"));
    assert_eq!(proof(false, "0xab").validate(), Ok(()));
    assert_eq!(proof(false, "0xab").kind_name(), "PaymentProof");
    assert_eq!(MAX_MESSAGE_SIZE, 1_048_576);
}
