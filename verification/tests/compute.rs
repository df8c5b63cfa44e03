use polygone::compute::{offer_is_expired, ResourceAllocator, ResourceType};

#[test]
fn allocator_basic() {
    let mut a = ResourceAllocator::new(1024, 4);
    let alloc = a.allocate("task-1", ResourceType::RamMB, 512, 3600, 1);
    assert!(alloc.is_some());
    assert_eq!(a.active_count(), 1);
    let (used, max, _, _) = a.utilization();
    assert_eq!(used, 512);
    assert_eq!(max, 1024);
}

#[test]
fn allocator_rejects_over_capacity() {
    let mut a = ResourceAllocator::new(512, 2);
    a.allocate("task-1", ResourceType::RamMB, 512, 3600, 1);
    let alloc = a.allocate("task-2", ResourceType::RamMB, 1, 3600, 0);
    assert!(alloc.is_none());
}

#[test]
fn allocator_evicts_lower_priority() {
    let mut a = ResourceAllocator::new(512, 4);
    a.allocate("bg-task", ResourceType::RamMB, 512, 3600, 0);
    let alloc = a.allocate("hi-task", ResourceType::RamMB, 512, 3600, 2);
    assert!(alloc.is_some());
    assert_eq!(a.active_count(), 1);
}

#[test]
fn allocator_release() {
    let mut a = ResourceAllocator::new(1024, 4);
    let alloc = a.allocate("task-1", ResourceType::RamMB, 512, 3600, 1).unwrap();
    assert!(a.release(&alloc.id));
    assert_eq!(a.active_count(), 0);
    let (used, _, _, _) = a.utilization();
    assert_eq!(used, 0);
}

#[test]
fn grant_records_times_and_id() {
    let mut a = ResourceAllocator::new(1024, 4);
    let g = a.grant("t", ResourceType::CpuUnits, 3, 10, 1, 5_000, 0xab).unwrap();
    assert_eq!(g.started_ms, 5_000);
    assert_eq!(g.expires_ms, 15_000);
    assert_eq!(g.amount, 3);
    assert_eq!(a.utilization(), (0, 1024, 3, 4));
    assert!(a.grant("u", ResourceType::CpuUnits, 2, 10, 1, 5_000, 0xac).is_none());
}

#[test]
fn equal_priority_is_not_evicted() {
    let mut a = ResourceAllocator::new(512, 4);
    a.grant("first", ResourceType::RamMB, 512, 60, 1, 0, 1).unwrap();
    assert!(a.grant("second", ResourceType::RamMB, 512, 60, 1, 0, 2).is_none());
    assert_eq!(a.active_count(), 1);
}

#[test]
fn evicts_lowest_priority_first_and_no_more_than_needed() {
    let mut a = ResourceAllocator::new(1000, 4);
    a.grant("p1", ResourceType::RamMB, 400, 60, 1, 0, 1).unwrap();
    a.grant("p0", ResourceType::RamMB, 400, 60, 0, 0, 2).unwrap();
    // 100 is lacking: the priority-0 allocation alone makes room.
    let g = a.grant("p5", ResourceType::RamMB, 300, 60, 5, 0, 3);
    assert!(g.is_some());
    assert_eq!(a.active_count(), 2);
    assert_eq!(a.utilization().0, 700);
}

#[test]
fn storage_is_not_counted() {
    let mut a = ResourceAllocator::new(1, 1);
    assert!(a.grant("s", ResourceType::ScratchGB, 10_000, 60, 0, 0, 1).is_some());
    assert_eq!(a.utilization(), (0, 1, 0, 1));
}

#[test]
fn expired_allocations_are_cleaned() {
    let mut a = ResourceAllocator::new(1024, 4);
    a.grant("t", ResourceType::RamMB, 100, 1, 1, 0, 1).unwrap();
    a.cleanup_at(999);
    assert_eq!(a.active_count(), 1);
    a.cleanup_at(1_000);
    assert_eq!(a.active_count(), 0);
}

#[test]
fn offers_expire_after_ttl() {
    assert!(!offer_is_expired(1_000, 0, 1_000));
    assert!(offer_is_expired(1_001, 0, 1_000));
    assert!(!offer_is_expired(0, 5_000, 1));
}

#[test]
fn resource_labels() {
    assert_eq!(ResourceType::RamMB.label(), "RAM (MB)");
    assert_eq!(ResourceType::GpuCores.label(), "GPU Cores");
}

#[test]
fn eviction_makes_room_when_the_rest_fits() {
    // 80 of 100 MB held: 30 at priority 0, 50 at priority 5.
    let mut a = ResourceAllocator::new(100, 0);
    a.grant("low", ResourceType::RamMB, 30, 60, 0, 0, 1).unwrap();
    a.grant("high", ResourceType::RamMB, 50, 60, 5, 0, 2).unwrap();
    // 40 at priority 3: once the 30 below it are gone, 50 + 40 fits.
    let g = a.grant("mid", ResourceType::RamMB, 40, 60, 3, 0, 3).unwrap();
    assert_eq!(g.amount, 40);
    assert_eq!(a.active_count(), 2);
    assert_eq!(a.utilization().0, 90);
    // 20 more at priority 3: nothing below it is left to evict.
    assert!(a.grant("more", ResourceType::RamMB, 20, 60, 3, 0, 4).is_none());
    assert_eq!(a.utilization().0, 90);
}

#[test]
fn eviction_frees_only_what_the_request_lacks() {
    // 412 of 512 MB held: 10 at priority 0, 402 at priority 5.
    let mut a = ResourceAllocator::new(512, 0);
    a.grant("small", ResourceType::RamMB, 10, 60, 0, 0, 1).unwrap();
    a.grant("big", ResourceType::RamMB, 402, 60, 5, 0, 2).unwrap();
    let g = a.grant("req", ResourceType::RamMB, 110, 60, 2, 0, 3);
    assert!(g.is_some());
    assert_eq!(a.utilization().0, 512);
    assert_eq!(a.active_count(), 2);
    // Two priority-0 holdings of 50 each; 60 lacking: both go, lowest
    // position first, and the scan stops once it fits.
    let mut b = ResourceAllocator::new(200, 0);
    b.grant("a", ResourceType::RamMB, 50, 60, 0, 0, 1).unwrap();
    b.grant("b", ResourceType::RamMB, 50, 60, 0, 0, 2).unwrap();
    b.grant("c", ResourceType::RamMB, 50, 60, 0, 0, 3).unwrap();
    b.grant("d", ResourceType::RamMB, 50, 60, 9, 0, 4).unwrap();
    assert!(b.grant("e", ResourceType::RamMB, 60, 60, 1, 0, 5).is_some());
    assert_eq!(b.active_count(), 3);
    assert_eq!(b.utilization().0, 160);
}

#[test]
fn cpu_request_beyond_32_bits_is_refused() {
    let mut a = ResourceAllocator::new(0, 4);
    assert!(a.grant("t", ResourceType::CpuUnits, 1 << 32, 60, 9, 0, 1).is_none());
    assert_eq!(a.active_count(), 0);
}
