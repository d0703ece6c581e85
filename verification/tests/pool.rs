use ternary_fence::{Device, Fence, FencePool};

#[test]
fn test_fence_pool_reuses_fences() {
    let device = Device::new();
    let mut session = device.open();
    let pool = FencePool::new(&mut session);

    // First acquisition should create
    let f1 = pool.acquire(&mut session);
    let id1 = f1.id();
    assert_eq!(pool.created_count(&session), 1);
    assert_eq!(pool.reused_count(&session), 0);

    // Release back to pool
    pool.release(&mut session, f1);
    assert_eq!(pool.available(&session), 1);

    // Second acquisition should reuse
    let f2 = pool.acquire(&mut session);
    assert_eq!(f2.id(), id1); // Same fence object reused
    assert_eq!(pool.created_count(&session), 1);
    assert_eq!(pool.reused_count(&session), 1);
    assert_eq!(pool.available(&session), 0);

    // Third acquisition should create new
    let f3 = pool.acquire(&mut session);
    assert_ne!(f3.id(), id1);
    assert_eq!(pool.created_count(&session), 2);
    assert_eq!(pool.reused_count(&session), 1);
}

#[test]
fn test_fence_pool_multiple_acquire_release() {
    let device = Device::new();
    let mut session = device.open();
    let pool = FencePool::new(&mut session);

    let mut ids = Vec::new();
    for _ in 0..5 {
        ids.push(pool.acquire(&mut session));
    }
    assert_eq!(pool.created_count(&session), 5);

    for f in ids {
        pool.release(&mut session, f);
    }
    assert_eq!(pool.available(&session), 5);

    // All should be reused
    for _ in 0..5 {
        pool.acquire(&mut session);
    }
    assert_eq!(pool.reused_count(&session), 5);
    assert_eq!(pool.created_count(&session), 5);
}

#[test]
fn test_fence_pool_labeled() {
    let device = Device::new();
    let mut session = device.open();
    let pool = FencePool::new(&mut session);
    let f1 = pool.acquire_labeled(&mut session, "compute_done");
    assert_eq!(f1.label(), "compute_done");
}

#[test]
fn test_fence_pool_stats() {
    let device = Device::new();
    let mut session = device.open();
    let pool = FencePool::new(&mut session);

    let f1 = pool.acquire(&mut session);
    let f2 = pool.acquire(&mut session);
    pool.release(&mut session, f1);
    pool.release(&mut session, f2);

    let f3 = pool.acquire(&mut session);
    let f4 = pool.acquire(&mut session);
    let f5 = pool.acquire(&mut session);

    assert_eq!(pool.created_count(&session), 3); // 2 new initially, then 1 more
    assert_eq!(pool.reused_count(&session), 2);
    assert_eq!(pool.total_acquisitions(&session), 5);
    assert_eq!(pool.available(&session), 0);

    pool.release(&mut session, f3);
    pool.release(&mut session, f4);
    pool.release(&mut session, f5);
    assert_eq!(pool.available(&session), 3);
}

#[test]
fn new_pool_is_empty() {
    let device = Device::new();
    let mut session = device.open();
    let pool = FencePool::new(&mut session);
    assert_eq!(pool.available(&session), 0);
    assert_eq!(pool.created_count(&session), 0);
    assert_eq!(pool.reused_count(&session), 0);
    assert_eq!(pool.total_acquisitions(&session), 0);
}

#[test]
fn last_released_is_first_acquired() {
    let device = Device::new();
    let mut session = device.open();
    let pool = FencePool::new(&mut session);
    let one = pool.acquire(&mut session);
    let two = pool.acquire(&mut session);
    let (id1, id2) = (one.id(), two.id());
    pool.release(&mut session, one);
    pool.release(&mut session, two);
    assert_eq!(pool.acquire(&mut session).id(), id2);
    assert_eq!(pool.acquire(&mut session).id(), id1);
}

#[test]
fn reused_fence_is_reset_for_every_handle() {
    let device = Device::new();
    let mut session = device.open();
    let pool = FencePool::new(&mut session);
    let fence = pool.acquire(&mut session);
    let kept = fence.clone();
    fence.signal(&mut session);
    pool.release(&mut session, fence);
    assert!(kept.is_signaled(&session));
    let again = pool.acquire(&mut session);
    assert!(!again.is_signaled(&session));
    assert!(!kept.is_signaled(&session));
}

#[test]
fn plain_reuse_keeps_the_label() {
    let device = Device::new();
    let mut session = device.open();
    let pool = FencePool::new(&mut session);
    let fence = pool.acquire_labeled(&mut session, "first");
    pool.release(&mut session, fence);
    assert_eq!(pool.acquire(&mut session).label(), "first");
}

#[test]
fn labeled_reuse_replaces_the_label() {
    let device = Device::new();
    let mut session = device.open();
    let pool = FencePool::new(&mut session);
    let fence = pool.acquire_labeled(&mut session, "first");
    let id = fence.id();
    fence.signal(&mut session);
    pool.release(&mut session, fence);
    let again = pool.acquire_labeled(&mut session, String::from("second"));
    assert_eq!(again.id(), id);
    assert_eq!(again.label(), "second");
    assert!(!again.is_signaled(&session));
    assert_eq!(pool.created_count(&session), 1);
    assert_eq!(pool.reused_count(&session), 1);
}

#[test]
fn clear_empties_the_pool_and_keeps_the_counts() {
    let device = Device::new();
    let mut session = device.open();
    let pool = FencePool::new(&mut session);
    let fence = pool.acquire(&mut session);
    let id = fence.id();
    pool.release(&mut session, fence);
    let fence = pool.acquire(&mut session);
    pool.release(&mut session, fence);
    pool.clear(&mut session);
    assert_eq!(pool.available(&session), 0);
    assert_eq!(pool.created_count(&session), 1);
    assert_eq!(pool.reused_count(&session), 1);
    assert_ne!(pool.acquire(&mut session).id(), id);
    assert_eq!(pool.created_count(&session), 2);
}

#[test]
fn pools_are_independent() {
    let device = Device::new();
    let mut session = device.open();
    let one = FencePool::new(&mut session);
    let other = FencePool::new(&mut session);
    let fence = one.acquire(&mut session);
    one.release(&mut session, fence);
    assert_eq!(one.available(&session), 1);
    assert_eq!(other.available(&session), 0);
    assert_eq!(other.created_count(&session), 0);
    one.clear(&mut session);
    assert_eq!(one.created_count(&session), 1);
}

#[test]
fn a_fence_from_elsewhere_can_be_released() {
    let device = Device::new();
    let mut session = device.open();
    let pool = FencePool::new(&mut session);
    let fence = Fence::with_label(&mut session, "guest");
    let id = fence.id();
    pool.release(&mut session, fence);
    let out = pool.acquire(&mut session);
    assert_eq!(out.id(), id);
    assert_eq!(out.label(), "guest");
    assert_eq!(pool.created_count(&session), 0);
    assert_eq!(pool.reused_count(&session), 1);
}
