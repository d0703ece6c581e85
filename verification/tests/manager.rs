use std::sync::Arc;
use std::time::{Duration, Instant};
use ternary_fence::{Device, FenceId, FenceManager, FencePool, FenceStatus};

#[test]
fn test_fence_manager_create_and_signal() {
    let device = Device::new();
    let mut session = device.open();
    let manager = FenceManager::new(&mut session);
    let fence = manager.create_fence(&mut session);
    let id = fence.id();

    assert_eq!(manager.active_count(&session), 1);
    assert_eq!(manager.get_status(&session, id), Some(FenceStatus::Active));

    manager.signal_fence(&mut session, id);
    assert_eq!(manager.get_status(&session, id), Some(FenceStatus::Completed));
    assert_eq!(manager.completed_count(&session), 1);
    assert_eq!(manager.active_count(&session), 0);
}

#[test]
fn test_fence_manager_wait() {
    let device = Device::new();
    let mut session = device.open();
    let manager = FenceManager::new(&mut session);
    let fence = manager.create_fence(&mut session);
    let id = fence.id();

    manager.signal_fence(&mut session, id);
    let result = manager.wait_fence(&mut session, id);
    assert!(result);
}

#[test]
fn test_fence_manager_wait_nonexistent() {
    let device = Device::new();
    let mut session = device.open();
    let manager = FenceManager::new(&mut session);
    let result = manager.wait_fence(&mut session, FenceId(9999));
    assert!(!result);
}

#[test]
fn test_fence_manager_cleanup() {
    let device = Device::new();
    let mut session = device.open();
    let manager = FenceManager::new(&mut session);

    let f1 = manager.create_fence(&mut session);
    let f2 = manager.create_fence(&mut session);
    let _f3 = manager.create_fence(&mut session);

    manager.signal_fence(&mut session, f1.id());
    manager.signal_fence(&mut session, f2.id());

    assert_eq!(manager.completed_count(&session), 2);
    assert_eq!(manager.active_count(&session), 1);

    let cleaned = manager.cleanup_completed(&mut session);
    assert_eq!(cleaned, 2);
    assert_eq!(manager.total_count(&session), 1);
    assert_eq!(manager.active_count(&session), 1);
}

#[test]
fn test_fence_manager_timeout() {
    let device = Device::new();
    let mut session = device.open();
    let manager = FenceManager::new(&mut session);
    let fence = manager.create_fence(&mut session);
    let id = fence.id();

    let status = manager.wait_fence_timeout(&mut session, id, Duration::from_millis(10));
    assert_eq!(status, FenceStatus::TimedOut);
    assert_eq!(manager.get_status(&session, id), Some(FenceStatus::TimedOut));
}

#[test]
fn test_fence_manager_with_pool() {
    let device = Device::new();
    let mut session = device.open();
    let pool = Arc::new(FencePool::new(&mut session));
    let manager = FenceManager::with_pool(&mut session, pool.clone());

    let f1 = manager.create_fence(&mut session);
    manager.signal_fence(&mut session, f1.id());
    manager.cleanup_completed(&mut session);

    // Fence should be back in pool
    assert_eq!(pool.available(&session), 1);
}

#[test]
fn signaling_an_unknown_fence_is_refused() {
    let device = Device::new();
    let mut session = device.open();
    let manager = FenceManager::new(&mut session);
    let fence = manager.create_fence(&mut session);
    assert!(!manager.signal_fence(&mut session, FenceId(9999)));
    assert!(!fence.is_signaled(&session));
    assert_eq!(manager.active_count(&session), 1);
}

#[test]
fn waiting_for_an_unknown_fence_times_out_at_once() {
    let device = Device::new();
    let mut session = device.open();
    let manager = FenceManager::new(&mut session);
    let start = Instant::now();
    let status = manager.wait_fence_timeout(&mut session, FenceId(9999), Duration::from_secs(10));
    assert_eq!(status, FenceStatus::TimedOut);
    assert!(start.elapsed() < Duration::from_secs(5));
    assert_eq!(manager.get_status(&session, FenceId(9999)), None);
    assert_eq!(manager.total_count(&session), 0);
}

#[test]
fn signal_is_seen_through_the_handle() {
    let device = Device::new();
    let mut session = device.open();
    let manager = FenceManager::new(&mut session);
    let fence = manager.create_fence(&mut session);
    assert!(manager.signal_fence(&mut session, fence.id()));
    assert!(fence.is_signaled(&session));
}

#[test]
fn signal_fence_at_records_the_instant() {
    let device = Device::new();
    let mut session = device.open();
    let manager = FenceManager::new(&mut session);
    let fence = manager.create_fence(&mut session);
    let at = Instant::now();
    assert!(manager.signal_fence_at(&mut session, fence.id(), at));
    assert_eq!(fence.signaled_at(&session), Some(at));
    assert_eq!(manager.get_status(&session, fence.id()), Some(FenceStatus::Completed));
}

#[test]
fn signal_through_the_handle_leaves_the_status() {
    let device = Device::new();
    let mut session = device.open();
    let manager = FenceManager::new(&mut session);
    let fence = manager.create_fence(&mut session);
    fence.signal(&mut session);
    assert_eq!(manager.get_status(&session, fence.id()), Some(FenceStatus::Active));
    assert!(manager.wait_fence(&mut session, fence.id()));
    assert_eq!(manager.get_status(&session, fence.id()), Some(FenceStatus::Active));
}

#[test]
fn wait_with_timeout_completes_a_signaled_fence() {
    let device = Device::new();
    let mut session = device.open();
    let manager = FenceManager::new(&mut session);
    let fence = manager.create_fence(&mut session);
    let id = fence.id();
    let limit = Duration::from_millis(10);
    assert_eq!(manager.wait_fence_timeout(&mut session, id, limit), FenceStatus::TimedOut);
    fence.signal(&mut session);
    assert_eq!(manager.wait_fence_timeout(&mut session, id, limit), FenceStatus::Completed);
    assert_eq!(manager.get_status(&session, id), Some(FenceStatus::Completed));
}

#[test]
fn timed_out_fence_can_still_be_completed() {
    let device = Device::new();
    let mut session = device.open();
    let manager = FenceManager::new(&mut session);
    let id = manager.create_fence(&mut session).id();
    manager.wait_fence_timeout(&mut session, id, Duration::from_millis(1));
    assert!(manager.signal_fence(&mut session, id));
    assert_eq!(manager.get_status(&session, id), Some(FenceStatus::Completed));
}

#[test]
fn labeled_fence_is_registered() {
    let device = Device::new();
    let mut session = device.open();
    let manager = FenceManager::new(&mut session);
    let f1 = manager.create_labeled_fence(&mut session, "forward_pass");
    let f2 = manager.create_labeled_fence(&mut session, "backward_pass");
    assert_eq!(f1.label(), "forward_pass");
    assert_eq!(f2.label(), "backward_pass");
    manager.signal_fence(&mut session, f1.id());
    assert_eq!(manager.active_count(&session), 1);
    assert_eq!(manager.completed_count(&session), 1);
    assert_eq!(manager.cleanup_completed(&mut session), 1);
}

#[test]
fn statuses_add_up() {
    let device = Device::new();
    let mut session = device.open();
    let manager = FenceManager::new(&mut session);
    let f1 = manager.create_fence(&mut session);
    let f2 = manager.create_fence(&mut session);
    let _f3 = manager.create_fence(&mut session);
    manager.signal_fence(&mut session, f1.id());
    manager.wait_fence_timeout(&mut session, f2.id(), Duration::from_millis(1));
    assert_eq!(manager.active_count(&session), 1);
    assert_eq!(manager.completed_count(&session), 1);
    assert_eq!(manager.get_status(&session, f2.id()), Some(FenceStatus::TimedOut));
    assert_eq!(manager.total_count(&session), 3);
}

#[test]
fn cleanup_keeps_active_and_timed_out_fences() {
    let device = Device::new();
    let mut session = device.open();
    let pool = Arc::new(FencePool::new(&mut session));
    let manager = FenceManager::with_pool(&mut session, pool.clone());
    let f1 = manager.create_fence(&mut session);
    let f2 = manager.create_fence(&mut session);
    let f3 = manager.create_fence(&mut session);
    manager.signal_fence(&mut session, f1.id());
    manager.wait_fence_timeout(&mut session, f2.id(), Duration::from_millis(1));
    assert_eq!(manager.cleanup_completed(&mut session), 1);
    assert_eq!(manager.get_status(&session, f1.id()), None);
    assert_eq!(manager.get_status(&session, f2.id()), Some(FenceStatus::TimedOut));
    assert_eq!(manager.get_status(&session, f3.id()), Some(FenceStatus::Active));
    assert!(f1.is_signaled(&session));
    assert_eq!(pool.available(&session), 1);
    assert_eq!(manager.cleanup_completed(&mut session), 0);
    assert_eq!(pool.available(&session), 1);
}

#[test]
fn cleaned_up_fence_is_used_again() {
    let device = Device::new();
    let mut session = device.open();
    let pool = Arc::new(FencePool::new(&mut session));
    let manager = FenceManager::with_pool(&mut session, pool.clone());
    let id = manager.create_fence(&mut session).id();
    manager.signal_fence(&mut session, id);
    manager.cleanup_completed(&mut session);
    let again = manager.create_fence(&mut session);
    assert_eq!(again.id(), id);
    assert!(!again.is_signaled(&session));
    assert_eq!(manager.get_status(&session, id), Some(FenceStatus::Active));
    assert_eq!(pool.created_count(&session), 1);
    assert_eq!(pool.reused_count(&session), 1);
}

#[test]
fn wait_all_completes_what_is_signaled() {
    let device = Device::new();
    let mut session = device.open();
    let manager = FenceManager::new(&mut session);
    let f1 = manager.create_fence(&mut session);
    let f2 = manager.create_fence(&mut session);
    let f3 = manager.create_fence(&mut session);
    manager.wait_fence_timeout(&mut session, f3.id(), Duration::from_millis(1));
    f1.signal(&mut session);
    f2.signal(&mut session);
    assert_eq!(manager.active_count(&session), 2);
    manager.wait_all(&mut session);
    assert_eq!(manager.active_count(&session), 0);
    assert_eq!(manager.completed_count(&session), 2);
    assert_eq!(manager.get_status(&session, f3.id()), Some(FenceStatus::TimedOut));
}

#[test]
fn wait_all_after_every_signal_returns() {
    let device = Device::new();
    let mut session = device.open();
    let manager = FenceManager::new(&mut session);
    let f1 = manager.create_fence(&mut session);
    let f2 = manager.create_fence(&mut session);
    let f3 = manager.create_fence(&mut session);
    manager.signal_fence(&mut session, f1.id());
    manager.signal_fence(&mut session, f2.id());
    manager.signal_fence(&mut session, f3.id());
    manager.wait_all(&mut session);
    assert_eq!(manager.active_count(&session), 0);
    assert_eq!(manager.completed_count(&session), 3);
}

#[test]
fn wait_all_without_active_fences_returns() {
    let device = Device::new();
    let mut session = device.open();
    let manager = FenceManager::new(&mut session);
    manager.wait_all(&mut session);
    assert_eq!(manager.total_count(&session), 0);
}

#[test]
fn managers_are_independent() {
    let device = Device::new();
    let mut session = device.open();
    let one = FenceManager::new(&mut session);
    let other = FenceManager::new(&mut session);
    let fence = one.create_fence(&mut session);
    assert_eq!(one.total_count(&session), 1);
    assert_eq!(other.total_count(&session), 0);
    assert!(!other.signal_fence(&mut session, fence.id()));
    assert_eq!(other.get_status(&session, fence.id()), None);
}

#[test]
fn managers_share_a_pool() {
    let device = Device::new();
    let mut session = device.open();
    let pool = Arc::new(FencePool::new(&mut session));
    let one = FenceManager::with_pool(&mut session, pool.clone());
    let other = FenceManager::with_pool(&mut session, pool.clone());
    let id = one.create_fence(&mut session).id();
    one.signal_fence(&mut session, id);
    one.cleanup_completed(&mut session);
    assert_eq!(other.create_fence(&mut session).id(), id);
    assert_eq!(pool.total_acquisitions(&session), 2);
}

#[test]
fn timed_wait_keeps_everything_but_the_status() {
    let device = Device::new();
    let mut session = device.open();
    let pool = Arc::new(FencePool::new(&mut session));
    let manager = FenceManager::with_pool(&mut session, pool.clone());
    let f1 = manager.create_fence(&mut session);
    let f2 = manager.create_fence(&mut session);
    let status = manager.wait_fence_timeout(&mut session, f1.id(), Duration::from_millis(10));
    assert_eq!(status, FenceStatus::TimedOut);
    assert!(!f1.is_signaled(&session));
    assert_eq!(manager.get_status(&session, f2.id()), Some(FenceStatus::Active));
    assert_eq!(manager.active_count(&session), 1);
    assert_eq!(manager.total_count(&session), 2);
    assert_eq!(pool.available(&session), 0);
    assert_eq!(pool.total_acquisitions(&session), 2);
}

#[test]
fn timed_out_is_not_final() {
    let device = Device::new();
    let mut session = device.open();
    let manager = FenceManager::new(&mut session);
    let fence = manager.create_fence(&mut session);
    let id = fence.id();
    let status = manager.wait_fence_timeout(&mut session, id, Duration::ZERO);
    assert_eq!(status, FenceStatus::TimedOut);
    fence.signal(&mut session);
    let status = manager.wait_fence_timeout(&mut session, id, Duration::ZERO);
    assert_eq!(status, FenceStatus::Completed);
    assert_eq!(manager.get_status(&session, id), Some(FenceStatus::Completed));
    assert_eq!(manager.completed_count(&session), 1);
}

#[test]
fn cleanup_goes_by_the_recorded_status() {
    let device = Device::new();
    let mut session = device.open();
    let pool = Arc::new(FencePool::new(&mut session));
    let manager = FenceManager::with_pool(&mut session, pool.clone());
    let f1 = manager.create_fence(&mut session);
    let f2 = manager.create_fence(&mut session);
    let f3 = manager.create_fence(&mut session);
    manager.signal_fence(&mut session, f1.id());
    f2.signal(&mut session);
    manager.wait_fence_timeout(&mut session, f3.id(), Duration::ZERO);
    assert_eq!(manager.cleanup_completed(&mut session), 1);
    assert_eq!(pool.available(&session), 1);
    assert_eq!(manager.get_status(&session, f1.id()), None);
    assert_eq!(manager.get_status(&session, f2.id()), Some(FenceStatus::Active));
    assert_eq!(manager.get_status(&session, f3.id()), Some(FenceStatus::TimedOut));
    assert_eq!(manager.total_count(&session), 2);
}

#[test]
fn wait_all_does_not_wait_for_timed_out_fences() {
    let device = Device::new();
    let mut session = device.open();
    let manager = FenceManager::new(&mut session);
    let a = manager.create_fence(&mut session);
    let b = manager.create_fence(&mut session);
    manager.wait_fence_timeout(&mut session, a.id(), Duration::ZERO);
    b.signal(&mut session);
    manager.wait_all(&mut session);
    assert_eq!(manager.get_status(&session, a.id()), Some(FenceStatus::TimedOut));
    assert!(!a.is_signaled(&session));
    assert_eq!(manager.get_status(&session, b.id()), Some(FenceStatus::Completed));
    assert_eq!(manager.total_count(&session), 2);
}

#[test]
fn no_fence_has_the_id_zero() {
    let device = Device::new();
    let mut session = device.open();
    let manager = FenceManager::new(&mut session);
    let fence = manager.create_fence(&mut session);
    assert_eq!(fence.id(), FenceId(1));
    assert_eq!(manager.get_status(&session, FenceId(0)), None);
}

#[test]
fn total_counts_acquisitions_through_managers() {
    let device = Device::new();
    let mut session = device.open();
    let pool = Arc::new(FencePool::new(&mut session));
    let manager = FenceManager::with_pool(&mut session, pool.clone());
    let direct = pool.acquire(&mut session);
    pool.release(&mut session, direct);
    manager.create_labeled_fence(&mut session, "reused");
    manager.create_fence(&mut session);
    pool.clear(&mut session);
    assert_eq!(pool.created_count(&session), 2);
    assert_eq!(pool.reused_count(&session), 1);
    assert_eq!(pool.total_acquisitions(&session), 3);
}
