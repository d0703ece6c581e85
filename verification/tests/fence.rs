use std::time::{Duration, Instant};
use ternary_fence::{Device, Fence, FenceId};

#[test]
fn test_signal_then_wait_succeeds() {
    let device = Device::new();
    let mut session = device.open();
    let fence = Fence::new(&mut session);
    assert!(!fence.is_signaled(&session));

    fence.signal(&mut session);
    assert!(fence.is_signaled(&session));

    // Should return immediately since already signaled
    fence.wait(&mut session);
}

#[test]
fn test_timeout_detection() {
    let device = Device::new();
    let mut session = device.open();
    let fence = Fence::new(&mut session);

    // Not signaled, should timeout
    let result = fence.wait_timeout(&mut session, Duration::from_millis(10));
    assert_eq!(result, Err(()));

    // Signal and try again
    fence.signal(&mut session);
    let result = fence.wait_timeout(&mut session, Duration::from_millis(10));
    assert_eq!(result, Ok(()));
}

#[test]
fn test_fence_reset_and_reuse() {
    let device = Device::new();
    let mut session = device.open();
    let fence = Fence::new(&mut session);

    fence.signal(&mut session);
    assert!(fence.is_signaled(&session));

    fence.reset(&mut session);
    assert!(!fence.is_signaled(&session));

    // Should block again
    fence.signal(&mut session);
    assert!(fence.is_signaled(&session));
}

#[test]
fn test_fence_labeled() {
    let device = Device::new();
    let mut session = device.open();
    let fence = Fence::with_label(&mut session, "my_fence");
    assert_eq!(fence.label(), "my_fence");
}

#[test]
fn test_fence_signaled_at() {
    let device = Device::new();
    let mut session = device.open();
    let fence = Fence::new(&mut session);
    assert!(fence.signaled_at(&session).is_none());

    let before = Instant::now();
    fence.signal(&mut session);
    let after = Instant::now();

    let signaled_at = fence.signaled_at(&session).unwrap();
    assert!(signaled_at >= before);
    assert!(signaled_at <= after);
}

#[test]
fn test_fence_clone_shares_state() {
    let device = Device::new();
    let mut session = device.open();
    let fence = Fence::new(&mut session);
    let clone = fence.clone();

    fence.signal(&mut session);
    assert!(clone.is_signaled(&session));
}

#[test]
fn clone_keeps_id_and_label() {
    let device = Device::new();
    let mut session = device.open();
    let fence = Fence::with_label(&mut session, "layer_3_done");
    let clone = fence.clone();
    assert_eq!(clone.id(), fence.id());
    assert_eq!(clone.label(), "layer_3_done");
}

#[test]
fn ids_count_up_from_one() {
    let device = Device::new();
    let mut session = device.open();
    assert_eq!(Fence::new(&mut session).id(), FenceId(1));
    assert_eq!(Fence::with_label(&mut session, "second").id(), FenceId(2));
    assert_eq!(Fence::new(&mut session).id(), FenceId(3));
}

#[test]
fn new_fence_has_no_label() {
    let device = Device::new();
    let mut session = device.open();
    assert_eq!(Fence::new(&mut session).label(), "");
}

#[test]
fn labels_come_from_anything_that_turns_into_a_string() {
    let device = Device::new();
    let mut session = device.open();
    let owned = String::from("owned");
    assert_eq!(Fence::with_label(&mut session, owned).label(), "owned");
    assert_eq!(Fence::with_label(&mut session, 'c').label(), "c");
}

#[test]
fn fences_are_independent() {
    let device = Device::new();
    let mut session = device.open();
    let one = Fence::new(&mut session);
    let other = Fence::new(&mut session);
    one.signal(&mut session);
    assert!(one.is_signaled(&session));
    assert!(!other.is_signaled(&session));
    other.signal(&mut session);
    one.reset(&mut session);
    assert!(!one.is_signaled(&session));
    assert!(other.is_signaled(&session));
}

#[test]
fn signal_at_records_the_instant() {
    let device = Device::new();
    let mut session = device.open();
    let fence = Fence::new(&mut session);
    let at = Instant::now();
    fence.signal_at(&mut session, at);
    assert_eq!(fence.signaled_at(&session), Some(at));
    fence.reset(&mut session);
    assert_eq!(fence.signaled_at(&session), None);
}

#[test]
fn a_second_signal_replaces_the_instant() {
    let device = Device::new();
    let mut session = device.open();
    let fence = Fence::new(&mut session);
    let first = Instant::now();
    let second = first + Duration::from_millis(1);
    fence.signal_at(&mut session, first);
    fence.signal_at(&mut session, second);
    assert_eq!(fence.signaled_at(&session), Some(second));
}

#[test]
fn timeout_comes_no_earlier_than_the_limit() {
    let device = Device::new();
    let mut session = device.open();
    let fence = Fence::new(&mut session);
    let start = Instant::now();
    let result = fence.wait_timeout(&mut session, Duration::from_millis(30));
    assert_eq!(result, Err(()));
    assert!(start.elapsed() >= Duration::from_millis(30));
}

#[test]
fn zero_timeout_only_looks() {
    let device = Device::new();
    let mut session = device.open();
    let fence = Fence::new(&mut session);
    assert_eq!(fence.wait_timeout(&mut session, Duration::ZERO), Err(()));
    fence.signal(&mut session);
    assert_eq!(fence.wait_timeout(&mut session, Duration::ZERO), Ok(()));
}

#[test]
fn longest_timeout_is_accepted() {
    let device = Device::new();
    let mut session = device.open();
    let fence = Fence::new(&mut session);
    fence.signal(&mut session);
    assert_eq!(fence.wait_timeout(&mut session, Duration::MAX), Ok(()));
}

#[test]
fn wait_after_signal_keeps_returning_at_once() {
    let device = Device::new();
    let mut session = device.open();
    let fence = Fence::new(&mut session);
    fence.signal(&mut session);
    let at = fence.signaled_at(&session);
    for _ in 0..3 {
        fence.wait(&mut session);
        assert_eq!(fence.wait_timeout(&mut session, Duration::from_millis(10)), Ok(()));
    }
    assert_eq!(fence.signaled_at(&session), at);
}

#[test]
fn fence_outlives_the_session() {
    let device = Device::new();
    let fence = {
        let mut session = device.open();
        let fence = Fence::new(&mut session);
        fence.signal(&mut session);
        fence
    };
    let mut session = device.open();
    assert!(fence.is_signaled(&session));
    fence.wait(&mut session);
}

#[test]
fn timed_wait_alone_changes_nothing() {
    let device = Device::new();
    let mut session = device.open();
    let fence = Fence::with_label(&mut session, "stalled");
    let other = Fence::new(&mut session);
    other.signal(&mut session);
    let at = other.signaled_at(&session);
    assert_eq!(fence.wait_timeout(&mut session, Duration::from_millis(10)), Err(()));
    assert!(!fence.is_signaled(&session));
    assert_eq!(fence.signaled_at(&session), None);
    assert_eq!(fence.label(), "stalled");
    assert_eq!(other.signaled_at(&session), at);
}

#[test]
fn signaled_at_is_the_instant_of_the_latest_signal() {
    let device = Device::new();
    let mut session = device.open();
    let fence = Fence::new(&mut session);
    fence.signal(&mut session);
    let before = Instant::now();
    fence.signal(&mut session);
    let after = Instant::now();
    let at = fence.signaled_at(&session).unwrap();
    assert!(before <= at && at <= after);
}
