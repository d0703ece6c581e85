use std::time::Duration;
use ternary_fence::{Device, Fence, FenceManager, FencePool, ProducerConsumer};

#[test]
fn test_producer_consumer_ordering() {
    let device = Device::new();
    let mut session = device.open();
    let mut pc = ProducerConsumer::new(&mut session);
    let produce_fence = Fence::new(&mut session);
    let consume_fence = Fence::new(&mut session);

    pc.set_producer_fence(produce_fence.clone());
    pc.set_consumer_fence(consume_fence.clone());

    // Producer produces items
    pc.produce(&mut session, "item1");
    pc.produce(&mut session, "item2");
    pc.produce(&mut session, "item3");
    assert_eq!(pc.pending_count(&session), 3);

    // Signal production done
    pc.signal_producer_done(&mut session);
    assert!(produce_fence.is_signaled(&session));

    // Consumer waits for production, then consumes
    pc.wait_producer(&mut session);
    let items = pc.consume_all(&mut session);
    assert_eq!(items, vec!["item1", "item2", "item3"]);
    assert_eq!(pc.pending_count(&session), 0);

    // Signal consumption done
    pc.signal_consumer_done(&mut session);
    assert!(consume_fence.is_signaled(&session));
}

#[test]
fn test_producer_consumer_timeout() {
    let device = Device::new();
    let mut session = device.open();
    let mut pc = ProducerConsumer::new(&mut session);
    let fence = Fence::new(&mut session);
    pc.set_producer_fence(fence);

    // Producer hasn't signaled, should timeout
    let result = pc.wait_producer_timeout(&mut session, Duration::from_millis(10));
    assert_eq!(result, Err(()));
}

#[test]
fn without_fences_nothing_blocks() {
    let device = Device::new();
    let mut session = device.open();
    let pc = ProducerConsumer::new(&mut session);
    pc.signal_producer_done(&mut session);
    pc.signal_consumer_done(&mut session);
    pc.wait_producer(&mut session);
    pc.wait_consumer(&mut session);
    let result = pc.wait_producer_timeout(&mut session, Duration::from_millis(10));
    assert_eq!(result, Ok(()));
    assert_eq!(pc.pending_count(&session), 0);
    assert!(pc.consume_all(&mut session).is_empty());
}

#[test]
fn producing_does_not_signal() {
    let device = Device::new();
    let mut session = device.open();
    let mut pc = ProducerConsumer::new(&mut session);
    let done = Fence::new(&mut session);
    pc.set_producer_fence(done.clone());
    pc.produce(&mut session, "tensor_batch_1");
    assert!(!done.is_signaled(&session));
}

#[test]
fn consumed_items_are_gone() {
    let device = Device::new();
    let mut session = device.open();
    let mut pc = ProducerConsumer::new(&mut session);
    pc.produce(&mut session, "tensor_batch_1");
    pc.produce(&mut session, String::from("tensor_batch_2"));
    assert_eq!(pc.consume_all(&mut session), vec!["tensor_batch_1", "tensor_batch_2"]);
    assert!(pc.consume_all(&mut session).is_empty());
    pc.produce(&mut session, "tensor_batch_3");
    assert_eq!(pc.consume_all(&mut session), vec!["tensor_batch_3"]);
}

#[test]
fn consumed_and_pending_items_are_what_was_produced() {
    let device = Device::new();
    let mut session = device.open();
    let mut pc = ProducerConsumer::new(&mut session);
    pc.produce(&mut session, "a");
    pc.produce(&mut session, "b");
    let mut items = pc.consume_all(&mut session);
    pc.produce(&mut session, "c");
    items.extend(pc.consume_all(&mut session));
    items.extend(pc.consume_all(&mut session));
    assert_eq!(items, vec!["a", "b", "c"]);
    assert_eq!(pc.pending_count(&session), 0);
}

#[test]
fn each_side_signals_its_own_fence() {
    let device = Device::new();
    let mut session = device.open();
    let mut pc = ProducerConsumer::new(&mut session);
    let produced = Fence::new(&mut session);
    let consumed = Fence::new(&mut session);
    pc.set_producer_fence(produced.clone());
    pc.set_consumer_fence(consumed.clone());
    pc.signal_consumer_done(&mut session);
    assert!(!produced.is_signaled(&session));
    assert!(consumed.is_signaled(&session));
    pc.wait_consumer(&mut session);
    pc.signal_producer_done(&mut session);
    let result = pc.wait_producer_timeout(&mut session, Duration::from_millis(10));
    assert_eq!(result, Ok(()));
}

#[test]
fn a_later_fence_replaces_an_earlier_one() {
    let device = Device::new();
    let mut session = device.open();
    let mut pc = ProducerConsumer::new(&mut session);
    let first = Fence::new(&mut session);
    let second = Fence::new(&mut session);
    pc.set_producer_fence(first.clone());
    pc.set_producer_fence(second.clone());
    pc.signal_producer_done(&mut session);
    assert!(!first.is_signaled(&session));
    assert!(second.is_signaled(&session));
}

#[test]
fn queues_are_independent() {
    let device = Device::new();
    let mut session = device.open();
    let mut one = ProducerConsumer::new(&mut session);
    let mut other = ProducerConsumer::new(&mut session);
    one.produce(&mut session, "one");
    other.produce(&mut session, "other");
    assert_eq!(one.consume_all(&mut session), vec!["one"]);
    assert_eq!(other.pending_count(&session), 1);
}

fn shared_between_threads<T: Send + Sync>() -> bool {
    true
}

#[test]
fn handles_can_be_shared_between_threads() {
    assert!(shared_between_threads::<Device>());
    assert!(shared_between_threads::<Fence>());
    assert!(shared_between_threads::<FencePool>());
    assert!(shared_between_threads::<FenceManager>());
    assert!(shared_between_threads::<ProducerConsumer>());
}
