//! Ordered production and consumption.

use crate::fence::Fence;
use crate::model::{Event, FenceView};
use crate::sync::Session;
use std::time::Duration;
use vstd::prelude::*;

verus! {

/// Producer-consumer pattern using fences for ordering.
pub struct ProducerConsumer {
    key: u64,
    producer_fence: Option<Fence>,
    consumer_fence: Option<Fence>,
}

/// The fence that an optional handle names.
spec fn view_of(fence: Option<Fence>) -> Option<FenceView> {
    match fence {
        Some(fence) => Some(fence@),
        None => None,
    }
}

impl ProducerConsumer {
    /// The key of the queue of items on its device.
    pub closed spec fn key(self) -> nat {
        self.key as nat
    }

    /// The fence that the producer signals.
    pub closed spec fn producer(self) -> Option<FenceView> {
        view_of(self.producer_fence)
    }

    /// The fence that the consumer signals.
    pub closed spec fn consumer(self) -> Option<FenceView> {
        view_of(self.consumer_fence)
    }

    /// Create a new producer-consumer pair.
    pub fn new(session: &mut Session<'_>) -> (pair: ProducerConsumer)
        ensures
            pair.key() == old(session)@.next_queue,
            pair.producer() is None,
            pair.consumer() is None,
            final(session)@ == old(session)@.new_queue(),
            final(session).log() == old(session).log(),
    {
        ProducerConsumer {
            key: session.state_mut().new_queue(),
            producer_fence: None,
            consumer_fence: None,
        }
    }

    /// Produce an item. Signaling the producer fence is left to `signal_producer_done`.
    pub fn produce<L: Into<String>>(&mut self, session: &mut Session<'_>, item: L)
        ensures
            *final(self) == *old(self),
            exists|text: String|
                call_ensures(L::into, (item,), text) && final(session)@ == old(session)@.enqueue(
                    old(self).key(),
                    #[trigger] text@,
                ),
            final(session).log() == old(session).log(),
    {
        let text = item.into();
        let ghost produced = text;
        let mut items = session.state_mut().take_queue(self.key);
        let ghost before = items@.map_values(|item: String| item@);
        items.push(text);
        assert(items@.map_values(|item: String| item@) =~= before.push(produced@));
        session.state_mut().put_queue(self.key, items);
        assert(session@ =~= old(session)@.enqueue(old(self).key(), produced@));
    }

    /// Set the producer's fence. Consumers can wait on this.
    pub fn set_producer_fence(&mut self, fence: Fence)
        ensures
            final(self).producer() == Some(fence@),
            final(self).consumer() == old(self).consumer(),
            final(self).key() == old(self).key(),
    {
        self.producer_fence = Some(fence);
    }

    /// Set the consumer's fence. Producers can wait on this.
    pub fn set_consumer_fence(&mut self, fence: Fence)
        ensures
            final(self).consumer() == Some(fence@),
            final(self).producer() == old(self).producer(),
            final(self).key() == old(self).key(),
    {
        self.consumer_fence = Some(fence);
    }

    /// Signal that production is complete.
    pub fn signal_producer_done(&self, session: &mut Session<'_>)
        ensures
            match self.producer() {
                Some(fence) => {
                    &&& old(session)@.signals_to(fence.id, final(session)@)
                    &&& final(session).log() == old(session).log().push(Event::Notify)
                },
                None => {
                    &&& final(session)@ == old(session)@
                    &&& final(session).log() == old(session).log()
                },
            },
    {
        if let Some(fence) = &self.producer_fence {
            fence.signal(session);
        }
    }

    /// Signal that consumption is complete.
    pub fn signal_consumer_done(&self, session: &mut Session<'_>)
        ensures
            match self.consumer() {
                Some(fence) => {
                    &&& old(session)@.signals_to(fence.id, final(session)@)
                    &&& final(session).log() == old(session).log().push(Event::Notify)
                },
                None => {
                    &&& final(session)@ == old(session)@
                    &&& final(session).log() == old(session).log()
                },
            },
    {
        if let Some(fence) = &self.consumer_fence {
            fence.signal(session);
        }
    }

    /// Wait for the producer to finish.
    pub fn wait_producer(&self, session: &mut Session<'_>)
        ensures
            match self.producer() {
                Some(fence) => {
                    &&& final(session)@.is_signaled(fence.id)
                    &&& old(session)@.waits(
                        old(session).log(),
                        fence.id,
                        None,
                        final(session)@,
                        final(session).log(),
                    )
                },
                None => {
                    &&& final(session)@ == old(session)@
                    &&& final(session).log() == old(session).log()
                },
            },
    {
        if let Some(fence) = &self.producer_fence {
            fence.wait(session);
        }
    }

    /// Wait for the consumer to finish.
    pub fn wait_consumer(&self, session: &mut Session<'_>)
        ensures
            match self.consumer() {
                Some(fence) => {
                    &&& final(session)@.is_signaled(fence.id)
                    &&& old(session)@.waits(
                        old(session).log(),
                        fence.id,
                        None,
                        final(session)@,
                        final(session).log(),
                    )
                },
                None => {
                    &&& final(session)@ == old(session)@
                    &&& final(session).log() == old(session).log()
                },
            },
    {
        if let Some(fence) = &self.consumer_fence {
            fence.wait(session);
        }
    }

    /// Wait for the producer with a timeout. Returns `Ok(())` at once where there is no fence.
    pub fn wait_producer_timeout(&self, session: &mut Session<'_>, timeout: Duration) -> (result:
        Result<(), ()>)
        ensures
            match self.producer() {
                Some(fence) => {
                    &&& result is Ok <==> final(session)@.is_signaled(fence.id)
                    &&& old(session)@.waits(
                        old(session).log(),
                        fence.id,
                        Some(timeout),
                        final(session)@,
                        final(session).log(),
                    )
                },
                None => {
                    &&& result is Ok
                    &&& final(session)@ == old(session)@
                    &&& final(session).log() == old(session).log()
                },
            },
    {
        if let Some(fence) = &self.producer_fence {
            fence.wait_timeout(session, timeout)
        } else {
            Ok(())
        }
    }

    /// Consume all produced items, returning them.
    pub fn consume_all(&self, session: &mut Session<'_>) -> (items: Vec<String>)
        ensures
            items.len() == old(session)@.queue(self.key()).len(),
            items@.map_values(|item: String| item@) == old(session)@.queue(self.key()),
            final(session)@ == old(session)@.with_queue(self.key(), Seq::empty()),
            final(session).log() == old(session).log(),
    {
        session.state_mut().take_queue(self.key)
    }

    /// Get the number of unconsumed items.
    pub fn pending_count(&self, session: &Session<'_>) -> (count: usize)
        ensures
            count == session@.queue(self.key()).len(),
    {
        session.state().queue_len(self.key)
    }
}

} // verus!
