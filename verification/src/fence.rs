//! Fences.

use crate::model::{Event, FenceView};
use crate::sync::Session;
use std::time::{Duration, Instant};
use vstd::prelude::*;

verus! {

/// Unique identifier for a fence.
#[derive(Debug, Clone, Copy, PartialEq, Eq, Hash, Structural)]
pub struct FenceId(pub u64);

/// A synchronization fence that supports signal and wait operations.
///
/// Fences act as one-time barriers. Once signaled, all current and future wait calls return
/// immediately. Fences can be reset for reuse. A `Fence` is a handle: its clones name the same
/// fence.
#[derive(Debug)]
pub struct Fence {
    id: FenceId,
    label: String,
}

impl View for Fence {
    type V = FenceView;

    open spec fn view(&self) -> FenceView {
        FenceView { id: self.number(), label: self.label_text()@ }
    }
}

impl Fence {
    /// The number in the fence's id.
    pub closed spec fn number(self) -> u64 {
        self.id.0
    }

    /// The string that the handle carries as its label.
    pub closed spec fn label_text(self) -> String {
        self.label
    }

    /// Create a new unsignaled fence.
    pub fn new(session: &mut Session<'_>) -> (fence: Fence)
        ensures
            old(session)@.numbers_fences(),
            fence@ == (FenceView { id: old(session)@.next_id, label: Seq::empty() }),
            final(session)@ == old(session)@.create(),
            final(session).log() == old(session).log(),
    {
        proof {
            reveal_strlit("");
        }
        let fence = Fence::with_label(session, "");
        assert(fence@.label =~= Seq::empty());
        fence
    }

    /// Create a new labeled fence.
    pub fn with_label<L: Into<String>>(session: &mut Session<'_>, label: L) -> (fence: Fence)
        ensures
            old(session)@.numbers_fences(),
            fence@.id == old(session)@.next_id,
            call_ensures(L::into, (label,), fence.label_text()),
            final(session)@ == old(session)@.create(),
            final(session).log() == old(session).log(),
    {
        Fence { id: FenceId(session.state_mut().create()), label: label.into() }
    }

    /// Get the fence's unique identifier.
    pub fn id(&self) -> (id: FenceId)
        ensures
            id.0 == self@.id,
    {
        self.id
    }

    /// Get the fence's label.
    pub fn label(&self) -> (label: &str)
        ensures
            label@ == self@.label,
            label@ == self.label_text()@,
    {
        &self.label
    }

    /// The same fence under another label.
    pub(crate) fn relabel(self, label: String) -> (fence: Fence)
        ensures
            fence@.id == self@.id,
            fence.label_text() == label,
    {
        Fence { id: self.id, label }
    }

    /// Signal this fence, unblocking all waiters.
    pub fn signal(&self, session: &mut Session<'_>)
        ensures
            old(session)@.signals_to(self@.id, final(session)@),
            final(session).log() == old(session).log().push(Event::Notify),
    {
        let now = Instant::now();
        self.signal_at(session, now);
    }

    /// Signal this fence as of a given instant, unblocking all waiters.
    pub fn signal_at(&self, session: &mut Session<'_>, at: Instant)
        ensures
            final(session)@ == old(session)@.signal(self@.id, at),
            final(session).log() == old(session).log().push(Event::Notify),
    {
        session.signal(self.id.0, at);
    }

    /// Wait until this fence is signaled. Blocks indefinitely.
    pub fn wait(&self, session: &mut Session<'_>)
        ensures
            final(session)@.is_signaled(self@.id),
            old(session)@.waits(
                old(session).log(),
                self@.id,
                None,
                final(session)@,
                final(session).log(),
            ),
    {
        session.wait(self.id.0, None);
    }

    /// Wait with a timeout. Returns `Ok(())` if signaled, `Err(())` on timeout.
    pub fn wait_timeout(&self, session: &mut Session<'_>, timeout: Duration) -> (result: Result<
        (),
        (),
    >)
        ensures
            result is Ok <==> final(session)@.is_signaled(self@.id),
            old(session)@.waits(
                old(session).log(),
                self@.id,
                Some(timeout),
                final(session)@,
                final(session).log(),
            ),
    {
        if session.wait(self.id.0, Some(timeout)) {
            Ok(())
        } else {
            Err(())
        }
    }

    /// Check if the fence has been signaled without blocking.
    pub fn is_signaled(&self, session: &Session<'_>) -> (signaled: bool)
        ensures
            signaled == session@.is_signaled(self@.id),
    {
        session.state().is_signaled(self.id.0)
    }

    /// Reset the fence to unsignaled state, allowing reuse.
    pub fn reset(&self, session: &mut Session<'_>)
        ensures
            final(session)@ == old(session)@.reset(self@.id),
            final(session).log() == old(session).log(),
    {
        session.state_mut().reset(self.id.0);
    }

    /// Get the instant when the fence was signaled, if it has been.
    pub fn signaled_at(&self, session: &Session<'_>) -> (at: Option<Instant>)
        ensures
            at == session@.signaled_at(self@.id),
    {
        session.state().signaled_at(self.id.0)
    }
}

/// `<String as From<&str>>::from`: the string has the characters of the slice.
pub assume_specification<'a>[ <String as From<&'a str>>::from ](s: &str) -> (string: String)
    ensures
        string@ == s@,
;

/// `<X as From<X>>::from`: the value itself.
pub assume_specification<X>[ <X as core::convert::From<X>>::from ](x: X) -> (same: X)
    ensures
        same == x,
;

impl Clone for Fence {
    fn clone(&self) -> (copy: Self)
        ensures
            copy@ == self@,
            copy.label_text()@ == self.label_text()@,
    {
        Fence { id: self.id, label: self.label.clone() }
    }
}

} // verus!
