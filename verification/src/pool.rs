//! Fence pools.

use crate::fence::Fence;
use crate::model::PoolView;
use crate::sync::Session;
use vstd::prelude::*;

verus! {

/// What a device holds of a pool.
pub struct PoolState {
    idle: Vec<Fence>,
    created: u64,
    reused: u64,
}

impl View for PoolState {
    type V = PoolView;

    closed spec fn view(&self) -> PoolView {
        PoolView {
            idle: self.idle@.map_values(|fence: Fence| fence@),
            created: self.created,
            reused: self.reused,
        }
    }
}

impl PoolState {
    pub(crate) fn new() -> (pool: PoolState)
        ensures
            pool@ == PoolView::empty(),
    {
        let pool = PoolState { idle: Vec::new(), created: 0, reused: 0 };
        assert(pool@.idle =~= Seq::empty());
        pool
    }
}

/// A pool of reusable fence objects. Fences are returned to the pool after use.
pub struct FencePool {
    key: u64,
}

impl FencePool {
    /// The key of the pool on its device.
    pub closed spec fn key(self) -> nat {
        self.key as nat
    }

    /// Create a new empty fence pool.
    pub fn new(session: &mut Session<'_>) -> (pool: FencePool)
        ensures
            pool.key() == old(session)@.next_pool,
            final(session)@ == old(session)@.new_pool(),
            final(session).log() == old(session).log(),
    {
        FencePool { key: session.state_mut().new_pool() }
    }

    /// Acquire a fence from the pool. Creates a new one if the pool is empty.
    pub fn acquire(&self, session: &mut Session<'_>) -> (fence: Fence)
        ensures
            old(session)@.numbers_fences(),
            fence@ == old(session)@.next_fence(self.key()),
            final(session)@ == old(session)@.acquire(self.key()),
            final(session).log() == old(session).log(),
    {
        let mut pool = session.state_mut().take_pool(self.key);
        let ghost before = pool@;
        match pool.idle.pop() {
            Some(fence) => {
                fence.reset(session);
                pool.reused = pool.reused.wrapping_add(1);
                assert(pool@.idle =~= before.idle.drop_last());
                session.state_mut().put_pool(self.key, pool);
                fence
            },
            None => {
                pool.created = pool.created.wrapping_add(1);
                let fence = Fence::new(session);
                session.state_mut().put_pool(self.key, pool);
                fence
            },
        }
    }

    /// Acquire a labeled fence from the pool.
    pub fn acquire_labeled<L: Into<String>>(&self, session: &mut Session<'_>, label: L) -> (fence:
        Fence)
        ensures
            old(session)@.numbers_fences(),
            fence@.id == old(session)@.next_fence(self.key()).id,
            call_ensures(L::into, (label,), fence.label_text()),
            final(session)@ == old(session)@.acquire(self.key()),
            final(session).log() == old(session).log(),
    {
        let text: String = label.into();
        let mut pool = session.state_mut().take_pool(self.key);
        let ghost before = pool@;
        match pool.idle.pop() {
            Some(fence) => {
                fence.reset(session);
                pool.reused = pool.reused.wrapping_add(1);
                assert(pool@.idle =~= before.idle.drop_last());
                session.state_mut().put_pool(self.key, pool);
                fence.relabel(text)
            },
            None => {
                pool.created = pool.created.wrapping_add(1);
                let fence = Fence::with_label(session, text);
                session.state_mut().put_pool(self.key, pool);
                fence
            },
        }
    }

    /// Return a fence to the pool for reuse.
    pub fn release(&self, session: &mut Session<'_>, fence: Fence)
        ensures
            final(session)@ == old(session)@.release(self.key(), fence@),
            final(session).log() == old(session).log(),
    {
        let mut pool = session.state_mut().take_pool(self.key);
        let ghost before = pool@;
        pool.idle.push(fence);
        assert(pool@.idle =~= before.idle.push(fence@));
        session.state_mut().put_pool(self.key, pool);
    }

    /// Get the number of fences currently available in the pool.
    pub fn available(&self, session: &Session<'_>) -> (count: usize)
        ensures
            count == session@.pool(self.key()).idle.len(),
    {
        match session.state().pool(self.key) {
            Some(pool) => pool.idle.len(),
            None => 0,
        }
    }

    /// Get total number of fences created (not reused from pool).
    pub fn created_count(&self, session: &Session<'_>) -> (count: u64)
        ensures
            count == session@.pool(self.key()).created,
    {
        match session.state().pool(self.key) {
            Some(pool) => pool.created,
            None => 0,
        }
    }

    /// Get total number of fences reused from pool.
    pub fn reused_count(&self, session: &Session<'_>) -> (count: u64)
        ensures
            count == session@.pool(self.key()).reused,
    {
        match session.state().pool(self.key) {
            Some(pool) => pool.reused,
            None => 0,
        }
    }

    /// Get total number of acquisitions (created + reused).
    pub fn total_acquisitions(&self, session: &Session<'_>) -> (count: u64)
        requires
            session@.pool(self.key()).created + session@.pool(self.key()).reused <= u64::MAX,
        ensures
            count == session@.pool(self.key()).created + session@.pool(self.key()).reused,
    {
        self.created_count(session) + self.reused_count(session)
    }

    /// Clear the pool.
    pub fn clear(&self, session: &mut Session<'_>)
        ensures
            final(session)@ == old(session)@.clear_pool(self.key()),
            final(session).log() == old(session).log(),
    {
        let mut pool = session.state_mut().take_pool(self.key);
        pool.idle.clear();
        assert(pool@.idle =~= Seq::empty());
        session.state_mut().put_pool(self.key, pool);
    }
}

} // verus!
