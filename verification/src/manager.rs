//! Fence managers.

use crate::fence::{Fence, FenceId};
use crate::model::{DeviceView, EntryView, Event, FenceStatus};
use crate::pool::FencePool;
use crate::sync::Session;
use std::collections::HashMap;
use std::sync::Arc;
use std::time::{Duration, Instant};
use vstd::prelude::*;

verus! {

broadcast use vstd::std_specs::hash::group_hash_axioms;

/// A fence that a manager keeps.
struct Entry {
    fence: Fence,
    status: FenceStatus,
}

impl View for Entry {
    type V = EntryView;

    closed spec fn view(&self) -> EntryView {
        EntryView { fence: self.fence@, status: self.status }
    }
}

/// What a device holds of a manager.
pub struct ManagerState {
    entries: HashMap<u64, Entry>,
}

impl View for ManagerState {
    type V = Map<u64, EntryView>;

    closed spec fn view(&self) -> Map<u64, EntryView> {
        self.entries@.map_values(|entry: Entry| entry@)
    }
}

impl ManagerState {
    /// Each fence is kept under its own id.
    #[verifier::type_invariant]
    spec fn kept_by_id(self) -> bool {
        forall|id: u64| #[trigger]
            self.entries@.contains_key(id) ==> self.entries@[id].fence@.id == id
    }

    pub(crate) fn new() -> (manager: ManagerState)
        ensures
            manager@ == Map::<u64, EntryView>::empty(),
    {
        let manager = ManagerState { entries: HashMap::new() };
        assert(manager@ =~= Map::empty());
        manager
    }

    /// The ids of all fences, in no particular order.
    fn all_ids(&self) -> (ids: Vec<u64>)
        ensures
            ids@.no_duplicates(),
            ids@.to_set() == self@.dom(),
    {
        let mut ids: Vec<u64> = Vec::new();
        for id in walk: self.entries.keys()
            invariant
                walk.seq().no_duplicates(),
                walk.seq().unref().to_set() == self@.dom(),
                ids.len() == walk.index(),
                forall|i: int| 0 <= i < ids.len() ==> ids[i] == *walk.seq()[i],
            ensures
                ids@ == walk.seq().unref(),
        {
            ids.push(*id);
        }
        ids
    }

    /// The ids of the fences with a given status, in no particular order.
    fn ids(&self, status: FenceStatus) -> (ids: Vec<u64>)
        ensures
            ids@.no_duplicates(),
            ids@.to_set() == EntryView::ids_with(self@, status),
    {
        let all = self.all_ids();
        let mut ids: Vec<u64> = Vec::new();
        let mut next: usize = 0;
        while next < all.len()
            invariant
                next <= all.len(),
                all@.no_duplicates(),
                all@.to_set() == self@.dom(),
                ids@.no_duplicates(),
                forall|id: u64|
                    {
                        #[trigger] ids@.contains(id) <==> {
                            &&& all@.take(next as int).contains(id)
                            &&& EntryView::ids_with(self@, status).contains(id)
                        }
                    },
            decreases all.len() - next,
        {
            let id = all[next];
            proof {
                lemma_take_one_more(all@, next as int);
                lemma_push_contains(ids@, id);
                assert(all@.to_set().contains(id));
            }
            match self.entries.get(&id) {
                Some(entry) => {
                    if entry.status == status {
                        assert(!ids@.contains(id));
                        ids.push(id);
                    }
                },
                None => {},
            }
            next = next + 1;
        }
        assert(all@.take(next as int) =~= all@);
        ids
    }
}

/// What a sequence contains after a push.
proof fn lemma_push_contains(s: Seq<u64>, x: u64)
    ensures
        forall|k: u64| #[trigger] s.push(x).contains(k) <==> s.contains(k) || k == x,
{
    assert(s.push(x)[s.len() as int] == x);
    assert forall|k: u64| s.contains(k) implies #[trigger] s.push(x).contains(k) by {
        let i = choose|i: int| 0 <= i < s.len() && s[i] == k;
        assert(s.push(x)[i] == k);
    }
}

/// What one element more of a sequence without duplicates adds.
proof fn lemma_take_one_more(s: Seq<u64>, i: int)
    requires
        s.no_duplicates(),
        0 <= i < s.len(),
    ensures
        !s.take(i).contains(s[i]),
        forall|k: u64| #[trigger]
            s.take(i + 1).contains(k) <==> s.take(i).contains(k) || k == s[i],
{
    assert(s.take(i + 1) =~= s.take(i).push(s[i]));
    lemma_push_contains(s.take(i), s[i]);
}

/// Manages multiple fences and tracks their lifecycle.
pub struct FenceManager {
    key: u64,
    pool: Arc<FencePool>,
}

impl FenceManager {
    /// The key of the manager on its device.
    pub closed spec fn key(self) -> nat {
        self.key as nat
    }

    /// The key of the pool that the manager takes its fences from.
    pub closed spec fn pool_key(self) -> nat {
        self.pool.key()
    }

    /// Create a new fence manager.
    pub fn new(session: &mut Session<'_>) -> (manager: FenceManager)
        ensures
            manager.pool_key() == old(session)@.next_pool,
            manager.key() == old(session)@.next_manager,
            final(session)@ == old(session)@.new_pool().new_manager(),
            final(session).log() == old(session).log(),
    {
        let pool = Arc::new(FencePool::new(session));
        FenceManager::with_pool(session, pool)
    }

    /// Create a fence manager with a shared pool.
    pub fn with_pool(session: &mut Session<'_>, pool: Arc<FencePool>) -> (manager: FenceManager)
        ensures
            manager.pool_key() == pool.key(),
            manager.key() == old(session)@.next_manager,
            final(session)@ == old(session)@.new_manager(),
            final(session).log() == old(session).log(),
    {
        FenceManager { key: session.state_mut().new_manager(), pool }
    }

    /// What the manager keeps under an id.
    fn find<'s>(&self, session: &'s Session<'_>, id: u64) -> (entry: Option<&'s Entry>)
        ensures
            match entry {
                Some(entry) => session@.entry(self.key(), id) == Some(entry@) && entry.fence@.id
                    == id,
                None => session@.entry(self.key(), id) is None,
            },
    {
        match session.state().manager(self.key) {
            Some(manager) => {
                proof {
                    use_type_invariant(manager);
                }
                manager.entries.get(&id)
            },
            None => None,
        }
    }

    /// Keeps a fence under its id, as active.
    fn register(&self, session: &mut Session<'_>, fence: Fence)
        ensures
            final(session)@ == old(session)@.register(self.key(), fence@),
            final(session).log() == old(session).log(),
    {
        let manager = session.state_mut().take_manager(self.key);
        proof {
            use_type_invariant(&manager);
        }
        let ghost before = manager@;
        let mut entries = manager.entries;
        let entry = Entry { fence, status: FenceStatus::Active };
        entries.insert(entry.fence.id().0, entry);
        let manager = ManagerState { entries };
        assert(manager@ =~= before.insert(fence@.id, entry@));
        session.state_mut().put_manager(self.key, manager);
    }

    /// Sets the status of the fence that is kept under an id, if there is one.
    fn set_status(&self, session: &mut Session<'_>, id: u64, status: FenceStatus)
        ensures
            final(session)@ == old(session)@.set_status(self.key(), id, status),
            final(session).log() == old(session).log(),
    {
        if self.find(session, id).is_none() {
            return;
        }
        let manager = session.state_mut().take_manager(self.key);
        proof {
            use_type_invariant(&manager);
        }
        let ghost before = manager@;
        let mut entries = manager.entries;
        if let Some(entry) = entries.remove(&id) {
            entries.insert(id, Entry { fence: entry.fence, status });
        }
        let manager = ManagerState { entries };
        assert(manager@ =~= before.insert(id, EntryView { status, ..before[id] }));
        session.state_mut().put_manager(self.key, manager);
    }

    /// Create and register a new active fence.
    pub fn create_fence(&self, session: &mut Session<'_>) -> (fence: Fence)
        ensures
            old(session)@.numbers_fences(),
            fence@ == old(session)@.next_fence(self.pool_key()),
            final(session)@ == old(session)@.acquire(self.pool_key()).register(self.key(), fence@),
            final(session).log() == old(session).log(),
    {
        let fence = self.pool.acquire(session);
        self.register(session, fence.clone());
        fence
    }

    /// Create and register a labeled fence.
    pub fn create_labeled_fence<L: Into<String>>(
        &self,
        session: &mut Session<'_>,
        label: L,
    ) -> (fence: Fence)
        ensures
            old(session)@.numbers_fences(),
            fence@.id == old(session)@.next_fence(self.pool_key()).id,
            call_ensures(L::into, (label,), fence.label_text()),
            final(session)@ == old(session)@.acquire(self.pool_key()).register(self.key(), fence@),
            final(session).log() == old(session).log(),
    {
        let fence = self.pool.acquire_labeled(session, label);
        self.register(session, fence.clone());
        fence
    }

    /// Signal a fence and mark it as completed.
    pub fn signal_fence(&self, session: &mut Session<'_>, id: FenceId) -> (found: bool)
        ensures
            found == old(session)@.entry(self.key(), id.0) is Some,
            found ==> {
                &&& exists|at: Instant|
                    {
                        &&& call_ensures(Instant::now, (), at)
                        &&& final(session)@ == #[trigger] old(session)@.signal(id.0, at).set_status(
                            self.key(),
                            id.0,
                            FenceStatus::Completed,
                        )
                    }
                &&& final(session).log() == old(session).log().push(Event::Notify)
            },
            !found ==> {
                &&& final(session)@ == old(session)@
                &&& final(session).log() == old(session).log()
            },
    {
        let now = Instant::now();
        self.signal_fence_at(session, id, now)
    }

    /// Signal a fence as of a given instant and mark it as completed.
    pub fn signal_fence_at(&self, session: &mut Session<'_>, id: FenceId, at: Instant) -> (found:
        bool)
        ensures
            found == old(session)@.entry(self.key(), id.0) is Some,
            found ==> {
                &&& final(session)@ == old(session)@.signal(id.0, at).set_status(
                    self.key(),
                    id.0,
                    FenceStatus::Completed,
                )
                &&& final(session).log() == old(session).log().push(Event::Notify)
            },
            !found ==> {
                &&& final(session)@ == old(session)@
                &&& final(session).log() == old(session).log()
            },
    {
        let fence = match self.find(session, id.0) {
            Some(entry) => entry.fence.clone(),
            None => {
                return false;
            },
        };
        fence.signal_at(session, at);
        self.set_status(session, id.0, FenceStatus::Completed);
        true
    }

    /// Wait for a specific fence. Returns false if fence not found.
    pub fn wait_fence(&self, session: &mut Session<'_>, id: FenceId) -> (found: bool)
        ensures
            found == old(session)@.entry(self.key(), id.0) is Some,
            found ==> {
                &&& final(session)@.is_signaled(id.0)
                &&& old(session)@.waits(
                    old(session).log(),
                    id.0,
                    None,
                    final(session)@,
                    final(session).log(),
                )
            },
            !found ==> {
                &&& final(session)@ == old(session)@
                &&& final(session).log() == old(session).log()
            },
    {
        let fence = match self.find(session, id.0) {
            Some(entry) => entry.fence.clone(),
            None => {
                return false;
            },
        };
        fence.wait(session);
        true
    }

    /// Wait for a fence with timeout. Returns its new status, which is kept unless the fence was
    /// given up meanwhile.
    pub fn wait_fence_timeout(
        &self,
        session: &mut Session<'_>,
        id: FenceId,
        timeout: Duration,
    ) -> (status: FenceStatus)
        ensures
            old(session)@.entry(self.key(), id.0) is Some ==> {
                &&& exists|woken: DeviceView|
                    {
                        &&& #[trigger] old(session)@.waits(
                            old(session).log(),
                            id.0,
                            Some(timeout),
                            woken,
                            final(session).log(),
                        )
                        &&& status == woken.outcome(id.0)
                        &&& final(session)@ == woken.set_status(self.key(), id.0, status)
                    }
            },
            old(session)@.entry(self.key(), id.0) is None ==> {
                &&& status is TimedOut
                &&& final(session)@ == old(session)@
                &&& final(session).log() == old(session).log()
            },
    {
        let fence = match self.find(session, id.0) {
            Some(entry) => entry.fence.clone(),
            None => {
                return FenceStatus::TimedOut;
            },
        };
        let status = match fence.wait_timeout(session, timeout) {
            Ok(()) => FenceStatus::Completed,
            Err(()) => FenceStatus::TimedOut,
        };
        self.set_status(session, id.0, status);
        status
    }

    /// Get the status of a fence.
    pub fn get_status(&self, session: &Session<'_>, id: FenceId) -> (status: Option<FenceStatus>)
        ensures
            status == session@.status(self.key(), id.0),
    {
        match self.find(session, id.0) {
            Some(entry) => Some(entry.status),
            None => None,
        }
    }

    /// The number of fences with a given status.
    fn count(&self, session: &Session<'_>, status: FenceStatus) -> (count: usize)
        ensures
            session@.ids_with(self.key(), status).finite(),
            count == session@.ids_with(self.key(), status).len(),
    {
        match session.state().manager(self.key) {
            Some(manager) => {
                let ids = manager.ids(status);
                proof {
                    ids@.unique_seq_to_set();
                }
                ids.len()
            },
            None => {
                assert(session@.ids_with(self.key(), status) =~= Set::empty());
                0
            },
        }
    }

    /// Get the number of active (uncompleted) fences.
    pub fn active_count(&self, session: &Session<'_>) -> (count: usize)
        ensures
            session@.ids_with(self.key(), FenceStatus::Active).finite(),
            count == session@.ids_with(self.key(), FenceStatus::Active).len(),
    {
        self.count(session, FenceStatus::Active)
    }

    /// Get the number of completed fences.
    pub fn completed_count(&self, session: &Session<'_>) -> (count: usize)
        ensures
            session@.ids_with(self.key(), FenceStatus::Completed).finite(),
            count == session@.ids_with(self.key(), FenceStatus::Completed).len(),
    {
        self.count(session, FenceStatus::Completed)
    }

    /// Get total number of tracked fences.
    pub fn total_count(&self, session: &Session<'_>) -> (count: usize)
        ensures
            session@.manager(self.key()).dom().finite(),
            count == session@.manager(self.key()).len(),
    {
        match session.state().manager(self.key) {
            Some(manager) => {
                assert(manager@.dom() =~= manager.entries@.dom());
                manager.entries.len()
            },
            None => 0,
        }
    }

    /// Remove completed fences and return them to the pool, in no particular order.
    pub fn cleanup_completed(&self, session: &mut Session<'_>) -> (count: usize)
        ensures
            forall|id: u64| #[trigger]
                old(session)@.manager(self.key()).contains_key(id) ==> old(session)@.manager(
                    self.key(),
                )[id].fence.id == id,
            old(session)@.ids_with(self.key(), FenceStatus::Completed).finite(),
            count == old(session)@.ids_with(self.key(), FenceStatus::Completed).len(),
            exists|order: Seq<u64>|
                {
                    &&& order.no_duplicates()
                    &&& order.to_set() == old(session)@.ids_with(
                        self.key(),
                        FenceStatus::Completed,
                    )
                    &&& final(session)@ == #[trigger] old(session)@.retire(
                        self.key(),
                        self.pool_key(),
                        order,
                    )
                },
            final(session).log() == old(session).log(),
    {
        let manager = session.state_mut().take_manager(self.key);
        let ghost kept = manager@;
        let ghost off = session@;
        let completed = manager.ids(FenceStatus::Completed);
        proof {
            use_type_invariant(&manager);
        }
        let mut entries = manager.entries;
        let mut next: usize = 0;
        assert(kept.remove_keys(completed@.take(0).to_set()) =~= kept);
        assert(old(session)@.fences(self.key(), completed@.take(0)) =~= Seq::empty());
        while next < completed.len()
            invariant
                next <= completed.len(),
                completed@.no_duplicates(),
                completed@.to_set() == EntryView::ids_with(kept, FenceStatus::Completed),
                kept == old(session)@.manager(self.key()),
                forall|id: u64| #[trigger]
                    entries@.contains_key(id) ==> entries@[id].fence@.id == id,
                entries@.map_values(|entry: Entry| entry@) == kept.remove_keys(
                    completed@.take(next as int).to_set(),
                ),
                session@ == off.release_all(
                    self.pool_key(),
                    old(session)@.fences(self.key(), completed@.take(next as int)),
                ),
                session.log() == old(session).log(),
            decreases completed.len() - next,
        {
            let id = completed[next];
            let ghost before = entries@.map_values(|entry: Entry| entry@);
            proof {
                lemma_take_one_more(completed@, next as int);
                assert(completed@.to_set().contains(id));
                assert(before.contains_key(id));
            }
            if let Some(entry) = entries.remove(&id) {
                self.pool.release(session, entry.fence);
                proof {
                    assert(entries@.map_values(|entry: Entry| entry@) =~= before.remove(id));
                    let fences = old(session)@.fences(self.key(), completed@.take(next + 1));
                    assert(fences.drop_last() =~= old(session)@.fences(
                        self.key(),
                        completed@.take(next as int),
                    ));
                    assert(completed@.take(next + 1).last() == id);
                    assert(entry@ == before[id]);
                    assert(fences.last() == entry.fence@);
                }
            }
            next = next + 1;
        }
        assert(completed@.take(next as int) =~= completed@);
        session.state_mut().put_manager(self.key, ManagerState { entries });
        proof {
            completed@.unique_seq_to_set();
            old(session)@.lemma_release_all_managers(
                off.managers,
                self.pool_key(),
                old(session)@.fences(self.key(), completed@),
            );
            assert(session@ =~= old(session)@.retire(self.key(), self.pool_key(), completed@));
        }
        completed.len()
    }

    /// The active fences, in no particular order.
    fn active(&self, session: &Session<'_>) -> (active: Vec<Fence>)
        ensures
            active@.map_values(|fence: Fence| fence@.id).no_duplicates(),
            active@.map_values(|fence: Fence| fence@.id).to_set() == session@.ids_with(
                self.key(),
                FenceStatus::Active,
            ),
    {
        let mut active: Vec<Fence> = Vec::new();
        let manager = match session.state().manager(self.key) {
            Some(manager) => manager,
            None => {
                assert(session@.ids_with(self.key(), FenceStatus::Active) =~= Set::empty());
                assert(active@.map_values(|fence: Fence| fence@.id).to_set() =~= Set::empty());
                return active;
            },
        };
        proof {
            use_type_invariant(manager);
        }
        let ids = manager.ids(FenceStatus::Active);
        let mut next: usize = 0;
        while next < ids.len()
            invariant
                next <= ids.len(),
                manager.kept_by_id(),
                ids@.to_set() == EntryView::ids_with(manager@, FenceStatus::Active),
                active.len() == next,
                forall|i: int| 0 <= i < next ==> (#[trigger] active[i])@.id == ids[i],
            decreases ids.len() - next,
        {
            let id = ids[next];
            assert(ids@.to_set().contains(id));
            if let Some(entry) = manager.entries.get(&id) {
                active.push(entry.fence.clone());
            }
            next = next + 1;
        }
        assert(active@.map_values(|fence: Fence| fence@.id) =~= ids@);
        active
    }

    /// Wait for all active fences to be signaled, in no particular order, and mark each as
    /// completed once it is.
    pub fn wait_all(&self, session: &mut Session<'_>)
        ensures
            exists|order: Seq<u64>, woken: Seq<DeviceView>|
                {
                    &&& order.no_duplicates()
                    &&& order.to_set() == old(session)@.ids_with(self.key(), FenceStatus::Active)
                    &&& #[trigger] old(session)@.waits_all(
                        old(session).log(),
                        self.key(),
                        order,
                        woken,
                        final(session)@,
                        final(session).log(),
                    )
                },
            old(session)@.all_signaled(self.key()) ==> {
                &&& final(session)@ == old(session)@.set_statuses(
                    self.key(),
                    old(session)@.ids_with(self.key(), FenceStatus::Active),
                    FenceStatus::Completed,
                )
                &&& final(session).log() == old(session).log()
            },
    {
        let active = self.active(session);
        let ghost order = active@.map_values(|fence: Fence| fence@.id);
        let ghost mut woken: Seq<DeviceView> = Seq::empty();
        let mut next: usize = 0;
        assert(order.take(0).to_set() =~= Set::empty());
        while next < active.len()
            invariant
                next <= active.len(),
                order == active@.map_values(|fence: Fence| fence@.id),
                order.no_duplicates(),
                order.to_set() == old(session)@.ids_with(self.key(), FenceStatus::Active),
                old(session)@.waits_all(
                    old(session).log(),
                    self.key(),
                    order.take(next as int),
                    woken,
                    session@,
                    session.log(),
                ),
                old(session)@.all_signaled(self.key()) ==> {
                    &&& session@ == old(session)@.set_statuses(
                        self.key(),
                        order.take(next as int).to_set(),
                        FenceStatus::Completed,
                    )
                    &&& session.log() == old(session).log()
                },
            decreases active.len() - next,
        {
            let ghost before = session@;
            let ghost before_log = session.log();
            let id = active[next].id().0;
            active[next].wait(session);
            let ghost found = session@;
            self.set_status(session, id, FenceStatus::Completed);
            proof {
                assert(order.to_set().contains(id)) by {
                    assert(order[next as int] == id);
                }
                old(session)@.lemma_waits_all_push(
                    old(session).log(),
                    self.key(),
                    order.take(next as int),
                    woken,
                    before,
                    before_log,
                    id,
                    found,
                    session.log(),
                );
                woken = woken.push(found);
                assert(order.take(next + 1) =~= order.take(next as int).push(id));
                old(session)@.lemma_set_statuses_insert(
                    self.key(),
                    order.take(next as int).to_set(),
                    id,
                    FenceStatus::Completed,
                );
                lemma_take_one_more(order, next as int);
                assert(order.take(next + 1).to_set() =~= order.take(next as int).to_set().insert(
                    id,
                ));
            }
            next = next + 1;
        }
        assert(order.take(next as int) =~= order);
    }
}

} // verus!
