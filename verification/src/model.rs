//! What a device holds, as mathematical values, and what each operation makes of it.

use crate::sync::Device;
use std::time::{Duration, Instant};
use vstd::prelude::*;

verus! {

/// Status of a fence that a manager keeps.
#[derive(Debug, Clone, Copy, PartialEq, Eq, Structural)]
pub enum FenceStatus {
    Active,
    Completed,
    TimedOut,
}

/// A handle on a fence: which fence it names, and the handle's label.
pub struct FenceView {
    pub id: u64,
    pub label: Seq<char>,
}

/// A pool: the fences that lie in it, the last one on top, and how many fences it has handed
/// out so far, made anew or used again.
pub struct PoolView {
    pub idle: Seq<FenceView>,
    pub created: u64,
    pub reused: u64,
}

/// A fence that a manager keeps, with its status.
pub struct EntryView {
    pub fence: FenceView,
    pub status: FenceStatus,
}

/// The state of a device. Every pool, manager and queue has a key; what was never written
/// under a key reads as empty.
#[verifier::ext_equal]
pub struct DeviceView {
    /// How many fences were made on the device so far.
    pub made: nat,
    /// The id of the next fence.
    pub next_id: u64,
    /// The key of the next pool.
    pub next_pool: nat,
    /// The key of the next manager.
    pub next_manager: nat,
    /// The key of the next queue.
    pub next_queue: nat,
    /// The signaled fences, and when each was signaled.
    pub signaled: Map<u64, Instant>,
    pub pools: Map<nat, PoolView>,
    /// The fences that each manager keeps, by id.
    pub managers: Map<nat, Map<u64, EntryView>>,
    /// The items that wait to be consumed, in the order in which they were produced.
    pub queues: Map<nat, Seq<Seq<char>>>,
}

/// What a session has done that concerns other threads.
pub enum Event {
    /// Asked for a device, to have it for itself.
    Open { device: Device },
    /// Got the device, as the other threads had left it.
    Lock { left: DeviceView },
    /// Woke every thread that sleeps on the device.
    Notify,
    /// Gave the device up and slept until the fence was signaled. `found` is what the other
    /// threads had left when it had the device again.
    Sleep { id: u64, found: DeviceView },
    /// Gave the device up and slept until something woke it, for `limit` at most. `seen` is what
    /// the other threads had left when it had the device again, and `over` says whether it was
    /// the limit that woke it. Then it read the clock: `spent` is the time since `since`.
    Nap { limit: Duration, seen: DeviceView, over: bool, since: Instant, spent: Duration },
}

impl Event {
    /// Whether `naps` are naps that something woke before their limits were over, and that did
    /// not see the fence signaled.
    pub open spec fn are_early(naps: Seq<Event>, id: u64) -> bool {
        forall|i: int|
            0 <= i < naps.len() ==> {
                &&& (#[trigger] naps[i]) is Nap
                &&& !naps[i]->over
                &&& !naps[i]->seen.is_signaled(id)
            }
    }

    /// Whether `rest` is what is left of `limit` when `spent` is gone.
    pub open spec fn is_rest(limit: Duration, spent: Duration, rest: Duration) -> bool {
        crate::sync::nanos(rest) == if crate::sync::nanos(spent) <= crate::sync::nanos(limit) {
            crate::sync::nanos(limit) - crate::sync::nanos(spent)
        } else {
            0
        }
    }

    /// Whether `naps` are naps of a wait that began at `since`, the first of them for `limit` at
    /// most and each other one for what was left of it when the one before was over.
    pub open spec fn have_limit(naps: Seq<Event>, limit: Duration, since: Instant) -> bool {
        &&& forall|i: int|
            0 <= i < naps.len() ==> (#[trigger] naps[i]) is Nap && naps[i]->since == since
        &&& naps.len() > 0 ==> naps[0]->limit == limit
        &&& forall|i: int, j: int|
            0 <= i && j == i + 1 && j < naps.len() ==> Event::is_rest(
                limit,
                (#[trigger] naps[i])->spent,
                (#[trigger] naps[j])->limit,
            )
    }

    /// Whether `naps` make up one wait for the fence, for `limit` at most: each but the last was
    /// woken early without seeing the fence signaled, and followed by one for the rest of the
    /// limit. The last one saw the fence signaled, or its limit was over, unless there were too
    /// many to count.
    pub open spec fn are_one_wait(naps: Seq<Event>, id: u64, limit: Duration) -> bool {
        &&& 0 < naps.len() <= u64::MAX
        &&& exists|since: Instant|
            call_ensures(Instant::now, (), since) && #[trigger] Event::have_limit(
                naps,
                limit,
                since,
            )
        &&& Event::are_early(naps.drop_last(), id)
        &&& naps.last()->over || naps.last()->seen.is_signaled(id) || naps.len() == u64::MAX
    }
}

impl PoolView {
    pub open spec fn empty() -> PoolView {
        PoolView { idle: Seq::empty(), created: 0, reused: 0 }
    }
}

impl EntryView {
    /// The ids under which `entries` holds fences of the given status.
    pub open spec fn ids_with(entries: Map<u64, EntryView>, status: FenceStatus) -> Set<u64> {
        entries.dom().filter(|id: u64| entries[id].status == status)
    }
}

/// A device without anything on it.
impl DeviceView {
    pub open spec fn empty() -> DeviceView {
        DeviceView {
            made: 0,
            next_id: 1,
            next_pool: 0,
            next_manager: 0,
            next_queue: 0,
            signaled: Map::empty(),
            pools: Map::empty(),
            managers: Map::empty(),
            queues: Map::empty(),
        }
    }
}

/// Fences.
impl DeviceView {
    pub open spec fn is_signaled(self, id: u64) -> bool {
        self.signaled.contains_key(id)
    }

    pub open spec fn signaled_at(self, id: u64) -> Option<Instant> {
        if self.is_signaled(id) {
            Some(self.signaled[id])
        } else {
            None
        }
    }

    pub open spec fn signal(self, id: u64, at: Instant) -> DeviceView {
        DeviceView { signaled: self.signaled.insert(id, at), ..self }
    }

    /// Whether `after` is the device after the fence was signaled, as of an instant that the
    /// clock gave for it.
    pub open spec fn signals_to(self, id: u64, after: DeviceView) -> bool {
        exists|at: Instant|
            call_ensures(Instant::now, (), at) && after == #[trigger] self.signal(id, at)
    }

    pub open spec fn reset(self, id: u64) -> DeviceView {
        DeviceView { signaled: self.signaled.remove(id), ..self }
    }

    /// The device after the fence `self.next_id` was made, unsignaled.
    pub open spec fn create(self) -> DeviceView {
        DeviceView {
            made: self.made + 1,
            next_id: self.next_id.wrapping_add(1),
            ..self.reset(self.next_id)
        }
    }

    /// Whether fences have been numbered from 1 on in the order in which they were made, and from
    /// 0 on again where the numbers ran out.
    pub open spec fn numbers_fences(self) -> bool {
        self.next_id == (1 + self.made as int) % (u64::MAX + 1)
    }

    /// The status that a timed wait gives a fence when it is over.
    pub open spec fn outcome(self, id: u64) -> FenceStatus {
        if self.is_signaled(id) {
            FenceStatus::Completed
        } else {
            FenceStatus::TimedOut
        }
    }

    /// Whether waiting for a fence, for `limit` at most, can take a session from this device to
    /// `after`, and what it has done from `log` to `after_log`. The wait is over at once where
    /// the fence is signaled. Else the session sleeps, and leaves the device as the sleep found
    /// it: without a limit, with the fence signaled.
    pub open spec fn waits(
        self,
        log: Seq<Event>,
        id: u64,
        limit: Option<Duration>,
        after: DeviceView,
        after_log: Seq<Event>,
    ) -> bool {
        if self.is_signaled(id) {
            after == self && after_log == log
        } else {
            &&& after.numbers_fences()
            &&& match limit {
                Some(limit) => exists|naps: Seq<Event>|
                    {
                        &&& #[trigger] Event::are_one_wait(naps, id, limit)
                        &&& after == naps.last()->seen
                        &&& after_log == log + naps
                    },
                None => {
                    &&& after.is_signaled(id)
                    &&& after_log == log.push(Event::Sleep { id, found: after })
                },
            }
        }
    }
}

/// Pools.
impl DeviceView {
    pub open spec fn pool(self, key: nat) -> PoolView {
        if self.pools.contains_key(key) {
            self.pools[key]
        } else {
            PoolView::empty()
        }
    }

    pub open spec fn with_pool(self, key: nat, pool: PoolView) -> DeviceView {
        DeviceView { pools: self.pools.insert(key, pool), ..self }
    }

    /// The device after the empty pool `self.next_pool` was made.
    pub open spec fn new_pool(self) -> DeviceView {
        DeviceView { next_pool: self.next_pool + 1, ..self }.with_pool(
            self.next_pool,
            PoolView::empty(),
        )
    }

    /// The fence that the pool hands out next: the one on top, or else a new one.
    pub open spec fn next_fence(self, key: nat) -> FenceView {
        let pool = self.pool(key);
        if pool.idle.len() > 0 {
            pool.idle.last()
        } else {
            FenceView { id: self.next_id, label: Seq::empty() }
        }
    }

    /// The device after the pool handed `self.next_fence(key)` out, unsignaled.
    pub open spec fn acquire(self, key: nat) -> DeviceView {
        let pool = self.pool(key);
        if pool.idle.len() > 0 {
            self.reset(pool.idle.last().id).with_pool(
                key,
                PoolView {
                    idle: pool.idle.drop_last(),
                    reused: pool.reused.wrapping_add(1),
                    ..pool
                },
            )
        } else {
            self.create().with_pool(
                key,
                PoolView { created: pool.created.wrapping_add(1), ..pool },
            )
        }
    }

    /// The device after `fence` was put on top of the pool.
    pub open spec fn release(self, key: nat, fence: FenceView) -> DeviceView {
        let pool = self.pool(key);
        self.with_pool(key, PoolView { idle: pool.idle.push(fence), ..pool })
    }

    /// The device after `fences` were put on top of the pool one after the other.
    pub open spec fn release_all(self, key: nat, fences: Seq<FenceView>) -> DeviceView
        decreases fences.len(),
    {
        if fences.len() == 0 {
            self
        } else {
            self.release_all(key, fences.drop_last()).release(key, fences.last())
        }
    }

    /// Whatever managers there are, releasing fences leaves them alone.
    pub proof fn lemma_release_all_managers(
        self,
        managers: Map<nat, Map<u64, EntryView>>,
        key: nat,
        fences: Seq<FenceView>,
    )
        ensures
            (DeviceView { managers, ..self }).release_all(key, fences) == (DeviceView {
                managers,
                ..self.release_all(key, fences)
            }),
            self.release_all(key, fences).managers == self.managers,
        decreases fences.len(),
    {
        if fences.len() > 0 {
            self.lemma_release_all_managers(managers, key, fences.drop_last());
        }
    }

    pub open spec fn clear_pool(self, key: nat) -> DeviceView {
        self.with_pool(key, PoolView { idle: Seq::empty(), ..self.pool(key) })
    }
}

/// Managers.
impl DeviceView {
    pub open spec fn manager(self, key: nat) -> Map<u64, EntryView> {
        if self.managers.contains_key(key) {
            self.managers[key]
        } else {
            Map::empty()
        }
    }

    pub open spec fn with_manager(self, key: nat, entries: Map<u64, EntryView>) -> DeviceView {
        DeviceView { managers: self.managers.insert(key, entries), ..self }
    }

    /// The device after the manager `self.next_manager`, which keeps no fence, was made.
    pub open spec fn new_manager(self) -> DeviceView {
        DeviceView { next_manager: self.next_manager + 1, ..self }.with_manager(
            self.next_manager,
            Map::empty(),
        )
    }

    /// What the manager keeps under `id`.
    pub open spec fn entry(self, key: nat, id: u64) -> Option<EntryView> {
        if self.manager(key).contains_key(id) {
            Some(self.manager(key)[id])
        } else {
            None
        }
    }

    /// The ids of the manager's fences that have the given status.
    pub open spec fn ids_with(self, key: nat, status: FenceStatus) -> Set<u64> {
        EntryView::ids_with(self.manager(key), status)
    }

    pub open spec fn status(self, key: nat, id: u64) -> Option<FenceStatus> {
        match self.entry(key, id) {
            Some(entry) => Some(entry.status),
            None => None,
        }
    }

    /// The device after the manager began to keep `fence`, as active.
    pub open spec fn register(self, key: nat, fence: FenceView) -> DeviceView {
        self.with_manager(
            key,
            self.manager(key).insert(fence.id, EntryView { fence, status: FenceStatus::Active }),
        )
    }

    /// The device after the status of the fence `id`, where the manager keeps it, was set.
    pub open spec fn set_status(self, key: nat, id: u64, status: FenceStatus) -> DeviceView {
        match self.entry(key, id) {
            Some(entry) => self.with_manager(
                key,
                self.manager(key).insert(id, EntryView { status, ..entry }),
            ),
            None => self,
        }
    }

    /// The device after the status of each fence in `ids` that the manager keeps was set.
    pub open spec fn set_statuses(
        self,
        key: nat,
        ids: Set<u64>,
        status: FenceStatus,
    ) -> DeviceView {
        if ids.disjoint(self.manager(key).dom()) {
            self
        } else {
            self.with_manager(
                key,
                self.manager(key).map_entries(
                    |id: u64, entry: EntryView|
                        if ids.contains(id) {
                            EntryView { status, ..entry }
                        } else {
                            entry
                        },
                ),
            )
        }
    }

    /// Setting one status more.
    pub proof fn lemma_set_statuses_insert(
        self,
        key: nat,
        ids: Set<u64>,
        id: u64,
        status: FenceStatus,
    )
        ensures
            self.set_statuses(key, ids, status).set_status(key, id, status) == self.set_statuses(
                key,
                ids.insert(id),
                status,
            ),
    {
        let entries = self.manager(key);
        let set = self.set_statuses(key, ids, status);
        if ids.disjoint(entries.dom()) {
            assert forall|other: u64|
                ids.insert(id).contains(other) && entries.contains_key(
                    other,
                ) implies other == id by {
                assert(ids.contains(other) || other == id);
            }
        }
        if entries.contains_key(id) {
            assert(ids.insert(id).contains(id));
            assert(!ids.insert(id).disjoint(entries.dom()));
            assert(set.set_status(key, id, status).manager(key) =~= self.set_statuses(
                key,
                ids.insert(id),
                status,
            ).manager(key));
        } else if !ids.disjoint(entries.dom()) {
            let other = choose|other: u64| ids.contains(other) && entries.contains_key(other);
            assert(ids.insert(id).contains(other));
            assert(set.manager(key) =~= self.set_statuses(key, ids.insert(id), status).manager(
                key,
            ));
        }
        assert(set.set_status(key, id, status) =~= self.set_statuses(key, ids.insert(id), status));
    }

    /// Whether every active fence of the manager is signaled.
    pub open spec fn all_signaled(self, key: nat) -> bool {
        forall|id: u64| #[trigger]
            self.ids_with(key, FenceStatus::Active).contains(id) ==> self.is_signaled(id)
    }

    /// Whether waiting for the fences `ids` one after the other, and setting each to completed
    /// when its wait is over, can take a session from this device to `after`, and what it has
    /// done from `log` to `after_log`. The end of each wait finds the device in `woken`.
    pub open spec fn waits_all(
        self,
        log: Seq<Event>,
        key: nat,
        ids: Seq<u64>,
        woken: Seq<DeviceView>,
        after: DeviceView,
        after_log: Seq<Event>,
    ) -> bool
        decreases ids.len(),
    {
        &&& woken.len() == ids.len()
        &&& if ids.len() == 0 {
            after == self && after_log == log
        } else {
            exists|before: DeviceView, before_log: Seq<Event>|
                {
                    &&& self.waits_all(
                        log,
                        key,
                        ids.drop_last(),
                        woken.drop_last(),
                        before,
                        before_log,
                    )
                    &&& #[trigger] before.waits(
                        before_log,
                        ids.last(),
                        None,
                        woken.last(),
                        after_log,
                    )
                    &&& after == woken.last().set_status(key, ids.last(), FenceStatus::Completed)
                }
        }
    }

    /// Waiting for one fence more.
    pub proof fn lemma_waits_all_push(
        self,
        log: Seq<Event>,
        key: nat,
        ids: Seq<u64>,
        woken: Seq<DeviceView>,
        before: DeviceView,
        before_log: Seq<Event>,
        id: u64,
        found: DeviceView,
        after_log: Seq<Event>,
    )
        requires
            self.waits_all(log, key, ids, woken, before, before_log),
            before.waits(before_log, id, None, found, after_log),
        ensures
            self.waits_all(
                log,
                key,
                ids.push(id),
                woken.push(found),
                found.set_status(key, id, FenceStatus::Completed),
                after_log,
            ),
    {
        assert(ids.push(id).drop_last() =~= ids);
        assert(woken.push(found).drop_last() =~= woken);
        assert(before.waits(
            before_log,
            ids.push(id).last(),
            None,
            woken.push(found).last(),
            after_log,
        ));
    }

    /// The fences that the manager keeps under `ids`.
    pub open spec fn fences(self, key: nat, ids: Seq<u64>) -> Seq<FenceView> {
        ids.map_values(|id: u64| self.manager(key)[id].fence)
    }

    /// The device after the manager gave up the fences `ids`, which went to the pool in that
    /// order.
    pub open spec fn retire(self, key: nat, pool: nat, ids: Seq<u64>) -> DeviceView {
        self.release_all(pool, self.fences(key, ids)).with_manager(
            key,
            self.manager(key).remove_keys(ids.to_set()),
        )
    }
}

/// Queues of produced items.
impl DeviceView {
    pub open spec fn queue(self, key: nat) -> Seq<Seq<char>> {
        if self.queues.contains_key(key) {
            self.queues[key]
        } else {
            Seq::empty()
        }
    }

    pub open spec fn with_queue(self, key: nat, items: Seq<Seq<char>>) -> DeviceView {
        DeviceView { queues: self.queues.insert(key, items), ..self }
    }

    /// The device after the empty queue `self.next_queue` was made.
    pub open spec fn new_queue(self) -> DeviceView {
        DeviceView { next_queue: self.next_queue + 1, ..self }.with_queue(
            self.next_queue,
            Seq::empty(),
        )
    }

    pub open spec fn enqueue(self, key: nat, item: Seq<char>) -> DeviceView {
        self.with_queue(key, self.queue(key).push(item))
    }
}

} // verus!
