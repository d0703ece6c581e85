//! What each operation does to everything that can be seen of a device.
//!
//! A device is seen through its fences (whether and when each was signaled), its pools (what lies
//! in them and what they have counted), its managers (which fences they keep, and the status of
//! each) and its queues (what waits in them). The laws say of each operation what it makes of
//! what it is about, and that the rest looks as it did before.

use crate::model::{DeviceView, Event, FenceStatus, FenceView};
use std::time::{Duration, Instant};
use vstd::prelude::*;

verus! {

impl DeviceView {
    /// Whether every fence looks the same on both devices, and the next one gets the same id.
    pub open spec fn same_fences(self, other: DeviceView) -> bool {
        &&& forall|id: u64| #[trigger] self.signaled_at(id) == other.signaled_at(id)
        &&& forall|id: u64| #[trigger] self.is_signaled(id) == other.is_signaled(id)
        &&& self.next_id == other.next_id
        &&& self.made == other.made
    }

    /// Whether every pool but `pool` looks the same on both devices.
    pub open spec fn same_pools_but(self, pool: nat, other: DeviceView) -> bool {
        forall|key: nat| key != pool ==> #[trigger] self.pool(key) == other.pool(key)
    }

    /// Whether every pool looks the same on both devices, and the next one gets the same key.
    pub open spec fn same_pools(self, other: DeviceView) -> bool {
        &&& forall|key: nat| #[trigger] self.pool(key) == other.pool(key)
        &&& self.next_pool == other.next_pool
    }

    /// Whether a manager keeps the same fences with the same statuses on both devices.
    pub open spec fn same_manager(self, key: nat, other: DeviceView) -> bool {
        &&& self.manager(key) == other.manager(key)
        &&& forall|id: u64| #[trigger] self.entry(key, id) == other.entry(key, id)
        &&& forall|id: u64| #[trigger] self.status(key, id) == other.status(key, id)
        &&& forall|status: FenceStatus| #[trigger]
            self.ids_with(key, status) == other.ids_with(key, status)
    }

    /// Whether every manager but `manager` looks the same on both devices.
    pub open spec fn same_managers_but(self, manager: nat, other: DeviceView) -> bool {
        forall|key: nat| key != manager ==> #[trigger] self.same_manager(key, other)
    }

    /// Whether every manager looks the same on both devices, and the next one gets the same key.
    pub open spec fn same_managers(self, other: DeviceView) -> bool {
        &&& forall|key: nat| #[trigger] self.same_manager(key, other)
        &&& self.next_manager == other.next_manager
    }

    /// Whether every queue but `queue` looks the same on both devices.
    pub open spec fn same_queues_but(self, queue: nat, other: DeviceView) -> bool {
        forall|key: nat| key != queue ==> #[trigger] self.queue(key) == other.queue(key)
    }

    /// Whether every queue looks the same on both devices, and the next one gets the same key.
    pub open spec fn same_queues(self, other: DeviceView) -> bool {
        &&& forall|key: nat| #[trigger] self.queue(key) == other.queue(key)
        &&& self.next_queue == other.next_queue
    }
}

/// On a device without anything on it no fence is signaled, pools are empty and have counted
/// nothing, managers keep no fence, no item waits, and no fence has been made.
pub proof fn law_empty_device_holds_nothing(id: u64, key: nat, status: FenceStatus)
    ensures
        !DeviceView::empty().is_signaled(id),
        DeviceView::empty().pool(key).idle.len() == 0,
        DeviceView::empty().pool(key).created == 0,
        DeviceView::empty().pool(key).reused == 0,
        DeviceView::empty().status(key, id) is None,
        DeviceView::empty().ids_with(key, status).is_empty(),
        DeviceView::empty().queue(key).len() == 0,
        DeviceView::empty().made == 0,
        DeviceView::empty().next_id == 1,
{
    assert(DeviceView::empty().ids_with(key, status) =~= Set::empty());
}

// Fences.

/// A fence is signaled if and only if there is an instant as of which it is.
pub proof fn law_signaled_fences_have_an_instant(device: DeviceView, id: u64)
    ensures
        device.is_signaled(id) <==> device.signaled_at(id) is Some,
{
}

/// A signal makes its fence signaled as of its instant, whatever the fence was before, and does
/// nothing else; in particular no manager takes note of it.
pub proof fn law_signal_only_signals_its_fence(
    device: DeviceView,
    id: u64,
    at: Instant,
    other: u64,
)
    ensures
        device.signal(id, at).is_signaled(id),
        device.signal(id, at).signaled_at(id) == Some(at),
        other != id ==> device.signal(id, at).signaled_at(other) == device.signaled_at(other),
        other != id ==> device.signal(id, at).is_signaled(other) == device.is_signaled(other),
        device.signal(id, at).next_id == device.next_id,
        device.signal(id, at).made == device.made,
        device.signal(id, at).same_pools(device),
        device.signal(id, at).same_managers(device),
        device.signal(id, at).same_queues(device),
{
}

/// A signal as of now makes its fence signaled as of an instant that the clock gave, and does
/// nothing else.
pub proof fn law_signal_now_only_signals_its_fence(
    device: DeviceView,
    id: u64,
    after: DeviceView,
    other: u64,
)
    requires
        device.signals_to(id, after),
    ensures
        after.is_signaled(id),
        after.signaled_at(id) matches Some(at) && call_ensures(Instant::now, (), at),
        other != id ==> after.signaled_at(other) == device.signaled_at(other),
        other != id ==> after.is_signaled(other) == device.is_signaled(other),
        after.next_id == device.next_id,
        after.made == device.made,
        after.same_pools(device),
        after.same_managers(device),
        after.same_queues(device),
{
    let at = choose|at: Instant|
        call_ensures(Instant::now, (), at) && after == #[trigger] device.signal(id, at);
    law_signal_only_signals_its_fence(device, id, at, other);
}

/// A reset makes its fence unsignaled, whatever it was before, and does nothing else.
pub proof fn law_reset_only_unsignals_its_fence(device: DeviceView, id: u64, other: u64)
    ensures
        !device.reset(id).is_signaled(id),
        device.reset(id).signaled_at(id) is None,
        other != id ==> device.reset(id).signaled_at(other) == device.signaled_at(other),
        other != id ==> device.reset(id).is_signaled(other) == device.is_signaled(other),
        device.reset(id).next_id == device.next_id,
        device.reset(id).made == device.made,
        device.reset(id).same_pools(device),
        device.reset(id).same_managers(device),
        device.reset(id).same_queues(device),
{
}

/// Making a fence makes one unsignaled fence, whose id the next one will not have, and does
/// nothing else.
pub proof fn law_create_only_makes_a_fence(device: DeviceView, other: u64)
    ensures
        !device.create().is_signaled(device.next_id),
        other != device.next_id ==> device.create().signaled_at(other) == device.signaled_at(other),
        other != device.next_id ==> device.create().is_signaled(other) == device.is_signaled(other),
        device.create().made == device.made + 1,
        device.create().next_id != device.next_id,
        device.numbers_fences() ==> device.create().numbers_fences(),
        device.create().same_pools(device),
        device.create().same_managers(device),
        device.create().same_queues(device),
{
}

// Pools.

/// A new pool is empty and has counted nothing, its key is not that of the next one, and making
/// it leaves every other pool and the rest of the device as it was.
pub proof fn law_new_pool_is_empty_and_apart(device: DeviceView)
    ensures
        device.new_pool().pool(device.next_pool).idle.len() == 0,
        device.new_pool().pool(device.next_pool).created == 0,
        device.new_pool().pool(device.next_pool).reused == 0,
        device.new_pool().next_pool == device.next_pool + 1,
        device.new_pool().same_pools_but(device.next_pool, device),
        device.new_pool().same_fences(device),
        device.new_pool().same_managers(device),
        device.new_pool().same_queues(device),
{
}

/// Taking a fence from a pool takes the one on top, if any lies there, and leaves the others as
/// they lie; else it makes one. It raises the counter for the one or for the other, leaves the
/// fence unsignaled, and does nothing else.
pub proof fn law_acquire_takes_one_fence(device: DeviceView, pool: nat, other: u64)
    ensures
        ({
            let before = device.pool(pool);
            let after = device.acquire(pool);
            let fence = device.next_fence(pool);
            &&& !after.is_signaled(fence.id)
            &&& other != fence.id ==> {
                &&& after.signaled_at(other) == device.signaled_at(other)
                &&& after.is_signaled(other) == device.is_signaled(other)
            }
            &&& if before.idle.len() > 0 {
                &&& fence == before.idle[before.idle.len() - 1]
                &&& after.pool(pool).idle == before.idle.take(before.idle.len() - 1)
                &&& after.pool(pool).created == before.created
                &&& after.pool(pool).reused == before.reused.wrapping_add(1)
                &&& after.made == device.made
                &&& after.next_id == device.next_id
            } else {
                &&& fence.id == device.next_id
                &&& fence.label.len() == 0
                &&& after.pool(pool).idle.len() == 0
                &&& after.pool(pool).created == before.created.wrapping_add(1)
                &&& after.pool(pool).reused == before.reused
                &&& after.made == device.made + 1
                &&& after.next_id != device.next_id
            }
            &&& after.next_pool == device.next_pool
            &&& after.same_pools_but(pool, device)
            &&& after.same_managers(device)
            &&& after.same_queues(device)
        }),
{
    let idle = device.pool(pool).idle;
    if idle.len() > 0 {
        assert(idle.drop_last() =~= idle.take(idle.len() - 1));
    }
}

/// A released fence lies on top of the pool, above those that lay there, and nothing else has
/// changed: no counter, and not whether the fence is signaled.
pub proof fn law_release_only_adds_its_fence(device: DeviceView, pool: nat, fence: FenceView)
    ensures
        ({
            let before = device.pool(pool);
            let after = device.release(pool, fence);
            &&& after.pool(pool).idle.len() == before.idle.len() + 1
            &&& after.pool(pool).idle.last() == fence
            &&& forall|i: int|
                0 <= i < before.idle.len() ==> #[trigger] after.pool(pool).idle[i]
                    == before.idle[i]
            &&& after.pool(pool).created == before.created
            &&& after.pool(pool).reused == before.reused
            &&& after.next_pool == device.next_pool
            &&& after.same_pools_but(pool, device)
            &&& after.same_fences(device)
            &&& after.same_managers(device)
            &&& after.same_queues(device)
        }),
{
}

/// Clearing a pool leaves no fence in it, keeps its counters, and does nothing else.
pub proof fn law_clear_only_empties_its_pool(device: DeviceView, pool: nat)
    ensures
        device.clear_pool(pool).pool(pool).idle.len() == 0,
        device.clear_pool(pool).pool(pool).created == device.pool(pool).created,
        device.clear_pool(pool).pool(pool).reused == device.pool(pool).reused,
        device.clear_pool(pool).next_pool == device.next_pool,
        device.clear_pool(pool).same_pools_but(pool, device),
        device.clear_pool(pool).same_fences(device),
        device.clear_pool(pool).same_managers(device),
        device.clear_pool(pool).same_queues(device),
{
}

// Managers.

/// What a manager says of an id fits together: it keeps a fence under the id if and only if it
/// gives a status for it, and it counts the id under a status if and only if that very status is
/// the one it gives.
pub proof fn law_ids_are_counted_under_their_status(
    device: DeviceView,
    manager: nat,
    id: u64,
    status: FenceStatus,
)
    ensures
        device.ids_with(manager, status).contains(id) <==> device.status(manager, id) == Some(
            status,
        ),
        device.manager(manager).contains_key(id) <==> device.status(manager, id) is Some,
        device.entry(manager, id) is Some <==> device.status(manager, id) is Some,
        device.status(manager, id) is Some ==> {
            &&& device.manager(manager)[id] == device.entry(manager, id)->0
            &&& device.entry(manager, id)->0.status == device.status(manager, id)->0
        },
{
}

/// The three statuses share out the ids that a manager keeps: each is counted under one of them,
/// and under no other.
pub proof fn law_each_id_has_one_status(device: DeviceView, manager: nat, id: u64)
    ensures
        device.manager(manager).contains_key(id) <==> {
            ||| device.ids_with(manager, FenceStatus::Active).contains(id)
            ||| device.ids_with(manager, FenceStatus::Completed).contains(id)
            ||| device.ids_with(manager, FenceStatus::TimedOut).contains(id)
        },
        !(device.ids_with(manager, FenceStatus::Active).contains(id) && device.ids_with(
            manager,
            FenceStatus::Completed,
        ).contains(id)),
        !(device.ids_with(manager, FenceStatus::Active).contains(id) && device.ids_with(
            manager,
            FenceStatus::TimedOut,
        ).contains(id)),
        !(device.ids_with(manager, FenceStatus::Completed).contains(id) && device.ids_with(
            manager,
            FenceStatus::TimedOut,
        ).contains(id)),
{
}

/// A new manager keeps no fence, its key is not that of the next one, and making it leaves every
/// other manager and the rest of the device as it was.
pub proof fn law_new_manager_is_empty_and_apart(
    device: DeviceView,
    id: u64,
    status: FenceStatus,
)
    ensures
        device.new_manager().manager(device.next_manager).dom().is_empty(),
        device.new_manager().status(device.next_manager, id) is None,
        device.new_manager().ids_with(device.next_manager, status).is_empty(),
        device.new_manager().next_manager == device.next_manager + 1,
        device.new_manager().same_managers_but(device.next_manager, device),
        device.new_manager().same_fences(device),
        device.new_manager().same_pools(device),
        device.new_manager().same_queues(device),
{
    let after = device.new_manager();
    assert(after.manager(device.next_manager).dom() =~= Set::empty());
    assert(after.ids_with(device.next_manager, status) =~= Set::empty());
}

/// A registered fence is kept under its id, as active, with the label of its handle; every other
/// fence of the manager is kept as it was, and nothing else has changed.
pub proof fn law_register_only_adds_its_fence(
    device: DeviceView,
    manager: nat,
    fence: FenceView,
    other: u64,
)
    ensures
        ({
            let after = device.register(manager, fence);
            &&& after.status(manager, fence.id) == Some(FenceStatus::Active)
            &&& after.entry(manager, fence.id)->0.fence == fence
            &&& other != fence.id ==> {
                &&& after.entry(manager, other) == device.entry(manager, other)
                &&& after.status(manager, other) == device.status(manager, other)
            }
            &&& after.manager(manager).dom() == device.manager(manager).dom().insert(fence.id)
            &&& after.next_manager == device.next_manager
            &&& after.same_managers_but(manager, device)
            &&& after.same_fences(device)
            &&& after.same_pools(device)
            &&& after.same_queues(device)
        }),
{
    let after = device.register(manager, fence);
    assert(after.manager(manager).dom() =~= device.manager(manager).dom().insert(fence.id));
}

/// Setting a status gives the fence that status, where the manager keeps it, and changes nothing
/// where it does not; the fence stays under its id, and nothing else changes.
pub proof fn law_set_status_only_sets_that_status(
    device: DeviceView,
    manager: nat,
    id: u64,
    status: FenceStatus,
    other: u64,
)
    ensures
        ({
            let after = device.set_status(manager, id, status);
            &&& if device.status(manager, id) is Some {
                &&& after.status(manager, id) == Some(status)
                &&& after.entry(manager, id)->0.fence == device.entry(manager, id)->0.fence
            } else {
                after.status(manager, id) is None
            }
            &&& other != id ==> {
                &&& after.entry(manager, other) == device.entry(manager, other)
                &&& after.status(manager, other) == device.status(manager, other)
            }
            &&& after.manager(manager).dom() == device.manager(manager).dom()
            &&& after.next_manager == device.next_manager
            &&& after.same_managers_but(manager, device)
            &&& after.same_fences(device)
            &&& after.same_pools(device)
            &&& after.same_queues(device)
        }),
{
    let after = device.set_status(manager, id, status);
    assert(after.manager(manager).dom() =~= device.manager(manager).dom());
}

/// Setting the status of several fences gives each of them that status, where the manager keeps
/// it; every fence stays under its id, and nothing else changes.
pub proof fn law_set_statuses_only_sets_those_statuses(
    device: DeviceView,
    manager: nat,
    ids: Set<u64>,
    status: FenceStatus,
    id: u64,
)
    ensures
        ({
            let after = device.set_statuses(manager, ids, status);
            &&& after.status(manager, id) == if ids.contains(id) && device.status(
                manager,
                id,
            ) is Some {
                Some(status)
            } else {
                device.status(manager, id)
            }
            &&& device.status(manager, id) is Some ==> after.entry(manager, id)->0.fence
                == device.entry(manager, id)->0.fence
            &&& after.manager(manager).dom() == device.manager(manager).dom()
            &&& after.next_manager == device.next_manager
            &&& after.same_managers_but(manager, device)
            &&& after.same_fences(device)
            &&& after.same_pools(device)
            &&& after.same_queues(device)
        }),
{
    let after = device.set_statuses(manager, ids, status);
    assert(after.manager(manager).dom() =~= device.manager(manager).dom());
    if ids.contains(id) && device.manager(manager).contains_key(id) {
        assert(!ids.disjoint(device.manager(manager).dom()));
    }
}

/// All active fences of a manager are signaled if and only if every fence is whose status is
/// active.
pub proof fn law_all_signaled_speaks_of_the_active_fences(device: DeviceView, manager: nat)
    ensures
        device.all_signaled(manager) <==> forall|id: u64|
            #[trigger] device.status(manager, id) == Some(FenceStatus::Active)
                ==> device.is_signaled(id),
{
    if device.all_signaled(manager) {
        assert forall|id: u64|
            #[trigger] device.status(manager, id) == Some(
                FenceStatus::Active,
            ) implies device.is_signaled(id) by {
            assert(device.ids_with(manager, FenceStatus::Active).contains(id));
        }
    }
    if forall|id: u64|
        #[trigger] device.status(manager, id) == Some(FenceStatus::Active) ==> device.is_signaled(
            id,
        ) {
        assert forall|id: u64| #[trigger]
            device.ids_with(manager, FenceStatus::Active).contains(
                id,
            ) implies device.is_signaled(id) by {
            assert(device.status(manager, id) == Some(FenceStatus::Active));
        }
    }
}

/// A cleanup gives the pool exactly the fences that it removes, one for one and in its order, each
/// as the manager kept it: as many as were removed lie above those that lay there before. The
/// removed ids are gone, every other one is kept as it was, no counter is raised, no fence changes
/// its state, and nothing else changes.
pub proof fn law_cleanup_gives_the_pool_what_it_removes(
    device: DeviceView,
    manager: nat,
    pool: nat,
    order: Seq<u64>,
    id: u64,
)
    ensures
        ({
            let before = device.pool(pool);
            let after = device.retire(manager, pool, order);
            &&& after.pool(pool).idle.len() == before.idle.len() + order.len()
            &&& forall|i: int|
                0 <= i < before.idle.len() ==> #[trigger] after.pool(pool).idle[i]
                    == before.idle[i]
            &&& forall|i: int|
                #![trigger order[i]]
                0 <= i < order.len() ==> after.pool(pool).idle[before.idle.len() + i]
                    == device.manager(manager)[order[i]].fence
            &&& after.pool(pool).created == before.created
            &&& after.pool(pool).reused == before.reused
            &&& if order.contains(id) {
                after.status(manager, id) is None
            } else {
                &&& after.entry(manager, id) == device.entry(manager, id)
                &&& after.status(manager, id) == device.status(manager, id)
            }
            &&& after.next_pool == device.next_pool
            &&& after.next_manager == device.next_manager
            &&& after.same_pools_but(pool, device)
            &&& after.same_managers_but(manager, device)
            &&& after.same_fences(device)
            &&& after.same_queues(device)
        }),
{
    let after = device.retire(manager, pool, order);
    let fences = device.fences(manager, order);
    crate::laws::lemma_release_all_frame(device, pool, fences);
    assert forall|key: nat| key != pool implies #[trigger] after.pool(key) == device.pool(key) by {
        assert(device.release_all(pool, fences).pool(key) == device.pool(key));
    }
    assert(after.pool(pool) == device.release_all(pool, fences).pool(pool));
    assert forall|i: int|
        #![trigger order[i]]
        0 <= i < order.len() implies after.pool(pool).idle[device.pool(pool).idle.len() + i]
        == device.manager(manager)[order[i]].fence by {
        assert(fences[i] == device.manager(manager)[order[i]].fence);
    }
    assert(order.to_set().contains(id) <==> order.contains(id));
}

// Waiting.

/// A timed wait gives a fence the status completed where it found it signaled, and timed out
/// where it did not.
pub proof fn law_outcome_goes_by_the_signal(device: DeviceView, id: u64)
    ensures
        device.is_signaled(id) <==> device.outcome(id) == FenceStatus::Completed,
        !device.is_signaled(id) <==> device.outcome(id) == FenceStatus::TimedOut,
{
}

/// A wait only sleeps: it adds to what its session has done nothing but sleeps, and none where
/// the fence is signaled.
pub proof fn law_wait_does_nothing_but_sleep(
    device: DeviceView,
    id: u64,
    log: Seq<Event>,
    limit: Option<Duration>,
    after: DeviceView,
    after_log: Seq<Event>,
)
    requires
        device.waits(log, id, limit, after, after_log),
    ensures
        log.len() <= after_log.len(),
        after_log.take(log.len() as int) == log,
        device.is_signaled(id) <==> after_log.len() == log.len(),
        device.is_signaled(id) ==> after == device,
        forall|i: int|
            log.len() <= i < after_log.len() ==> match limit {
                Some(_) => (#[trigger] after_log[i]) is Nap,
                None => after_log[i] == (Event::Sleep { id, found: after }),
            },
        limit is None ==> after.is_signaled(id) && after_log.len() <= log.len() + 1,
{
    if device.is_signaled(id) {
        assert(after_log.take(log.len() as int) =~= log);
    } else if let Some(limit) = limit {
        let naps = choose|naps: Seq<Event>|
            {
                &&& #[trigger] Event::are_one_wait(naps, id, limit)
                &&& after == naps.last()->seen
                &&& after_log == log + naps
            };
        assert(after_log.take(log.len() as int) =~= log);
        assert forall|i: int| log.len() <= i < after_log.len() implies (
        #[trigger] after_log[i]) is Nap by {
            assert(after_log[i] == naps[i - log.len()]);
        }
    } else {
        assert(after_log.take(log.len() as int) =~= log);
    }
}

/// The naps of a timed wait stay within its limit. The first is for the whole limit. After each
/// nap the session reads how much time is gone since the wait began, and sleeps again only where
/// the nap was woken early and the fence was not signaled; that nap is for the limit less the time
/// which was just read, or for none where more than the limit is gone.
pub proof fn law_naps_stay_within_the_limit(
    device: DeviceView,
    id: u64,
    log: Seq<Event>,
    limit: Duration,
    after: DeviceView,
    after_log: Seq<Event>,
    i: int,
)
    requires
        !device.is_signaled(id),
        device.waits(log, id, Some(limit), after, after_log),
    ensures
        log.len() < after_log.len(),
        after_log[log.len() as int] matches Event::Nap { limit: first, since, .. } && first == limit
            && call_ensures(Instant::now, (), since),
        log.len() < i < after_log.len() ==> {
            &&& after_log[i - 1] matches Event::Nap { since: began, spent, over, seen, .. }
            &&& after_log[i] matches Event::Nap { since, limit: rest, .. }
            &&& since == began
            &&& !over
            &&& !seen.is_signaled(id)
            &&& if crate::sync::nanos(spent) <= crate::sync::nanos(limit) {
                crate::sync::nanos(rest) + crate::sync::nanos(spent) == crate::sync::nanos(limit)
            } else {
                crate::sync::nanos(rest) == 0
            }
        },
        after_log.last() matches Event::Nap { seen, .. } && seen == after,
        after.is_signaled(id) || after_log.last()->over || after_log.len() - log.len() == u64::MAX,
{
    let naps = choose|naps: Seq<Event>|
        {
            &&& #[trigger] Event::are_one_wait(naps, id, limit)
            &&& after == naps.last()->seen
            &&& after_log == log + naps
        };
    let since = choose|since: Instant|
        call_ensures(Instant::now, (), since) && #[trigger] Event::have_limit(naps, limit, since);
    let start = log.len() as int;
    assert(after_log[start] == naps[0]);
    assert(after_log.last() == naps.last());
    assert(naps[naps.len() - 1] is Nap);
    if log.len() < i < after_log.len() {
        assert(after_log[i] == naps[i - start]);
        assert(after_log[i - 1] == naps[i - start - 1]);
        assert(naps.drop_last()[i - start - 1] == naps[i - start - 1]);
    }
}

/// Waiting for several fences only sleeps, and only for those fences.
pub proof fn law_wait_all_does_nothing_but_sleep(
    device: DeviceView,
    log: Seq<Event>,
    manager: nat,
    order: Seq<u64>,
    woken: Seq<DeviceView>,
    after: DeviceView,
    after_log: Seq<Event>,
)
    requires
        device.waits_all(log, manager, order, woken, after, after_log),
    ensures
        log.len() <= after_log.len() <= log.len() + order.len(),
        after_log.take(log.len() as int) == log,
        forall|i: int|
            log.len() <= i < after_log.len() ==> {
                &&& (#[trigger] after_log[i]) matches Event::Sleep { id, found }
                &&& order.contains(id)
                &&& found.is_signaled(id)
            },
    decreases order.len(),
{
    if order.len() > 0 {
        let (before, before_log) = choose|before: DeviceView, before_log: Seq<Event>|
            {
                &&& device.waits_all(
                    log,
                    manager,
                    order.drop_last(),
                    woken.drop_last(),
                    before,
                    before_log,
                )
                &&& #[trigger] before.waits(
                    before_log,
                    order.last(),
                    None,
                    woken.last(),
                    after_log,
                )
                &&& after == woken.last().set_status(
                    manager,
                    order.last(),
                    FenceStatus::Completed,
                )
            };
        law_wait_all_does_nothing_but_sleep(
            device,
            log,
            manager,
            order.drop_last(),
            woken.drop_last(),
            before,
            before_log,
        );
        assert(after_log.take(log.len() as int) =~= before_log.take(log.len() as int));
        assert forall|i: int| log.len() <= i < after_log.len() implies {
            &&& (#[trigger] after_log[i]) matches Event::Sleep { id, found }
            &&& order.contains(id)
            &&& found.is_signaled(id)
        } by {
            if i < before_log.len() {
                assert(after_log[i] == before_log[i]);
                let id = before_log[i]->id;
                assert(order.drop_last().contains(id));
                let j = choose|j: int| 0 <= j < order.len() - 1 && order.drop_last()[j] == id;
                assert(order[j] == id);
            } else {
                assert(order[order.len() - 1] == order.last());
            }
        }
    } else {
        assert(after_log.take(log.len() as int) =~= log);
    }
}

// Queues.

/// A new queue holds no item, its key is not that of the next one, and making it leaves every
/// other queue and the rest of the device as it was.
pub proof fn law_new_queue_is_empty_and_apart(device: DeviceView)
    ensures
        device.new_queue().queue(device.next_queue).len() == 0,
        device.new_queue().next_queue == device.next_queue + 1,
        device.new_queue().same_queues_but(device.next_queue, device),
        device.new_queue().same_fences(device),
        device.new_queue().same_pools(device),
        device.new_queue().same_managers(device),
{
}

/// A produced item waits behind those that waited before it, and nothing else has changed.
pub proof fn law_enqueue_only_adds_its_item(device: DeviceView, queue: nat, item: Seq<char>)
    ensures
        ({
            let before = device.queue(queue);
            let after = device.enqueue(queue, item);
            &&& after.queue(queue).len() == before.len() + 1
            &&& after.queue(queue).last() == item
            &&& forall|i: int|
                0 <= i < before.len() ==> #[trigger] after.queue(queue)[i] == before[i]
            &&& after.next_queue == device.next_queue
            &&& after.same_queues_but(queue, device)
            &&& after.same_fences(device)
            &&& after.same_pools(device)
            &&& after.same_managers(device)
        }),
{
}

/// Emptying a queue leaves no item in it, and does nothing else.
pub proof fn law_drain_only_empties_its_queue(device: DeviceView, queue: nat)
    ensures
        device.with_queue(queue, Seq::empty()).queue(queue).len() == 0,
        device.with_queue(queue, Seq::empty()).next_queue == device.next_queue,
        device.with_queue(queue, Seq::empty()).same_queues_but(queue, device),
        device.with_queue(queue, Seq::empty()).same_fences(device),
        device.with_queue(queue, Seq::empty()).same_pools(device),
        device.with_queue(queue, Seq::empty()).same_managers(device),
{
}

} // verus!
