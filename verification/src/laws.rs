//! What holds of fences, pools, managers and queues whatever is done with them.
//!
//! The laws speak of the operations on a [`DeviceView`] that the contracts of the executable
//! functions are stated with. Those on many operations in a row speak of a run of [`Step`]s.

use crate::model::{DeviceView, EntryView, Event, FenceStatus, FenceView, PoolView};
use crate::sync::Device;
use std::time::{Duration, Instant};
use vstd::prelude::*;

verus! {

/// One operation on a device.
pub enum Step {
    Signal { id: u64, at: Instant },
    Reset { id: u64 },
    Create,
    NewPool,
    Acquire { pool: nat },
    Release { pool: nat, fence: FenceView },
    ClearPool { pool: nat },
    NewManager,
    Register { manager: nat, fence: FenceView },
    SetStatus { manager: nat, id: u64, status: FenceStatus },
    Retire { manager: nat, pool: nat, ids: Seq<u64> },
    NewQueue,
    Enqueue { queue: nat, item: Seq<char> },
    Drain { queue: nat },
}

impl DeviceView {
    /// The device after one operation.
    pub open spec fn step(self, step: Step) -> DeviceView {
        match step {
            Step::Signal { id, at } => self.signal(id, at),
            Step::Reset { id } => self.reset(id),
            Step::Create => self.create(),
            Step::NewPool => self.new_pool(),
            Step::Acquire { pool } => self.acquire(pool),
            Step::Release { pool, fence } => self.release(pool, fence),
            Step::ClearPool { pool } => self.clear_pool(pool),
            Step::NewManager => self.new_manager(),
            Step::Register { manager, fence } => self.register(manager, fence),
            Step::SetStatus { manager, id, status } => self.set_status(manager, id, status),
            Step::Retire { manager, pool, ids } => self.retire(manager, pool, ids),
            Step::NewQueue => self.new_queue(),
            Step::Enqueue { queue, item } => self.enqueue(queue, item),
            Step::Drain { queue } => self.with_queue(queue, Seq::empty()),
        }
    }

    /// The device after a run of operations.
    pub open spec fn run(self, steps: Seq<Step>) -> DeviceView
        decreases steps.len(),
    {
        if steps.len() == 0 {
            self
        } else {
            self.run(steps.drop_last()).step(steps.last())
        }
    }

    /// Whether an operation makes a new fence.
    pub open spec fn makes_fence(self, step: Step) -> bool {
        match step {
            Step::Create => true,
            Step::Acquire { pool } => self.pool(pool).idle.len() == 0,
            _ => false,
        }
    }

    /// Whether an operation puts the fence `id` in the unsignaled state.
    pub open spec fn unsignals(self, step: Step, id: u64) -> bool {
        match step {
            Step::Reset { id: reset } => reset == id,
            Step::Create => self.next_id == id,
            Step::Acquire { pool } => self.next_fence(pool).id == id,
            _ => false,
        }
    }

    /// Whether every manager keeps each of its fences under that fence's own id.
    pub open spec fn kept_by_id(self) -> bool {
        forall|manager: nat, id: u64|
            #![trigger self.manager(manager).contains_key(id)]
            self.manager(manager).contains_key(id) ==> self.manager(manager)[id].fence.id == id
    }
}

// Fences.

/// A signaled fence is signaled, as of the instant of the signal, for everyone who has a handle
/// on it: handles with the same id share one state.
pub proof fn law_signal_is_seen_through_every_handle(
    device: DeviceView,
    fence: FenceView,
    clone: FenceView,
    at: Instant,
)
    requires
        clone.id == fence.id,
    ensures
        device.signal(fence.id, at).is_signaled(clone.id),
        device.signal(fence.id, at).signaled_at(clone.id) == Some(at),
{
}

/// A reset fence is unsignaled, and can be signaled again as if for the first time.
pub proof fn law_reset_allows_reuse(device: DeviceView, id: u64, at: Instant)
    ensures
        !device.reset(id).is_signaled(id),
        device.reset(id).signaled_at(id) is None,
        device.reset(id).signal(id, at) == device.signal(id, at),
        device.signal(id, at).reset(id) == device.reset(id),
{
    assert(device.reset(id).signal(id, at) =~= device.signal(id, at));
    assert(device.signal(id, at).reset(id) =~= device.reset(id));
}

/// Signaling or resetting a fence leaves every other fence as it was.
pub proof fn law_fences_are_independent(device: DeviceView, id: u64, other: u64, at: Instant)
    requires
        id != other,
    ensures
        device.signal(id, at).signaled_at(other) == device.signaled_at(other),
        device.reset(id).signaled_at(other) == device.signaled_at(other),
{
}

/// A new fence is unsignaled, and making it leaves every other fence as it was.
pub proof fn law_new_fence_is_unsignaled(device: DeviceView, other: u64)
    ensures
        !device.create().is_signaled(device.next_id),
        other != device.next_id ==> device.create().signaled_at(other) == device.signaled_at(other),
{
}

/// What releasing several fences makes of the pools.
pub proof fn lemma_release_all_frame(device: DeviceView, key: nat, fences: Seq<FenceView>)
    ensures
        device.release_all(key, fences) == (DeviceView {
            pools: device.release_all(key, fences).pools,
            ..device
        }),
        device.release_all(key, fences).pool(key) == (PoolView {
            idle: device.pool(key).idle + fences,
            ..device.pool(key)
        }),
        forall|other: nat|
            other != key ==> #[trigger] device.release_all(key, fences).pool(other) == device.pool(
                other,
            ),
    decreases fences.len(),
{
    if fences.len() > 0 {
        lemma_release_all_frame(device, key, fences.drop_last());
        assert forall|other: nat| other != key implies #[trigger] device.release_all(
            key,
            fences,
        ).pool(other) == device.pool(other) by {
            assert(device.release_all(key, fences.drop_last()).pool(other) == device.pool(other));
        }
        assert(device.pool(key).idle + fences =~= (device.pool(key).idle
            + fences.drop_last()).push(fences.last()));
    } else {
        assert(device.pool(key).idle + fences =~= device.pool(key).idle);
    }
}

/// Once signaled, a fence stays signaled until it is reset, made anew or handed out by a pool.
pub proof fn law_signaled_until_reset(device: DeviceView, steps: Seq<Step>, id: u64)
    requires
        device.is_signaled(id),
        forall|i: int|
            0 <= i < steps.len() ==> !(#[trigger] device.run(steps.take(i))).unsignals(
                steps[i],
                id,
            ),
    ensures
        device.run(steps).is_signaled(id),
    decreases steps.len(),
{
    if steps.len() > 0 {
        let before = steps.drop_last();
        assert forall|i: int| 0 <= i < before.len() implies !(#[trigger] device.run(
            before.take(i),
        )).unsignals(before[i], id) by {
            assert(before.take(i) =~= steps.take(i));
        }
        law_signaled_until_reset(device, before, id);
        assert(steps.take(steps.len() - 1) =~= before);
        if let Step::Retire { manager, pool, ids } = steps.last() {
            let device = device.run(before);
            lemma_release_all_frame(device, pool, device.fences(manager, ids));
        }
    }
}

/// Once signaled, every wait for a fence is over at once, with or without a limit, until the
/// fence is reset, made anew or handed out by a pool: the session does not sleep, and nothing
/// changes on the device.
pub proof fn law_wait_after_signal_is_over_at_once(
    device: DeviceView,
    id: u64,
    at: Instant,
    steps: Seq<Step>,
    log: Seq<Event>,
    limit: Option<Duration>,
    after: DeviceView,
    after_log: Seq<Event>,
)
    requires
        forall|i: int|
            0 <= i < steps.len() ==> !(#[trigger] device.signal(id, at).run(
                steps.take(i),
            )).unsignals(steps[i], id),
        device.signal(id, at).run(steps).waits(log, id, limit, after, after_log),
    ensures
        after == device.signal(id, at).run(steps),
        after_log == log,
{
    law_signaled_until_reset(device.signal(id, at), steps, id);
}

/// The instant of the latest signal of a fence after a run, where it was not reset, made anew or
/// handed out by a pool since; without a signal or the like in the run, that from before it.
pub open spec fn latest_signal(device: DeviceView, steps: Seq<Step>, id: u64) -> Option<Instant>
    decreases steps.len(),
{
    if steps.len() == 0 {
        device.signaled_at(id)
    } else {
        let before = steps.drop_last();
        match steps.last() {
            Step::Signal { id: signaled, at } if signaled == id => Some(at),
            step => if device.run(before).unsignals(step, id) {
                None
            } else {
                latest_signal(device, before, id)
            },
        }
    }
}

/// A fence is signaled exactly where its latest signal came after whatever unsignaled it, and as
/// of the instant of that signal: nothing but a signal makes a fence signaled.
pub proof fn law_signaled_as_of_the_latest_signal(
    device: DeviceView,
    steps: Seq<Step>,
    id: u64,
)
    ensures
        device.run(steps).signaled_at(id) == latest_signal(device, steps, id),
        device.run(steps).is_signaled(id) == latest_signal(device, steps, id) is Some,
    decreases steps.len(),
{
    if steps.len() > 0 {
        law_signaled_as_of_the_latest_signal(device, steps.drop_last(), id);
        let last = device.run(steps.drop_last());
        if let Step::Retire { manager, pool, ids } = steps.last() {
            lemma_release_all_frame(last, pool, last.fences(manager, ids));
        }
    }
}

/// A signal is seen by every later session, whichever thread opens it: where what the session
/// gets was made of what another one left after the signal, and the fence was not reset, made
/// anew or handed out by a pool meanwhile, the fence is signaled, and a wait for it is over at
/// once.
pub proof fn law_signal_is_seen_by_later_sessions(
    before: DeviceView,
    id: u64,
    at: Instant,
    steps: Seq<Step>,
    device: Device,
    left: DeviceView,
    limit: Option<Duration>,
    after: DeviceView,
    after_log: Seq<Event>,
)
    requires
        left == before.signal(id, at).run(steps),
        forall|i: int|
            0 <= i < steps.len() ==> !(#[trigger] before.signal(id, at).run(
                steps.take(i),
            )).unsignals(steps[i], id),
        left.waits(
            seq![Event::Open { device }, Event::Lock { left }],
            id,
            limit,
            after,
            after_log,
        ),
    ensures
        left.is_signaled(id),
        after == left,
        after_log == seq![Event::Open { device }, Event::Lock { left }],
{
    law_signaled_until_reset(before.signal(id, at), steps, id);
}

/// A wait for an unsignaled fence sleeps, and without a limit it ends no sooner than the fence
/// is signaled.
pub proof fn law_wait_blocks_until_signaled(
    device: DeviceView,
    id: u64,
    log: Seq<Event>,
    limit: Option<Duration>,
    after: DeviceView,
    after_log: Seq<Event>,
)
    requires
        !device.is_signaled(id),
        device.waits(log, id, limit, after, after_log),
    ensures
        after_log.len() > log.len(),
        match limit {
            Some(limit) => {
                &&& after_log[log.len() as int] matches Event::Nap { limit: most, .. } && most
                    == limit
                &&& after_log.last() matches Event::Nap { seen, .. } && seen == after
            },
            None => after_log.last() == (Event::Sleep { id, found: after }),
        },
        limit is None ==> after.is_signaled(id),
{
}

/// A timed wait for a fence that no other thread signals or resets meanwhile finds the fence as
/// it was: the wait ends with the fence signaled if and only if it began so. Where the other
/// threads do nothing at all meanwhile, the wait changes nothing on the device.
pub proof fn law_timed_wait_alone_changes_nothing(
    device: DeviceView,
    id: u64,
    log: Seq<Event>,
    limit: Duration,
    after: DeviceView,
    after_log: Seq<Event>,
)
    requires
        device.waits(log, id, Some(limit), after, after_log),
        !device.is_signaled(id) ==> !after_log.last()->seen.is_signaled(id),
    ensures
        after.signaled_at(id) == device.signaled_at(id),
        after.is_signaled(id) == device.is_signaled(id),
        device.is_signaled(id) || after_log.last()->seen == device ==> after == device,
{
}

/// A timed wait ends with the fence unsignaled only when the condition variable has reported that
/// what was left of the limit is over, unless it was woken too often to count.
pub proof fn law_timeout_means_the_limit_is_over(
    device: DeviceView,
    id: u64,
    log: Seq<Event>,
    limit: Duration,
    after: DeviceView,
    after_log: Seq<Event>,
)
    requires
        device.waits(log, id, Some(limit), after, after_log),
        !after.is_signaled(id),
        after_log.len() - log.len() < u64::MAX,
    ensures
        after_log.last() matches Event::Nap { seen, over: true, .. } && seen == after,
{
}

/// How many fences a run makes.
pub open spec fn fences_made(device: DeviceView, steps: Seq<Step>) -> nat
    decreases steps.len(),
{
    if steps.len() == 0 {
        0
    } else {
        let before = steps.drop_last();
        fences_made(device, before) + if device.run(before).makes_fence(steps.last()) {
            1nat
        } else {
            0nat
        }
    }
}

/// The id of the next fence counts the fences that were made, modulo the range of `u64`.
proof fn lemma_next_id_counts(device: DeviceView, steps: Seq<Step>)
    ensures
        device.run(steps).next_id == (device.next_id + fences_made(device, steps)) % (u64::MAX + 1),
    decreases steps.len(),
{
    if steps.len() > 0 {
        let before = steps.drop_last();
        lemma_next_id_counts(device, before);
        let last = device.run(before);
        if let Step::Retire { manager, pool, ids } = steps.last() {
            lemma_release_all_frame(last, pool, last.fences(manager, ids));
        }
    }
}

proof fn lemma_fences_made_between(device: DeviceView, steps: Seq<Step>, i: int, j: int)
    requires
        0 <= i <= j <= steps.len(),
    ensures
        fences_made(device, steps.take(i)) <= fences_made(device, steps.take(j)) <= fences_made(
            device,
            steps.take(i),
        ) + (j - i),
    decreases j - i,
{
    if i < j {
        lemma_fences_made_between(device, steps, i, j - 1);
        assert(steps.take(j).drop_last() =~= steps.take(j - 1));
    }
}

/// Fences have unique ids: of the fences that are made in a run, no two have the same id, as
/// long as the run makes no more of them than there are ids but one.
pub proof fn law_new_fences_have_distinct_ids(
    device: DeviceView,
    steps: Seq<Step>,
    first: int,
    second: int,
)
    requires
        0 <= first < second < steps.len(),
        fences_made(device, steps) <= u64::MAX,
        device.run(steps.take(first)).makes_fence(steps[first]),
        device.run(steps.take(second)).makes_fence(steps[second]),
    ensures
        device.run(steps.take(first)).next_id != device.run(steps.take(second)).next_id,
{
    lemma_next_id_counts(device, steps.take(first));
    lemma_next_id_counts(device, steps.take(second));
    assert(steps.take(first + 1).drop_last() =~= steps.take(first));
    lemma_fences_made_between(device, steps, first + 1, second);
    lemma_fences_made_between(device, steps, second, steps.len() as int);
    assert(steps.take(steps.len() as int) =~= steps);
}

/// Fences are numbered from 1 on in the order in which they are made, on an empty device and on
/// any device where they were: until the numbers run out, the next id is one more than the number
/// of fences made so far. So no fence has the id 0, and a new fence has an id that none of those
/// made before it on the device has.
pub proof fn law_fences_are_numbered_from_one(device: DeviceView, steps: Seq<Step>)
    requires
        device.numbers_fences(),
    ensures
        DeviceView::empty().numbers_fences(),
        device.run(steps).numbers_fences(),
        device.run(steps).made == device.made + fences_made(device, steps),
        device.run(steps).made < u64::MAX ==> device.run(steps).next_id == device.run(steps).made
            + 1,
    decreases steps.len(),
{
    if steps.len() > 0 {
        let last = device.run(steps.drop_last());
        let after = device.run(steps);
        law_fences_are_numbered_from_one(device, steps.drop_last());
        if let Step::Retire { manager, pool, ids } = steps.last() {
            lemma_release_all_frame(last, pool, last.fences(manager, ids));
        }
        if last.makes_fence(steps.last()) {
            assert(after.made == last.made + 1 && after.next_id == last.next_id.wrapping_add(1));
            lemma_next_number(last.made, last.next_id);
        } else {
            assert(after.made == last.made && after.next_id == last.next_id);
        }
    }
}

/// The number after a number.
proof fn lemma_next_number(made: nat, id: u64)
    requires
        id == (1 + made as int) % (u64::MAX + 1),
    ensures
        id.wrapping_add(1) == (2 + made as int) % (u64::MAX + 1),
{
}

// Pools.

/// A fence that a pool hands out is unsignaled, and no other fence is touched by it.
pub proof fn law_acquired_fence_is_unsignaled(device: DeviceView, pool: nat, other: u64)
    ensures
        !device.acquire(pool).is_signaled(device.next_fence(pool).id),
        other != device.next_fence(pool).id ==> device.acquire(pool).signaled_at(other)
            == device.signaled_at(other),
{
}

/// A fence that was released is the next to be handed out, with its label, and the pool then
/// holds what it held before.
pub proof fn law_release_then_acquire(device: DeviceView, pool: nat, fence: FenceView)
    ensures
        device.release(pool, fence).next_fence(pool) == fence,
        !device.release(pool, fence).makes_fence(Step::Acquire { pool }),
        device.release(pool, fence).acquire(pool).pool(pool) == (PoolView {
            reused: device.pool(pool).reused.wrapping_add(1),
            ..device.pool(pool)
        }),
        device.release(pool, fence).acquire(pool).next_id == device.next_id,
{
    assert(device.pool(pool).idle.push(fence).drop_last() =~= device.pool(pool).idle);
}

/// An empty pool makes a new fence, without a label.
pub proof fn law_empty_pool_makes_a_fence(device: DeviceView, pool: nat)
    requires
        device.pool(pool).idle.len() == 0,
    ensures
        device.next_fence(pool) == (FenceView { id: device.next_id, label: Seq::empty() }),
        device.acquire(pool).pool(pool) == (PoolView {
            created: device.pool(pool).created.wrapping_add(1),
            ..device.pool(pool)
        }),
        device.acquire(pool).next_id == device.next_id.wrapping_add(1),
{
}

/// How often a run takes a fence from a pool.
pub open spec fn acquisitions(steps: Seq<Step>, pool: nat) -> nat
    decreases steps.len(),
{
    if steps.len() == 0 {
        0
    } else {
        acquisitions(steps.drop_last(), pool) + if steps.last() == (Step::Acquire { pool }) {
            1nat
        } else {
            0nat
        }
    }
}

/// The number of created and the number of reused fences of a pool together count the
/// acquisitions, directly or through whatever manager: each raises one of the two by one, and
/// nothing else raises either.
pub proof fn law_created_and_reused_count_acquisitions(
    device: DeviceView,
    steps: Seq<Step>,
    pool: nat,
)
    requires
        pool < device.next_pool,
        device.pool(pool).created + device.pool(pool).reused + acquisitions(steps, pool)
            <= u64::MAX,
    ensures
        device.run(steps).pool(pool).created + device.run(steps).pool(pool).reused == device.pool(
            pool,
        ).created + device.pool(pool).reused + acquisitions(steps, pool),
        pool < device.run(steps).next_pool,
    decreases steps.len(),
{
    if steps.len() > 0 {
        let before = steps.drop_last();
        law_created_and_reused_count_acquisitions(device, before, pool);
        let last = device.run(before);
        if let Step::Retire { manager, pool: into, ids } = steps.last() {
            let fences = last.fences(manager, ids);
            lemma_release_all_frame(last, into, fences);
            assert(device.run(steps).pool(pool) == last.release_all(into, fences).pool(pool));
        }
    }
}

/// The total that a pool gives is the number of acquisitions since the pool was made, where that
/// number fits in the counters.
pub proof fn law_total_is_the_number_of_acquisitions(device: DeviceView, steps: Seq<Step>)
    requires
        acquisitions(steps, device.next_pool) <= u64::MAX,
    ensures
        ({
            let pool = device.new_pool().run(steps).pool(device.next_pool);
            pool.created + pool.reused == acquisitions(steps, device.next_pool)
        }),
{
    law_created_and_reused_count_acquisitions(device.new_pool(), steps, device.next_pool);
}

/// What happens to one pool leaves every other pool as it was.
pub proof fn law_pools_are_independent(
    device: DeviceView,
    pool: nat,
    other: nat,
    fence: FenceView,
)
    requires
        pool != other,
    ensures
        device.acquire(pool).pool(other) == device.pool(other),
        device.release(pool, fence).pool(other) == device.pool(other),
        device.clear_pool(pool).pool(other) == device.pool(other),
{
}

/// Clearing a pool empties it and keeps what it has counted.
pub proof fn law_clear_keeps_counts(device: DeviceView, pool: nat)
    ensures
        device.clear_pool(pool).pool(pool).idle.len() == 0,
        device.clear_pool(pool).pool(pool).created == device.pool(pool).created,
        device.clear_pool(pool).pool(pool).reused == device.pool(pool).reused,
        device.clear_pool(pool).makes_fence(Step::Acquire { pool }),
{
}

// Managers.

/// Every manager keeps its fences under their own ids: on an empty device, and after any run on
/// a device where it held.
pub proof fn law_managers_keep_fences_by_id(device: DeviceView, steps: Seq<Step>)
    ensures
        DeviceView::empty().kept_by_id(),
        device.kept_by_id() ==> device.run(steps).kept_by_id(),
    decreases steps.len(),
{
    if steps.len() > 0 {
        law_managers_keep_fences_by_id(device, steps.drop_last());
        let last = device.run(steps.drop_last());
        let after = device.run(steps);
        if device.kept_by_id() {
            if let Step::Retire { manager, pool, ids } = steps.last() {
                lemma_release_all_frame(last, pool, last.fences(manager, ids));
            }
            assert forall|manager: nat, id: u64|
                #![trigger after.manager(manager).contains_key(id)]
                after.manager(manager).contains_key(id) implies after.manager(
                manager,
            )[id].fence.id == id by {
                assert(last.manager(manager).contains_key(id) ==> last.manager(
                    manager,
                )[id].fence.id == id);
            }
        }
    }
}

/// A created fence is active and unsignaled, and the manager keeps every other fence as it did.
pub proof fn law_created_fence_is_active(
    device: DeviceView,
    manager: nat,
    pool: nat,
    fence: FenceView,
    other: u64,
)
    requires
        fence.id == device.next_fence(pool).id,
    ensures
        device.acquire(pool).register(manager, fence).status(manager, fence.id) == Some(
            FenceStatus::Active,
        ),
        !device.acquire(pool).register(manager, fence).is_signaled(fence.id),
        other != fence.id ==> device.acquire(pool).register(manager, fence).entry(manager, other)
            == device.entry(manager, other),
{
}

/// Signaling a fence through its manager completes it, whatever its status was, and leaves the
/// status of every other fence as it was.
pub proof fn law_signal_completes(
    device: DeviceView,
    manager: nat,
    id: u64,
    at: Instant,
    other: u64,
)
    requires
        device.entry(manager, id) is Some,
    ensures
        device.signal(id, at).set_status(manager, id, FenceStatus::Completed).is_signaled(id),
        device.signal(id, at).set_status(manager, id, FenceStatus::Completed).status(manager, id)
            == Some(FenceStatus::Completed),
        other != id ==> device.signal(id, at).set_status(
            manager,
            id,
            FenceStatus::Completed,
        ).status(manager, other) == device.status(manager, other),
{
}

/// What happens to the fences of one manager leaves every other manager as it was.
pub proof fn law_managers_are_independent(
    device: DeviceView,
    manager: nat,
    other: nat,
    fence: FenceView,
    id: u64,
    status: FenceStatus,
    pool: nat,
    ids: Seq<u64>,
)
    requires
        manager != other,
    ensures
        device.register(manager, fence).manager(other) == device.manager(other),
        device.set_status(manager, id, status).manager(other) == device.manager(other),
        device.retire(manager, pool, ids).manager(other) == device.manager(other),
{
    lemma_release_all_frame(device, pool, device.fences(manager, ids));
}

/// Every fence that a manager keeps is active, completed or timed out.
pub proof fn law_statuses_add_up(entries: Map<u64, EntryView>)
    requires
        entries.dom().finite(),
    ensures
        EntryView::ids_with(entries, FenceStatus::Active).len() + EntryView::ids_with(
            entries,
            FenceStatus::Completed,
        ).len() + EntryView::ids_with(entries, FenceStatus::TimedOut).len() == entries.len(),
{
    let active = EntryView::ids_with(entries, FenceStatus::Active);
    let completed = EntryView::ids_with(entries, FenceStatus::Completed);
    let timed_out = EntryView::ids_with(entries, FenceStatus::TimedOut);
    vstd::set_lib::lemma_set_disjoint_lens(active, completed);
    vstd::set_lib::lemma_set_disjoint_lens(active + completed, timed_out);
    assert(active + completed + timed_out =~= entries.dom());
}

/// Cleaning up removes the completed fences and no others, and puts them in the pool; what is
/// active stays active, and no fence changes its state.
pub proof fn law_cleanup_removes_completed(
    device: DeviceView,
    manager: nat,
    pool: nat,
    order: Seq<u64>,
)
    requires
        device.manager(manager).dom().finite(),
        order.no_duplicates(),
        order.to_set() == device.ids_with(manager, FenceStatus::Completed),
    ensures
        device.retire(manager, pool, order).ids_with(manager, FenceStatus::Completed).is_empty(),
        device.retire(manager, pool, order).ids_with(manager, FenceStatus::Active)
            == device.ids_with(manager, FenceStatus::Active),
        device.retire(manager, pool, order).ids_with(manager, FenceStatus::TimedOut)
            == device.ids_with(manager, FenceStatus::TimedOut),
        device.retire(manager, pool, order).manager(manager).len() == device.manager(manager).len()
            - order.len(),
        device.retire(manager, pool, order).pool(pool).idle == device.pool(pool).idle
            + device.fences(manager, order),
        device.retire(manager, pool, order).signaled == device.signaled,
{
    let after = device.retire(manager, pool, order);
    lemma_release_all_frame(device, pool, device.fences(manager, order));
    order.unique_seq_to_set();
    device.manager(manager).lemma_remove_keys_len(order.to_set());
    assert(after.ids_with(manager, FenceStatus::Completed) =~= Set::empty());
    assert(after.ids_with(manager, FenceStatus::Active) =~= device.ids_with(
        manager,
        FenceStatus::Active,
    ));
    assert(after.ids_with(manager, FenceStatus::TimedOut) =~= device.ids_with(
        manager,
        FenceStatus::TimedOut,
    ));
}

/// After a cleanup that removed a fence, the pool hands a removed fence out again in place of a
/// new one.
pub proof fn law_cleanup_feeds_the_pool(
    device: DeviceView,
    manager: nat,
    pool: nat,
    order: Seq<u64>,
)
    requires
        order.len() > 0,
    ensures
        device.retire(manager, pool, order).next_fence(pool) == device.manager(
            manager,
        )[order.last()].fence,
        !device.retire(manager, pool, order).makes_fence(Step::Acquire { pool }),
{
    lemma_release_all_frame(device, pool, device.fences(manager, order));
}

/// Once all active fences are signaled, waiting for all of them leaves none active, completes
/// exactly those, and loses none.
pub proof fn law_wait_all_completes_active(device: DeviceView, manager: nat)
    ensures
        ({
            let active = device.ids_with(manager, FenceStatus::Active);
            let completed = device.ids_with(manager, FenceStatus::Completed);
            let after = device.set_statuses(manager, active, FenceStatus::Completed);
            &&& after.ids_with(manager, FenceStatus::Active).is_empty()
            &&& after.ids_with(manager, FenceStatus::Completed) == completed + active
            &&& after.manager(manager).dom() == device.manager(manager).dom()
            &&& after.signaled == device.signaled
        }),
{
    let active = device.ids_with(manager, FenceStatus::Active);
    let completed = device.ids_with(manager, FenceStatus::Completed);
    let after = device.set_statuses(manager, active, FenceStatus::Completed);
    assert forall|id: u64| active.contains(id) implies !active.disjoint(
        device.manager(manager).dom(),
    ) by {
        assert(device.manager(manager).dom().contains(id));
    }
    assert(after.ids_with(manager, FenceStatus::Active) =~= Set::empty());
    assert(after.ids_with(manager, FenceStatus::Completed) =~= completed + active);
    assert(after.manager(manager).dom() =~= device.manager(manager).dom());
}

/// A timed wait through the manager, while no other thread is on the device, completes a signaled
/// fence and times out an unsignaled one, whatever its status was, and does nothing else: it
/// keeps the other statuses, every entry, the pools and the state of every fence.
pub proof fn law_timed_wait_through_manager_alone(
    device: DeviceView,
    manager: nat,
    id: u64,
    log: Seq<Event>,
    limit: Duration,
    woken: DeviceView,
    after_log: Seq<Event>,
    other: u64,
)
    requires
        device.entry(manager, id) is Some,
        device.waits(log, id, Some(limit), woken, after_log),
        !device.is_signaled(id) ==> after_log.last()->seen == device,
    ensures
        ({
            let status = if device.is_signaled(id) {
                FenceStatus::Completed
            } else {
                FenceStatus::TimedOut
            };
            let after = woken.set_status(manager, id, woken.outcome(id));
            &&& woken.outcome(id) == status
            &&& after.status(manager, id) == Some(status)
            &&& other != id ==> after.entry(manager, other) == device.entry(manager, other)
            &&& after.manager(manager).dom() == device.manager(manager).dom()
            &&& after.pools == device.pools
            &&& after.signaled == device.signaled
        }),
{
    let after = woken.set_status(manager, id, woken.outcome(id));
    assert(after.manager(manager).dom() =~= device.manager(manager).dom());
}

impl DeviceView {
    /// What the session leaves before it waits for `ids[i]`, where it waits for the fences `ids`
    /// one after the other and finds `woken`.
    pub open spec fn before_wait(
        self,
        key: nat,
        ids: Seq<u64>,
        woken: Seq<DeviceView>,
        i: int,
    ) -> DeviceView {
        if i <= 0 {
            self
        } else {
            woken[i - 1].set_status(key, ids[i - 1], FenceStatus::Completed)
        }
    }
}

/// Waiting for several fences waits for each of them: when its wait is over, the fence is
/// signaled. The wait is over at once where the fence is signaled already; else the session
/// slept for it, and found what its log says.
pub proof fn law_wait_all_waits_for_each(
    device: DeviceView,
    log: Seq<Event>,
    manager: nat,
    order: Seq<u64>,
    woken: Seq<DeviceView>,
    after: DeviceView,
    after_log: Seq<Event>,
    i: int,
)
    requires
        device.waits_all(log, manager, order, woken, after, after_log),
        0 <= i < order.len(),
    ensures
        woken[i].is_signaled(order[i]),
        ({
            let before = device.before_wait(manager, order, woken, i);
            if before.is_signaled(order[i]) {
                woken[i] == before
            } else {
                after_log.contains(Event::Sleep { id: order[i], found: woken[i] })
            }
        }),
        after == device.before_wait(manager, order, woken, order.len() as int),
    decreases order.len(),
{
    let (before, before_log) = choose|before: DeviceView, before_log: Seq<Event>|
        {
            &&& device.waits_all(
                log,
                manager,
                order.drop_last(),
                woken.drop_last(),
                before,
                before_log,
            )
            &&& #[trigger] before.waits(before_log, order.last(), None, woken.last(), after_log)
            &&& after == woken.last().set_status(manager, order.last(), FenceStatus::Completed)
        };
    let sleep = Event::Sleep { id: order[i], found: woken[i] };
    if i == order.len() - 1 {
        if order.len() > 1 {
            law_wait_all_waits_for_each(
                device,
                log,
                manager,
                order.drop_last(),
                woken.drop_last(),
                before,
                before_log,
                i - 1,
            );
        }
        if !before.is_signaled(order[i]) {
            assert(after_log[before_log.len() as int] == sleep);
        }
    } else {
        law_wait_all_waits_for_each(
            device,
            log,
            manager,
            order.drop_last(),
            woken.drop_last(),
            before,
            before_log,
            i,
        );
        if before_log.contains(sleep) {
            let j = choose|j: int| 0 <= j < before_log.len() && before_log[j] == sleep;
            assert(after_log[j] == sleep);
        }
    }
}

impl DeviceView {
    /// Whether other threads, which made `found` of this device, left the manager alone and
    /// reset none of the fences `ids`.
    pub open spec fn left_alone(self, manager: nat, ids: Set<u64>, found: DeviceView) -> bool {
        &&& found.manager(manager) == self.manager(manager)
        &&& forall|id: u64|
            ids.contains(id) && #[trigger] self.is_signaled(id) ==> found.is_signaled(id)
    }
}

/// The first `n` waits.
proof fn lemma_wait_all_alone(
    device: DeviceView,
    log: Seq<Event>,
    manager: nat,
    order: Seq<u64>,
    woken: Seq<DeviceView>,
    after: DeviceView,
    after_log: Seq<Event>,
    n: int,
)
    requires
        device.waits_all(log, manager, order, woken, after, after_log),
        forall|i: int|
            0 <= i < order.len() ==> device.before_wait(manager, order, woken, i).left_alone(
                manager,
                order.to_set(),
                #[trigger] woken[i],
            ),
        0 <= n <= order.len(),
    ensures
        device.before_wait(manager, order, woken, n).manager(manager) == device.set_statuses(
            manager,
            order.take(n).to_set(),
            FenceStatus::Completed,
        ).manager(manager),
        forall|j: int|
            0 <= j < n ==> device.before_wait(manager, order, woken, n).is_signaled(
                #[trigger] order[j],
            ),
    decreases n,
{
    if n > 0 {
        let before = device.before_wait(manager, order, woken, n - 1);
        let id = order[n - 1];
        let found = woken[n - 1];
        lemma_wait_all_alone(device, log, manager, order, woken, after, after_log, n - 1);
        law_wait_all_waits_for_each(device, log, manager, order, woken, after, after_log, n - 1);
        assert(before.left_alone(manager, order.to_set(), found));
        let waited = order.take(n - 1);
        let done = waited.to_set();
        device.lemma_set_statuses_insert(manager, done, id, FenceStatus::Completed);
        assert(order.take(n) =~= waited.push(id));
        assert(order.take(n).to_set() =~= done.insert(id)) by {
            assert forall|k: u64| done.insert(id).contains(k) implies order.take(n).contains(k) by {
                if k == id {
                    assert(order.take(n)[n - 1] == k);
                } else {
                    let j = choose|j: int| 0 <= j < waited.len() && waited[j] == k;
                    assert(order.take(n)[j] == k);
                }
            }
        }
        assert forall|j: int| 0 <= j < n implies device.before_wait(
            manager,
            order,
            woken,
            n,
        ).is_signaled(#[trigger] order[j]) by {
            assert(order.to_set().contains(order[j]));
            if j < n - 1 {
                assert(before.is_signaled(order[j]));
            }
        }
    } else {
        assert(order.take(0).to_set() =~= Set::empty());
    }
}

/// Waiting for all active fences, however often the session has to sleep: where the other
/// threads leave the manager alone meanwhile, and reset none of the active fences, all of them
/// are signaled in the end, exactly they have become completed, every other status is as it was,
/// and no fence is lost or added.
pub proof fn law_wait_all_alone_completes_active(
    device: DeviceView,
    log: Seq<Event>,
    manager: nat,
    order: Seq<u64>,
    woken: Seq<DeviceView>,
    after: DeviceView,
    after_log: Seq<Event>,
)
    requires
        device.waits_all(log, manager, order, woken, after, after_log),
        order.to_set() == device.ids_with(manager, FenceStatus::Active),
        forall|i: int|
            0 <= i < order.len() ==> device.before_wait(manager, order, woken, i).left_alone(
                manager,
                order.to_set(),
                #[trigger] woken[i],
            ),
    ensures
        forall|id: u64| #[trigger]
            device.ids_with(manager, FenceStatus::Active).contains(id) ==> after.is_signaled(id),
        forall|id: u64| #[trigger]
            after.status(manager, id) == if device.status(manager, id) == Some(
                FenceStatus::Active,
            ) {
                Some(FenceStatus::Completed)
            } else {
                device.status(manager, id)
            },
        after.manager(manager).dom() == device.manager(manager).dom(),
        after.ids_with(manager, FenceStatus::Active).is_empty(),
{
    let active = device.ids_with(manager, FenceStatus::Active);
    let done = device.set_statuses(manager, active, FenceStatus::Completed);
    let len = order.len() as int;
    lemma_wait_all_alone(device, log, manager, order, woken, after, after_log, len);
    assert(order.take(len) =~= order);
    if len > 0 {
        law_wait_all_waits_for_each(device, log, manager, order, woken, after, after_log, 0);
    }
    assert(after.manager(manager) == done.manager(manager));
    assert forall|id: u64| #[trigger] active.contains(id) implies after.is_signaled(id) by {
        assert(order.to_set().contains(id));
        let j = choose|j: int| 0 <= j < order.len() && order[j] == id;
        assert(after.is_signaled(order[j]));
    }
    law_wait_all_completes_active(device, manager);
    assert forall|id: u64| #[trigger]
        after.status(manager, id) == if device.status(manager, id) == Some(FenceStatus::Active) {
            Some(FenceStatus::Completed)
        } else {
            device.status(manager, id)
        } by {
        if device.status(manager, id) == Some(FenceStatus::Active) {
            assert(active.contains(id));
            assert(device.manager(manager).dom().contains(id));
            assert(!active.disjoint(device.manager(manager).dom()));
        }
    }
    assert(after.ids_with(manager, FenceStatus::Active) =~= Set::empty());
}

/// Waiting for all active fences puts none in a pool and takes none: a pool that the other
/// threads leave alone is as it was.
pub proof fn law_wait_all_leaves_pools_alone(
    device: DeviceView,
    log: Seq<Event>,
    manager: nat,
    order: Seq<u64>,
    woken: Seq<DeviceView>,
    after: DeviceView,
    after_log: Seq<Event>,
    pool: nat,
)
    requires
        device.waits_all(log, manager, order, woken, after, after_log),
        forall|i: int|
            0 <= i < order.len() ==> (#[trigger] woken[i]).pool(pool) == device.before_wait(
                manager,
                order,
                woken,
                i,
            ).pool(pool),
    ensures
        after.pool(pool) == device.pool(pool),
    decreases order.len(),
{
    if order.len() > 0 {
        let (before, before_log) = choose|before: DeviceView, before_log: Seq<Event>|
            {
                &&& device.waits_all(
                    log,
                    manager,
                    order.drop_last(),
                    woken.drop_last(),
                    before,
                    before_log,
                )
                &&& #[trigger] before.waits(
                    before_log,
                    order.last(),
                    None,
                    woken.last(),
                    after_log,
                )
                &&& after == woken.last().set_status(
                    manager,
                    order.last(),
                    FenceStatus::Completed,
                )
            };
        let earlier = order.drop_last();
        assert forall|i: int| 0 <= i < earlier.len() implies (
        #[trigger] woken.drop_last()[i]).pool(pool) == device.before_wait(
            manager,
            earlier,
            woken.drop_last(),
            i,
        ).pool(pool) by {
            assert(woken[i].pool(pool) == device.before_wait(manager, order, woken, i).pool(pool));
        }
        law_wait_all_leaves_pools_alone(
            device,
            log,
            manager,
            earlier,
            woken.drop_last(),
            before,
            before_log,
            pool,
        );
        if earlier.len() > 0 {
            law_wait_all_waits_for_each(
                device,
                log,
                manager,
                earlier,
                woken.drop_last(),
                before,
                before_log,
                0,
            );
        }
        assert(woken[order.len() - 1].pool(pool) == before.pool(pool));
    }
}

// Queues.

/// The items that a run puts in a queue, in order.
pub open spec fn produced(steps: Seq<Step>, queue: nat) -> Seq<Seq<char>>
    decreases steps.len(),
{
    if steps.len() == 0 {
        Seq::empty()
    } else {
        let before = produced(steps.drop_last(), queue);
        match steps.last() {
            Step::Enqueue { queue: into, item } => if into == queue {
                before.push(item)
            } else {
                before
            },
            _ => before,
        }
    }
}

/// Items come out in the order in which they were produced: a queue that is not emptied
/// meanwhile holds what it held, and after that what was produced, in order.
pub proof fn law_items_keep_their_order(device: DeviceView, steps: Seq<Step>, queue: nat)
    requires
        queue < device.next_queue,
        forall|i: int|
            0 <= i < steps.len() ==> (#[trigger] steps[i]) != (Step::Drain { queue }),
    ensures
        device.run(steps).queue(queue) == device.queue(queue) + produced(steps, queue),
        queue < device.run(steps).next_queue,
    decreases steps.len(),
{
    if steps.len() > 0 {
        let before = steps.drop_last();
        assert forall|i: int| 0 <= i < before.len() implies (#[trigger] before[i]) != (
        Step::Drain { queue }) by {
            assert(before[i] == steps[i]);
        }
        law_items_keep_their_order(device, before, queue);
        assert(steps[steps.len() - 1] == steps.last());
        let last = device.run(before);
        if let Step::Retire { manager, pool, ids } = steps.last() {
            lemma_release_all_frame(last, pool, last.fences(manager, ids));
        }
        assert(device.run(steps).queue(queue) =~= device.queue(queue) + produced(steps, queue));
    } else {
        assert(device.queue(queue) + produced(steps, queue) =~= device.queue(queue));
    }
}

/// The items that a run takes out of a queue, in order.
pub open spec fn consumed(device: DeviceView, steps: Seq<Step>, queue: nat) -> Seq<Seq<char>>
    decreases steps.len(),
{
    if steps.len() == 0 {
        Seq::empty()
    } else {
        let before = steps.drop_last();
        let taken = consumed(device, before, queue);
        if steps.last() == (Step::Drain { queue }) {
            taken + device.run(before).queue(queue)
        } else {
            taken
        }
    }
}

/// No item is lost, doubled or moved: what has been consumed, however often, and after that what
/// still waits, is what the queue held at first and after that what was produced.
pub proof fn law_consumed_and_pending_are_what_was_produced(
    device: DeviceView,
    steps: Seq<Step>,
    queue: nat,
)
    requires
        queue < device.next_queue,
    ensures
        consumed(device, steps, queue) + device.run(steps).queue(queue) == device.queue(queue)
            + produced(steps, queue),
        queue < device.run(steps).next_queue,
    decreases steps.len(),
{
    if steps.len() > 0 {
        let before = steps.drop_last();
        law_consumed_and_pending_are_what_was_produced(device, before, queue);
        let last = device.run(before);
        if let Step::Retire { manager, pool, ids } = steps.last() {
            lemma_release_all_frame(last, pool, last.fences(manager, ids));
        }
        let taken = consumed(device, before, queue);
        if let Step::Enqueue { queue: into, item } = steps.last() {
            if into == queue {
                assert(taken + last.queue(queue).push(item) =~= (taken + last.queue(queue)).push(
                    item,
                ));
                assert(device.queue(queue) + produced(before, queue).push(item) =~= (device.queue(
                    queue,
                ) + produced(before, queue)).push(item));
            }
        }
        if steps.last() == (Step::Drain { queue }) {
            assert(taken + last.queue(queue) + Seq::<Seq<char>>::empty() =~= taken + last.queue(
                queue,
            ));
        }
    } else {
        assert(consumed(device, steps, queue) + device.queue(queue) =~= device.queue(queue)
            + produced(steps, queue));
    }
}

/// What a pair consumes from its making on, however often, and after that what still waits, is
/// exactly what was produced into it since, in order, whatever the other pairs hold.
pub proof fn law_pair_consumes_what_it_produced(device: DeviceView, steps: Seq<Step>)
    ensures
        consumed(device.new_queue(), steps, device.next_queue) + device.new_queue().run(
            steps,
        ).queue(device.next_queue) == produced(steps, device.next_queue),
{
    let made = device.new_queue();
    law_consumed_and_pending_are_what_was_produced(made, steps, device.next_queue);
    assert(made.queue(device.next_queue) + produced(steps, device.next_queue) =~= produced(
        steps,
        device.next_queue,
    ));
}

/// Consuming takes every item: what was consumed is not there any more.
pub proof fn law_consumed_items_are_gone(device: DeviceView, queue: nat, other: nat)
    ensures
        device.with_queue(queue, Seq::empty()).queue(queue).len() == 0,
        other != queue ==> device.with_queue(queue, Seq::empty()).queue(other) == device.queue(
            other,
        ),
{
}

} // verus!
