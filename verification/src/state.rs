//! What a device holds.

use crate::manager::ManagerState;
use crate::model::{DeviceView, EntryView, PoolView};
use crate::pool::PoolState;
use crate::table::Table;
use std::collections::HashMap;
use std::time::Instant;
use vstd::prelude::*;

verus! {

broadcast use vstd::std_specs::hash::group_hash_axioms;

/// The id of the next fence, and how many fences were made before it.
struct Counter {
    next: u64,
    made: Ghost<nat>,
}

impl Counter {
    #[verifier::type_invariant]
    spec fn counts(self) -> bool {
        self.next == (1 + self.made@ as int) % (u64::MAX + 1)
    }

    /// The counter one fence later.
    fn advanced(&self) -> (counter: Counter)
        ensures
            counter.next == self.next.wrapping_add(1),
            counter.made@ == self.made@ + 1,
    {
        proof {
            use_type_invariant(self);
        }
        Counter { next: self.next.wrapping_add(1), made: Ghost(self.made@ + 1) }
    }
}

/// Everything that a device holds.
pub struct DeviceState {
    ids: Counter,
    signaled: HashMap<u64, Instant>,
    pools: Table<PoolState>,
    managers: Table<ManagerState>,
    queues: Table<Vec<String>>,
}

impl View for DeviceState {
    type V = DeviceView;

    closed spec fn view(&self) -> DeviceView {
        DeviceView {
            made: self.ids.made@,
            next_id: self.ids.next,
            next_pool: self.pools.next_key(),
            next_manager: self.managers.next_key(),
            next_queue: self.queues.next_key(),
            signaled: self.signaled@,
            pools: self.pools.contents().map_values(|pool: PoolState| pool@),
            managers: self.managers.contents().map_values(|manager: ManagerState| manager@),
            queues: self.queues.contents().map_values(
                |items: Vec<String>| items@.map_values(|item: String| item@),
            ),
        }
    }
}

impl DeviceState {
    pub(crate) fn new() -> (state: DeviceState)
        ensures
            state@ == DeviceView::empty(),
    {
        let state = DeviceState {
            ids: Counter { next: 1, made: Ghost(0) },
            signaled: HashMap::new(),
            pools: Table::new(),
            managers: Table::new(),
            queues: Table::new(),
        };
        assert(state@ =~= DeviceView::empty());
        state
    }

    /// Shows that fences are numbered in the order in which they were made.
    pub(crate) fn show_numbers(&self)
        ensures
            self@.numbers_fences(),
    {
        proof {
            use_type_invariant(&self.ids);
        }
    }

    pub(crate) fn is_signaled(&self, id: u64) -> (signaled: bool)
        ensures
            signaled == self@.is_signaled(id),
    {
        self.signaled.contains_key(&id)
    }

    pub(crate) fn is_unsignaled(&self, id: u64) -> (unsignaled: bool)
        ensures
            unsignaled == !self@.is_signaled(id),
    {
        !self.is_signaled(id)
    }

    pub(crate) fn signaled_at(&self, id: u64) -> (at: Option<Instant>)
        ensures
            at == self@.signaled_at(id),
    {
        match self.signaled.get(&id) {
            Some(at) => Some(*at),
            None => None,
        }
    }

    pub(crate) fn signal(&mut self, id: u64, at: Instant)
        ensures
            final(self)@ == old(self)@.signal(id, at),
    {
        self.signaled.insert(id, at);
    }

    pub(crate) fn reset(&mut self, id: u64)
        ensures
            final(self)@ == old(self)@.reset(id),
    {
        self.signaled.remove(&id);
    }

    /// Makes an unsignaled fence and returns its id.
    pub(crate) fn create(&mut self) -> (id: u64)
        ensures
            id == old(self)@.next_id,
            final(self)@ == old(self)@.create(),
    {
        let id = self.ids.next;
        self.ids = self.ids.advanced();
        self.signaled.remove(&id);
        id
    }
}

/// Pools.
impl DeviceState {
    /// Makes an empty pool and returns its key.
    pub(crate) fn new_pool(&mut self) -> (key: u64)
        ensures
            key == old(self)@.next_pool,
            final(self)@ == old(self)@.new_pool(),
    {
        let mut pools: Table<PoolState> = Table::new();
        std::mem::swap(&mut pools, &mut self.pools);
        let (pools, key) = pools.extended(PoolState::new());
        self.pools = pools;
        assert(self@ =~= old(self)@.new_pool());
        key
    }

    pub(crate) fn pool(&self, key: u64) -> (pool: Option<&PoolState>)
        ensures
            match pool {
                Some(pool) => pool@ == self@.pool(key as nat),
                None => self@.pool(key as nat) == PoolView::empty(),
            },
    {
        self.pools.get(key)
    }

    /// Takes a pool off the device, and leaves an empty one in its place.
    pub(crate) fn take_pool(&mut self, key: u64) -> (pool: PoolState)
        ensures
            pool@ == old(self)@.pool(key as nat),
            final(self)@ == old(self)@.with_pool(key as nat, PoolView::empty()),
    {
        let mut pools: Table<PoolState> = Table::new();
        std::mem::swap(&mut pools, &mut self.pools);
        let (pools, taken) = pools.replaced(key, PoolState::new());
        self.pools = pools;
        assert(self@ =~= old(self)@.with_pool(key as nat, PoolView::empty()));
        match taken {
            Some(pool) => pool,
            None => PoolState::new(),
        }
    }

    /// Puts a pool on the device, in place of what was there under the key.
    pub(crate) fn put_pool(&mut self, key: u64, pool: PoolState)
        ensures
            final(self)@ == old(self)@.with_pool(key as nat, pool@),
    {
        let mut pools: Table<PoolState> = Table::new();
        std::mem::swap(&mut pools, &mut self.pools);
        self.pools = pools.replaced(key, pool).0;
        assert(self@ =~= old(self)@.with_pool(key as nat, pool@));
    }
}

/// Managers.
impl DeviceState {
    /// Makes a manager that keeps no fence and returns its key.
    pub(crate) fn new_manager(&mut self) -> (key: u64)
        ensures
            key == old(self)@.next_manager,
            final(self)@ == old(self)@.new_manager(),
    {
        let mut managers: Table<ManagerState> = Table::new();
        std::mem::swap(&mut managers, &mut self.managers);
        let (managers, key) = managers.extended(ManagerState::new());
        self.managers = managers;
        assert(self@ =~= old(self)@.new_manager());
        key
    }

    pub(crate) fn manager(&self, key: u64) -> (manager: Option<&ManagerState>)
        ensures
            match manager {
                Some(manager) => manager@ == self@.manager(key as nat),
                None => self@.manager(key as nat) == Map::<u64, EntryView>::empty(),
            },
    {
        self.managers.get(key)
    }

    /// Takes a manager off the device, and leaves one that keeps no fence in its place.
    pub(crate) fn take_manager(&mut self, key: u64) -> (manager: ManagerState)
        ensures
            manager@ == old(self)@.manager(key as nat),
            final(self)@ == old(self)@.with_manager(key as nat, Map::empty()),
    {
        let mut managers: Table<ManagerState> = Table::new();
        std::mem::swap(&mut managers, &mut self.managers);
        let (managers, taken) = managers.replaced(key, ManagerState::new());
        self.managers = managers;
        assert(self@ =~= old(self)@.with_manager(key as nat, Map::empty()));
        match taken {
            Some(manager) => manager,
            None => ManagerState::new(),
        }
    }

    /// Puts a manager on the device, in place of what was there under the key.
    pub(crate) fn put_manager(&mut self, key: u64, manager: ManagerState)
        ensures
            final(self)@ == old(self)@.with_manager(key as nat, manager@),
    {
        let mut managers: Table<ManagerState> = Table::new();
        std::mem::swap(&mut managers, &mut self.managers);
        self.managers = managers.replaced(key, manager).0;
        assert(self@ =~= old(self)@.with_manager(key as nat, manager@));
    }
}

/// Queues of produced items.
impl DeviceState {
    /// A queue without items.
    fn no_items() -> (items: Vec<String>)
        ensures
            items@.map_values(|item: String| item@) == Seq::<Seq<char>>::empty(),
    {
        let items = Vec::new();
        assert(items@.map_values(|item: String| item@) =~= Seq::empty());
        items
    }

    /// Makes an empty queue and returns its key.
    pub(crate) fn new_queue(&mut self) -> (key: u64)
        ensures
            key == old(self)@.next_queue,
            final(self)@ == old(self)@.new_queue(),
    {
        let mut queues: Table<Vec<String>> = Table::new();
        std::mem::swap(&mut queues, &mut self.queues);
        let (queues, key) = queues.extended(DeviceState::no_items());
        self.queues = queues;
        assert(self@ =~= old(self)@.new_queue());
        key
    }

    pub(crate) fn queue_len(&self, key: u64) -> (len: usize)
        ensures
            len == self@.queue(key as nat).len(),
    {
        match self.queues.get(key) {
            Some(items) => items.len(),
            None => 0,
        }
    }

    /// Takes a queue off the device, and leaves an empty one in its place.
    pub(crate) fn take_queue(&mut self, key: u64) -> (items: Vec<String>)
        ensures
            items@.map_values(|item: String| item@) == old(self)@.queue(key as nat),
            final(self)@ == old(self)@.with_queue(key as nat, Seq::empty()),
    {
        let mut queues: Table<Vec<String>> = Table::new();
        std::mem::swap(&mut queues, &mut self.queues);
        let (queues, taken) = queues.replaced(key, DeviceState::no_items());
        self.queues = queues;
        assert(self@ =~= old(self)@.with_queue(key as nat, Seq::empty()));
        match taken {
            Some(items) => items,
            None => DeviceState::no_items(),
        }
    }

    /// Puts a queue on the device, in place of what was there under the key.
    pub(crate) fn put_queue(&mut self, key: u64, items: Vec<String>)
        ensures
            final(self)@ == old(self)@.with_queue(
                key as nat,
                items@.map_values(|item: String| item@),
            ),
    {
        let mut queues: Table<Vec<String>> = Table::new();
        std::mem::swap(&mut queues, &mut self.queues);
        self.queues = queues.replaced(key, items).0;
        assert(self@ =~= old(self)@.with_queue(
            key as nat,
            items@.map_values(|item: String| item@),
        ));
    }
}

} // verus!
