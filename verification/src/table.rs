//! Tables that give out keys.

use std::collections::HashMap;
use vstd::prelude::*;

verus! {

broadcast use vstd::std_specs::hash::group_hash_axioms;

/// Values by key, and the key of the next one. A key that was given out stays in the table, so
/// that none is given out twice.
pub struct Table<V> {
    entries: HashMap<u64, V>,
    next: u64,
}

impl<V> Table<V> {
    #[verifier::type_invariant]
    spec fn keeps_keys(self) -> bool {
        forall|key: u64| key < self.next ==> #[trigger] self.entries@.contains_key(key)
    }

    /// The values in the table.
    pub closed spec fn contents(self) -> Map<nat, V> {
        Map::new(
            |key: nat| key <= u64::MAX && self.entries@.contains_key(key as u64),
            |key: nat| self.entries@[key as u64],
        )
    }

    /// The key of the next value.
    pub closed spec fn next_key(self) -> nat {
        self.next as nat
    }

    pub(crate) fn new() -> (table: Table<V>)
        ensures
            table.contents() == Map::<nat, V>::empty(),
            table.next_key() == 0,
    {
        let table = Table { entries: HashMap::new(), next: 0 };
        assert(table.contents() =~= Map::<nat, V>::empty());
        table
    }

    pub(crate) fn get(&self, key: u64) -> (value: Option<&V>)
        ensures
            match value {
                Some(value) => {
                    &&& self.contents().contains_key(key as nat)
                    &&& *value == self.contents()[key as nat]
                },
                None => !self.contents().contains_key(key as nat),
            },
    {
        self.entries.get(&key)
    }

    /// The table with a value under a key, and what was there before.
    pub(crate) fn replaced(self, key: u64, value: V) -> (result: (Table<V>, Option<V>))
        ensures
            result.0.contents() == self.contents().insert(key as nat, value),
            result.0.next_key() == self.next_key(),
            match result.1 {
                Some(before) => {
                    &&& self.contents().contains_key(key as nat)
                    &&& before == self.contents()[key as nat]
                },
                None => !self.contents().contains_key(key as nat),
            },
    {
        proof {
            use_type_invariant(&self);
        }
        let mut entries = self.entries;
        let before = entries.insert(key, value);
        let table = Table { entries, next: self.next };
        assert(table.contents() =~= self.contents().insert(key as nat, value));
        (table, before)
    }

    /// The table with one value more, and the key that it got.
    pub(crate) fn extended(self, value: V) -> (result: (Table<V>, u64))
        ensures
            result.0.contents() == self.contents().insert(self.next_key(), value),
            result.0.next_key() == self.next_key() + 1,
            result.1 == self.next_key(),
    {
        proof {
            use_type_invariant(&self);
        }
        let key = self.next;
        let mut entries = self.entries;
        entries.insert(key, value);
        let len = entries.len();
        proof {
            lemma_all_below(entries@.dom(), key as nat + 1);
        }
        let table = Table { entries, next: key + 1 };
        assert(table.contents() =~= self.contents().insert(self.next_key(), value));
        (table, key)
    }
}

/// A set that holds every number below `n` has at least `n` elements.
proof fn lemma_all_below(set: Set<u64>, n: nat)
    requires
        set.finite(),
        n <= u64::MAX + 1,
        forall|key: u64| key < n ==> #[trigger] set.contains(key),
    ensures
        n <= set.len(),
    decreases n,
{
    if n > 0 {
        let last = (n - 1) as u64;
        assert(set.contains(last));
        lemma_all_below(set.remove(last), (n - 1) as nat);
    }
}

} // verus!
