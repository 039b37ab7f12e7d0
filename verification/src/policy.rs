//! Bounded mapping from IPv4 source address to an action. The table holds at
//! most [`POLICY_CAPACITY`] distinct addresses; an upsert overwrites the
//! entry of a known address, admits a new address while there is room, and
//! otherwise refuses the new entry and leaves the table unchanged. Nothing is
//! ever evicted.

use vstd::prelude::*;
use vstd::pervasive::VecAdditionalExecFns;

use crate::types::XdpAction;

verus! {

/// An upsert of a new address was refused because the table is full.
#[derive(Clone, Copy, Debug, PartialEq, Eq, Structural)]
pub struct CapacityExceeded;

/// Most distinct addresses the policy table ever holds.
pub const POLICY_CAPACITY: usize = 1024;

/// The mapping that an association list stands for; a later entry for an
/// address overrides an earlier one.
pub open spec fn map_of(entries: Seq<(u32, XdpAction)>) -> Map<u32, XdpAction>
    decreases entries.len(),
{
    if entries.len() == 0 {
        Map::empty()
    } else {
        map_of(entries.drop_last()).insert(entries.last().0, entries.last().1)
    }
}

/// No address occurs in two entries of the list.
pub open spec fn unique_keys(entries: Seq<(u32, XdpAction)>) -> bool {
    forall|i: int, j: int|
        0 <= i < j < entries.len() ==> (#[trigger] entries[i]).0 != (#[trigger] entries[j]).0
}

proof fn lemma_map_of_contains(entries: Seq<(u32, XdpAction)>, addr: u32)
    ensures
        map_of(entries).contains_key(addr) <==> exists|i: int|
            0 <= i < entries.len() && (#[trigger] entries[i]).0 == addr,
    decreases entries.len(),
{
    if entries.len() == 0 {
    } else {
        let prefix = entries.drop_last();
        lemma_map_of_contains(prefix, addr);
        if entries.last().0 == addr {
            assert((entries[entries.len() - 1]).0 == addr);
        } else {
            if map_of(entries).contains_key(addr) {
                let i = choose|i: int| 0 <= i < prefix.len() && (#[trigger] prefix[i]).0 == addr;
                assert((entries[i]).0 == addr);
            }
            if exists|i: int| 0 <= i < entries.len() && (#[trigger] entries[i]).0 == addr {
                let i = choose|i: int|
                    0 <= i < entries.len() && (#[trigger] entries[i]).0 == addr;
                assert(i < prefix.len() && (prefix[i]).0 == addr);
            }
        }
    }
}

proof fn lemma_map_of_index(entries: Seq<(u32, XdpAction)>, i: int)
    requires
        unique_keys(entries),
        0 <= i < entries.len(),
    ensures
        map_of(entries).contains_key((entries[i]).0),
        map_of(entries)[(entries[i]).0] == (entries[i]).1,
    decreases entries.len(),
{
    let prefix = entries.drop_last();
    if i == entries.len() - 1 {
    } else {
        lemma_map_of_index(prefix, i);
        assert((entries[entries.len() - 1]).0 != (entries[i]).0);
    }
}

proof fn lemma_map_of_len(entries: Seq<(u32, XdpAction)>)
    requires
        unique_keys(entries),
    ensures
        map_of(entries).dom().finite(),
        map_of(entries).dom().len() == entries.len(),
    decreases entries.len(),
{
    if entries.len() == 0 {
        assert(map_of(entries).dom() =~= Set::<u32>::empty());
    } else {
        let prefix = entries.drop_last();
        lemma_map_of_len(prefix);
        lemma_map_of_contains(prefix, entries.last().0);
        assert(forall|i: int|
            0 <= i < prefix.len() ==> (#[trigger] prefix[i]).0 != entries.last().0) by {
            let last_index = entries.len() - 1;
            assert(forall|i: int|
                0 <= i < prefix.len() ==> (#[trigger] entries[i]).0 != (entries[last_index]).0);
        }
        assert(!map_of(prefix).contains_key(entries.last().0));
        assert(map_of(entries).dom() =~= map_of(prefix).dom().insert(entries.last().0));
    }
}

proof fn lemma_map_of_update(entries: Seq<(u32, XdpAction)>, i: int, addr: u32, action: XdpAction)
    requires
        unique_keys(entries),
        0 <= i < entries.len(),
        (entries[i]).0 == addr,
    ensures
        map_of(entries.update(i, (addr, action))) =~= map_of(entries).insert(addr, action),
    decreases entries.len(),
{
    let updated = entries.update(i, (addr, action));
    if i == entries.len() - 1 {
        assert(updated.drop_last() =~= entries.drop_last());
    } else {
        let prefix = entries.drop_last();
        lemma_map_of_update(prefix, i, addr, action);
        assert(updated.drop_last() =~= prefix.update(i, (addr, action)));
        assert(updated.last() == entries.last());
        assert((entries[entries.len() - 1]).0 != addr);
    }
}

/// The address-to-action table consulted by the classifier: a bounded
/// single-writer map whose entries persist until overwritten.
pub struct PolicyStore {
    entries: Vec<(u32, XdpAction)>,
}

impl View for PolicyStore {
    type V = Map<u32, XdpAction>;

    closed spec fn view(&self) -> Map<u32, XdpAction> {
        map_of(self.entries@)
    }
}

impl PolicyStore {
    /// Internal invariant: entry keys are distinct and never outnumber the
    /// capacity. Constructors establish it and methods preserve it.
    pub closed spec fn wf(&self) -> bool {
        &&& self.entries@.len() <= POLICY_CAPACITY
        &&& unique_keys(self.entries@)
    }

    /// A well-formed table never holds more than [`POLICY_CAPACITY`] entries.
    pub proof fn lemma_bounded(&self)
        requires
            self.wf(),
        ensures
            self@.dom().finite(),
            self@.dom().len() <= POLICY_CAPACITY,
    {
        lemma_map_of_len(self.entries@);
    }

    /// An empty table.
    pub fn new() -> (store: PolicyStore)
        ensures
            store.wf(),
            store@ == Map::<u32, XdpAction>::empty(),
    {
        PolicyStore { entries: Vec::new() }
    }

    /// The action stored for `addr`, if any; never blocks, never allocates,
    /// and may serve any number of concurrent readers.
    pub fn lookup(&self, addr: u32) -> (r: Option<XdpAction>)
        requires
            self.wf(),
        ensures
            r == if self@.contains_key(addr) {
                Some(self@[addr])
            } else {
                None::<XdpAction>
            },
    {
        proof {
            lemma_map_of_contains(self.entries@, addr);
        }
        let n = self.entries.len();
        let mut i: usize = 0;
        while i < n
            invariant
                self.wf(),
                n == self.entries@.len(),
                0 <= i <= n,
                forall|j: int| 0 <= j < i ==> (#[trigger] self.entries@[j]).0 != addr,
            decreases n - i,
        {
            if self.entries[i].0 == addr {
                proof {
                    lemma_map_of_index(self.entries@, i as int);
                }
                return Some(self.entries[i].1);
            }
            i = i + 1;
        }
        None
    }

    /// Stores `action` for `addr`: overwrites a present entry, admits a new
    /// address while there is room, and otherwise fails and leaves the table
    /// exactly as it was.
    pub fn upsert(&mut self, addr: u32, action: XdpAction) -> (r: Result<(), CapacityExceeded>)
        requires
            old(self).wf(),
        ensures
            final(self).wf(),
            r is Ok <==> (old(self)@.contains_key(addr) || old(self)@.dom().len()
                < POLICY_CAPACITY),
            r is Ok ==> final(self)@ == old(self)@.insert(addr, action),
            r is Err ==> final(self)@ == old(self)@,
    {
        proof {
            lemma_map_of_contains(self.entries@, addr);
            lemma_map_of_len(self.entries@);
        }
        let n = self.entries.len();
        let mut i: usize = 0;
        while i < n
            invariant
                *self == *old(self),
                self.wf(),
                n == self.entries@.len(),
                0 <= i <= n,
                forall|j: int| 0 <= j < i ==> (#[trigger] self.entries@[j]).0 != addr,
            decreases n - i,
        {
            if self.entries[i].0 == addr {
                proof {
                    lemma_map_of_update(self.entries@, i as int, addr, action);
                    lemma_map_of_index(self.entries@, i as int);
                }
                let ghost prev = self.entries@;
                self.entries.set(i, (addr, action));
                proof {
                    assert forall|a: int, b: int|
                        0 <= a < b < self.entries@.len() implies (#[trigger] self.entries@[a]).0
                        != (#[trigger] self.entries@[b]).0 by {
                        assert((prev[a]).0 != (prev[b]).0);
                    }
                }
                return Ok(());
            }
            i = i + 1;
        }
        if self.entries.len() < POLICY_CAPACITY {
            let ghost prev = self.entries@;
            self.entries.push((addr, action));
            proof {
                assert(self.entries@.drop_last() =~= prev);
            }
            Ok(())
        } else {
            Err(CapacityExceeded)
        }
    }
}

} // verus!
