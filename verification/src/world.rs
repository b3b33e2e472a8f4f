//! The world the machine executes against: an external provider of code and
//! storage, wrapped in a transactional overlay whose journals support
//! snapshot and rollback.

use vstd::prelude::*;
use crate::word::U256;
use crate::program::Program;

verus! {

/// A 160-bit account address, split into a 32-bit high part and a 128-bit
/// low part.
#[derive(Clone, Copy, Debug, PartialEq, Eq, Structural)]
pub struct Address {
    pub high: u32,
    pub low: u128,
}

impl Address {
    pub fn zero() -> (r: Address)
        ensures
            r == (Address { high: 0, low: 0 }),
    {
        Address { high: 0, low: 0 }
    }

    /// The low 16 bits, which select a precompile.
    pub fn low_u16(self) -> (r: u16)
        ensures
            r == self.low % 0x1_0000,
    {
        (self.low % 0x1_0000) as u16
    }
}

/// An event recorded by the executing contract; journaled and rolled back
/// with the world.
#[derive(Clone, Copy, Debug, PartialEq, Eq, Structural)]
pub struct Event {
    pub key: U256,
    pub value: U256,
}

/// An opaque point in the append-only journals: the lengths to truncate
/// back to on rollback.
#[derive(Clone, Copy, Debug, PartialEq, Eq, Structural)]
pub struct Snapshot {
    pub storage_len: usize,
    pub events_len: usize,
}

/// The external world: resolves code and answers cold storage reads.
/// Implementations decide what the machine finds there; the machine's
/// contracts hold for every answer.
pub trait World {
    /// Resolves the code deployed at an address into an executable program.
    fn decommit(&mut self, address: Address) -> Program;

    /// Reads a storage slot that no journaled write covers.
    fn read_storage(&mut self, address: Address, key: U256) -> U256;
}

/// The most recent journaled write to `(address, key)`, if any.
pub open spec fn journal_lookup(
    s: Seq<(Address, U256, U256)>,
    address: Address,
    key: U256,
) -> Option<U256>
    decreases s.len(),
{
    if s.len() == 0 {
        None
    } else if s.last().0 == address && s.last().1 == key {
        Some(s.last().2)
    } else {
        journal_lookup(s.drop_last(), address, key)
    }
}

/// A write-through overlay over a `World`: writes and events are journaled
/// in order; reads consult the journal before falling through.
pub struct ModifiedWorld<W> {
    pub world: W,
    pub storage_writes: Vec<(Address, U256, U256)>,
    pub events: Vec<Event>,
}

impl<W: World> ModifiedWorld<W> {
    pub fn new(world: W) -> (r: ModifiedWorld<W>)
        ensures
            r.storage_writes@ =~= Seq::<(Address, U256, U256)>::empty(),
            r.events@ =~= Seq::<Event>::empty(),
    {
        ModifiedWorld { world, storage_writes: Vec::new(), events: Vec::new() }
    }

    /// Reads a storage slot: the latest journaled write wins; otherwise the
    /// underlying world answers. The journals are unchanged.
    pub fn read_storage(&mut self, address: Address, key: U256) -> (r: U256)
        ensures
            final(self).storage_writes@ == old(self).storage_writes@,
            final(self).events@ == old(self).events@,
            match journal_lookup(old(self).storage_writes@, address, key) {
                Some(v) => r == v,
                None => true,
            },
    {
        let n = self.storage_writes.len();
        let mut i: usize = n;
        proof {
            assert(self.storage_writes@.take(n as int) =~= self.storage_writes@);
        }
        while i > 0
            invariant
                i <= n,
                n == self.storage_writes@.len(),
                journal_lookup(self.storage_writes@, address, key) == journal_lookup(
                    self.storage_writes@.take(i as int),
                    address,
                    key,
                ),
            decreases i,
        {
            let entry = self.storage_writes[i - 1];
            if entry.0 == address && entry.1 == key {
                proof {
                    assert(self.storage_writes@.take(i as int).last() == entry);
                }
                return entry.2;
            }
            proof {
                assert(self.storage_writes@.take(i as int).drop_last()
                    =~= self.storage_writes@.take(i - 1));
            }
            i = i - 1;
        }
        self.world.read_storage(address, key)
    }

    /// Journals a storage write.
    pub fn write_storage(&mut self, address: Address, key: U256, value: U256)
        ensures
            final(self).storage_writes@ == old(self).storage_writes@.push(
                (address, key, value),
            ),
            final(self).events@ == old(self).events@,
    {
        self.storage_writes.push((address, key, value));
    }

    /// Journals an event.
    pub fn record_event(&mut self, event: Event)
        ensures
            final(self).storage_writes@ == old(self).storage_writes@,
            final(self).events@ == old(self).events@.push(event),
    {
        self.events.push(event);
    }

    /// Resolves code through the underlying world; the journals are
    /// unchanged.
    pub fn decommit(&mut self, address: Address) -> (r: Program)
        ensures
            final(self).storage_writes@ == old(self).storage_writes@,
            final(self).events@ == old(self).events@,
    {
        self.world.decommit(address)
    }

    /// Captures the current journal lengths.
    pub fn snapshot(&self) -> (r: Snapshot)
        ensures
            r.storage_len == self.storage_writes@.len(),
            r.events_len == self.events@.len(),
    {
        Snapshot { storage_len: self.storage_writes.len(), events_len: self.events.len() }
    }

    /// Truncates the journals back to a snapshot. The underlying world is
    /// untouched; the effective view reverts.
    pub fn rollback(&mut self, snapshot: Snapshot)
        requires
            snapshot.storage_len <= old(self).storage_writes@.len(),
            snapshot.events_len <= old(self).events@.len(),
        ensures
            final(self).storage_writes@ == old(self).storage_writes@.take(
                snapshot.storage_len as int,
            ),
            final(self).events@ == old(self).events@.take(snapshot.events_len as int),
    {
        self.storage_writes.truncate(snapshot.storage_len);
        self.events.truncate(snapshot.events_len);
    }
}

/// Taking a snapshot and rolling back to it at once leaves the journals,
/// and with them the observable world state, exactly as they were.
pub proof fn lemma_snapshot_rollback_is_noop(
    pre_storage: Seq<(Address, U256, U256)>,
    pre_events: Seq<Event>,
    snapshot: Snapshot,
)
    requires
        snapshot.storage_len == pre_storage.len(),
        snapshot.events_len == pre_events.len(),
    ensures
        pre_storage.take(snapshot.storage_len as int) == pre_storage,
        pre_events.take(snapshot.events_len as int) == pre_events,
{
    assert(pre_storage.take(snapshot.storage_len as int) =~= pre_storage);
    assert(pre_events.take(snapshot.events_len as int) =~= pre_events);
}

} // verus!
