//! The table of streams that a writer or a remover currently holds.

use crate::error::Error;
use crate::id::StreamId;
use fnv::FnvHashSet;
use vstd::prelude::*;

verus! {

/// The hasher of the `fnv` crate.
#[verifier::external_type_specification]
#[verifier::external_body]
pub struct ExFnvHasher(fnv::FnvHasher);

/// The builder that makes a hasher by `Default`.
#[verifier::external_type_specification]
#[verifier::external_body]
#[verifier::reject_recursive_types(H)]
pub struct ExBuildHasherDefault<H>(std::hash::BuildHasherDefault<H>);

/// Calls `HashSet::insert`: the key is in the set afterwards, and the
/// result says whether it was missing before. Keys are arrays and integers,
/// which std compares and hashes by their values.
#[verifier::external_body]
fn insert_key(set: &mut FnvHashSet<([u8; 32], u64)>, key: ([u8; 32], u64)) -> (fresh: bool)
    ensures
        final(set)@ == old(set)@.insert(key),
        fresh == !old(set)@.contains(key),
{
    set.insert(key)
}

/// Calls `HashSet::remove`: the key is not in the set afterwards, and the
/// result says whether it was there before.
#[verifier::external_body]
fn remove_key(set: &mut FnvHashSet<([u8; 32], u64)>, key: ([u8; 32], u64)) -> (present: bool)
    ensures
        final(set)@ == old(set)@.remove(key),
        present == old(set)@.contains(key),
{
    set.remove(&key)
}

/// Calls `HashSet::contains`.
#[verifier::external_body]
fn contains_key(set: &FnvHashSet<([u8; 32], u64)>, key: ([u8; 32], u64)) -> (present: bool)
    ensures
        present == set@.contains(key),
{
    set.contains(&key)
}

/// Proof that its holder has the stream `id` for itself. It is handed out by
/// `LockTable::acquire` and given back to `LockTable::release`.
#[derive(Debug)]
pub struct StreamLock {
    id: StreamId,
}

impl StreamLock {
    /// The stream that is held.
    pub closed spec fn id_spec(self) -> StreamId {
        self.id
    }

    /// The stream that is held.
    pub fn id(&self) -> (id: &StreamId)
        ensures
            *id == self.id_spec(),
    {
        &self.id
    }
}

/// The streams that are held, each by one holder.
pub struct LockTable {
    held: FnvHashSet<([u8; 32], u64)>,
}

impl View for LockTable {
    type V = Set<StreamId>;

    closed spec fn view(&self) -> Set<StreamId> {
        Set::new(|id: StreamId| self.held@.contains((id.peer, id.stream)))
    }
}

impl LockTable {
    /// A table in which no stream is held.
    pub fn new() -> (table: Self)
        ensures
            table@ == Set::<StreamId>::empty(),
    {
        let table = Self { held: FnvHashSet::default() };
        assert(table@ =~= Set::<StreamId>::empty());
        table
    }

    /// Whether some holder has the stream `id`.
    pub fn is_held(&self, id: &StreamId) -> (held: bool)
        ensures
            held == self@.contains(*id),
    {
        contains_key(&self.held, (id.peer, id.stream))
    }

    /// Takes the stream `id` for the caller, or fails with `Busy` at once
    /// where another holder has it, leaving the table as it was.
    pub fn acquire(&mut self, id: StreamId) -> (lock: Result<StreamLock, Error>)
        ensures
            match lock {
                Ok(l) => !old(self)@.contains(id) && l.id_spec() == id && final(self)@ == old(
                    self,
                )@.insert(id),
                Err(e) => e == Error::Busy && old(self)@.contains(id) && final(self)@ == old(self)@,
            },
    {
        if insert_key(&mut self.held, (id.peer, id.stream)) {
            assert(self@ =~= old(self)@.insert(id));
            Ok(StreamLock { id })
        } else {
            assert(self@ =~= old(self)@);
            Err(Error::Busy)
        }
    }

    /// Gives the stream of `lock` back. The result says whether the table
    /// had it as held.
    pub fn release(&mut self, lock: StreamLock) -> (held: bool)
        ensures
            held == old(self)@.contains(lock.id_spec()),
            final(self)@ == old(self)@.remove(lock.id_spec()),
    {
        let held = remove_key(&mut self.held, (lock.id.peer, lock.id.stream));
        assert(self@ =~= old(self)@.remove(lock.id));
        held
    }
}

} // verus!
