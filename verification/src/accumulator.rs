//! Shared checksum accumulators, each behind its own exclusive lock.

use crate::checksum::accumulated;
use crate::checksum::Batch;
use crate::checksum::Checksum;
use std::sync::Arc;
use vstd::prelude::*;
use vstd::rwlock::RwLock;
use vstd::rwlock::RwLockPredicate;

verus! {

/// The lock's condition on what it stores: the checksum of the texts on record.
pub struct SoundBatch;

impl RwLockPredicate<Batch> for SoundBatch {
    open spec fn inv(self, v: Batch) -> bool {
        v.sound()
    }
}

/// Calls `Arc::clone`, which gives another pointer to the same allocation:
/// both point to the same value.
#[verifier::external_body]
pub(crate) fn another_handle<T>(handle: &Arc<T>) -> (copy: Arc<T>)
    ensures
        *copy == **handle,
{
    Arc::clone(handle)
}

/// A checksum shared among workers. Its value changes only by merging a
/// batch into it, under the lock, so that it is at all times the checksum of
/// the texts of the batches merged so far. Which batches those are at a given
/// moment depends on the other holders of a handle.
pub struct Accumulator {
    cell: Arc<RwLock<Batch, SoundBatch>>,
    merged: Ghost<Seq<Seq<u8>>>,
}

impl Accumulator {
    /// Whether two handles lead to the same lock, and so to the same checksum.
    pub closed spec fn same_as(&self, other: &Self) -> bool {
        *self.cell == *other.cell
    }

    /// The checksums of the batches that were merged in through this handle,
    /// in order.
    pub closed spec fn merged(&self) -> Seq<Seq<u8>> {
        self.merged@
    }

    /// Every handle leads to the lock that it leads to.
    pub proof fn lemma_same_as_itself(&self)
        ensures
            self.same_as(self),
    {
    }

    /// A handle that leads to the lock of a handle that leads to the lock of
    /// a third leads to the lock of the third.
    pub proof fn lemma_same_as_chain(&self, second: &Self, third: &Self)
        requires
            self.same_as(second),
            second.same_as(third),
        ensures
            self.same_as(third),
    {
    }

    /// A new accumulator, into which nothing was merged yet.
    pub fn new() -> (fresh: Self)
        ensures
            fresh.merged() == Seq::<Seq<u8>>::empty(),
    {
        Accumulator {
            cell: Arc::new(RwLock::new(Batch::new(), Ghost(SoundBatch))),
            merged: Ghost(Seq::empty()),
        }
    }

    /// Another handle to the same accumulator, through which nothing was
    /// merged yet.
    pub fn share(&self) -> (handle: Self)
        ensures
            handle.same_as(self),
            handle.merged() == Seq::<Seq<u8>>::empty(),
    {
        Accumulator { cell: another_handle(&self.cell), merged: Ghost(Seq::empty()) }
    }

    /// Merges a locally accumulated batch into the shared checksum. The lock
    /// is held for one merge, whatever the size of the batch.
    pub fn merge_in(&mut self, local: Batch)
        ensures
            final(self).same_as(old(self)),
            final(self).merged() == old(self).merged().push(local@),
    {
        let ghost sum = local@;
        let (mut current, guard) = self.cell.acquire_write();
        current.absorb(local);
        guard.release_write(current);
        self.merged = Ghost(self.merged@.push(sum));
    }

    /// The checksum that the accumulator holds at the moment of the call: the
    /// checksum of the texts of the batches merged into it until then.
    pub fn value(&self) -> (current: Checksum)
        ensures
            accumulated(current@),
    {
        let guard = self.cell.acquire_read();
        let current = guard.borrow().checksum();
        guard.release_read();
        current
    }
}

} // verus!
