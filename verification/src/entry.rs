//! One versioned record: what a single transaction left at a single key.

use crate::delta::DeltaOp;
use crate::write::WriteOp;
use std::sync::Arc;
use vstd::prelude::*;

verus! {

/// Position of a transaction within the batch.
pub type TxnIndex = usize;

/// How many times a transaction has been re-executed.
pub type Incarnation = usize;

/// A transaction together with the attempt that produced a write.
pub type Version = (TxnIndex, Incarnation);

/// Flag of an entry whose content is final for its incarnation.
pub const FLAG_DONE: usize = 0;

/// Flag of an entry whose writer is being re-executed: the content is only an
/// estimate of what the next incarnation will write.
pub const FLAG_ESTIMATE: usize = 1;

/// The content of an entry.  It is fixed when the entry is made.
#[derive(Debug)]
pub enum EntryCell {
    /// A write, with the incarnation of the transaction that made it and the
    /// written payload behind a shared pointer.
    Write(Incarnation, Arc<WriteOp>),
    /// A delta to be applied on top of whatever lies below.
    Delta(DeltaOp),
}

/// An entry: a flag, which only `mark_estimate` changes, and a cell, which
/// nothing changes.
#[derive(Debug)]
pub struct Entry {
    /// Marks the entry as an estimate.
    flag: usize,
    /// The content.
    pub cell: EntryCell,
}

/// Hands out another pointer to a shared payload.
///
/// Trusted: `Arc::clone` returns a pointer to the same allocation, so what it
/// points to is the value the argument points to.
#[verifier::external_body]
pub(crate) fn share(data: &Arc<WriteOp>) -> (r: Arc<WriteOp>)
    ensures
        r == *data,
{
    Arc::clone(data)
}

/// The entry with the given flag and cell.
pub closed spec fn entry_of(flag: usize, cell: EntryCell) -> Entry {
    Entry { flag, cell }
}

/// An entry is its flag and its cell, and nothing more.
pub proof fn lemma_entry_of(flag: usize, cell: EntryCell)
    ensures
        entry_of(flag, cell).flag_spec() == flag,
        entry_of(flag, cell).cell_spec() == cell,
{
}

/// Two entries with the same flag and the same cell are the same entry.
pub proof fn lemma_entry_is_flag_and_cell(entry: Entry)
    ensures
        entry == entry_of(entry.flag_spec(), entry.cell_spec()),
{
}

impl Entry {
    /// The flag of the entry.
    pub closed spec fn flag_spec(self) -> usize {
        self.flag
    }

    /// The cell of the entry.
    pub closed spec fn cell_spec(self) -> EntryCell {
        self.cell
    }

    /// Whether the entry is an estimate.
    pub open spec fn is_estimate(self) -> bool {
        self.flag_spec() == FLAG_ESTIMATE
    }

    /// An entry that holds a write.
    pub fn new_write_from(flag: usize, incarnation: Incarnation, data: WriteOp) -> (e: Entry)
        ensures
            e == entry_of(flag, EntryCell::Write(incarnation, Arc::new(data))),
    {
        Entry { flag, cell: EntryCell::Write(incarnation, Arc::new(data)) }
    }

    /// An entry that holds a delta.
    pub fn new_delta_from(flag: usize, data: DeltaOp) -> (e: Entry)
        ensures
            e == entry_of(flag, EntryCell::Delta(data)),
    {
        Entry { flag, cell: EntryCell::Delta(data) }
    }

    /// The current flag.
    pub fn flag(&self) -> (f: usize)
        ensures
            f == self.flag_spec(),
    {
        self.flag
    }

    /// The content.
    pub fn cell(&self) -> (c: &EntryCell)
        ensures
            *c == self.cell_spec(),
    {
        &self.cell
    }

    /// Turns the entry into an estimate.  The cell is left as it is.
    pub fn mark_estimate(&mut self)
        ensures
            *final(self) == entry_of(FLAG_ESTIMATE, old(self).cell_spec()),
    {
        self.flag = FLAG_ESTIMATE;
    }
}

} // verus!
