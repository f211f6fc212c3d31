//! What a read of the multi-version map can come back with.

use crate::delta::DeltaOp;
use crate::entry::{TxnIndex, Version};
use crate::write::WriteOp;
use std::sync::Arc;
use vstd::prelude::*;

verus! {

/// A read that found a value.
#[derive(Debug, PartialEq, Eq)]
pub enum MVHashMapOutput {
    /// Deltas were applied to a base write; this is the resulting number.
    Resolved(u128),
    /// The latest write below the reader, with its version and its payload.
    Version(Version, Arc<WriteOp>),
}

/// A read that found no value.
#[derive(Debug, PartialEq, Eq)]
pub enum MVHashMapError {
    /// Nothing was written below the reader.
    NotFound,
    /// Only deltas lie below the reader: the base has to come from storage.
    Unresolved(DeltaOp),
    /// The reader depends on a transaction that is being re-executed.
    Dependency(TxnIndex),
    /// The deltas could not be merged, or could not be applied to the base.
    DeltaApplicationFailure,
}

/// The deltas gathered so far while walking down a history.
#[derive(Clone, Copy, Debug, PartialEq, Eq)]
pub enum Accumulator {
    /// No delta was met.
    Empty,
    /// All deltas met so far, merged into one.
    Merged(DeltaOp),
    /// Some merge failed.
    Failed,
}

} // verus!
