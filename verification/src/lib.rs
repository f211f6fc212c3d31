//! A multi-version key-value map for optimistic parallel execution of a batch
//! of transactions.
//!
//! Each transaction of the batch reads and writes under the index of its
//! position.  The map keeps, per key, what every transaction wrote there, and
//! answers a read on behalf of a transaction from the entries of the
//! transactions below it: the latest write, the deltas stacked on it, or the
//! transaction that the reader has to wait for.

pub mod delta;
pub mod entry;
pub mod history;
pub mod laws;
pub mod mvmap;
pub mod outcome;
pub mod padded;
pub mod store;
pub mod traces;
pub mod walk;
pub mod write;

pub use crate::delta::{delta_add, delta_sub, DeltaError, DeltaOp, DeltaUpdate};
pub use crate::entry::{
    Entry, EntryCell, Incarnation, TxnIndex, Version, FLAG_DONE, FLAG_ESTIMATE,
};
pub use crate::history::{EntryMap, VersionedValue};
pub use crate::mvmap::MVHashMap;
pub use crate::outcome::{Accumulator, MVHashMapError, MVHashMapOutput};
pub use crate::write::WriteOp;
