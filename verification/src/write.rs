//! The payload of a write: either a value, held as bytes, or a deletion.

use vstd::bytes::{spec_u128_from_le_bytes, u128_from_le_bytes};
use vstd::prelude::*;

verus! {

/// Number of bytes in the encoding of an aggregator value.
pub const AGGREGATOR_WIDTH: usize = 16;

/// What a transaction wrote at a key.
#[derive(Debug, PartialEq, Eq)]
pub enum WriteOp {
    /// The key now holds these bytes.
    Value(Vec<u8>),
    /// The key no longer exists.
    Deletion,
}

impl WriteOp {
    /// Whether the write removes the key.
    pub open spec fn is_deletion_spec(self) -> bool {
        self is Deletion
    }

    /// The numeric value the write stands for when read as the base of an
    /// aggregator: the little-endian reading of a value of exactly sixteen
    /// bytes.  A deletion has none, and neither has a value of another width.
    pub open spec fn numeric_base_spec(self) -> Option<u128> {
        match self {
            WriteOp::Value(bytes) => if bytes@.len() == AGGREGATOR_WIDTH {
                Some(spec_u128_from_le_bytes(bytes@))
            } else {
                None
            },
            WriteOp::Deletion => None,
        }
    }

    /// Whether the write removes the key.
    pub fn is_deletion(&self) -> (r: bool)
        ensures
            r == self.is_deletion_spec(),
    {
        match self {
            WriteOp::Value(_) => false,
            WriteOp::Deletion => true,
        }
    }

    /// The write read as the base of an aggregator.
    pub fn to_numeric_base(&self) -> (r: Option<u128>)
        ensures
            r == self.numeric_base_spec(),
    {
        match self {
            WriteOp::Value(bytes) => if bytes.len() == AGGREGATOR_WIDTH {
                Some(u128_from_le_bytes(bytes.as_slice()))
            } else {
                None
            },
            WriteOp::Deletion => None,
        }
    }
}

} // verus!
