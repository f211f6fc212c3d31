//! Bounded numeric deltas: the commutative updates that may be stacked on top
//! of an aggregator value before the value itself is known.
//!
//! A delta carries the signed update it performs, the upper limit of the
//! aggregator it applies to, and the largest excursions (up and down) that were
//! observed while the delta was being built.  Applying a delta to a base value
//! re-checks those excursions against the base, so that a speculative execution
//! that would have left `[0, limit]` at any point is rejected.

use vstd::prelude::*;

verus! {

/// The signed update performed by a delta.
#[derive(Clone, Copy, Debug, PartialEq, Eq)]
pub enum DeltaUpdate {
    Plus(u128),
    Minus(u128),
}

/// Why a delta could not be applied or merged.
#[derive(Clone, Copy, Debug, PartialEq, Eq)]
pub enum DeltaError {
    /// The value would have exceeded the aggregator's limit.
    Overflow,
    /// The value would have dropped below zero.
    Underflow,
    /// The two deltas were built for aggregators with different limits.
    LimitMismatch,
}

/// A bounded numeric update together with the history of its excursions.
#[derive(Clone, Copy, Debug, PartialEq, Eq)]
pub struct DeltaOp {
    /// The update this delta performs.
    pub update: DeltaUpdate,
    /// The largest value the aggregator may hold.
    pub limit: u128,
    /// The largest amount above the starting value that was reached.
    pub max_positive: u128,
    /// The largest amount below the starting value that was reached.
    pub min_negative: u128,
}

/// The update as a mathematical integer.
pub open spec fn signed(update: DeltaUpdate) -> int {
    match update {
        DeltaUpdate::Plus(v) => v as int,
        DeltaUpdate::Minus(v) => -(v as int),
    }
}

/// `base + value`, provided the sum stays within `limit`.
pub open spec fn bounded_sum(base: u128, value: u128, limit: u128) -> Option<u128> {
    if base + value <= limit {
        Some((base + value) as u128)
    } else {
        None
    }
}

/// `base - value`, provided the difference is not negative.
pub open spec fn bounded_difference(base: u128, value: u128) -> Option<u128> {
    if value <= base {
        Some((base - value) as u128)
    } else {
        None
    }
}

/// `base - value`, capped at zero from below.
pub open spec fn difference_or_zero(base: u128, value: u128) -> u128 {
    if value <= base {
        (base - value) as u128
    } else {
        0
    }
}

/// The larger of two values.
pub open spec fn larger(a: u128, b: u128) -> u128 {
    if a >= b {
        a
    } else {
        b
    }
}

/// Adds `value` to `base`, failing when the sum would exceed `limit`.
pub fn addition(base: u128, value: u128, limit: u128) -> (r: Option<u128>)
    ensures
        r == bounded_sum(base, value, limit),
{
    if limit < base || value > limit - base {
        None
    } else {
        Some(base + value)
    }
}

/// Subtracts `value` from `base`, failing when the difference would be negative.
pub fn subtraction(base: u128, value: u128) -> (r: Option<u128>)
    ensures
        r == bounded_difference(base, value),
{
    if value > base {
        None
    } else {
        Some(base - value)
    }
}

impl DeltaOp {
    /// A delta with the given update, limit and excursion history.
    pub fn new(update: DeltaUpdate, limit: u128, max_positive: u128, min_negative: u128) -> (d:
        DeltaOp)
        ensures
            d == (DeltaOp { update, limit, max_positive, min_negative }),
    {
        DeltaOp { update, limit, max_positive, min_negative }
    }

    /// The update this delta performs.
    pub fn get_update(&self) -> (u: DeltaUpdate)
        ensures
            u == self.update,
    {
        self.update
    }

    /// What applying this delta to `base` yields.
    ///
    /// The excursions are checked first, upward before downward; only then is
    /// the update itself applied.
    pub open spec fn apply_spec(self, base: u128) -> Result<u128, DeltaError> {
        if base + self.max_positive > self.limit {
            Err(DeltaError::Overflow)
        } else if self.min_negative > base {
            Err(DeltaError::Underflow)
        } else {
            match self.update {
                DeltaUpdate::Plus(v) => if base + v <= self.limit {
                    Ok((base + v) as u128)
                } else {
                    Err(DeltaError::Overflow)
                },
                DeltaUpdate::Minus(v) => if v <= base {
                    Ok((base - v) as u128)
                } else {
                    Err(DeltaError::Underflow)
                },
            }
        }
    }

    /// The upward excursion of `self` once it starts from the end of `previous`.
    pub open spec fn shifted_max_positive(self, previous: DeltaOp) -> Option<u128> {
        match previous.update {
            DeltaUpdate::Plus(v) => bounded_sum(v, self.max_positive, self.limit),
            DeltaUpdate::Minus(v) => Some(difference_or_zero(self.max_positive, v)),
        }
    }

    /// The downward excursion of `self` once it starts from the end of `previous`.
    pub open spec fn shifted_min_negative(self, previous: DeltaOp) -> Option<u128> {
        match previous.update {
            DeltaUpdate::Plus(v) => Some(difference_or_zero(self.min_negative, v)),
            DeltaUpdate::Minus(v) => bounded_sum(v, self.min_negative, self.limit),
        }
    }

    /// The update that performs `previous` and then `self`, if its magnitude
    /// stays within the limit.  A zero sum is written `Plus(0)`; updates of
    /// opposite sign never fail.
    pub open spec fn merged_update(self, previous: DeltaOp) -> Option<DeltaUpdate> {
        let total = signed(previous.update) + signed(self.update);
        match (previous.update, self.update) {
            (DeltaUpdate::Plus(_), DeltaUpdate::Plus(_)) => if total <= self.limit {
                Some(DeltaUpdate::Plus(total as u128))
            } else {
                None
            },
            (DeltaUpdate::Minus(_), DeltaUpdate::Minus(_)) => if -total <= self.limit {
                Some(DeltaUpdate::Minus((-total) as u128))
            } else {
                None
            },
            _ => if total >= 0 {
                Some(DeltaUpdate::Plus(total as u128))
            } else {
                Some(DeltaUpdate::Minus((-total) as u128))
            },
        }
    }

    /// What merging `self` on top of the earlier delta `previous` yields.
    pub open spec fn merge_spec(self, previous: DeltaOp) -> Result<DeltaOp, DeltaError> {
        if self.limit != previous.limit {
            Err(DeltaError::LimitMismatch)
        } else if self.shifted_max_positive(previous) is None {
            Err(DeltaError::Overflow)
        } else if self.shifted_min_negative(previous) is None {
            Err(DeltaError::Underflow)
        } else if self.merged_update(previous) is None {
            match self.update {
                DeltaUpdate::Plus(_) => Err(DeltaError::Overflow),
                DeltaUpdate::Minus(_) => Err(DeltaError::Underflow),
            }
        } else {
            Ok(
                DeltaOp {
                    update: self.merged_update(previous)->0,
                    limit: self.limit,
                    max_positive: larger(
                        previous.max_positive,
                        self.shifted_max_positive(previous)->0,
                    ),
                    min_negative: larger(
                        previous.min_negative,
                        self.shifted_min_negative(previous)->0,
                    ),
                },
            )
        }
    }

    /// Applies the delta to `base`: the excursion history is validated against
    /// `base`, then the update is performed.
    pub fn apply_to(&self, base: u128) -> (r: Result<u128, DeltaError>)
        ensures
            r == self.apply_spec(base),
    {
        if addition(base, self.max_positive, self.limit).is_none() {
            return Err(DeltaError::Overflow);
        }
        if subtraction(base, self.min_negative).is_none() {
            return Err(DeltaError::Underflow);
        }
        match self.update {
            DeltaUpdate::Plus(v) => match addition(base, v, self.limit) {
                Some(sum) => Ok(sum),
                None => Err(DeltaError::Overflow),
            },
            DeltaUpdate::Minus(v) => match subtraction(base, v) {
                Some(difference) => Ok(difference),
                None => Err(DeltaError::Underflow),
            },
        }
    }

    /// Merges this delta on top of the earlier delta `previous`, giving the
    /// single delta that performs `previous` and then `self`.
    pub fn merge_onto(self, previous: DeltaOp) -> (r: Result<DeltaOp, DeltaError>)
        ensures
            r == self.merge_spec(previous),
    {
        if self.limit != previous.limit {
            return Err(DeltaError::LimitMismatch);
        }
        let shifted_max: u128 = match previous.update {
            DeltaUpdate::Plus(v) => match addition(v, self.max_positive, self.limit) {
                Some(m) => m,
                None => {
                    return Err(DeltaError::Overflow);
                },
            },
            DeltaUpdate::Minus(v) => match subtraction(self.max_positive, v) {
                Some(m) => m,
                None => 0,
            },
        };
        let shifted_min: u128 = match previous.update {
            DeltaUpdate::Plus(v) => match subtraction(self.min_negative, v) {
                Some(m) => m,
                None => 0,
            },
            DeltaUpdate::Minus(v) => match addition(v, self.min_negative, self.limit) {
                Some(m) => m,
                None => {
                    return Err(DeltaError::Underflow);
                },
            },
        };
        let update: DeltaUpdate = match (previous.update, self.update) {
            (DeltaUpdate::Plus(p), DeltaUpdate::Plus(s)) => match addition(p, s, self.limit) {
                Some(t) => DeltaUpdate::Plus(t),
                None => {
                    return Err(DeltaError::Overflow);
                },
            },
            (DeltaUpdate::Minus(p), DeltaUpdate::Minus(s)) => match addition(p, s, self.limit) {
                Some(t) => DeltaUpdate::Minus(t),
                None => {
                    return Err(DeltaError::Underflow);
                },
            },
            (DeltaUpdate::Plus(p), DeltaUpdate::Minus(s)) => if p >= s {
                DeltaUpdate::Plus(p - s)
            } else {
                DeltaUpdate::Minus(s - p)
            },
            (DeltaUpdate::Minus(p), DeltaUpdate::Plus(s)) => if s >= p {
                DeltaUpdate::Plus(s - p)
            } else {
                DeltaUpdate::Minus(p - s)
            },
        };
        let max_positive: u128 = if previous.max_positive >= shifted_max {
            previous.max_positive
        } else {
            shifted_max
        };
        let min_negative: u128 = if previous.min_negative >= shifted_min {
            previous.min_negative
        } else {
            shifted_min
        };
        Ok(DeltaOp { update, limit: self.limit, max_positive, min_negative })
    }
}

/// A delta that adds `value` to an aggregator bounded by `limit`.
pub fn delta_add(value: u128, limit: u128) -> (d: DeltaOp)
    ensures
        d == (DeltaOp {
            update: DeltaUpdate::Plus(value),
            limit,
            max_positive: value,
            min_negative: 0,
        }),
{
    DeltaOp::new(DeltaUpdate::Plus(value), limit, value, 0)
}

/// A delta that subtracts `value` from an aggregator bounded by `limit`.
pub fn delta_sub(value: u128, limit: u128) -> (d: DeltaOp)
    ensures
        d == (DeltaOp {
            update: DeltaUpdate::Minus(value),
            limit,
            max_positive: 0,
            min_negative: value,
        }),
{
    DeltaOp::new(DeltaUpdate::Minus(value), limit, 0, value)
}

} // verus!
