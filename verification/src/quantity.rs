//! Scalars with units.

use vstd::prelude::*;
use crate::unit::Unit;

verus! {

/// A scalar value together with the unit it is measured in: the element type
/// of a unit-carrying matrix, and the result of its scalar reductions (trace,
/// determinant).
#[derive(Clone, Copy, Debug)]
pub struct Quantity<T> {
    pub value: T,
    pub unit: Unit,
}

impl<T> Quantity<T> {
    /// A quantity of `value` in `unit`.
    pub fn new(value: T, unit: Unit) -> (r: Quantity<T>)
        ensures
            r.value == value,
            r.unit == unit,
    {
        Quantity { value, unit }
    }
}

} // verus!
