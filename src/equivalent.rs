use vstd::prelude::*;

verus! {

/// Approximate equality, for values whose comparison tolerates rounding.
pub trait Equivalence<T: Clone> {
    fn equivalent(&self, other: T) -> bool;

    fn not_equivalent(&self, other: T) -> bool {
        !self.equivalent(other)
    }
}

} // verus!
