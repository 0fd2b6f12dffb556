//! Points with independently typed coordinates, and the largest element of a
//! slice of numbers.

use vstd::prelude::*;

verus! {

/// A point whose two coordinates may have different types.
pub struct OtherPoint<T, U> {
    pub x: T,
    pub y: U,
}

impl<T, U> OtherPoint<T, U> {
    /// The point with the given coordinates.
    pub fn new(x: T, y: U) -> (r: Self)
        ensures
            r.x == x,
            r.y == y,
    {
        Self { x, y }
    }

    /// A borrow of the first coordinate.
    pub fn x(&self) -> (r: &T)
        ensures
            *r == self.x,
    {
        &self.x
    }
}

/// The largest value in the slice.
pub fn largest(list: &[i64]) -> (r: i64)
    requires
        list@.len() > 0,
    ensures
        list@.contains(r),
        forall|i: int| 0 <= i < list@.len() ==> #[trigger] list@[i] <= r,
{
    let mut best: i64 = list[0];
    let mut k: usize = 1;
    while k < list.len()
        invariant
            1 <= k <= list@.len(),
            list@.contains(best),
            forall|i: int| 0 <= i < k ==> #[trigger] list@[i] <= best,
        decreases list@.len() - k,
    {
        if list[k] > best {
            best = list[k];
        }
        k += 1;
    }
    best
}

} // verus!
