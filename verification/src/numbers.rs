//! Small numeric functions: arithmetic, comparison, optional lookups and
//! element-wise doubling.

use vstd::prelude::*;

verus! {

/// The sum of the two numbers.
pub fn add(first: i32, second: i32) -> (r: i32)
    requires
        i32::MIN <= first + second <= i32::MAX,
    ensures
        r == first + second,
{
    first + second
}

/// Does nothing and returns the unit value.
pub fn basic_function() {
    ()
}

/// A function whose whole body is the empty statement.
pub fn fn_statement() {
}

/// Whether `compare` is strictly below `number`.
pub fn is_bigger_than(compare: i32, number: i32) -> (r: bool)
    ensures
        r == (compare < number),
{
    compare < number
}

/// Looks `index` up in the fixed table 1 through 5. The bounds test accepts
/// an index equal to the table's length, one past its last slot, so the
/// precondition leaves exactly that index out.
pub fn get_some(index: usize) -> (r: Option<u32>)
    requires
        index != 5,
    ensures
        index < 5 ==> r == Some((index + 1) as u32),
        index > 5 ==> r is None,
{
    let numbers: [u32; 5] = [1, 2, 3, 4, 5];
    if index > numbers.len() {
        None
    } else {
        Some(numbers[index])
    }
}

/// One more than the value inside `val`; `None` passes through.
pub fn patter_optional(val: Option<i32>) -> (r: Option<i32>)
    requires
        val matches Some(x) ==> x < i32::MAX,
    ensures
        match val {
            Some(x) => r == Some((x + 1) as i32),
            None => r is None,
        },
{
    match val {
        Some(x) => Some(x + 1),
        None => None,
    }
}

/// Each element of the vector doubled, in order.
pub fn mapping(vec: Vec<i32>) -> (r: Vec<i32>)
    requires
        forall|i: int|
            0 <= i < vec@.len() ==> i32::MIN <= 2 * (#[trigger] vec@[i]) <= i32::MAX,
    ensures
        r@.len() == vec@.len(),
        forall|i: int| 0 <= i < r@.len() ==> #[trigger] r@[i] == 2 * vec@[i],
{
    let mut r: Vec<i32> = Vec::new();
    let mut k: usize = 0;
    while k < vec.len()
        invariant
            k <= vec@.len(),
            r@.len() == k,
            forall|i: int|
                0 <= i < vec@.len() ==> i32::MIN <= 2 * (#[trigger] vec@[i]) <= i32::MAX,
            forall|i: int| 0 <= i < k ==> #[trigger] r@[i] == 2 * vec@[i],
        decreases vec@.len() - k,
    {
        r.push(2 * vec[k]);
        k += 1;
    }
    r
}

} // verus!
