//! Small string operations: building greetings, picking the longer of two
//! views, and handing owned strings through a call and back.

use vstd::prelude::*;

verus! {

/// "Hello " followed by `name`; the bare greeting when `name` is empty.
pub fn concat_name(name: &str) -> (r: String)
    ensures
        name@.len() == 0 ==> r@ == "Hello"@,
        name@.len() > 0 ==> r@ == "Hello "@ + name@,
{
    if name.is_empty() {
        return String::from_str("Hello");
    }
    let mut g = String::from_str("Hello ");
    g.append(name);
    g
}

/// The view with more characters; ties go to `val`.
pub fn largest_slice<'a>(var: &'a str, val: &'a str) -> (r: &'a str)
    ensures
        var@.len() > val@.len() ==> r@ == var@,
        var@.len() <= val@.len() ==> r@ == val@,
{
    if var.unicode_len() > val.unicode_len() {
        var
    } else {
        val
    }
}

/// Returns the string it was handed, paired with that string's length in
/// characters.
pub fn takes_and_back_ownwership(val: String) -> (r: (String, usize))
    ensures
        r.0 == val,
        r.1 == val@.len(),
{
    let len = val.as_str().unicode_len();
    (val, len)
}

/// Appends " Yael" to the string behind the reference.
pub fn as_mut_param_ref(val: &mut String)
    ensures
        final(val)@ == old(val)@ + " Yael"@,
{
    val.append(" Yael");
}

/// A fresh owned string, built inside the call and moved out to the caller.
pub fn dangle() -> (r: String)
    ensures
        r@ == "Value"@,
{
    let s = String::from_str("Value");
    s
}

/// Moves an owned string through a second binding and returns the final
/// owner's value.
pub fn move_concept() -> (r: String)
    ensures
        r@ == "Hello"@,
{
    let s1 = String::from_str("Hello");
    let s2 = s1;
    s2
}

/// A fresh owned string whose ownership moves out of the call.
pub fn gives_ownership() -> (r: String)
    ensures
        r@ == "Again!"@,
{
    let val = String::from_str("Again!");
    val
}

/// Takes ownership of `val` and gives it straight back, unchanged.
pub fn takes_and_gives_back(val: String) -> (r: String)
    ensures
        r == val,
{
    val
}

} // verus!
