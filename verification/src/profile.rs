//! A person record that borrows its name: the record never outlives the text
//! it points into.

use vstd::prelude::*;

verus! {

/// A person whose name is a borrowed view of caller-owned text.
pub struct Person<'a> {
    pub name: &'a str,
    pub age: i32,
}

impl<'a> Person<'a> {
    /// The person with the given borrowed name and age.
    pub fn new(name: &'a str, age: i32) -> (r: Self)
        ensures
            r.name@ == name@,
            r.age == age,
    {
        Self { name, age }
    }

    /// The borrowed name, still tied to the lifetime of the text it points into.
    pub fn name(&self) -> (r: &'a str)
        ensures
            r@ == self.name@,
    {
        self.name
    }
}

} // verus!
