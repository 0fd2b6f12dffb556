//! A person record that owns its data.

use vstd::prelude::*;

verus! {

/// A person, held as an owned name and an age in years.
pub struct Person {
    pub name: String,
    pub age: u8,
}

impl Person {
    /// The person with the given name and age.
    pub fn new(name: String, age: u8) -> (r: Self)
        ensures
            r.name == name,
            r.age == age,
    {
        Self { name, age }
    }
}

} // verus!
