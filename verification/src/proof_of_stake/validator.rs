//! A registered block producer.

use vstd::prelude::*;

verus! {

/// A participant entitled to produce blocks, known by its address.
#[derive(Debug)]
pub struct Validator {
    pub address: String,
}

impl Clone for Validator {
    fn clone(&self) -> (copy: Self)
        ensures
            copy == *self,
    {
        Validator { address: self.address.clone() }
    }
}

impl Validator {
    /// The validator known by `address`.
    pub fn new(address: String) -> (validator: Self)
        ensures
            validator.address == address,
    {
        Self { address }
    }
}

} // verus!
