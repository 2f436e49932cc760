//! The smallest contracts there can be, to replace another contract's code
//! with.

use vstd::prelude::*;

verus! {

/// A contract that can be called and does nothing.
pub struct Dummy;

impl Dummy {
    pub fn hello() -> (r: ())
        ensures
            r == (),
    {
    }
}

/// A contract that answers.
pub struct DummyContract;

impl DummyContract {
    pub fn hello() -> (n: u32)
        ensures
            n == 1,
    {
        1
    }
}

} // verus!
