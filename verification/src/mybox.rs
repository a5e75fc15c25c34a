//! A minimal box type: it owns one value and hands out references to it.

use vstd::prelude::*;

verus! {

/// A box around a single value.
#[derive(Debug)]
pub struct MyBox<T>(pub T);

impl<T> MyBox<T> {
    /// Put a value in a box.
    pub fn new(x: T) -> (boxed: MyBox<T>)
        ensures
            boxed.0 == x,
    {
        MyBox(x)
    }

    /// Borrow the boxed value.
    pub fn inner(&self) -> (r: &T)
        ensures
            *r == self.0,
    {
        &self.0
    }
}

} // verus!
