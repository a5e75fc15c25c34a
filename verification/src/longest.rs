//! Picking the longer of two string slices.

use vstd::prelude::*;
use vstd::string::StringSliceAdditionalSpecFns;

verus! {

/// The longer of `x` and `y`, measured in bytes; `y` on a tie.
pub fn longest<'a>(x: &'a str, y: &'a str) -> (r: &'a str)
    requires
        x.spec_bytes().len() <= usize::MAX,
        y.spec_bytes().len() <= usize::MAX,
    ensures
        x.spec_bytes().len() > y.spec_bytes().len() ==> r@ == x@,
        x.spec_bytes().len() <= y.spec_bytes().len() ==> r@ == y@,
{
    if x.len() > y.len() {
        x
    } else {
        y
    }
}

} // verus!
