use vstd::prelude::*;

verus! {

/// Sum of two sizes.
pub fn add(a: usize, b: usize) -> (r: usize)
    requires
        a + b <= usize::MAX,
    ensures
        r == a + b,
{
    a + b
}

} // verus!
