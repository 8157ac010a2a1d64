use vstd::prelude::*;

verus! {

/// A value tagged with the position it came from, so that work finished
/// out of order can be put back in order.
pub struct Mynum<T> {
    pub index: usize,
    pub value: T,
}

impl<T> Mynum<T> {
    pub fn new(index: usize, value: T) -> (r: Self)
        ensures
            r.index == index,
            r.value == value,
    {
        Mynum { index, value }
    }
}

} // verus!
