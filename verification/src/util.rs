use vstd::prelude::*;

verus! {

/// Rounds an address down to the start of the 8-byte machine word
/// that contains it.
pub fn align_addr_to_word(addr: usize) -> (r: usize)
    ensures
        r == addr - addr % 8,
        r % 8 == 0,
        r <= addr,
        addr - r < 8,
{
    addr - addr % 8
}

} // verus!
