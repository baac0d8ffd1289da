//! Value lists: four bytes for each bit set in a mask, lowest bit first.

use vstd::prelude::*;

verus! {

/// Whether a bit of a mask is set.
pub open spec fn has_bit(mask: u32, bit: int) -> bool {
    mask & (1u32 << bit) != 0
}

/// Whether every value that is read lies inside the data: values start at an
/// offset, one for each bit of the mask from `bit` to `end`, and those whose
/// bit is in `read` are read.
pub open spec fn values_fit(mask: u32, read: u32, len: int, at: int, bit: int, end: int) -> bool
    decreases end - bit,
{
    if bit >= end {
        true
    } else if !has_bit(mask, bit) {
        values_fit(mask, read, len, at, bit + 1, end)
    } else {
        (has_bit(read, bit) ==> at + 4 <= len) && values_fit(mask, read, len, at + 4, bit + 1, end)
    }
}

/// Tests whether every value that is read lies inside the data.
pub fn check_values(mask: u32, read: u32, len: usize, start: usize, end: u32) -> (r: bool)
    requires
        start <= 1024,
        end <= 32,
    ensures
        r == values_fit(mask, read, len as int, start as int, 0, end as int),
{
    let mut at: usize = start;
    let mut bit: u32 = 0;
    while bit < end
        invariant
            bit <= end <= 32,
            at <= 1024 + 4 * bit,
            values_fit(mask, read, len as int, start as int, 0, end as int) == values_fit(
                mask,
                read,
                len as int,
                at as int,
                bit as int,
                end as int,
            ),
        decreases end - bit,
    {
        assert((1u32 << bit) == (1u32 << (bit as int)));
        if mask & (1u32 << bit) != 0 {
            if read & (1u32 << bit) != 0 && at + 4 > len {
                return false;
            }
            at = at + 4;
        }
        bit = bit + 1;
    }
    true
}

} // verus!
