use vstd::prelude::*;

verus! {

/// Whether position `a` (column, row) comes at or before `b` in row-major order.
pub open spec fn pos_le(a: (u16, u16), b: (u16, u16)) -> bool {
    a.1 < b.1 || (a.1 == b.1 && a.0 <= b.0)
}

/// The earlier of two positions in row-major order.
pub open spec fn pos_min(a: (u16, u16), b: (u16, u16)) -> (u16, u16) {
    if pos_le(a, b) {
        a
    } else {
        b
    }
}

/// The later of two positions in row-major order.
pub open spec fn pos_max(a: (u16, u16), b: (u16, u16)) -> (u16, u16) {
    if pos_le(a, b) {
        b
    } else {
        a
    }
}

/// Orders two positions (column, row): afterwards `small` holds the earlier one
/// in row-major order and `big` the later.
pub fn cursor_compare_swap(small: &mut (u16, u16), big: &mut (u16, u16))
    ensures
        *final(small) == pos_min(*old(small), *old(big)),
        *final(big) == pos_max(*old(small), *old(big)),
{
    if small.1 > big.1 || (small.1 == big.1 && small.0 > big.0) {
        let t = *small;
        *small = *big;
        *big = t;
    }
}

} // verus!
