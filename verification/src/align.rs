//! Rounding byte offsets up to power-of-two boundaries.

use vstd::prelude::*;

verus! {

/// Whether `alignment` is a power of two: non-zero, with a single bit set.
pub open spec fn is_power_of_two(alignment: usize) -> bool {
    alignment != 0 && alignment & ((alignment - 1) as usize) == 0
}

/// The least multiple of `alignment` that is not below `location`.
pub open spec fn align_up(location: int, alignment: int) -> int
    recommends
        alignment > 0,
{
    if location % alignment == 0 {
        location
    } else {
        location + (alignment - location % alignment)
    }
}

/// `align_up` yields a multiple of `alignment`, at or above `location` and less than one
/// `alignment` away from it.
pub proof fn lemma_align_up_bounds(location: int, alignment: int)
    requires
        alignment > 0,
        location >= 0,
    ensures
        align_up(location, alignment) % alignment == 0,
        location <= align_up(location, alignment) < location + alignment,
{
    let r = location % alignment;
    vstd::arithmetic::div_mod::lemma_fundamental_div_mod(location, alignment);
    if r != 0 {
        let q = location / alignment;
        assert(location + (alignment - r) == (q + 1) * alignment) by (nonlinear_arith)
            requires
                location == alignment * q + r,
        ;
        vstd::arithmetic::div_mod::lemma_mod_multiples_basic(q + 1, alignment);
    }
}

/// No multiple of `alignment` lies between `location` and `align_up(location, alignment)`:
/// any multiple at or above `location` is at or above the rounded value.
pub proof fn lemma_align_up_least(location: int, alignment: int, multiple: int)
    requires
        alignment > 0,
        location >= 0,
        multiple % alignment == 0,
        location <= multiple,
    ensures
        align_up(location, alignment) <= multiple,
{
    let target = align_up(location, alignment);
    lemma_align_up_bounds(location, alignment);
    if multiple < target {
        vstd::arithmetic::div_mod::lemma_fundamental_div_mod(multiple, alignment);
        vstd::arithmetic::div_mod::lemma_fundamental_div_mod(target, alignment);
        let a = multiple / alignment;
        let b = target / alignment;
        assert(b - a >= 1) by (nonlinear_arith)
            requires
                alignment > 0,
                alignment * a < alignment * b,
        ;
        assert(alignment * b - alignment * a >= alignment) by (nonlinear_arith)
            requires
                alignment > 0,
                b - a >= 1,
        ;
    }
}

/// Rounds `location` up to the next multiple of `alignment`.
pub fn align_data(location: usize, alignment: usize) -> (aligned: usize)
    requires
        is_power_of_two(alignment),
        location + (alignment - 1) <= usize::MAX,
    ensures
        aligned == align_up(location as int, alignment as int),
{
    let remainder: usize = location % alignment;
    if remainder == 0 {
        location
    } else {
        location + (alignment - remainder)
    }
}

} // verus!
