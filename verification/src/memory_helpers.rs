use vstd::prelude::*;

verus! {

/// The smallest multiple of `alignment` that is at least `value`.
pub open spec fn aligned_up(value: int, alignment: int) -> int {
    if value % alignment == 0 {
        value
    } else {
        value + (alignment - value % alignment)
    }
}

/// The largest multiple of `alignment` that is at most `value`.
pub open spec fn aligned_down(value: int, alignment: int) -> int {
    value - value % alignment
}

/// Rounds `value` up to a multiple of `alignment`; `None` when that multiple
/// does not fit in a `usize`.
pub fn align_up_checked(value: usize, alignment: usize) -> (r: Option<usize>)
    requires
        alignment > 0,
    ensures
        match r {
            Some(v) => v == aligned_up(value as int, alignment as int),
            None => aligned_up(value as int, alignment as int) > usize::MAX,
        },
{
    let rem = value % alignment;
    if rem == 0 {
        Some(value)
    } else {
        let pad = alignment - rem;
        if value <= usize::MAX - pad {
            Some(value + pad)
        } else {
            None
        }
    }
}

/// Rounds `value` down to a multiple of `alignment`.
pub fn alignDown(value: usize, alignment: usize) -> (r: usize)
    requires
        alignment > 0,
    ensures
        r == aligned_down(value as int, alignment as int),
{
    let rem = value % alignment;
    assert(rem <= value) by (nonlinear_arith)
        requires
            rem == value % alignment,
            alignment > 0,
    ;
    value - rem
}

/// What is known of a rounded-up value: it is a multiple of the alignment,
/// not below the value, and less than one alignment above it.
pub proof fn lemma_aligned_up(value: int, alignment: int)
    requires
        alignment > 0,
        value >= 0,
    ensures
        aligned_up(value, alignment) % alignment == 0,
        value <= aligned_up(value, alignment) < value + alignment,
{
    let r = value % alignment;
    if r != 0 {
        assert((value + (alignment - r)) % alignment == 0) by {
            vstd::arithmetic::div_mod::lemma_fundamental_div_mod(value, alignment);
            vstd::arithmetic::div_mod::lemma_mod_multiples_basic(value / alignment + 1, alignment);
            assert(value + (alignment - r) == (value / alignment + 1) * alignment) by (nonlinear_arith)
                requires
                    value == alignment * (value / alignment) + r,
            ;
        }
    }
}

} // verus!
