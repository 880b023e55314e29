//! Mapping one normalised scrub position onto arrays of any length.
use crate::units::UNIT;
use vstd::prelude::*;

verus! {

/// The index that a scrub position (in millionths of the run, 0 to `UNIT`)
/// selects in an array of `len` elements: the position times the last index,
/// rounded down.
pub open spec fn scrub_spec(position: int, len: int) -> int {
    if len == 0 {
        0
    } else {
        position * (len - 1) / (UNIT as int)
    }
}

/// Resolves a scrub position against an array of `len` elements. Each array
/// is resolved on its own: arrays of different lengths give different
/// indices for one position.
pub fn scrub_index(position: u64, len: usize) -> (r: usize)
    requires
        position <= UNIT,
    ensures
        r == scrub_spec(position as int, len as int),
        len > 0 ==> r < len,
{
    if len == 0 {
        return 0;
    }
    assert(position * (len - 1) <= 1_000_000 * 0xffff_ffff_ffff_ffff) by (nonlinear_arith)
        requires position <= 1_000_000, len - 1 <= 0xffff_ffff_ffff_ffff, len >= 1;
    let n: u128 = (position as u128) * ((len - 1) as u128);
    proof {
        assert(position * (len - 1) <= UNIT * (len - 1)) by (nonlinear_arith)
            requires position <= UNIT, len >= 1;
        vstd::arithmetic::div_mod::lemma_div_is_ordered(n as int, UNIT * (len - 1), UNIT as int);
        vstd::arithmetic::div_mod::lemma_div_multiples_vanish((len - 1) as int, UNIT as int);
        assert(UNIT * (len - 1) == (UNIT as int) * ((len - 1) as int));
    }
    (n / (UNIT as u128)) as usize
}

/// Whether an index lies strictly inside an array of `len` elements; the
/// first and last positions show no cursor marker or hairline.
pub fn is_interior(index: usize, len: usize) -> (r: bool)
    ensures
        r == (0 < index && index + 1 < len),
{
    0 < index && index < len && index + 1 < len
}

} // verus!
