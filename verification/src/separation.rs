//! The direction in which two cursors that sit on the same spot are pushed
//! apart.
use vstd::prelude::*;

verus! {

/// One of the four axis directions.
#[derive(Clone, Copy, Debug, PartialEq, Eq, Structural)]
pub enum SeparationDirection {
    PositiveX,
    PositiveY,
    NegativeX,
    NegativeY,
}

/// The quarter (0 to 3) that the pair of body indices selects: the two
/// indices scaled by 31 and 17 with wrap-around, combined by exclusive or,
/// taken modulo 4.
pub open spec fn separation_quarter(left_index: usize, right_index: usize) -> usize {
    (left_index.wrapping_mul(31) ^ right_index.wrapping_mul(17)) % 4
}

/// The direction of each quarter.
pub open spec fn direction_of_quarter(quarter: usize) -> SeparationDirection {
    if quarter == 0 {
        SeparationDirection::PositiveX
    } else if quarter == 1 {
        SeparationDirection::PositiveY
    } else if quarter == 2 {
        SeparationDirection::NegativeX
    } else {
        SeparationDirection::NegativeY
    }
}

/// The direction along which the bodies at `left_index` and `right_index`
/// are separated when they coincide, so that no direction has to be derived
/// from their (zero) distance. The choice depends only on the indices, so a
/// simulation step is reproducible.
pub fn separation_direction(left_index: usize, right_index: usize) -> (direction:
    SeparationDirection)
    ensures
        direction == direction_of_quarter(separation_quarter(left_index, right_index)),
{
    let quarter: usize = (left_index.wrapping_mul(31) ^ right_index.wrapping_mul(17)) % 4;
    if quarter == 0 {
        SeparationDirection::PositiveX
    } else if quarter == 1 {
        SeparationDirection::PositiveY
    } else if quarter == 2 {
        SeparationDirection::NegativeX
    } else {
        SeparationDirection::NegativeY
    }
}

/// The low two bits of `x` scaled by `factor` with wrap-around are those of
/// the unwrapped product.
proof fn lemma_wrapping_mul_mod_4(x: usize, factor: usize)
    ensures
        (x.wrapping_mul(factor) % 4) as int == (x as int * factor as int) % 4,
{
    let range: int = usize::MAX as int + 1;
    assert(range == 0x1_0000_0000 || range == 0x1_0000_0000_0000_0000);
    assert(range == 4 * (range / 4));
    vstd::arithmetic::div_mod::lemma_mod_mod(x as int * factor as int, 4, range / 4);
}

/// The separation direction depends only on the two indices modulo 4: the
/// quarter is the negated left index and the right index, each modulo 4,
/// combined by exclusive or.
pub proof fn lemma_separation_depends_on_indices_mod_4(left_index: usize, right_index: usize)
    ensures
        separation_quarter(left_index, right_index) == (((4 - left_index % 4) % 4) as usize) ^ (
        right_index % 4),
        separation_quarter(left_index, right_index) < 4,
{
    let a = left_index.wrapping_mul(31);
    let b = right_index.wrapping_mul(17);
    assert((a ^ b) % 4 == (a % 4) ^ (b % 4)) by (bit_vector);
    lemma_wrapping_mul_mod_4(left_index, 31);
    lemma_wrapping_mul_mod_4(right_index, 17);
    let l = left_index as int;
    let r = right_index as int;
    assert((l * 31) % 4 == (4 - l % 4) % 4) by (nonlinear_arith)
        requires
            l >= 0,
    ;
    assert((r * 17) % 4 == r % 4) by (nonlinear_arith)
        requires
            r >= 0,
    ;
    let p = ((4 - left_index % 4) % 4) as usize;
    let q = right_index % 4;
    assert(p < 4 && q < 4 ==> p ^ q < 4) by (bit_vector);
}

} // verus!
