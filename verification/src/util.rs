use vstd::arithmetic::power2::pow2;
use vstd::bits::lemma_u16_shr_is_div;
use vstd::prelude::*;

verus! {

/// Bit `i` of `value`, counting from the most significant bit (bit 0) to the
/// least significant one (bit 15), as DNS header diagrams number them.
pub open spec fn msb_bit(value: u16, i: int) -> bool {
    (value as int / pow2((15 - i) as nat) as int) % 2 == 1
}

/// Bit `i` from the top is what shifting right by `15 - i` leaves in the
/// lowest bit; bit 0 tells whether the value is at least 0x8000, bit 15
/// whether it is odd.
pub proof fn lemma_msb_bit_shift(value: u16, i: int)
    requires
        0 <= i < 16,
    ensures
        msb_bit(value, i) == ((value >> ((15 - i) as u16)) & 1u16 == 1u16),
        msb_bit(value, 0) == (value >= 0x8000),
        msb_bit(value, 15) == (value % 2 == 1),
{
    let shift = (15 - i) as u16;
    lemma_u16_shr_is_div(value, shift);
    let shifted = value >> shift;
    assert((shifted & 1u16 == 1u16) == (shifted % 2 == 1)) by (bit_vector);
    lemma_u16_shr_is_div(value, 15);
    lemma_u16_shr_is_div(value, 0);
    assert((value >> 15u16) % 2 == 1 <==> value >= 0x8000) by (bit_vector);
    assert(value >> 0u16 == value) by (bit_vector);
}

/// Reads bit `i` of `value`, where bit 0 is the most significant bit.
pub fn bit_of(value: u16, i: usize) -> (set: bool)
    requires
        i < 16,
    ensures
        set == msb_bit(value, i as int),
{
    let shift: u16 = (15 - i) as u16;
    let shifted: u16 = value >> shift;
    proof {
        lemma_u16_shr_is_div(value, shift);
        assert((shifted & 1u16 == 1u16) == (shifted % 2 == 1)) by (bit_vector);
    }
    shifted & 1 == 1
}

} // verus!
