//! Single-bit helpers on octets.

use vstd::prelude::*;

verus! {

/// Whether bit `i` (counted from the least significant bit) of `v` is set.
pub open spec fn bit_of(v: u8, i: u8) -> bool {
    (v >> i) & 1u8 == 1u8
}

/// `v` with bit `i` set when `flag` holds and cleared otherwise; an octet
/// has no bit 8 or above, so for those `v` is left as it is.
pub open spec fn with_bit(v: u8, i: u8, flag: bool) -> u8 {
    if i >= 8 {
        v
    } else if flag {
        v | (1u8 << i)
    } else {
        v & !(1u8 << i)
    }
}

/// Sets (`set == true`) or clears bit `bit` of `value`; the other bits are
/// kept. A bit index of 8 or more names no bit and leaves `value` unchanged.
pub fn bit_set_to(value: u8, bit: u8, set: bool) -> (r: u8)
    ensures
        r == with_bit(value, bit, set),
        bit < 8 ==> bit_of(r, bit) == set,
        forall|i: u8| i < 8 && i != bit ==> bit_of(r, i) == bit_of(value, i),
{
    if bit >= 8 {
        return value;
    }
    proof {
        assert forall|i: u8| i < 8 && i != bit implies bit_of(with_bit(value, bit, set), i)
            == bit_of(value, i) by {
            assert(i < 8 && i != bit ==> ((((value | (1u8 << bit)) >> i) & 1u8 == 1u8) == (((
            value >> i) & 1u8) == 1u8))) by (bit_vector);
            assert(i < 8 && i != bit ==> ((((value & !(1u8 << bit)) >> i) & 1u8 == 1u8) == (((
            value >> i) & 1u8) == 1u8))) by (bit_vector);
        }
        assert(bit < 8 ==> (((value | (1u8 << bit)) >> bit) & 1u8 == 1u8)) by (bit_vector);
        assert(bit < 8 ==> (((value & !(1u8 << bit)) >> bit) & 1u8 == 0u8)) by (bit_vector);
    }
    if set {
        value | (1u8 << bit)
    } else {
        value & !(1u8 << bit)
    }
}

} // verus!
