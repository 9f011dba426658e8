//! Floating-point numbers as the library holds them: by the 64 bits of their
//! IEEE 754 binary64 encoding.

use vstd::prelude::*;

verus! {

/// The eleven exponent bits of an encoding.
pub open spec fn exponent(bits: u64) -> int {
    (bits as int / 0x10_0000_0000_0000) % 0x800
}

/// The fifty-two fraction bits of an encoding.
pub open spec fn fraction(bits: u64) -> int {
    bits as int % 0x10_0000_0000_0000
}

/// The encoding is one of "not a number": every exponent bit is set and the
/// fraction is not zero.
pub open spec fn nan(bits: u64) -> bool {
    exponent(bits) == 0x7ff && fraction(bits) != 0
}

/// The encoding is plus or minus infinity: every exponent bit is set and the
/// fraction is zero.
pub open spec fn infinite(bits: u64) -> bool {
    exponent(bits) == 0x7ff && fraction(bits) == 0
}

/// The encoding is of an ordinary number, neither infinite nor "not a number".
pub open spec fn finite(bits: u64) -> bool {
    exponent(bits) != 0x7ff
}

/// Whether the encoding is one of "not a number".
pub fn is_nan(bits: u64) -> (r: bool)
    ensures
        r == nan(bits),
{
    assert((bits >> 52) & 0x7ff == (bits / 0x10_0000_0000_0000) % 0x800) by (bit_vector);
    assert(bits & 0xf_ffff_ffff_ffff == bits % 0x10_0000_0000_0000) by (bit_vector);
    (bits >> 52) & 0x7ff == 0x7ff && bits & 0xf_ffff_ffff_ffff != 0
}

/// Whether the encoding is plus or minus infinity.
pub fn is_infinite(bits: u64) -> (r: bool)
    ensures
        r == infinite(bits),
{
    assert((bits >> 52) & 0x7ff == (bits / 0x10_0000_0000_0000) % 0x800) by (bit_vector);
    assert(bits & 0xf_ffff_ffff_ffff == bits % 0x10_0000_0000_0000) by (bit_vector);
    (bits >> 52) & 0x7ff == 0x7ff && bits & 0xf_ffff_ffff_ffff == 0
}

} // verus!
