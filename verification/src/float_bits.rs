//! Single-precision samples are carried through the library as their IEEE-754 bit
//! patterns (`f32::to_bits`); the few predicates the control logic needs on them are
//! stated and computed on those bits.
use vstd::prelude::*;

verus! {

/// The bit pattern of `+0.0`.
pub const ZERO_BITS: u32 = 0u32;

/// The sample compares equal to zero (`+0.0` or `-0.0`).
pub open spec fn is_zero_spec(bits: u32) -> bool {
    bits == 0 || bits == 0x8000_0000
}

/// The sample's absolute value compares greater than zero: it is neither a zero nor a NaN.
pub open spec fn abs_positive_spec(bits: u32) -> bool {
    0 < bits % 0x8000_0000 <= 0x7f80_0000
}

/// Whether the sample with these bits compares equal to zero.
pub fn is_zero(bits: u32) -> (b: bool)
    ensures
        b == is_zero_spec(bits),
{
    bits == 0 || bits == 0x8000_0000
}

/// Whether the sample with these bits has an absolute value greater than zero.
pub fn abs_positive(bits: u32) -> (b: bool)
    ensures
        b == abs_positive_spec(bits),
{
    let magnitude = bits % 0x8000_0000;
    0 < magnitude && magnitude <= 0x7f80_0000
}

} // verus!
