//! Fixed-point numbers with 16 integer bits and 16 fractional bits.

use vstd::prelude::*;

verus! {

/// An unsigned fixed-point number held as its 32 raw bits: the number is
/// `bits / 65536`. Any 32 bits are a number, and two numbers are equal when
/// their bits are.
#[derive(Debug, Clone, Copy, PartialEq, Eq, Structural)]
pub struct U16F16 {
    pub bits: u32,
}

impl U16F16 {
    /// The number with the given raw bits.
    pub fn from_bits(bits: u32) -> (number: Self)
        ensures
            number.bits == bits,
    {
        U16F16 { bits }
    }

    /// The raw bits of the number.
    pub fn to_bits(self) -> (bits: u32)
        ensures
            bits == self.bits,
    {
        self.bits
    }
}

} // verus!
