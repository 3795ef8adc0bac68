//! Simulated values, as far as the structural queries read them.

use vstd::prelude::*;

verus! {

/// A simulated value: a vector of bits of fixed width, least significant bit
/// first.
#[derive(Debug)]
pub struct Value {
    bits: Vec<bool>,
}

impl View for Value {
    type V = Seq<bool>;

    closed spec fn view(&self) -> Seq<bool> {
        self.bits@
    }
}

impl Value {
    /// The value that holds `bits`, least significant bit first.
    pub fn from_bits(bits: Vec<bool>) -> (value: Value)
        ensures
            value@ == bits@,
    {
        Value { bits }
    }

    /// The bits of the value, least significant bit first.
    pub fn bits(&self) -> (bits: &Vec<bool>)
        ensures
            bits@ == self@,
    {
        &self.bits
    }

    /// The width of the value in bits.
    pub fn width(&self) -> (width: usize)
        ensures
            width == self@.len(),
    {
        self.bits.len()
    }

    /// The bit of a value that is one bit wide.
    pub fn as_bool(&self) -> (bit: bool)
        requires
            self@.len() == 1,
        ensures
            bit == self@[0],
    {
        self.bits[0]
    }
}

} // verus!
