//! The width capability: the number of bits of a word type.
use vstd::prelude::*;

verus! {

/// Reports the bit width of the implementing word type.
pub trait BitWidth {
    /// The number of bits in the type.
    const WIDTH: u8;

    /// The bit width, in the model.
    spec fn spec_width() -> nat;

    /// Returns the number of bits in the type.
    fn width() -> (r: u8)
        ensures
            r == Self::WIDTH,
            r as nat == Self::spec_width(),
    ;
}

impl BitWidth for u32 {
    const WIDTH: u8 = 32;

    open spec fn spec_width() -> nat {
        32
    }

    fn width() -> (r: u8) {
        Self::WIDTH
    }
}

} // verus!
