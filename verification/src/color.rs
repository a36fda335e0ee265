//! Colours as three 8-bit channels.

use vstd::prelude::*;

verus! {

/// A colour; channel value `v` stands for the intensity `v / 255`.
#[derive(Clone, Copy, Debug, PartialEq, Eq, Structural)]
pub struct Rgb {
    pub red: u8,
    pub green: u8,
    pub blue: u8,
}

impl Rgb {
    pub fn new(red: u8, green: u8, blue: u8) -> (color: Rgb)
        ensures
            color == (Rgb { red, green, blue }),
    {
        Rgb { red, green, blue }
    }

    pub open spec fn spec_black() -> Rgb {
        Rgb { red: 0, green: 0, blue: 0 }
    }

    /// The background colour, and the colour a pinned cell is given.
    #[verifier::when_used_as_spec(spec_black)]
    pub fn black() -> (color: Rgb)
        ensures
            color == Rgb::black(),
    {
        Rgb { red: 0, green: 0, blue: 0 }
    }
}

} // verus!
