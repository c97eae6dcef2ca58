use vstd::prelude::*;

verus! {

/// An opaque colour, one byte per channel.
#[derive(Clone, Copy, Debug, PartialEq, Eq, Structural)]
pub struct Rgb {
    pub r: u8,
    pub g: u8,
    pub b: u8,
}

/// The colour shown on a grabbed visual: saturated red.
pub open spec fn highlight_spec() -> Rgb {
    Rgb { r: 255, g: 0, b: 0 }
}

/// A colour at a quarter of the intensity of `c`, channel by channel,
/// rounded down.
pub open spec fn quarter(c: Rgb) -> Rgb {
    Rgb { r: (c.r / 4) as u8, g: (c.g / 4) as u8, b: (c.b / 4) as u8 }
}

impl Rgb {
    pub fn new(r: u8, g: u8, b: u8) -> (res: Rgb)
        ensures
            res == (Rgb { r, g, b }),
    {
        Rgb { r, g, b }
    }

    /// The colour shown on a grabbed visual.
    pub fn highlight() -> (res: Rgb)
        ensures
            res == highlight_spec(),
    {
        Rgb { r: 255, g: 0, b: 0 }
    }

    /// The dimmed variant used for a sleeping body.
    pub fn dimmed(&self) -> (res: Rgb)
        ensures
            res == quarter(*self),
    {
        Rgb { r: self.r / 4, g: self.g / 4, b: self.b / 4 }
    }
}

} // verus!
