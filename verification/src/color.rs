//! Plain color values carried through the board abstraction and the
//! diagnostic display map.

use vstd::prelude::*;

verus! {

/// A hue/saturation pair as stored by a board's lighting engine.
/// Hue is in millidegrees of the color circle, saturation in thousandths.
#[derive(Clone, Copy, Debug, Eq, PartialEq, Structural)]
pub struct Hs {
    pub h: u32,
    pub s: u32,
}

impl Default for Hs {
    fn default() -> (r: Self)
        ensures
            r.h == 0 && r.s == 0,
    {
        Hs { h: 0, s: 0 }
    }
}

/// An RGB triple used for per-cell diagnostic display.
#[derive(Clone, Copy, Debug, Eq, PartialEq, Structural)]
pub struct Rgb {
    pub r: u8,
    pub g: u8,
    pub b: u8,
}

impl Rgb {
    pub fn new(r: u8, g: u8, b: u8) -> (c: Rgb)
        ensures
            c == (Rgb { r, g, b }),
    {
        Rgb { r, g, b }
    }
}

} // verus!
