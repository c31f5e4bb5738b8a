//! Display colors handed to the rendering collaborator. Channels are held
//! in hundredths of full intensity, so `100` stands for a saturated channel.

use vstd::prelude::*;

verus! {

/// An RGB color; each channel ranges over `0..=100` hundredths.
#[derive(Clone, Copy, PartialEq, Eq, Structural, Debug)]
pub struct DisplayColor {
    pub red: u32,
    pub green: u32,
    pub blue: u32,
}

impl DisplayColor {
    pub fn new(red: u32, green: u32, blue: u32) -> (c: DisplayColor)
        ensures
            c.red == red && c.green == green && c.blue == blue,
    {
        DisplayColor { red, green, blue }
    }

    pub fn white() -> (c: DisplayColor)
        ensures
            c.red == 100 && c.green == 100 && c.blue == 100,
    {
        DisplayColor { red: 100, green: 100, blue: 100 }
    }
}

} // verus!
