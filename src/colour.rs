use vstd::prelude::*;

verus! {

/// An opaque RGB colour.
#[derive(Clone, Copy, Debug, PartialEq, Eq, Structural)]
pub struct Colour {
    pub red: u8,
    pub green: u8,
    pub blue: u8,
}

impl Colour {
    pub fn new(red: u8, green: u8, blue: u8) -> (r: Colour)
        ensures
            r == (Colour { red, green, blue }),
    {
        Colour { red, green, blue }
    }
}

/// Colour of guide lines drawn at the pointer when none is given: light grey.
pub fn default_guide_line_colour() -> (r: Colour)
    ensures
        r == (Colour { red: 0x9A, green: 0x9A, blue: 0x9A }),
{
    Colour::new(0x9A, 0x9A, 0x9A)
}

/// Colour of axis markers when none is given: a lighter grey.
pub fn default_axis_marker_colour() -> (r: Colour)
    ensures
        r == (Colour { red: 0xD2, green: 0xD2, blue: 0xD2 }),
{
    Colour::new(0xD2, 0xD2, 0xD2)
}

/// Colour of grid lines when none is given: the lightest grey.
pub fn default_grid_line_colour() -> (r: Colour)
    ensures
        r == (Colour { red: 0xEF, green: 0xF2, blue: 0xFA }),
{
    Colour::new(0xEF, 0xF2, 0xFA)
}

/// The colour given, or `fallback` where none is.
pub open spec fn spec_colour_or(c: Option<Colour>, fallback: Colour) -> Colour {
    match c {
        Some(x) => x,
        None => fallback,
    }
}

/// The colour given, or `fallback` where none is.
pub fn colour_or(c: Option<Colour>, fallback: Colour) -> (r: Colour)
    ensures
        r == spec_colour_or(c, fallback),
{
    match c {
        Some(x) => x,
        None => fallback,
    }
}

} // verus!
