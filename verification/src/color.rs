use vstd::prelude::*;

verus! {

/// An RGB color with three 8-bit channels.
///
/// The device's pixel buffer stores channels in green, red, blue order;
/// [`Color::as_grb_slice`] performs that reordering on demand.
#[derive(Clone, Copy, PartialEq, Eq, Structural, Debug)]
pub struct Color {
    pub r: u8,
    pub g: u8,
    pub b: u8,
}

/// The device's native channel order for a color: green, red, blue.
pub open spec fn spec_grb(c: Color) -> Seq<u8> {
    seq![c.g, c.r, c.b]
}

impl Color {
    /// Builds a color from its red, green and blue channels.
    pub fn rgb(r: u8, g: u8, b: u8) -> (c: Color)
        ensures
            c == (Color { r, g, b }),
    {
        Color { r, g, b }
    }

    /// Returns the channels in the device's wire order: green, red, blue.
    pub fn as_grb_slice(&self) -> (out: [u8; 3])
        ensures
            out@ == spec_grb(*self),
    {
        let out = [self.g, self.r, self.b];
        proof {
            assert(out@ =~= spec_grb(*self));
        }
        out
    }
}

} // verus!
