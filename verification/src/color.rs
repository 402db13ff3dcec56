//! Shell colors and how two of them blend.

use vstd::prelude::*;

verus! {

/// A color as red, green and blue channels.
#[derive(Clone, Copy, Debug, PartialEq, Eq, Structural)]
pub struct Color {
    pub r: u8,
    pub g: u8,
    pub b: u8,
}

/// The mean of two channel values, rounded down.
pub open spec fn blend_channel(a: u8, b: u8) -> u8 {
    ((a + b) / 2) as u8
}

impl Color {
    /// The blend of two colors: channel by channel the mean, rounded down.
    pub open spec fn spec_cross(c1: Color, c2: Color) -> Color {
        Color {
            r: blend_channel(c1.r, c2.r),
            g: blend_channel(c1.g, c2.g),
            b: blend_channel(c1.b, c2.b),
        }
    }

    /// The color with the given channels.
    pub fn new(r: u8, g: u8, b: u8) -> (color: Color)
        ensures
            color == (Color { r, g, b }),
    {
        Color { r, g, b }
    }

    /// Blends two colors. Neither argument changes.
    pub fn cross(c1: &Color, c2: &Color) -> (color: Color)
        ensures
            color == Color::spec_cross(*c1, *c2),
    {
        Color {
            r: mean_channel(c1.r, c2.r),
            g: mean_channel(c1.g, c2.g),
            b: mean_channel(c1.b, c2.b),
        }
    }
}

fn mean_channel(a: u8, b: u8) -> (m: u8)
    ensures
        m == blend_channel(a, b),
{
    let sum: u16 = a as u16 + b as u16;
    (sum / 2) as u8
}

} // verus!
