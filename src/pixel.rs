use vstd::prelude::*;

verus! {

/// One RGBA8 source sample.
#[derive(Clone, Copy, Debug, PartialEq, Eq, Structural)]
pub struct Rgba {
    pub r: u8,
    pub g: u8,
    pub b: u8,
    pub a: u8,
}

/// A 24-bit RGB colour.
#[derive(Clone, Copy, Debug, PartialEq, Eq, Structural)]
pub struct Rgb {
    pub r: u8,
    pub g: u8,
    pub b: u8,
}

/// Brightness of a sample against a black background:
/// `max(0, R - (255 - A))`.
pub open spec fn penalty_of(p: Rgba) -> int {
    let x = p.r as int - (255 - p.a as int);
    if x < 0 {
        0
    } else {
        x
    }
}

/// The brightness penalty of one sample.
pub fn calc_penalty(p: Rgba) -> (r: u8)
    ensures
        r as int == penalty_of(p),
{
    let lost: u8 = 255 - p.a;
    if p.r > lost {
        p.r - lost
    } else {
        0
    }
}

} // verus!
