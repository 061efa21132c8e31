use vstd::prelude::*;

verus! {

/// An RGBA colour with 8-bit channels; each committed board cell's kind maps
/// to one of these for the presentation layer.
#[derive(Clone, Copy, Debug, PartialEq, Eq, Structural)]
pub struct Colour {
    pub red: u8,
    pub green: u8,
    pub blue: u8,
    pub alpha: u8,
}

/// The colour encoded by a `0xRRGGBB` word, fully opaque.
pub open spec fn rgb(value: u32) -> Colour {
    Colour {
        red: ((value / 0x10000) % 0x100) as u8,
        green: ((value / 0x100) % 0x100) as u8,
        blue: (value % 0x100) as u8,
        alpha: 0xFF,
    }
}

/// Unpack a `0xRRGGBB` word into an opaque colour.
pub fn convert(value: u32) -> (c: Colour)
    ensures
        c == rgb(value),
{
    let alpha: u8 = 0xFF;
    let blue: u8 = (value % 0x100) as u8;
    let rest: u32 = value / 0x100;
    let green: u8 = (rest % 0x100) as u8;
    let rest: u32 = rest / 0x100;
    let red: u8 = (rest % 0x100) as u8;
    proof {
        assert((value / 0x100) / 0x100 == value / 0x10000) by (nonlinear_arith);
    }
    Colour { red, green, blue, alpha }
}

pub fn green() -> (c: Colour)
    ensures
        c == rgb(0xBFDB38),
{
    convert(0xBFDB38)
}

pub fn maroon() -> (c: Colour)
    ensures
        c == rgb(0xA61F69),
{
    convert(0xA61F69)
}

pub fn light_purple() -> (c: Colour)
    ensures
        c == rgb(0xA084DC),
{
    convert(0xA084DC)
}

pub fn gray() -> (c: Colour)
    ensures
        c == rgb(0x7B8FA1),
{
    convert(0x7B8FA1)
}

pub fn red() -> (c: Colour)
    ensures
        c == rgb(0xD61355),
{
    convert(0xD61355)
}

pub fn brown() -> (c: Colour)
    ensures
        c == rgb(0xB99B6B),
{
    convert(0xB99B6B)
}

pub fn navy_blue() -> (c: Colour)
    ensures
        c == rgb(0x362FD9),
{
    convert(0x362FD9)
}

} // verus!
