//! Colour palettes. Every module takes its accent from the active palette and
//! states (running / error / warning) use its semantic colours, so changing
//! `theme` in config.toml re-colours the whole interface.
use vstd::prelude::*;

verus! {

/// A terminal colour: 24-bit, or one of the named ones the interface uses.
#[derive(Clone, Copy, Debug, PartialEq, Eq, Structural)]
pub enum Color {
    Rgb(u8, u8, u8),
    Gray,
    DarkGray,
    White,
}

/// The colour whose red, green and blue are the three bytes of `hex`
/// (`0xRRGGBB`), higher bits ignored.
pub open spec fn rgb_of(hex: u32) -> Color {
    Color::Rgb(((hex / 0x10000) % 0x100) as u8, ((hex / 0x100) % 0x100) as u8, (hex % 0x100) as u8)
}

pub fn rgb(hex: u32) -> (c: Color)
    ensures
        c == rgb_of(hex),
{
    let r = (hex >> 16) as u8;
    let g = (hex >> 8) as u8;
    let b = hex as u8;
    assert(r == ((hex / 0x10000) % 0x100) as u8) by (bit_vector)
        requires
            r == (hex >> 16) as u8,
    ;
    assert(g == ((hex / 0x100) % 0x100) as u8) by (bit_vector)
        requires
            g == (hex >> 8) as u8,
    ;
    assert(b == (hex % 0x100) as u8) by (bit_vector)
        requires
            b == hex as u8,
    ;
    Color::Rgb(r, g, b)
}

#[derive(Clone, Copy, Debug, PartialEq, Eq, Structural)]
pub struct Palette {
    pub red: Color,
    pub orange: Color,
    pub yellow: Color,
    pub green: Color,
    pub cyan: Color,
    pub teal: Color,
    pub blue: Color,
    pub blue2: Color,
    pub magenta: Color,
    /// Background of the selected row.
    pub sel_bg: Color,
}

/// A palette from its ten colours in field order.
pub open spec fn palette_of(h: [u32; 10]) -> Palette {
    Palette {
        red: rgb_of(h[0]),
        orange: rgb_of(h[1]),
        yellow: rgb_of(h[2]),
        green: rgb_of(h[3]),
        cyan: rgb_of(h[4]),
        teal: rgb_of(h[5]),
        blue: rgb_of(h[6]),
        blue2: rgb_of(h[7]),
        magenta: rgb_of(h[8]),
        sel_bg: rgb_of(h[9]),
    }
}

fn make_palette(h: [u32; 10]) -> (p: Palette)
    ensures
        p == palette_of(h),
{
    Palette {
        red: rgb(h[0]),
        orange: rgb(h[1]),
        yellow: rgb(h[2]),
        green: rgb(h[3]),
        cyan: rgb(h[4]),
        teal: rgb(h[5]),
        blue: rgb(h[6]),
        blue2: rgb(h[7]),
        magenta: rgb(h[8]),
        sel_bg: rgb(h[9]),
    }
}

pub const NORD: [u32; 10] = [
    0xbf616a,
    0xd08770,
    0xebcb8b,
    0xa3be8c,
    0x88c0d0,
    0x8fbcbb,
    0x81a1c1,
    0x5e81ac,
    0xb48ead,
    0x2d3748,
];

pub const CATPPUCCIN: [u32; 10] = [
    0xf38ba8,
    0xfab387,
    0xf9e2af,
    0xa6e3a1,
    0x89dceb,
    0x94e2d5,
    0x89b4fa,
    0x74c7ec,
    0xcba6f7,
    0x313244,
];

pub const GRUVBOX: [u32; 10] = [
    0xfb4934,
    0xfe8019,
    0xfabd2f,
    0xb8bb26,
    0x8ec07c,
    0x689d6a,
    0x83a598,
    0x458588,
    0xd3869b,
    0x3c3836,
];

/// The palette that the theme name selects: `catppuccin`, `gruvbox`, and
/// nord for everything else (`nord`, the legacy `dark`, unknown values).
pub open spec fn palette_named(name: Seq<char>) -> Palette {
    if name == "catppuccin"@ {
        palette_of(CATPPUCCIN)
    } else if name == "gruvbox"@ {
        palette_of(GRUVBOX)
    } else {
        palette_of(NORD)
    }
}

/// The palette for the theme `name` of config.toml.
pub fn init(name: &str) -> (p: Palette)
    ensures
        p == palette_named(name@),
{
    let n = crate::text::chars_of(name);
    if crate::text::eq_str(&n, "catppuccin") {
        make_palette(CATPPUCCIN)
    } else if crate::text::eq_str(&n, "gruvbox") {
        make_palette(GRUVBOX)
    } else {
        make_palette(NORD)
    }
}

/// The palette in use before any theme is chosen.
pub fn default_palette() -> (p: Palette)
    ensures
        p == palette_of(NORD),
{
    make_palette(NORD)
}

} // verus!
