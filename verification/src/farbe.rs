use vstd::prelude::*;

use crate::brett::Feld;
use crate::brett::Spieler;

verus! {

pub const BLACK: u32 = 0;
pub const WHITE: u32 = 0xFFFFFF;
pub const LIGHT_BLUE: u32 = 0x18C5F5;
pub const DARK_BLUE: u32 = 0x102EEB;
pub const LIGHT_RED: u32 = 0xF7234D;
pub const DARK_RED: u32 = 0x82031C;

pub open spec fn spec_rgb(r: u8, g: u8, b: u8) -> u32 {
    ((r as u32) << 16) | ((g as u32) << 8) | (b as u32)
}

/// Packs three 8-bit channels into one 0x00RRGGBB pixel value.
pub fn rgb(r: u8, g: u8, b: u8) -> (c: u32)
    ensures
        c == spec_rgb(r, g, b),
{
    ((r as u32) << 16) | ((g as u32) << 8) | (b as u32)
}

pub open spec fn spec_feld_color(feld: Feld) -> u32 {
    match feld {
        Feld::Leer => BLACK,
        Feld::Stein(Spieler::Mensch) => LIGHT_RED,
        Feld::Stein(Spieler::Computer) => LIGHT_BLUE,
        Feld::Dame(Spieler::Mensch) => DARK_RED,
        Feld::Dame(Spieler::Computer) => DARK_BLUE,
    }
}

/// The pixel color with which a cell's contents are drawn.
pub fn get_feld_color(feld: Feld) -> (c: u32)
    ensures
        c == spec_feld_color(feld),
{
    match feld {
        Feld::Leer => BLACK,
        Feld::Stein(Spieler::Mensch) => LIGHT_RED,
        Feld::Stein(Spieler::Computer) => LIGHT_BLUE,
        Feld::Dame(Spieler::Mensch) => DARK_RED,
        Feld::Dame(Spieler::Computer) => DARK_BLUE,
    }
}

} // verus!
