//! The two colour schemes of the window.

use vstd::prelude::*;

verus! {

/// A colour as red, green and blue.
#[derive(Debug, Clone, Copy, PartialEq, Eq, Structural)]
pub struct Rgb {
    pub r: u8,
    pub g: u8,
    pub b: u8,
}

/// Which scheme the window uses; it starts dark.
#[derive(Debug, Clone, Copy, PartialEq, Eq, Structural)]
pub struct Theme {
    pub dark: bool,
}

pub open spec fn rgb(r: u8, g: u8, b: u8) -> Rgb {
    Rgb { r, g, b }
}

/// The colour of each role in the dark and the light scheme.
pub open spec fn bg_of(dark: bool) -> Rgb {
    if dark { rgb(0x13, 0x17, 0x1D) } else { rgb(0xF2, 0xF3, 0xF5) }
}

pub open spec fn panel_of(dark: bool) -> Rgb {
    if dark { rgb(0x1B, 0x20, 0x28) } else { rgb(0xE9, 0xEB, 0xEF) }
}

pub open spec fn status_bg_of(dark: bool) -> Rgb {
    if dark { rgb(0x16, 0x1A, 0x21) } else { rgb(0xE2, 0xE4, 0xE9) }
}

pub open spec fn input_bg_of(dark: bool) -> Rgb {
    if dark { rgb(0x10, 0x14, 0x1A) } else { rgb(0xFF, 0xFF, 0xFF) }
}

pub open spec fn btn_gray_of(dark: bool) -> Rgb {
    if dark { rgb(0x25, 0x2B, 0x35) } else { rgb(0xE2, 0xE4, 0xE9) }
}

pub open spec fn text_of(dark: bool) -> Rgb {
    if dark { rgb(0xE5, 0xE8, 0xEC) } else { rgb(0x1F, 0x24, 0x2B) }
}

pub open spec fn text_soft_of(dark: bool) -> Rgb {
    if dark { rgb(0x99, 0xA1, 0xAD) } else { rgb(0x6B, 0x73, 0x80) }
}

pub open spec fn border_of(dark: bool) -> Rgb {
    if dark { rgb(0x3A, 0x41, 0x4B) } else { rgb(0xC2, 0xC8, 0xD1) }
}

/// The scheme a window starts with: dark.
pub open spec fn initial_theme() -> Theme {
    Theme { dark: true }
}

/// The scheme after choosing dark (`true`) or light.
pub open spec fn set_to(t: Theme, dark: bool) -> Theme {
    Theme { dark }
}

/// The window starts dark; after a choice it reads as chosen, until the next
/// choice, which alone counts.
pub proof fn law_reads_last_choice(t: Theme, b: bool, c: bool)
    ensures
        initial_theme().dark,
        set_to(t, b).dark == b,
        set_to(set_to(t, b), c) == set_to(t, c),
{
}

impl Theme {
    pub fn new() -> (t: Theme)
        ensures
            t == initial_theme(),
    {
        Theme { dark: true }
    }

    pub fn is_dark(&self) -> (r: bool)
        ensures
            r == self.dark,
    {
        self.dark
    }

    pub fn set_dark(&mut self, dark: bool)
        ensures
            *final(self) == set_to(*old(self), dark),
    {
        self.dark = dark;
    }

    pub fn bg(&self) -> (c: Rgb)
        ensures
            c == bg_of(self.dark),
    {
        if self.dark { Rgb { r: 0x13, g: 0x17, b: 0x1D } } else { Rgb { r: 0xF2, g: 0xF3, b: 0xF5 } }
    }

    pub fn panel(&self) -> (c: Rgb)
        ensures
            c == panel_of(self.dark),
    {
        if self.dark { Rgb { r: 0x1B, g: 0x20, b: 0x28 } } else { Rgb { r: 0xE9, g: 0xEB, b: 0xEF } }
    }

    pub fn status_bg(&self) -> (c: Rgb)
        ensures
            c == status_bg_of(self.dark),
    {
        if self.dark { Rgb { r: 0x16, g: 0x1A, b: 0x21 } } else { Rgb { r: 0xE2, g: 0xE4, b: 0xE9 } }
    }

    pub fn input_bg(&self) -> (c: Rgb)
        ensures
            c == input_bg_of(self.dark),
    {
        if self.dark { Rgb { r: 0x10, g: 0x14, b: 0x1A } } else { Rgb { r: 0xFF, g: 0xFF, b: 0xFF } }
    }

    pub fn btn_gray(&self) -> (c: Rgb)
        ensures
            c == btn_gray_of(self.dark),
    {
        if self.dark { Rgb { r: 0x25, g: 0x2B, b: 0x35 } } else { Rgb { r: 0xE2, g: 0xE4, b: 0xE9 } }
    }

    pub fn text(&self) -> (c: Rgb)
        ensures
            c == text_of(self.dark),
    {
        if self.dark { Rgb { r: 0xE5, g: 0xE8, b: 0xEC } } else { Rgb { r: 0x1F, g: 0x24, b: 0x2B } }
    }

    pub fn text_soft(&self) -> (c: Rgb)
        ensures
            c == text_soft_of(self.dark),
    {
        if self.dark { Rgb { r: 0x99, g: 0xA1, b: 0xAD } } else { Rgb { r: 0x6B, g: 0x73, b: 0x80 } }
    }

    /// The colour of borders (drawn one pixel wide).
    pub fn border(&self) -> (c: Rgb)
        ensures
            c == border_of(self.dark),
    {
        if self.dark { Rgb { r: 0x3A, g: 0x41, b: 0x4B } } else { Rgb { r: 0xC2, g: 0xC8, b: 0xD1 } }
    }
}

/// The colours that do not follow the scheme.
pub fn blue() -> (c: Rgb)
    ensures
        c == rgb(0x45, 0x96, 0xFF),
{
    Rgb { r: 0x45, g: 0x96, b: 0xFF }
}

pub fn blue_check() -> (c: Rgb)
    ensures
        c == rgb(0x2E, 0x7C, 0xF6),
{
    Rgb { r: 0x2E, g: 0x7C, b: 0xF6 }
}

pub fn error_red() -> (c: Rgb)
    ensures
        c == rgb(0xF0, 0x6A, 0x6A),
{
    Rgb { r: 0xF0, g: 0x6A, b: 0x6A }
}

pub fn ok_green() -> (c: Rgb)
    ensures
        c == rgb(0x4C, 0xC3, 0x6A),
{
    Rgb { r: 0x4C, g: 0xC3, b: 0x6A }
}

/// Corner rounding of widgets, in pixels.
pub const CORNER: u8 = 6;

} // verus!
