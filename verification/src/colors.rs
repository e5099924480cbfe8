//! The note palette: six colors, each with a background and a darker border
//! shade, plus the shared dark-brown text color.

use vstd::prelude::*;

verus! {

/// An sRGB color with 8 bits per channel.
#[derive(Clone, Copy, PartialEq, Eq, Debug, Structural)]
pub struct Rgb8 {
    pub r: u8,
    pub g: u8,
    pub b: u8,
}

/// The color of a note.
#[derive(Clone, Copy, PartialEq, Eq, Debug, Structural)]
pub enum NoteColor {
    Yellow,
    Pink,
    Blue,
    Green,
    Orange,
    Gray,
}

pub open spec fn rgb(r: u8, g: u8, b: u8) -> Rgb8 {
    Rgb8 { r, g, b }
}

/// Background shade of each palette color.
pub open spec fn spec_bg(c: NoteColor) -> Rgb8 {
    match c {
        NoteColor::Yellow => rgb(255, 241, 118),
        NoteColor::Pink => rgb(244, 143, 177),
        NoteColor::Blue => rgb(129, 212, 250),
        NoteColor::Green => rgb(165, 214, 167),
        NoteColor::Orange => rgb(255, 183, 77),
        NoteColor::Gray => rgb(224, 224, 224),
    }
}

/// Border shade of each palette color.
pub open spec fn spec_border(c: NoteColor) -> Rgb8 {
    match c {
        NoteColor::Yellow => rgb(249, 215, 28),
        NoteColor::Pink => rgb(236, 95, 143),
        NoteColor::Blue => rgb(79, 195, 247),
        NoteColor::Green => rgb(121, 203, 126),
        NoteColor::Orange => rgb(255, 160, 30),
        NoteColor::Gray => rgb(158, 158, 158),
    }
}

/// The text color shared by every note (#3E2723).
pub open spec fn spec_text_color() -> Rgb8 {
    rgb(62, 39, 35)
}

/// Every palette color, in menu order.
pub open spec fn all_colors() -> Seq<NoteColor> {
    seq![
        NoteColor::Yellow,
        NoteColor::Pink,
        NoteColor::Blue,
        NoteColor::Green,
        NoteColor::Orange,
        NoteColor::Gray,
    ]
}

impl NoteColor {
    /// Every palette color, in menu order.
    pub const ALL: [NoteColor; 6] = [
        NoteColor::Yellow,
        NoteColor::Pink,
        NoteColor::Blue,
        NoteColor::Green,
        NoteColor::Orange,
        NoteColor::Gray,
    ];

    pub fn bg(&self) -> (c: Rgb8)
        ensures
            c == spec_bg(*self),
    {
        match self {
            NoteColor::Yellow => Rgb8 { r: 255, g: 241, b: 118 },
            NoteColor::Pink => Rgb8 { r: 244, g: 143, b: 177 },
            NoteColor::Blue => Rgb8 { r: 129, g: 212, b: 250 },
            NoteColor::Green => Rgb8 { r: 165, g: 214, b: 167 },
            NoteColor::Orange => Rgb8 { r: 255, g: 183, b: 77 },
            NoteColor::Gray => Rgb8 { r: 224, g: 224, b: 224 },
        }
    }

    pub fn border(&self) -> (c: Rgb8)
        ensures
            c == spec_border(*self),
    {
        match self {
            NoteColor::Yellow => Rgb8 { r: 249, g: 215, b: 28 },
            NoteColor::Pink => Rgb8 { r: 236, g: 95, b: 143 },
            NoteColor::Blue => Rgb8 { r: 79, g: 195, b: 247 },
            NoteColor::Green => Rgb8 { r: 121, g: 203, b: 126 },
            NoteColor::Orange => Rgb8 { r: 255, g: 160, b: 30 },
            NoteColor::Gray => Rgb8 { r: 158, g: 158, b: 158 },
        }
    }

    pub fn text(&self) -> (c: Rgb8)
        ensures
            c == spec_text_color(),
    {
        Rgb8 { r: 62, g: 39, b: 35 }
    }
}

/// `NoteColor::ALL` lists every palette color exactly once.
pub proof fn lemma_all_lists_every_color(c: NoteColor)
    ensures
        NoteColor::ALL@ == all_colors(),
        all_colors().contains(c),
        all_colors().no_duplicates(),
{
    assert(NoteColor::ALL@ =~= all_colors());
    match c {
        NoteColor::Yellow => assert(all_colors()[0] == c),
        NoteColor::Pink => assert(all_colors()[1] == c),
        NoteColor::Blue => assert(all_colors()[2] == c),
        NoteColor::Green => assert(all_colors()[3] == c),
        NoteColor::Orange => assert(all_colors()[4] == c),
        NoteColor::Gray => assert(all_colors()[5] == c),
    }
}

/// A border is never lighter than its background in any channel, and is
/// strictly darker overall.
pub proof fn lemma_border_darker_than_bg(c: NoteColor)
    ensures
        spec_border(c).r <= spec_bg(c).r,
        spec_border(c).g <= spec_bg(c).g,
        spec_border(c).b <= spec_bg(c).b,
        spec_border(c).r + spec_border(c).g + spec_border(c).b < spec_bg(c).r + spec_bg(c).g
            + spec_bg(c).b,
{
}

} // verus!
