//! App-wide user settings: the note size preset and the note opacity.

use vstd::prelude::*;

verus! {

/// The two note size presets. `Default` keeps the original fixed sizes;
/// `Small` shrinks note dimensions, text and controls.
#[derive(Clone, Copy, PartialEq, Eq, Debug, Structural)]
pub enum SizePreset {
    Default,
    Small,
}

/// Upper bound of a note's width, shared by both presets.
pub const MAX_NOTE_WIDTH: i32 = 800;

impl Default for SizePreset {
    fn default() -> (p: Self)
        ensures
            p == SizePreset::Default,
    {
        SizePreset::Default
    }
}

/// Collapsed note height.
pub open spec fn spec_note_height(p: SizePreset) -> u32 {
    match p {
        SizePreset::Default => 40,
        SizePreset::Small => 30,
    }
}

/// Note height while its inline menu is open.
pub open spec fn spec_note_expanded_height(p: SizePreset) -> u32 {
    match p {
        SizePreset::Default => 76,
        SizePreset::Small => 60,
    }
}

/// Width of a newly created note.
pub open spec fn spec_default_note_width(p: SizePreset) -> i32 {
    match p {
        SizePreset::Default => 152,
        SizePreset::Small => 120,
    }
}

/// The narrowest a note may be resized to, and the floor applied while its
/// menu is open.
pub open spec fn spec_min_note_width(p: SizePreset) -> i32 {
    match p {
        SizePreset::Default => 240,
        SizePreset::Small => 200,
    }
}

pub open spec fn spec_text_size(p: SizePreset) -> u32 {
    match p {
        SizePreset::Default => 14,
        SizePreset::Small => 11,
    }
}

pub open spec fn spec_input_padding(p: SizePreset) -> u16 {
    match p {
        SizePreset::Default => 4,
        SizePreset::Small => 3,
    }
}

pub open spec fn spec_menu_button_text_size(p: SizePreset) -> u32 {
    match p {
        SizePreset::Default => 12,
        SizePreset::Small => 10,
    }
}

pub open spec fn spec_menu_button_padding(p: SizePreset) -> u16 {
    match p {
        SizePreset::Default => 4,
        SizePreset::Small => 3,
    }
}

pub open spec fn spec_swatch_size(p: SizePreset) -> u16 {
    match p {
        SizePreset::Default => 14,
        SizePreset::Small => 11,
    }
}

pub open spec fn spec_swatch_padding(p: SizePreset) -> u16 {
    1
}

pub open spec fn spec_swatch_spacing(p: SizePreset) -> u32 {
    match p {
        SizePreset::Default => 4,
        SizePreset::Small => 3,
    }
}

pub open spec fn spec_icon_text_size(p: SizePreset) -> u32 {
    match p {
        SizePreset::Default => 14,
        SizePreset::Small => 11,
    }
}

pub open spec fn spec_icon_button_padding(p: SizePreset) -> u16 {
    match p {
        SizePreset::Default => 4,
        SizePreset::Small => 3,
    }
}

pub open spec fn spec_options_row_spacing(p: SizePreset) -> u32 {
    match p {
        SizePreset::Default => 6,
        SizePreset::Small => 5,
    }
}

/// The options row's `[vertical, horizontal]` padding.
pub open spec fn spec_options_row_padding(p: SizePreset) -> [u16; 2] {
    match p {
        SizePreset::Default => [2, 6],
        SizePreset::Small => [2, 5],
    }
}

pub open spec fn spec_grip_width(p: SizePreset) -> u32 {
    match p {
        SizePreset::Default => 12,
        SizePreset::Small => 9,
    }
}

pub open spec fn spec_grip_icon_text_size(p: SizePreset) -> u32 {
    match p {
        SizePreset::Default => 12,
        SizePreset::Small => 9,
    }
}

pub open spec fn spec_resize_handle_width(p: SizePreset) -> u32 {
    match p {
        SizePreset::Default => 10,
        SizePreset::Small => 8,
    }
}

/// Width that the options row of an open note menu needs: six color
/// swatches, then the pin/monitor/link/trash buttons, with the row's gaps
/// and horizontal padding.
pub open spec fn options_row_width(p: SizePreset) -> int {
    let swatch_button = spec_swatch_size(p) + 2 * spec_swatch_padding(p);
    let icon_button = spec_icon_text_size(p) + 2 * spec_icon_button_padding(p);
    let swatches = 6 * swatch_button + 5 * spec_swatch_spacing(p);
    let inner = swatches + 4 * icon_button;
    let gaps = 4 * spec_options_row_spacing(p);
    let h_padding = 2 * spec_options_row_padding(p)[1];
    inner + gaps + h_padding
}

impl SizePreset {
    pub fn note_height(&self) -> (h: u32)
        ensures
            h == spec_note_height(*self),
    {
        match self {
            SizePreset::Default => 40,
            SizePreset::Small => 30,
        }
    }

    pub fn note_expanded_height(&self) -> (h: u32)
        ensures
            h == spec_note_expanded_height(*self),
    {
        match self {
            SizePreset::Default => 76,
            SizePreset::Small => 60,
        }
    }

    pub fn default_note_width(&self) -> (w: i32)
        ensures
            w == spec_default_note_width(*self),
    {
        match self {
            SizePreset::Default => 152,
            SizePreset::Small => 120,
        }
    }

    pub fn min_note_width(&self) -> (w: i32)
        ensures
            w == spec_min_note_width(*self),
    {
        match self {
            SizePreset::Default => 240,
            SizePreset::Small => 200,
        }
    }

    pub fn text_size(&self) -> (s: u32)
        ensures
            s == spec_text_size(*self),
    {
        match self {
            SizePreset::Default => 14,
            SizePreset::Small => 11,
        }
    }

    pub fn input_padding(&self) -> (s: u16)
        ensures
            s == spec_input_padding(*self),
    {
        match self {
            SizePreset::Default => 4,
            SizePreset::Small => 3,
        }
    }

    pub fn menu_button_text_size(&self) -> (s: u32)
        ensures
            s == spec_menu_button_text_size(*self),
    {
        match self {
            SizePreset::Default => 12,
            SizePreset::Small => 10,
        }
    }

    pub fn menu_button_padding(&self) -> (s: u16)
        ensures
            s == spec_menu_button_padding(*self),
    {
        match self {
            SizePreset::Default => 4,
            SizePreset::Small => 3,
        }
    }

    pub fn swatch_size(&self) -> (s: u16)
        ensures
            s == spec_swatch_size(*self),
    {
        match self {
            SizePreset::Default => 14,
            SizePreset::Small => 11,
        }
    }

    pub fn swatch_padding(&self) -> (s: u16)
        ensures
            s == spec_swatch_padding(*self),
    {
        match self {
            SizePreset::Default => 1,
            SizePreset::Small => 1,
        }
    }

    pub fn swatch_spacing(&self) -> (s: u32)
        ensures
            s == spec_swatch_spacing(*self),
    {
        match self {
            SizePreset::Default => 4,
            SizePreset::Small => 3,
        }
    }

    pub fn icon_text_size(&self) -> (s: u32)
        ensures
            s == spec_icon_text_size(*self),
    {
        match self {
            SizePreset::Default => 14,
            SizePreset::Small => 11,
        }
    }

    pub fn icon_button_padding(&self) -> (s: u16)
        ensures
            s == spec_icon_button_padding(*self),
    {
        match self {
            SizePreset::Default => 4,
            SizePreset::Small => 3,
        }
    }

    pub fn options_row_spacing(&self) -> (s: u32)
        ensures
            s == spec_options_row_spacing(*self),
    {
        match self {
            SizePreset::Default => 6,
            SizePreset::Small => 5,
        }
    }

    pub fn options_row_padding(&self) -> (s: [u16; 2])
        ensures
            s == spec_options_row_padding(*self),
    {
        match self {
            SizePreset::Default => [2, 6],
            SizePreset::Small => [2, 5],
        }
    }

    /// Width of the left-edge drag grip, in whole logical px.
    pub fn grip_width(&self) -> (w: u32)
        ensures
            w == spec_grip_width(*self),
    {
        match self {
            SizePreset::Default => 12,
            SizePreset::Small => 9,
        }
    }

    pub fn grip_icon_text_size(&self) -> (s: u32)
        ensures
            s == spec_grip_icon_text_size(*self),
    {
        match self {
            SizePreset::Default => 12,
            SizePreset::Small => 9,
        }
    }

    /// Width of the right-edge resize handle, in whole logical px.
    pub fn resize_handle_width(&self) -> (w: u32)
        ensures
            w == spec_resize_handle_width(*self),
    {
        match self {
            SizePreset::Default => 10,
            SizePreset::Small => 8,
        }
    }
}

/// The minimum note width leaves room for the whole options row: exactly
/// under the default preset, with a margin under the small one.
pub proof fn lemma_min_note_width_fits_options_row(p: SizePreset)
    ensures
        spec_min_note_width(p) >= options_row_width(p),
        p == SizePreset::Default ==> spec_min_note_width(p) == options_row_width(p),
        p == SizePreset::Small ==> options_row_width(p) == 191,
{
}

/// Every preset's sizes are consistent: the expanded note is taller than the
/// collapsed one, and default <= min <= MAX_NOTE_WIDTH widths; the default
/// preset's new-note width equals the legacy default note width.
pub proof fn lemma_preset_sizes_consistent(p: SizePreset)
    ensures
        spec_note_height(p) < spec_note_expanded_height(p),
        0 < spec_default_note_width(p) <= spec_min_note_width(p) <= MAX_NOTE_WIDTH,
        spec_default_note_width(SizePreset::Default) == crate::note::spec_default_width(),
{
}

pub open spec fn spec_default_opacity() -> u8 {
    100
}

/// Default note opacity, percent.
pub fn default_opacity() -> (o: u8)
    ensures
        o == spec_default_opacity(),
{
    100
}

/// Global, persisted user preferences.
#[derive(Clone, Copy, Debug)]
pub struct AppSettings {
    pub size_preset: SizePreset,
    /// Note opacity, percent (0..=100).
    pub opacity: u8,
}

impl Default for AppSettings {
    fn default() -> (s: Self)
        ensures
            s.size_preset == SizePreset::Default,
            s.opacity == spec_default_opacity(),
    {
        AppSettings { size_preset: SizePreset::default(), opacity: default_opacity() }
    }
}

impl AppSettings {
    /// The opacity percent clamped to 100, the numerator of the alpha
    /// multiplier `opacity_percent / 100` applied to note backgrounds and
    /// borders.
    pub fn opacity_percent(&self) -> (p: u8)
        ensures
            p == (if self.opacity <= 100 { self.opacity } else { 100 }),
    {
        if self.opacity <= 100 {
            self.opacity
        } else {
            100
        }
    }
}

} // verus!
