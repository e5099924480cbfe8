//! What the library asks of the compositor: the layer-shell settings of a
//! new surface, and the actions that follow from one update.

use vstd::prelude::*;
use crate::note::Note;
use crate::outputs::{OutputInfo, find_output, index_of_name};
use crate::settings::{SizePreset, spec_note_expanded_height, spec_note_height};

verus! {

/// Which screen edges a surface is anchored to.
#[derive(Clone, Copy, PartialEq, Eq, Debug, Structural)]
pub enum Anchor {
    /// Top edge only (horizontally centered by the compositor).
    Top,
    /// Top and left edges; the margin then gives the absolute position.
    TopLeft,
}

/// Whether a surface takes keyboard focus: never, or when clicked.
#[derive(Clone, Copy, PartialEq, Eq, Debug, Structural)]
pub enum KeyboardMode {
    NoFocus,
    OnDemand,
}

/// On which output a surface is placed.
#[derive(Clone, Debug)]
pub enum OutputTarget {
    /// The compositor chooses.
    Compositor,
    /// The output with this name.
    Named(String),
}

/// The three kinds of surface the app creates.
#[derive(Clone, Copy, PartialEq, Eq, Debug, Structural)]
pub enum SurfaceRole {
    Note,
    Toolbar,
    List,
}

/// Settings of a new layer surface. Every surface lives on the top layer,
/// with exclusive zone 0 and without event transparency.
#[derive(Debug)]
pub struct LayerSettings {
    pub size: (u32, u32),
    pub anchor: Anchor,
    /// CSS order: (top, right, bottom, left).
    pub margin: (i32, i32, i32, i32),
    pub keyboard: KeyboardMode,
    pub output: OutputTarget,
    pub role: SurfaceRole,
}

/// Fixed size of the fallback toolbar.
pub const TOOLBAR_SIZE: (u32, u32) = (300, 36);

/// Fixed size of the note list panel.
pub const LIST_SIZE: (u32, u32) = (320, 300);

impl SurfaceRole {
    /// The layer-shell namespace of surfaces with this role.
    pub fn namespace(&self) -> (s: &'static str)
        ensures
            s@ == spec_namespace(*self),
    {
        proof {
            reveal_strlit("postit-note");
            reveal_strlit("postit-toolbar");
            reveal_strlit("postit-list");
        }
        match self {
            SurfaceRole::Note => "postit-note",
            SurfaceRole::Toolbar => "postit-toolbar",
            SurfaceRole::List => "postit-list",
        }
    }
}

pub open spec fn spec_namespace(r: SurfaceRole) -> Seq<char> {
    match r {
        SurfaceRole::Note => "postit-note"@,
        SurfaceRole::Toolbar => "postit-toolbar"@,
        SurfaceRole::List => "postit-list"@,
    }
}

/// The output a surface recorded as `name` goes to: that output if it is
/// among `outputs`, else the compositor's choice.
pub open spec fn spec_output_target(name: Option<String>, outputs: Seq<OutputInfo>) -> OutputTarget {
    match name {
        Some(n) => if index_of_name(outputs, n@) is Some {
            OutputTarget::Named(n)
        } else {
            OutputTarget::Compositor
        },
        None => OutputTarget::Compositor,
    }
}

fn output_target(name: &Option<String>, outputs: &Vec<OutputInfo>) -> (t: OutputTarget)
    ensures
        t == spec_output_target(*name, outputs@),
{
    match name {
        Some(n) => match find_output(outputs, n) {
            Some(_) => OutputTarget::Named(n.clone()),
            None => OutputTarget::Compositor,
        },
        None => OutputTarget::Compositor,
    }
}

/// The output a note's surface is created on: its recorded output when that
/// output is still among the enumerated ones, else the compositor's choice.
pub fn resolve_output_option(note: &Note, outputs: &Vec<OutputInfo>) -> (t: OutputTarget)
    ensures
        t == spec_output_target(note.output, outputs@),
{
    output_target(&note.output, outputs)
}

/// Height of a note surface, by whether its menu is open.
pub open spec fn note_surface_height(expanded: bool, preset: SizePreset) -> u32 {
    if expanded {
        spec_note_expanded_height(preset)
    } else {
        spec_note_height(preset)
    }
}

pub open spec fn spec_note_layer_settings(
    note: Note,
    expanded: bool,
    outputs: Seq<OutputInfo>,
    preset: SizePreset,
) -> LayerSettings {
    LayerSettings {
        size: (note.width as u32, note_surface_height(expanded, preset)),
        anchor: Anchor::TopLeft,
        margin: (note.y, 0, 0, note.x),
        keyboard: KeyboardMode::OnDemand,
        output: spec_output_target(note.output, outputs),
        role: SurfaceRole::Note,
    }
}

/// Settings of a note's surface: the note's own width, a height by preset
/// and menu state, positioned at the note's (x, y).
pub fn note_layer_settings(
    note: &Note,
    expanded: bool,
    outputs: &Vec<OutputInfo>,
    preset: SizePreset,
) -> (s: LayerSettings)
    ensures
        s == spec_note_layer_settings(*note, expanded, outputs@, preset),
{
    let height = if expanded {
        preset.note_expanded_height()
    } else {
        preset.note_height()
    };
    LayerSettings {
        size: (note.width as u32, height),
        anchor: Anchor::TopLeft,
        margin: (note.y, 0, 0, note.x),
        keyboard: KeyboardMode::OnDemand,
        output: resolve_output_option(note, outputs),
        role: SurfaceRole::Note,
    }
}

pub open spec fn spec_toolbar_layer_settings() -> LayerSettings {
    LayerSettings {
        size: TOOLBAR_SIZE,
        anchor: Anchor::Top,
        margin: (8, 0, 0, 0),
        keyboard: KeyboardMode::NoFocus,
        output: OutputTarget::Compositor,
        role: SurfaceRole::Toolbar,
    }
}

/// Settings of the fallback toolbar: top-centered, 8 px below the edge.
pub fn toolbar_layer_settings() -> (s: LayerSettings)
    ensures
        s == spec_toolbar_layer_settings(),
{
    LayerSettings {
        size: TOOLBAR_SIZE,
        anchor: Anchor::Top,
        margin: (8, 0, 0, 0),
        keyboard: KeyboardMode::NoFocus,
        output: OutputTarget::Compositor,
        role: SurfaceRole::Toolbar,
    }
}

pub open spec fn spec_list_layer_settings(
    list_output: Option<String>,
    outputs: Seq<OutputInfo>,
    pos: (i32, i32),
) -> LayerSettings {
    LayerSettings {
        size: LIST_SIZE,
        anchor: Anchor::TopLeft,
        margin: (pos.1, 0, 0, pos.0),
        keyboard: KeyboardMode::NoFocus,
        output: spec_output_target(list_output, outputs),
        role: SurfaceRole::List,
    }
}

/// Settings of the note list panel at position `pos`.
pub fn list_layer_settings(
    list_output: &Option<String>,
    outputs: &Vec<OutputInfo>,
    pos: (i32, i32),
) -> (s: LayerSettings)
    ensures
        s == spec_list_layer_settings(*list_output, outputs@, pos),
{
    LayerSettings {
        size: LIST_SIZE,
        anchor: Anchor::TopLeft,
        margin: (pos.1, 0, 0, pos.0),
        keyboard: KeyboardMode::NoFocus,
        output: output_target(list_output, outputs),
        role: SurfaceRole::List,
    }
}

/// One thing the app runtime must do after an update. Surfaces are named by
/// the ids the library allocates.
#[derive(Debug)]
pub enum Action {
    /// Create a layer surface.
    NewLayerShell { settings: LayerSettings, id: u64 },
    /// Close a surface.
    RemoveWindow(u64),
    /// Move a surface; margin in CSS order (top, right, bottom, left).
    MarginChange { id: u64, margin: (i32, i32, i32, i32) },
    /// Resize a surface to (width, height).
    SizeChange { id: u64, size: (u32, u32) },
    /// Give keyboard focus to the text input of this note.
    FocusNoteInput(u64),
    /// Persist all notes.
    SaveNotes,
    /// Persist the settings.
    SaveSettings,
    /// Enumerate the outputs again and hand the result back.
    RefreshOutputs,
    /// Terminate the application.
    Exit,
}

} // verus!
