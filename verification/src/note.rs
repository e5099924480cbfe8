//! The note record that is persisted to disk.

use vstd::prelude::*;
use crate::colors::NoteColor;

verus! {

pub open spec fn spec_default_width() -> i32 {
    152
}

/// Width in logical px of a note whose width was never recorded; equal to
/// the collapsed width of a note under the default size preset.
pub fn default_width() -> (w: i32)
    ensures
        w == spec_default_width(),
{
    152
}

/// A single note.
#[derive(Clone, Debug)]
pub struct Note {
    pub id: u64,
    pub text: String,
    pub color: NoteColor,
    pub x: i32,
    pub y: i32,
    pub always_visible: bool,
    /// The app id of the program the note is bound to.
    pub bound_app: Option<String>,
    /// Name of the output (monitor) the note sits on; `None` means not yet
    /// recorded.
    pub output: Option<String>,
    /// Surface width in logical px.
    pub width: i32,
}

impl Note {
    pub fn new(id: u64, color: NoteColor, x: i32, y: i32, bound_app: Option<String>) -> (n: Self)
        ensures
            n.id == id,
            n.text@ == Seq::<char>::empty(),
            n.color == color,
            n.x == x,
            n.y == y,
            !n.always_visible,
            n.bound_app == bound_app,
            n.output is None,
            n.width == spec_default_width(),
    {
        Note {
            id,
            text: String::new(),
            color,
            x,
            y,
            always_visible: false,
            bound_app,
            output: None,
            width: default_width(),
        }
    }

    /// A field-for-field copy of the note.
    pub fn duplicate(&self) -> (n: Self)
        ensures
            n == *self,
    {
        Note {
            id: self.id,
            text: self.text.clone(),
            color: self.color,
            x: self.x,
            y: self.y,
            always_visible: self.always_visible,
            bound_app: copy_opt_string(&self.bound_app),
            output: copy_opt_string(&self.output),
            width: self.width,
        }
    }
}

/// A copy of an optional string.
pub fn copy_opt_string(s: &Option<String>) -> (r: Option<String>)
    ensures
        r == *s,
{
    match s {
        Some(v) => Some(v.clone()),
        None => None,
    }
}

} // verus!
