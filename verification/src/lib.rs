//! Desktop sticky notes: the note model, the user settings, and the
//! decisions of the note application (which notes are shown, where, at
//! which size, and what the compositor is asked to do), verified.

pub mod colors;
pub mod focus;
pub mod keys;
pub mod note;
pub mod settings;
pub mod tray;
pub mod outputs;
pub mod laws;
pub mod surface_laws;
pub mod layer;
pub mod list_view;
pub mod app;
