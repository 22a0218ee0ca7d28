//! Window, viewport and dialog configuration.

use vstd::prelude::*;

verus! {

/// Title and initial size of a window.
#[derive(Clone, Debug)]
pub struct WindowConfig {
    pub title: String,
    pub width: u32,
    pub height: u32,
}

/// Title and initial size of a viewport.
#[derive(Clone, Debug)]
pub struct ViewportConfig {
    pub title: String,
    pub width: u32,
    pub height: u32,
}

/// Settings of a native file dialog.
pub struct FileDialog {
    /// The title of the file dialog window.
    pub title: String,
    /// The starting file name for the file dialog.
    pub initial_file: String,
    /// The starting directory for the file dialog.
    pub directory: String,
    /// File extension filters: each a name and a list of extensions.
    pub filters: Vec<(String, Vec<String>)>,
}

/// The unit of layout coordinates: logical pixels.
#[derive(Clone, Copy, Debug, Default, PartialEq, Eq, Structural)]
pub struct Pixels;

} // verus!
