//! Fixed values shared by the browser.

use vstd::prelude::*;
use crate::directory::Directory;

verus! {

/// The place of a pane that holds no directory.
pub const EMPTY_DIR_ENTRY: Option<Directory> = None;

/// The number of panes shown side by side when nothing else is configured.
pub const MAX_DEPTH_DEFAULT: usize = 20;

/// The bit that marks a hidden file in a platform's file attributes.
pub const FILE_ATTRIBUTE_HIDDEN: u32 = 0x00000002;

/// The width, in characters, of the marker that ends the text of a row in
/// a pane.
pub const MARKER_WIDTH: usize = 4;

/// The width, in characters, of the marker that ends the text of an entry
/// on its own.
pub const WIDE_MARKER_WIDTH: usize = 7;

/// The width, in characters, of the border on either side of a row in a
/// pane.
pub const BORDER_WIDTH: usize = 2;

/// The width, in characters, of the separator between two panes.
pub const SEPARATOR_WIDTH: usize = 1;

} // verus!
