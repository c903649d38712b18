//! The limits that a caller sets for the browser.

use vstd::prelude::*;

verus! {

/// The limits that shape what the browser shows.
#[derive(Clone, Copy, Debug, PartialEq, Eq, Structural)]
pub struct Config {
    /// The longest path, in characters, that the caller has room for.
    pub max_path_length: usize,
    /// How many panes are held and shown at most.
    pub max_directory_depth: usize,
    /// How many rows of a listing fit in a pane.
    pub n_rows: usize,
    /// How many characters of a name are shown at most.
    pub max_col_width: usize,
}

impl Default for Config {
    /// Every limit is zero until the caller sets it.
    fn default() -> (config: Self)
        ensures
            config.max_path_length == 0,
            config.max_directory_depth == 0,
            config.n_rows == 0,
            config.max_col_width == 0,
    {
        Config { max_path_length: 0, max_directory_depth: 0, n_rows: 0, max_col_width: 0 }
    }
}

/// What a client of the browser remembers between two frames.
#[derive(Clone, Copy, Debug, PartialEq, Eq, Structural)]
pub struct ClientState {
    pub selected_idx: usize,
}

} // verus!
