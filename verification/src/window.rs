//! The scroll-window policy: which row of a listing is shown first so that the
//! selected row stays inside a bounded number of visible rows.

use vstd::prelude::*;

verus! {

/// How many rows above the selection stay visible while the selection moves
/// through the middle of a long listing.
pub open spec fn lookback(visible_rows: int) -> int {
    visible_rows / 2
}

/// The first row shown for a selection in a listing of `length` rows, of which
/// `visible_rows` fit on screen.
pub open spec fn window_start_for(selected_index: int, length: int, visible_rows: int) -> int {
    if length <= visible_rows {
        0
    } else if selected_index < visible_rows {
        0
    } else if selected_index >= length - visible_rows {
        length - visible_rows
    } else {
        selected_index - lookback(visible_rows)
    }
}

/// The selected row lies inside the window that starts at `window_start`.
pub open spec fn selection_visible(window_start: int, selected_index: int, visible_rows: int) -> bool {
    window_start <= selected_index < window_start + visible_rows
}

/// For a selection that is a row of the listing and a screen of at least one
/// row, the window of the policy begins at a row of the listing, shows the
/// selection, and ends inside the listing whenever the listing fills the
/// screen.
pub proof fn lemma_window_start(selected_index: int, length: int, visible_rows: int)
    requires
        0 <= selected_index < length,
        0 < visible_rows,
    ensures
        0 <= window_start_for(selected_index, length, visible_rows) < length,
        selection_visible(window_start_for(selected_index, length, visible_rows), selected_index, visible_rows),
        visible_rows <= length ==> window_start_for(selected_index, length, visible_rows) + visible_rows
            <= length,
{
}

/// Computes the first visible row for the given selection.
///
/// Whenever the selection is a row of the listing and at least one row fits,
/// the selection is visible in the resulting window; whenever the listing
/// fills the screen, the window does not run past its end.
pub fn compute_window(selected_index: usize, length: usize, visible_rows: usize) -> (window_start: usize)
    ensures
        window_start == window_start_for(selected_index as int, length as int, visible_rows as int),
        window_start <= selected_index,
        selected_index < length ==> window_start < length,
        selected_index < length && visible_rows > 0 ==> selection_visible(
            window_start as int,
            selected_index as int,
            visible_rows as int,
        ),
        visible_rows <= length ==> window_start + visible_rows <= length,
{
    if length <= visible_rows {
        0
    } else if selected_index < visible_rows {
        0
    } else if selected_index >= length - visible_rows {
        length - visible_rows
    } else {
        selected_index - visible_rows / 2
    }
}

} // verus!
