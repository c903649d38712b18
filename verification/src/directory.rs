//! The snapshot of one directory: its listing in directory-first order, the
//! selected row and the first row on screen.

use vstd::prelude::*;
use crate::config::Config;
use crate::entry::{
    dirs_first, is_dirs_first, lemma_dirs_first_keeps_names, listing_view, longest_name,
    longest_name_len, partition_dirs_first, sync_index, synced_index, Entry, EntryView,
};
use crate::window::{compute_window, selection_visible, window_start_for};

verus! {

/// One directory as a pane shows it.
#[derive(Debug)]
pub struct Directory {
    /// The directory's own name, or the root marker.
    pub name: String,
    /// The listing, directories first.
    pub contents: Vec<Entry>,
    /// The selected row.
    pub selected_idx: usize,
    /// The length of the longest name of the listing, in characters.
    pub longest_name_len: usize,
    /// The first row on screen.
    pub start_show_idx: usize,
}

/// What a [`Directory`] stands for.
pub struct DirectoryView {
    pub name: Seq<char>,
    pub entries: Seq<EntryView>,
    pub selected: int,
    pub longest: int,
    pub window_start: int,
}

impl View for Directory {
    type V = DirectoryView;

    open spec fn view(&self) -> DirectoryView {
        DirectoryView {
            name: self.name@,
            entries: listing_view(self.contents@),
            selected: self.selected_idx as int,
            longest: self.longest_name_len as int,
            window_start: self.start_show_idx as int,
        }
    }
}

/// The snapshots that a stack of directories stands for.
pub open spec fn stack_view(panes: Seq<Directory>) -> Seq<DirectoryView> {
    panes.map_values(|d: Directory| d@)
}

impl DirectoryView {
    /// The selection is a row of the listing, or the top row of an empty one.
    pub open spec fn selection_in_range(self) -> bool {
        if self.entries.len() == 0 {
            self.selected == 0
        } else {
            0 <= self.selected < self.entries.len()
        }
    }

    /// The first row on screen is a row of the listing, or the top row of an
    /// empty one.
    pub open spec fn window_in_range(self) -> bool {
        if self.entries.len() == 0 {
            self.window_start == 0
        } else {
            0 <= self.window_start < self.entries.len()
        }
    }

    /// The snapshot keeps its rules: directories stand first, the selection
    /// and the window are rows of the listing, and the recorded width is that
    /// of the longest name.
    pub open spec fn wf(self) -> bool {
        &&& is_dirs_first(self.entries)
        &&& self.selection_in_range()
        &&& self.window_in_range()
        &&& self.longest == longest_name(self.entries)
    }

    /// The window is the one the scroll policy gives for `visible_rows`.
    pub open spec fn windowed(self, visible_rows: int) -> bool {
        self.window_start == window_start_for(self.selected, self.entries.len() as int, visible_rows)
    }

    /// The snapshot with its selection on `selected`.
    pub open spec fn with_selected(self, selected: int) -> DirectoryView {
        DirectoryView { selected: selected, ..self }
    }

    /// The snapshot with the window that the scroll policy gives.
    pub open spec fn rewindowed(self, visible_rows: int) -> DirectoryView {
        DirectoryView {
            window_start: window_start_for(self.selected, self.entries.len() as int, visible_rows),
            ..self
        }
    }

    /// The selection one row further down, and unchanged on the last row.
    pub open spec fn next_selected(self) -> int {
        if self.selected + 1 < self.entries.len() {
            self.selected + 1
        } else {
            self.selected
        }
    }

    /// The selection one row further up, and unchanged on the top row.
    pub open spec fn prev_selected(self) -> int {
        if self.selected > 0 {
            self.selected - 1
        } else {
            self.selected
        }
    }
}

/// The snapshot made of a name, a listing in enumeration order and a wanted
/// selection: the listing is put in directory-first order, a selection that
/// is no row of it falls back to the top row, and the window starts at the
/// top.
pub open spec fn fresh_snapshot(name: Seq<char>, listing: Seq<EntryView>, selected: int) -> DirectoryView {
    DirectoryView {
        name: name,
        entries: dirs_first(listing),
        selected: if 0 <= selected < listing.len() {
            selected
        } else {
            0
        },
        longest: longest_name(listing) as int,
        window_start: 0,
    }
}

/// The snapshot of a directory as it is first shown: the listing in
/// directory-first order, the selection on the entry named by `hint` (on the
/// top row without a hint, and where no entry carries that name), and the
/// window that the scroll policy gives for it.
pub open spec fn snapshot_of(
    name: Seq<char>,
    listing: Seq<EntryView>,
    hint: Option<Seq<char>>,
    visible_rows: int,
) -> DirectoryView {
    let entries = dirs_first(listing);
    let selected = match hint {
        Some(wanted) => synced_index(entries, wanted),
        None => 0,
    };
    DirectoryView {
        name: name,
        entries: entries,
        selected: selected,
        longest: longest_name(listing) as int,
        window_start: window_start_for(selected, entries.len() as int, visible_rows),
    }
}

/// The name that a hint asks for.
pub open spec fn hint_view(hint: Option<&String>) -> Option<Seq<char>> {
    match hint {
        Some(wanted) => Some(wanted@),
        None => None,
    }
}

/// The row that lies `delta` rows from `selected`, kept inside a listing of
/// `length` rows; in an empty listing it is the top row.
pub open spec fn clamped_row(selected: int, delta: int, length: int) -> int {
    if length <= 0 || selected + delta < 0 {
        0
    } else if selected + delta >= length {
        length - 1
    } else {
        selected + delta
    }
}

/// A snapshot that keeps its rules and has the window of the scroll policy
/// shows its selected row, as long as one row fits on screen.
pub proof fn lemma_windowed_shows_selection(dir: DirectoryView, visible_rows: int)
    requires
        dir.wf(),
        dir.windowed(visible_rows),
        visible_rows > 0,
    ensures
        selection_visible(dir.window_start, dir.selected, visible_rows),
        dir.entries.len() >= visible_rows ==> dir.window_start + visible_rows <= dir.entries.len(),
{
}

impl Clone for Directory {
    fn clone(&self) -> (copy: Self)
        ensures
            copy@ == self@,
    {
        let mut contents: Vec<Entry> = Vec::new();
        let mut at: usize = 0;
        while at < self.contents.len()
            invariant
                at <= self.contents.len(),
                contents@ == self.contents@.take(at as int),
            decreases self.contents.len() - at,
        {
            contents.push(self.contents[at].clone());
            assert(contents@ =~= self.contents@.take(at + 1));
            at += 1;
        }
        assert(self.contents@.take(at as int) =~= self.contents@);
        Directory {
            name: self.name.clone(),
            contents: contents,
            selected_idx: self.selected_idx,
            longest_name_len: self.longest_name_len,
            start_show_idx: self.start_show_idx,
        }
    }
}

impl Directory {
    /// The snapshot keeps its rules; see [`DirectoryView::wf`].
    pub open spec fn wf(&self) -> bool {
        self@.wf()
    }

    /// Makes a snapshot of a listing given in enumeration order.
    ///
    /// The listing is put in directory-first order, `selected_idx` counts rows
    /// of that order and falls back to the top row where it is no row of the
    /// listing, and the window starts at the top.
    pub fn new(name: String, contents: Vec<Entry>, selected_idx: usize) -> (dir: Self)
        ensures
            dir@ == fresh_snapshot(name@, listing_view(contents@), selected_idx as int),
            dir.wf(),
    {
        let ordered = partition_dirs_first(&contents);
        let longest = longest_name_len(&ordered);
        proof {
            lemma_dirs_first_keeps_names(listing_view(contents@));
        }
        let selected = if selected_idx < ordered.len() {
            selected_idx
        } else {
            0
        };
        Directory {
            name: name,
            contents: ordered,
            selected_idx: selected,
            longest_name_len: longest,
            start_show_idx: 0,
        }
    }

    /// Makes the snapshot of a directory as it is first shown.
    ///
    /// The listing comes in enumeration order and is put in directory-first
    /// order. The selection goes to the first entry named by `hint`; without
    /// a hint, and where no entry carries that name, it goes to the top row.
    /// The window is the one the scroll policy gives for `config.n_rows`.
    pub fn from_listing(name: String, listing: &Vec<Entry>, hint: Option<&String>, config: &Config) -> (dir:
        Self)
        ensures
            dir@ == snapshot_of(name@, listing_view(listing@), hint_view(hint), config.n_rows as int),
            dir.wf(),
            dir@.windowed(config.n_rows as int),
    {
        let ordered = partition_dirs_first(listing);
        let longest = longest_name_len(&ordered);
        proof {
            lemma_dirs_first_keeps_names(listing_view(listing@));
        }
        let selected = match hint {
            Some(wanted) => sync_index(&ordered, wanted),
            None => 0,
        };
        let start = compute_window(selected, ordered.len(), config.n_rows);
        Directory {
            name: name,
            contents: ordered,
            selected_idx: selected,
            longest_name_len: longest,
            start_show_idx: start,
        }
    }

    /// Puts the window where the scroll policy wants it for the selection.
    pub fn scroll_to_selection(&mut self, visible_rows: usize)
        ensures
            final(self)@ == old(self)@.rewindowed(visible_rows as int),
            final(self)@.windowed(visible_rows as int),
            old(self).wf() ==> final(self).wf(),
    {
        self.start_show_idx = compute_window(self.selected_idx, self.contents.len(), visible_rows);
    }

    /// Puts the selection on the first entry that carries `name`, or on the
    /// top row where no entry does, and scrolls to it.
    pub fn select_named(&mut self, name: &String, visible_rows: usize)
        ensures
            final(self)@ == old(self)@.with_selected(synced_index(old(self)@.entries, name@)).rewindowed(
                visible_rows as int,
            ),
            final(self)@.windowed(visible_rows as int),
            old(self).wf() ==> final(self).wf(),
    {
        self.selected_idx = sync_index(&self.contents, name);
        self.start_show_idx = compute_window(self.selected_idx, self.contents.len(), visible_rows);
    }

    /// Moves the selection by `delta` rows, stopping at the first and at the
    /// last row, and scrolls to it.
    pub fn move_selection(&mut self, delta: isize, visible_rows: usize)
        ensures
            final(self)@ == old(self)@.with_selected(
                clamped_row(old(self)@.selected, delta as int, old(self)@.entries.len() as int),
            ).rewindowed(visible_rows as int),
            final(self)@.windowed(visible_rows as int),
            old(self).wf() ==> final(self).wf(),
    {
        let len = self.contents.len();
        let target = if len == 0 {
            0
        } else {
            match self.selected_idx.checked_add_signed(delta) {
                Some(row) => if row >= len {
                    len - 1
                } else {
                    row
                },
                None => if delta < 0 {
                    0
                } else {
                    len - 1
                },
            }
        };
        self.selected_idx = target;
        self.start_show_idx = compute_window(target, len, visible_rows);
    }

    /// Moves the selection one row down; on the last row, and in an empty
    /// listing, nothing changes.
    pub fn select_next(&mut self)
        ensures
            final(self)@ == old(self)@.with_selected(old(self)@.next_selected()),
            old(self).wf() ==> final(self).wf(),
    {
        let len = self.contents.len();
        if self.selected_idx < len && self.selected_idx + 1 < len {
            self.selected_idx += 1;
        }
    }

    /// Moves the selection one row up; on the top row nothing changes.
    pub fn select_prev(&mut self)
        ensures
            final(self)@ == old(self)@.with_selected(old(self)@.prev_selected()),
            old(self).wf() ==> final(self).wf(),
    {
        if self.selected_idx > 0 {
            self.selected_idx -= 1;
        }
    }
}

} // verus!
