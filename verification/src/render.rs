//! Turning snapshots into rows of fixed width: the name column, the markers
//! that end a row, the style of a row, and the panes of a frame.

use vstd::prelude::*;
use vstd::string::*;
use std::collections::VecDeque;
use crossterm::style::StyledContent;
use crate::config::Config;
use crate::constants::{BORDER_WIDTH, MARKER_WIDTH, SEPARATOR_WIDTH, WIDE_MARKER_WIDTH};
use crate::directory::{stack_view, Directory, DirectoryView};
use crate::entry::lemma_longest_name;
use crate::style::{look_of, paint, styled_look, styled_text, Look, RowStyle};
use crate::text::{blank, join, joined, pad_to, padded, shorten, shortened, spaces, texts_of};

verus! {

/// The marker that ends the text of a row in a pane. It tells three things
/// apart: whether the name was cut, whether the row is the selected one, and
/// whether the pane is the focused one. Every one of the eight cases has a
/// marker of its own.
pub open spec fn marker(truncated: bool, selected: bool, focused: bool) -> Seq<char> {
    match (truncated, selected, focused) {
        (false, false, false) => "    "@,
        (true, false, false) => "... "@,
        (false, true, false) => "--->"@,
        (true, true, false) => "...>"@,
        (false, false, true) => "   ."@,
        (true, false, true) => "...."@,
        (false, true, true) => "<---"@,
        (true, true, true) => "...<"@,
    }
}

/// The marker that ends the text of an entry on its own. It tells the same
/// three things apart as [`marker`], in seven characters, and every one of
/// the eight cases has a marker of its own; none of them is blank.
pub open spec fn wide_marker(truncated: bool, selected: bool, focused: bool) -> Seq<char> {
    match (truncated, selected, focused) {
        (false, false, false) => "      |"@,
        (true, false, false) => "...   |"@,
        (false, true, false) => "------>"@,
        (true, true, false) => "...--->"@,
        (false, false, true) => "      ."@,
        (true, false, true) => "...    "@,
        (false, true, true) => "<------"@,
        (true, true, true) => "...<---"@,
    }
}

/// The look of a row, by priority: the selection of the focused pane, the
/// selection of another pane, a directory, a plain file.
pub open spec fn row_style(is_dir: bool, selected: bool, focused: bool) -> RowStyle {
    match (selected, focused, is_dir) {
        (true, true, true) => RowStyle::FocusedSelection,
        (true, true, false) => RowStyle::FocusedSelection,
        (true, false, true) => RowStyle::Selection,
        (true, false, false) => RowStyle::Selection,
        (false, true, true) => RowStyle::Directory,
        (false, false, true) => RowStyle::Directory,
        (false, true, false) => RowStyle::Plain,
        (false, false, false) => RowStyle::Plain,
    }
}

/// The width of the name column: the longest name, but no more than the
/// configured limit.
pub open spec fn name_column(longest: int, max_col_width: int) -> int {
    if max_col_width < longest {
        max_col_width
    } else {
        longest
    }
}

/// A name in its column: cut to the limit where it is longer, and filled
/// with spaces to the width of the column.
pub open spec fn name_cell(name: Seq<char>, column: nat, max_col_width: nat) -> Seq<char> {
    padded(shortened(name, max_col_width), column)
}

/// The border to the left of every row in a pane.
pub open spec fn left_border() -> Seq<char> {
    "| "@
}

/// The border to the right of every row in a pane.
pub open spec fn right_border() -> Seq<char> {
    " |"@
}

/// The separator between two panes.
pub open spec fn separator() -> Seq<char> {
    " "@
}

/// What one row of a pane stands for: the text between its borders, the look
/// of that text, and the borders.
pub struct RowView {
    pub left: Seq<char>,
    pub text: Seq<char>,
    pub look: Look,
    pub right: Seq<char>,
}

impl RowView {
    /// The characters of the row from its left to its right border.
    pub open spec fn line(self) -> Seq<char> {
        self.left + self.text + self.right
    }

    /// The number of characters of the row, borders included.
    pub open spec fn width(self) -> nat {
        self.line().len()
    }
}

impl DirectoryView {
    /// The width of this snapshot's name column under `config`.
    pub open spec fn column(self, config: Config) -> nat {
        name_column(self.longest, config.max_col_width as int) as nat
    }

    /// No name of the listing is longer than the recorded width.
    pub open spec fn names_fit(self) -> bool {
        forall|i: int| 0 <= i < self.entries.len() ==> (#[trigger] self.entries[i]).name.len() <= self.longest
    }

    /// The width of the text of every entry on its own: the name column and
    /// the wide marker.
    pub open spec fn entry_width(self, config: Config) -> nat {
        self.column(config) + WIDE_MARKER_WIDTH as nat
    }

    /// The width of every row of this snapshot's pane: the name column, the
    /// marker, and a border on either side.
    pub open spec fn pane_width(self, config: Config) -> nat {
        self.column(config) + MARKER_WIDTH as nat + 2 * BORDER_WIDTH as nat
    }

    /// The text of entry `idx` on its own: its name in the name column, then
    /// the wide marker. Below the listing the text is blank.
    pub open spec fn entry_text(self, idx: int, focused: bool, config: Config) -> Seq<char> {
        if 0 <= idx < self.entries.len() {
            name_cell(self.entries[idx].name, self.column(config), config.max_col_width as nat) + wide_marker(
                self.entries[idx].name.len() > config.max_col_width,
                idx == self.selected,
                focused,
            )
        } else {
            spaces(self.entry_width(config))
        }
    }

    /// The text of row `idx` of the pane, between the borders: the name in
    /// the name column, then the marker. Below the listing the text is
    /// blank.
    pub open spec fn pane_text(self, idx: int, focused: bool, config: Config) -> Seq<char> {
        if 0 <= idx < self.entries.len() {
            name_cell(self.entries[idx].name, self.column(config), config.max_col_width as nat) + marker(
                self.entries[idx].name.len() > config.max_col_width,
                idx == self.selected,
                focused,
            )
        } else {
            spaces(self.column(config) + MARKER_WIDTH as nat)
        }
    }

    /// The style of row `idx`; rows below the listing are plain.
    pub open spec fn entry_style(self, idx: int, focused: bool) -> RowStyle {
        if 0 <= idx < self.entries.len() {
            row_style(self.entries[idx].is_dir, idx == self.selected, focused)
        } else {
            RowStyle::Plain
        }
    }

    /// Row `idx` of the pane as it is printed.
    pub open spec fn pane_row(self, idx: int, focused: bool, config: Config) -> RowView {
        RowView {
            left: left_border(),
            text: self.pane_text(idx, focused, config),
            look: look_of(self.entry_style(idx, focused)),
            right: right_border(),
        }
    }
}

/// Every marker is [`MARKER_WIDTH`] characters wide, and two cases that
/// differ in any of the three facts have different markers.
pub proof fn lemma_marker(truncated: bool, selected: bool, focused: bool)
    ensures
        marker(truncated, selected, focused).len() == MARKER_WIDTH,
        forall|t: bool, s: bool, f: bool|
            #[trigger] marker(t, s, f) == marker(truncated, selected, focused) ==> t == truncated && s
                == selected && f == focused,
{
    reveal_strlit("    ");
    reveal_strlit("... ");
    reveal_strlit("--->");
    reveal_strlit("...>");
    reveal_strlit("   .");
    reveal_strlit("....");
    reveal_strlit("<---");
    reveal_strlit("...<");
    let mine = marker(truncated, selected, focused);
    assert forall|t: bool, s: bool, f: bool| #[trigger] marker(t, s, f) == mine implies t == truncated
        && s == selected && f == focused by {
        let other = marker(t, s, f);
        assert(other[0] == mine[0]);
        assert(other[2] == mine[2]);
        assert(other[3] == mine[3]);
    }
}

/// Every wide marker is [`WIDE_MARKER_WIDTH`] characters wide and not
/// blank, and two cases that differ in any of the three facts have different
/// wide markers.
pub proof fn lemma_wide_marker(truncated: bool, selected: bool, focused: bool)
    ensures
        wide_marker(truncated, selected, focused).len() == WIDE_MARKER_WIDTH,
        wide_marker(truncated, selected, focused) != spaces(WIDE_MARKER_WIDTH as nat),
        forall|t: bool, s: bool, f: bool|
            #[trigger] wide_marker(t, s, f) == wide_marker(truncated, selected, focused) ==> t == truncated
                && s == selected && f == focused,
{
    reveal_strlit("      |");
    reveal_strlit("...   |");
    reveal_strlit("------>");
    reveal_strlit("...--->");
    reveal_strlit("      .");
    reveal_strlit("...    ");
    reveal_strlit("<------");
    reveal_strlit("...<---");
    let mine = wide_marker(truncated, selected, focused);
    let none = spaces(WIDE_MARKER_WIDTH as nat);
    assert(mine[0] != none[0] || mine[6] != none[6]);
    assert forall|t: bool, s: bool, f: bool| #[trigger] wide_marker(t, s, f) == mine implies t
        == truncated && s == selected && f == focused by {
        let other = wide_marker(t, s, f);
        assert(other[0] == mine[0]);
        assert(other[3] == mine[3]);
        assert(other[6] == mine[6]);
    }
}

/// A snapshot that keeps its rules records a width that covers every name.
pub proof fn lemma_wf_names_fit(dir: DirectoryView)
    requires
        dir.wf(),
    ensures
        dir.names_fit(),
{
    lemma_longest_name(dir.entries);
}

/// Where the recorded width covers every name, the text of every entry on
/// its own is exactly as wide as the name column and the wide marker,
/// whatever it shows, below the listing too.
pub proof fn lemma_entry_text_width(dir: DirectoryView, idx: int, focused: bool, config: Config)
    requires
        dir.names_fit(),
    ensures
        dir.entry_text(idx, focused, config).len() == dir.entry_width(config),
{
    if 0 <= idx < dir.entries.len() {
        let entry = dir.entries[idx];
        lemma_wide_marker(entry.name.len() > config.max_col_width, idx == dir.selected, focused);
    }
}

/// Where the recorded width covers every name, every row of the pane is
/// exactly as wide as the pane, borders included, whatever it shows, below
/// the listing too.
pub proof fn lemma_pane_row_width(dir: DirectoryView, idx: int, focused: bool, config: Config)
    requires
        dir.names_fit(),
    ensures
        dir.pane_text(idx, focused, config).len() == dir.column(config) + MARKER_WIDTH,
        dir.pane_row(idx, focused, config).width() == dir.pane_width(config),
{
    reveal_strlit("| ");
    reveal_strlit(" |");
    if 0 <= idx < dir.entries.len() {
        let entry = dir.entries[idx];
        lemma_marker(entry.name.len() > config.max_col_width, idx == dir.selected, focused);
    }
}

/// Picks the marker of a row in a pane.
pub fn marker_for(truncated: bool, selected: bool, focused: bool) -> (glyphs: &'static str)
    ensures
        glyphs@ == marker(truncated, selected, focused),
{
    match (truncated, selected, focused) {
        (false, false, false) => "    ",
        (true, false, false) => "... ",
        (false, true, false) => "--->",
        (true, true, false) => "...>",
        (false, false, true) => "   .",
        (true, false, true) => "....",
        (false, true, true) => "<---",
        (true, true, true) => "...<",
    }
}

/// Picks the marker of an entry on its own.
pub fn wide_marker_for(truncated: bool, selected: bool, focused: bool) -> (glyphs: &'static str)
    ensures
        glyphs@ == wide_marker(truncated, selected, focused),
{
    match (truncated, selected, focused) {
        (false, false, false) => "      |",
        (true, false, false) => "...   |",
        (false, true, false) => "------>",
        (true, true, false) => "...--->",
        (false, false, true) => "      .",
        (true, false, true) => "...    ",
        (false, true, true) => "<------",
        (true, true, true) => "...<---",
    }
}

/// Picks the style of a row.
pub fn style_for(is_dir: bool, selected: bool, focused: bool) -> (style: RowStyle)
    ensures
        style == row_style(is_dir, selected, focused),
{
    match (selected, focused, is_dir) {
        (true, true, true) => RowStyle::FocusedSelection,
        (true, true, false) => RowStyle::FocusedSelection,
        (true, false, true) => RowStyle::Selection,
        (true, false, false) => RowStyle::Selection,
        (false, true, true) => RowStyle::Directory,
        (false, false, true) => RowStyle::Directory,
        (false, true, false) => RowStyle::Plain,
        (false, false, false) => RowStyle::Plain,
    }
}

impl Directory {
    /// The width of the name column under `config`.
    pub fn column_width(&self, config: &Config) -> (column: usize)
        ensures
            column == self@.column(*config),
    {
        if config.max_col_width < self.longest_name_len {
            config.max_col_width
        } else {
            self.longest_name_len
        }
    }

    /// The name of entry `idx` in the name column.
    fn name_in_column(&self, idx: usize, config: &Config) -> (cell: String)
        requires
            idx < self.contents@.len(),
        ensures
            cell@ == name_cell(self@.entries[idx as int].name, self@.column(*config), config.max_col_width as nat),
    {
        let shown = shorten(self.contents[idx].name.as_str(), config.max_col_width);
        pad_to(shown, self.column_width(config))
    }

    /// Tells whether the name of entry `idx` is longer than the limit.
    fn is_cut(&self, idx: usize, config: &Config) -> (cut: bool)
        requires
            idx < self.contents@.len(),
        ensures
            cut == (self@.entries[idx as int].name.len() > config.max_col_width),
    {
        self.contents[idx].name.as_str().unicode_len() > config.max_col_width
    }

    /// The text of entry `idx` on its own; `is_tail` says whether this is
    /// the focused pane, the last one of the stack.
    pub fn entry_text(&self, idx: usize, is_tail: bool, config: &Config) -> (text: String)
        ensures
            text@ == self@.entry_text(idx as int, is_tail, *config),
    {
        if idx >= self.contents.len() {
            let mut text = blank(self.column_width(config));
            proof {
                reveal_strlit("       ");
            }
            text.append("       ");
            assert(text@ =~= spaces(self@.entry_width(*config)));
            return text;
        }
        let mut text = self.name_in_column(idx, config);
        text.append(wide_marker_for(self.is_cut(idx, config), idx == self.selected_idx, is_tail));
        text
    }

    /// The text of row `idx` of the pane, between the borders.
    pub fn pane_text(&self, idx: usize, is_current: bool, config: &Config) -> (text: String)
        ensures
            text@ == self@.pane_text(idx as int, is_current, *config),
    {
        if idx >= self.contents.len() {
            let mut text = blank(self.column_width(config));
            proof {
                reveal_strlit("    ");
            }
            text.append("    ");
            assert(text@ =~= spaces(self@.column(*config) + MARKER_WIDTH as nat));
            return text;
        }
        let mut text = self.name_in_column(idx, config);
        text.append(marker_for(self.is_cut(idx, config), idx == self.selected_idx, is_current));
        text
    }

    /// The style of row `idx` of the pane.
    pub fn entry_style(&self, idx: usize, is_tail: bool) -> (style: RowStyle)
        ensures
            style == self@.entry_style(idx as int, is_tail),
    {
        if idx >= self.contents.len() {
            RowStyle::Plain
        } else {
            style_for(self.contents[idx].is_dir, idx == self.selected_idx, is_tail)
        }
    }

    /// Entry `idx` on its own, styled for the terminal: its text is that of
    /// [`Directory::entry_text`] and its look that of
    /// [`Directory::entry_style`].
    pub fn get_padded_entry_repr(&self, idx: usize, is_tail: bool, config: &Config) -> (repr: StyledContent<
        String,
    >)
        ensures
            styled_text(repr) == self@.entry_text(idx as int, is_tail, *config),
            styled_look(repr) == look_of(self@.entry_style(idx as int, is_tail)),
    {
        let style = self.entry_style(idx, is_tail);
        let text = self.entry_text(idx, is_tail, config);
        paint(style, text)
    }
}

/// One row of a pane as it is printed: the left border, the styled text, the
/// right border.
#[derive(Debug)]
pub struct PaneRow {
    pub left: String,
    pub content: StyledContent<String>,
    pub right: String,
}

impl View for PaneRow {
    type V = RowView;

    open spec fn view(&self) -> RowView {
        RowView {
            left: self.left@,
            text: styled_text(self.content),
            look: styled_look(self.content),
            right: self.right@,
        }
    }
}

/// What a sequence of rows stands for.
pub open spec fn rows_view(rows: Seq<PaneRow>) -> Seq<RowView> {
    rows.map_values(|r: PaneRow| r@)
}

/// The rows of one pane and their width.
#[derive(Debug)]
pub struct Pane {
    /// The rows from top to bottom, as many as fit on screen.
    pub rows: Vec<PaneRow>,
    /// The number of characters in every row, borders included.
    pub width: usize,
    /// The number of rows.
    pub height: usize,
}

/// What a [`Pane`] stands for.
pub struct PaneView {
    pub rows: Seq<RowView>,
    pub width: int,
    pub height: int,
}

impl View for Pane {
    type V = PaneView;

    open spec fn view(&self) -> PaneView {
        PaneView { rows: rows_view(self.rows@), width: self.width as int, height: self.height as int }
    }
}

/// What a sequence of panes stands for.
pub open spec fn panes_view(panes: Seq<Pane>) -> Seq<PaneView> {
    panes.map_values(|p: Pane| p@)
}

/// The columns of a frame as numbers.
pub open spec fn columns_view(columns: Seq<usize>) -> Seq<int> {
    columns.map_values(|c: usize| c as int)
}

/// The panes of one frame, from left to right.
#[derive(Debug)]
pub struct Frame {
    /// The panes in stack order; the last one is the focused pane.
    pub panes: Vec<Pane>,
    /// For every pane the column of its left border, counted from the left
    /// edge of the frame.
    pub columns: Vec<usize>,
    /// The number of columns that the frame covers.
    pub width: usize,
    /// What is printed between two panes, on every row.
    pub separator: String,
}

/// What a [`Frame`] stands for.
pub struct FrameView {
    pub panes: Seq<PaneView>,
    pub columns: Seq<int>,
    pub width: int,
    pub separator: Seq<char>,
}

impl View for Frame {
    type V = FrameView;

    open spec fn view(&self) -> FrameView {
        FrameView {
            panes: panes_view(self.panes@),
            columns: columns_view(self.columns@),
            width: self.width as int,
            separator: self.separator@,
        }
    }
}

/// The pane of a snapshot: `n_rows` rows, starting at the snapshot's window,
/// each between its borders. Rows outside the window are not drawn; rows
/// below the listing are blank. The width is that of the name column, the
/// marker and the two borders; the height is the number of rows.
pub open spec fn pane_of(dir: DirectoryView, focused: bool, config: Config) -> PaneView {
    PaneView {
        rows: Seq::new(config.n_rows as nat, |k: int| dir.pane_row(dir.window_start + k, focused, config)),
        width: dir.pane_width(config) as int,
        height: config.n_rows as int,
    }
}

/// The column at which pane `index` starts: the widths of the panes to its
/// left, and one separator after each of them.
pub open spec fn pane_column(stack: Seq<DirectoryView>, config: Config, index: int) -> int
    decreases index,
{
    if index <= 0 {
        0
    } else {
        pane_column(stack, config, index - 1) + stack[index - 1].pane_width(config) + SEPARATOR_WIDTH
    }
}

/// The width of the frame of a stack: the widths of its panes and one
/// separator between neighbours.
pub open spec fn frame_width(stack: Seq<DirectoryView>, config: Config) -> int {
    if stack.len() == 0 {
        0
    } else {
        pane_column(stack, config, stack.len() - 1) + stack.last().pane_width(config)
    }
}

/// The frame of a stack: one pane per snapshot in stack order, the last one
/// drawn as the focused pane, each at its column, with the separator
/// between neighbours.
pub open spec fn frame_of(stack: Seq<DirectoryView>, config: Config) -> FrameView {
    FrameView {
        panes: Seq::new(stack.len(), |i: int| pane_of(stack[i], i == stack.len() - 1, config)),
        columns: Seq::new(stack.len(), |i: int| pane_column(stack, config, i)),
        width: frame_width(stack, config),
        separator: separator(),
    }
}

/// Every row of a pane is as wide as the pane says, where the recorded width
/// of the snapshot covers every name.
pub proof fn lemma_pane_rows_have_width(dir: DirectoryView, focused: bool, config: Config, row: int)
    requires
        dir.names_fit(),
        0 <= row < config.n_rows,
    ensures
        pane_of(dir, focused, config).rows[row].width() == pane_of(dir, focused, config).width,
        pane_of(dir, focused, config).width == dir.column(config) + 8,
{
    lemma_pane_row_width(dir, dir.window_start + row, focused, config);
}

/// The separator is [`SEPARATOR_WIDTH`] characters wide and the borders
/// [`BORDER_WIDTH`] each.
pub proof fn lemma_glyph_widths()
    ensures
        separator().len() == SEPARATOR_WIDTH,
        left_border().len() == BORDER_WIDTH,
        right_border().len() == BORDER_WIDTH,
{
    reveal_strlit(" ");
    reveal_strlit("| ");
    reveal_strlit(" |");
}

/// Panes further right start further right, with room for the pane to
/// their left and a separator.
pub proof fn lemma_pane_columns_ordered(stack: Seq<DirectoryView>, config: Config, left: int, right: int)
    requires
        0 <= left <= right,
    ensures
        0 <= pane_column(stack, config, left) <= pane_column(stack, config, right),
        left < right ==> pane_column(stack, config, left) + stack[left].pane_width(config)
            + SEPARATOR_WIDTH <= pane_column(stack, config, right),
    decreases right,
{
    if left < right {
        lemma_pane_columns_ordered(stack, config, left, right - 1);
    } else if left > 0 {
        lemma_pane_columns_ordered(stack, config, left - 1, left - 1);
    }
}

/// No pane reaches past the width of the frame.
pub proof fn lemma_pane_inside_frame(stack: Seq<DirectoryView>, config: Config, index: int)
    requires
        0 <= index < stack.len(),
    ensures
        0 <= pane_column(stack, config, index),
        pane_column(stack, config, index) + stack[index].pane_width(config) <= frame_width(stack, config),
{
    lemma_pane_columns_ordered(stack, config, index, stack.len() - 1);
}

/// Draws row `idx` of a pane: the text between the borders in the look of
/// its style.
fn draw_row(dir: &Directory, idx: usize, is_current: bool, config: &Config) -> (row: PaneRow)
    ensures
        row@ == dir@.pane_row(idx as int, is_current, *config),
{
    let style = dir.entry_style(idx, is_current);
    let text = dir.pane_text(idx, is_current, config);
    PaneRow { left: String::from_str("| "), content: paint(style, text), right: String::from_str(" |") }
}

/// Draws the pane of one snapshot: `n_rows` rows from the snapshot's window
/// on, each between its borders, and the width that every row has.
pub fn draw_directory(dir: &Directory, is_current: bool, config: &Config) -> (pane: Pane)
    ensures
        pane@ == pane_of(dir@, is_current, *config),
{
    let ghost wanted = pane_of(dir@, is_current, *config);
    let len = dir.contents.len();
    let mut rows: Vec<PaneRow> = Vec::new();
    let mut at: usize = 0;
    assert(rows_view(rows@) =~= wanted.rows.take(0));
    while at < config.n_rows
        invariant
            at <= config.n_rows,
            len == dir.contents@.len(),
            wanted == pane_of(dir@, is_current, *config),
            rows_view(rows@) == wanted.rows.take(at as int),
        decreases config.n_rows - at,
    {
        // A row past the end of the numbers is a row below the listing.
        let row = match dir.start_show_idx.checked_add(at) {
            Some(idx) => draw_row(dir, idx, is_current, config),
            None => draw_row(dir, len, is_current, config),
        };
        proof {
            assert(row@ == wanted.rows[at as int]);
            assert(rows_view(rows@.push(row)) =~= rows_view(rows@).push(row@));
            assert(wanted.rows.take(at + 1) =~= wanted.rows.take(at as int).push(row@));
        }
        rows.push(row);
        at += 1;
    }
    assert(wanted.rows.take(at as int) =~= wanted.rows);
    // Measured on a blank row, which is as wide as the pane.
    let mut line = String::from_str("| ");
    let inner = dir.pane_text(len, is_current, config);
    line.append(inner.as_str());
    line.append(" |");
    proof {
        reveal_strlit("| ");
        reveal_strlit(" |");
    }
    let width = line.as_str().unicode_len();
    Pane { rows: rows, width: width, height: config.n_rows }
}

/// Lays the panes of a stack out from left to right, the last one as the
/// focused pane. There is no frame where its width does not fit in `usize`.
pub fn draw_dir_selector(display_data: &VecDeque<Directory>, config: &Config) -> (frame: Option<Frame>)
    ensures
        match frame {
            Some(frame) => frame@ == frame_of(stack_view(display_data@), *config),
            None => frame_width(stack_view(display_data@), *config) > usize::MAX,
        },
{
    let ghost stack = stack_view(display_data@);
    let ghost whole = frame_of(stack, *config);
    let count = display_data.len();
    let mut panes: Vec<Pane> = Vec::new();
    let mut columns: Vec<usize> = Vec::new();
    let mut column: usize = 0;
    let mut width: usize = 0;
    let mut at: usize = 0;
    while at < count
        invariant
            at <= count,
            count == display_data@.len(),
            stack == stack_view(display_data@),
            whole == frame_of(stack, *config),
            panes_view(panes@) == whole.panes.take(at as int),
            columns_view(columns@) == whole.columns.take(at as int),
            at < count ==> column == pane_column(stack, *config, at as int),
            at == count ==> width == frame_width(stack, *config),
        decreases count - at,
    {
        let pane = draw_directory(&display_data[at], at + 1 == count, config);
        proof {
            lemma_pane_inside_frame(stack, *config, at as int);
            if at + 1 < count {
                lemma_pane_inside_frame(stack, *config, at + 1);
            }
            assert(stack[at as int] == display_data@[at as int]@);
            assert(pane@ == whole.panes[at as int]);
            assert(column == whole.columns[at as int]);
        }
        let end = match column.checked_add(pane.width) {
            Some(end) => end,
            None => {
                return None;
            },
        };
        proof {
            assert(panes_view(panes@.push(pane)) =~= panes_view(panes@).push(pane@));
            assert(columns_view(columns@.push(column)) =~= columns_view(columns@).push(column as int));
            assert(whole.panes.take(at + 1) =~= whole.panes.take(at as int).push(pane@));
            assert(whole.columns.take(at + 1) =~= whole.columns.take(at as int).push(column as int));
        }
        columns.push(column);
        panes.push(pane);
        if at + 1 < count {
            column = match end.checked_add(SEPARATOR_WIDTH) {
                Some(next) => next,
                None => {
                    return None;
                },
            };
        } else {
            width = end;
        }
        at += 1;
    }
    assert(whole.panes.take(at as int) =~= whole.panes);
    assert(whole.columns.take(at as int) =~= whole.columns);
    Some(Frame { panes: panes, columns: columns, width: width, separator: String::from_str(" ") })
}

/// Writes the path of a stack of names, with `/` between neighbours.
pub fn draw_current_path(path_stack: &Vec<String>) -> (path: String)
    ensures
        path@ == joined(texts_of(path_stack@), "/"@),
{
    join(path_stack, "/")
}

} // verus!
