use std::collections::VecDeque;

use crossterm::style::{Attribute, Color};
use dirnav::config::Config;
use dirnav::constants::{BORDER_WIDTH, MARKER_WIDTH, SEPARATOR_WIDTH, WIDE_MARKER_WIDTH};
use dirnav::directory::Directory;
use dirnav::entry::Entry;
use dirnav::render::{
    draw_current_path, draw_dir_selector, draw_directory, marker_for, style_for, wide_marker_for, Pane,
    PaneRow,
};
use dirnav::style::{paint, RowStyle};

fn entry(name: &str, is_dir: bool) -> Entry {
    Entry { name: name.to_string(), is_dir, is_hidden: false }
}

fn config(n_rows: usize, max_col_width: usize) -> Config {
    Config { max_path_length: 0, max_directory_depth: 5, n_rows, max_col_width }
}

fn root() -> Directory {
    Directory::new(
        "root".to_string(),
        vec![entry("b.txt", false), entry("a_dir", true), entry("c_dir", true)],
        0,
    )
}

fn files(names: &[&str], selected: usize) -> Directory {
    Directory::new("d".to_string(), names.iter().map(|n| entry(n, false)).collect(), selected)
}

fn line(row: &PaneRow) -> String {
    format!("{}{}{}", row.left, row.content.content(), row.right)
}

fn lines(pane: &Pane) -> Vec<String> {
    pane.rows.iter().map(line).collect()
}

#[test]
fn every_case_has_a_marker_of_its_own() {
    let mut seen: Vec<&str> = Vec::new();
    for truncated in [false, true] {
        for selected in [false, true] {
            for focused in [false, true] {
                let glyphs = marker_for(truncated, selected, focused);
                assert_eq!(glyphs.chars().count(), MARKER_WIDTH);
                assert!(!seen.contains(&glyphs));
                seen.push(glyphs);
            }
        }
    }
    assert_eq!(seen.len(), 8);
}

#[test]
fn every_case_has_a_wide_marker_of_its_own() {
    let mut seen: Vec<&str> = Vec::new();
    for truncated in [false, true] {
        for selected in [false, true] {
            for focused in [false, true] {
                let glyphs = wide_marker_for(truncated, selected, focused);
                assert_eq!(glyphs.chars().count(), WIDE_MARKER_WIDTH);
                assert_ne!(glyphs, "       ");
                assert!(!seen.contains(&glyphs));
                seen.push(glyphs);
            }
        }
    }
    assert_eq!(seen.len(), 8);
}

#[test]
fn markers_are_the_documented_glyphs() {
    assert_eq!(marker_for(false, false, false), "    ");
    assert_eq!(marker_for(true, false, false), "... ");
    assert_eq!(marker_for(false, true, false), "--->");
    assert_eq!(marker_for(true, true, false), "...>");
    assert_eq!(marker_for(false, false, true), "   .");
    assert_eq!(marker_for(true, false, true), "....");
    assert_eq!(marker_for(false, true, true), "<---");
    assert_eq!(marker_for(true, true, true), "...<");
}

#[test]
fn wide_markers_are_the_documented_glyphs() {
    assert_eq!(wide_marker_for(false, false, false), "      |");
    assert_eq!(wide_marker_for(true, false, false), "...   |");
    assert_eq!(wide_marker_for(false, true, false), "------>");
    assert_eq!(wide_marker_for(true, true, false), "...--->");
    assert_eq!(wide_marker_for(false, false, true), "      .");
    assert_eq!(wide_marker_for(true, false, true), "...    ");
    assert_eq!(wide_marker_for(false, true, true), "<------");
    assert_eq!(wide_marker_for(true, true, true), "...<---");
}

#[test]
fn style_goes_by_priority() {
    assert_eq!(style_for(true, true, true), RowStyle::FocusedSelection);
    assert_eq!(style_for(false, true, true), RowStyle::FocusedSelection);
    assert_eq!(style_for(true, true, false), RowStyle::Selection);
    assert_eq!(style_for(false, true, false), RowStyle::Selection);
    assert_eq!(style_for(true, false, true), RowStyle::Directory);
    assert_eq!(style_for(true, false, false), RowStyle::Directory);
    assert_eq!(style_for(false, false, true), RowStyle::Plain);
    assert_eq!(style_for(false, false, false), RowStyle::Plain);
}

#[test]
fn paint_gives_each_style_its_colour() {
    let red = paint(RowStyle::FocusedSelection, "r".to_string());
    assert_eq!(red.content(), "r");
    assert_eq!(red.style().foreground_color, Some(Color::Red));
    assert_eq!(red.style().background_color, None);
    assert_eq!(red.style().underline_color, None);
    assert!(red.style().attributes.is_empty());

    let green = paint(RowStyle::Selection, "g".to_string());
    assert_eq!(green.content(), "g");
    assert_eq!(green.style().foreground_color, Some(Color::Green));
    assert_eq!(green.style().background_color, None);
    assert!(green.style().attributes.is_empty());

    let cyan = paint(RowStyle::Directory, "c".to_string());
    assert_eq!(cyan.content(), "c");
    assert_eq!(cyan.style().foreground_color, Some(Color::Cyan));
    assert_eq!(cyan.style().background_color, None);
    assert!(cyan.style().attributes.is_empty());

    let plain = paint(RowStyle::Plain, "p".to_string());
    assert_eq!(plain.content(), "p");
    assert_eq!(plain.style().foreground_color, None);
    assert_eq!(plain.style().background_color, None);
    assert!(plain.style().attributes.has(Attribute::Reset));
}

#[test]
fn entries_of_the_focused_pane() {
    let dir = root();
    let cfg = config(4, 20);
    assert_eq!(dir.column_width(&cfg), 5);
    assert_eq!(dir.entry_text(0, true, &cfg), "a_dir<------");
    assert_eq!(dir.entry_text(1, true, &cfg), "c_dir      .");
    assert_eq!(dir.entry_text(2, true, &cfg), "b.txt      .");
    assert_eq!(dir.entry_text(3, true, &cfg), "            ");
    assert_eq!(dir.entry_style(0, true), RowStyle::FocusedSelection);
    assert_eq!(dir.entry_style(1, true), RowStyle::Directory);
    assert_eq!(dir.entry_style(2, true), RowStyle::Plain);
    assert_eq!(dir.entry_style(3, true), RowStyle::Plain);
}

#[test]
fn entries_of_a_pane_that_is_not_focused() {
    let dir = root();
    let cfg = config(4, 20);
    assert_eq!(dir.entry_text(0, false, &cfg), "a_dir------>");
    assert_eq!(dir.entry_text(1, false, &cfg), "c_dir      |");
    assert_eq!(dir.entry_text(2, false, &cfg), "b.txt      |");
    assert_eq!(dir.entry_text(7, false, &cfg), "            ");
    assert_eq!(dir.entry_style(0, false), RowStyle::Selection);
    assert_eq!(dir.entry_style(1, false), RowStyle::Directory);
    assert_eq!(dir.entry_style(2, false), RowStyle::Plain);
}

#[test]
fn a_selected_file_of_a_pane_that_is_not_focused() {
    let dir = files(&["abc"], 0);
    let repr = dir.get_padded_entry_repr(0, false, &config(4, 20));
    assert_eq!(repr.content(), "abc------>");
    assert_eq!(repr.style().foreground_color, Some(Color::Green));
}

#[test]
fn a_cut_name_of_the_focused_pane() {
    let dir = files(&["abcdefgh", "x"], 1);
    let repr = dir.get_padded_entry_repr(0, true, &config(4, 4));
    assert_eq!(repr.content(), "abcd...    ");
    assert_eq!(repr.style().foreground_color, None);
    assert!(repr.style().attributes.has(Attribute::Reset));
}

#[test]
fn an_entry_below_the_listing_is_blank() {
    let dir = files(&["abcdefgh", "x"], 1);
    for is_tail in [false, true] {
        let repr = dir.get_padded_entry_repr(2, is_tail, &config(4, 4));
        assert_eq!(repr.content(), "           ");
        assert!(repr.style().attributes.has(Attribute::Reset));
        let repr = dir.get_padded_entry_repr(usize::MAX, is_tail, &config(4, 20));
        assert_eq!(repr.content(), "               ");
        assert_eq!(repr.style().foreground_color, None);
    }
}

#[test]
fn long_names_are_cut_and_marked() {
    let dir = Directory::new(
        "d".to_string(),
        vec![entry("ab", true), entry("abcdef", false), entry("abcd", false)],
        1,
    );
    let cfg = config(3, 4);
    assert_eq!(dir.column_width(&cfg), 4);
    assert_eq!(dir.entry_text(0, false, &cfg), "ab        |");
    assert_eq!(dir.entry_text(1, false, &cfg), "abcd...--->");
    assert_eq!(dir.entry_text(2, false, &cfg), "abcd      |");
    assert_eq!(dir.entry_text(0, true, &cfg), "ab        .");
    assert_eq!(dir.entry_text(1, true, &cfg), "abcd...<---");
    assert_eq!(dir.pane_text(0, false, &cfg), "ab      ");
    assert_eq!(dir.pane_text(1, false, &cfg), "abcd...>");
    assert_eq!(dir.pane_text(2, false, &cfg), "abcd    ");
    assert_eq!(dir.pane_text(0, true, &cfg), "ab     .");
    assert_eq!(dir.pane_text(1, true, &cfg), "abcd...<");
    let mut other = dir.clone();
    other.select_prev();
    assert_eq!(other.entry_text(1, false, &cfg), "abcd...   |");
    assert_eq!(other.entry_text(1, true, &cfg), "abcd...    ");
    assert_eq!(other.entry_text(0, false, &cfg), "ab  ------>");
    assert_eq!(other.pane_text(1, false, &cfg), "abcd... ");
    assert_eq!(other.pane_text(1, true, &cfg), "abcd....");
    assert_eq!(other.pane_text(0, false, &cfg), "ab  --->");
}

#[test]
fn short_listings_set_the_width_of_the_column() {
    let dir = Directory::new("d".to_string(), vec![entry("ab", true), entry("a", false)], 0);
    let cfg = config(3, 20);
    assert_eq!(dir.column_width(&cfg), 2);
    assert_eq!(dir.entry_text(1, true, &cfg), "a       .");
    assert_eq!(dir.entry_text(2, true, &cfg), "         ");
    assert_eq!(dir.pane_text(1, true, &cfg), "a    .");
    assert_eq!(dir.pane_text(2, true, &cfg), "      ");
}

#[test]
fn a_column_of_no_width_leaves_the_marker() {
    let dir = Directory::new("d".to_string(), vec![entry("ab", true)], 0);
    let cfg = config(2, 0);
    assert_eq!(dir.entry_text(0, true, &cfg), "...<---");
    assert_eq!(dir.entry_text(1, true, &cfg), "       ");
    assert_eq!(dir.pane_text(0, true, &cfg), "...<");
    assert_eq!(dir.pane_text(1, true, &cfg), "    ");
    let empty = Directory::new("d".to_string(), Vec::new(), 0);
    assert_eq!(empty.entry_text(0, true, &config(2, 20)), "       ");
    assert_eq!(empty.pane_text(0, true, &config(2, 20)), "    ");
    assert_eq!(empty.entry_style(0, true), RowStyle::Plain);
}

#[test]
fn every_entry_and_every_row_has_one_width() {
    let dir = Directory::new(
        "d".to_string(),
        vec![entry("a_very_long_directory_name", true), entry("x", false), entry("medium.txt", false)],
        1,
    );
    for max_col_width in 0..30 {
        let cfg = config(5, max_col_width);
        let column = dir.column_width(&cfg);
        for focused in [false, true] {
            for idx in 0..5 {
                assert_eq!(dir.entry_text(idx, focused, &cfg).chars().count(), column + WIDE_MARKER_WIDTH);
                assert_eq!(dir.pane_text(idx, focused, &cfg).chars().count(), column + MARKER_WIDTH);
                let repr = dir.get_padded_entry_repr(idx, focused, &cfg);
                assert_eq!(repr.content().chars().count(), column + 7);
            }
            let pane = draw_directory(&dir, focused, &cfg);
            assert_eq!(pane.width, column + MARKER_WIDTH + 2 * BORDER_WIDTH);
            assert_eq!(pane.width, column + 8);
            for row in lines(&pane) {
                assert_eq!(row.chars().count(), pane.width);
            }
        }
    }
}

#[test]
fn repr_carries_text_and_colour() {
    let dir = root();
    let cfg = config(4, 20);
    let selected = dir.get_padded_entry_repr(0, true, &cfg);
    assert_eq!(selected.content(), "a_dir<------");
    assert_eq!(selected.style().foreground_color, Some(Color::Red));
    let entered = dir.get_padded_entry_repr(0, false, &cfg);
    assert_eq!(entered.content(), "a_dir------>");
    assert_eq!(entered.style().foreground_color, Some(Color::Green));
    let directory = dir.get_padded_entry_repr(1, true, &cfg);
    assert_eq!(directory.content(), "c_dir      .");
    assert_eq!(directory.style().foreground_color, Some(Color::Cyan));
    let file = dir.get_padded_entry_repr(2, false, &cfg);
    assert_eq!(file.content(), "b.txt      |");
    assert_eq!(file.style().foreground_color, None);
    assert!(file.style().attributes.has(Attribute::Reset));
    let below = dir.get_padded_entry_repr(3, true, &cfg);
    assert_eq!(below.content(), "            ");
    assert_eq!(below.style().foreground_color, None);
    assert!(below.style().attributes.has(Attribute::Reset));
}

#[test]
fn pane_has_as_many_rows_as_fit() {
    let dir = root();
    let pane = draw_directory(&dir, true, &config(5, 20));
    assert_eq!(pane.width, 13);
    assert_eq!(
        lines(&pane),
        vec!["| a_dir<--- |", "| c_dir   . |", "| b.txt   . |", "|           |", "|           |"]
    );
    assert_eq!(pane.rows[0].content.style().foreground_color, Some(Color::Red));
    assert_eq!(pane.rows[1].content.style().foreground_color, Some(Color::Cyan));
    assert!(pane.rows[4].content.style().attributes.has(Attribute::Reset));
    for row in &pane.rows {
        assert_eq!(row.left, "| ");
        assert_eq!(row.right, " |");
    }
}

#[test]
fn pane_of_one_selected_directory_that_is_not_focused() {
    let dir = Directory::new("d".to_string(), vec![entry("ab", true)], 0);
    let pane = draw_directory(&dir, false, &config(3, 20));
    assert_eq!((pane.width, pane.height), (10, 3));
    assert_eq!(pane.rows.len(), 3);
    assert_eq!(lines(&pane), vec!["| ab---> |", "|        |", "|        |"]);
    assert_eq!(pane.rows[0].content.content(), "ab--->");
    assert_eq!(pane.rows[0].content.style().foreground_color, Some(Color::Green));
    assert_eq!(pane.rows[1].content.style().foreground_color, None);
    assert!(pane.rows[1].content.style().attributes.has(Attribute::Reset));
    assert!(pane.rows[2].content.style().attributes.has(Attribute::Reset));
}

#[test]
fn pane_shows_the_rows_of_its_window_and_no_other() {
    let mut dir = files(&["a", "b", "c", "d", "e"], 3);
    dir.start_show_idx = 2;
    let pane = draw_directory(&dir, true, &config(2, 20));
    assert_eq!((pane.width, pane.height), (9, 2));
    assert_eq!(pane.rows.len(), 2);
    assert_eq!(lines(&pane), vec!["| c   . |", "| d<--- |"]);
    assert_eq!(pane.rows[1].content.style().foreground_color, Some(Color::Red));
    assert!(pane.rows[0].content.style().attributes.has(Attribute::Reset));
}

#[test]
fn pane_shows_only_its_window() {
    let listing: Vec<Entry> = (0..50).map(|i| entry(&format!("f{:02}", i), false)).collect();
    let mut dir = Directory::new("d".to_string(), listing, 45);
    dir.scroll_to_selection(10);
    let pane = draw_directory(&dir, false, &config(10, 20));
    assert_eq!(pane.rows.len(), 10);
    assert_eq!(pane.width, 11);
    let shown = lines(&pane);
    assert_eq!(shown[0], "| f40     |");
    assert_eq!(shown[4], "| f44     |");
    assert_eq!(shown[5], "| f45---> |");
    assert_eq!(pane.rows[5].content.style().foreground_color, Some(Color::Green));
    assert_eq!(shown[9], "| f49     |");
}

#[test]
fn pane_without_rows_has_a_width() {
    let pane = draw_directory(&root(), true, &config(0, 20));
    assert!(pane.rows.is_empty());
    assert_eq!((pane.width, pane.height), (13, 0));
}

#[test]
fn pane_with_a_window_at_the_end_of_the_numbers_is_blank() {
    let mut dir = root();
    dir.start_show_idx = usize::MAX;
    let pane = draw_directory(&dir, true, &config(3, 20));
    assert_eq!(lines(&pane), vec!["|           |", "|           |", "|           |"]);
}

#[test]
fn frame_lays_panes_out_from_left_to_right() {
    let mut panes: VecDeque<Directory> = VecDeque::new();
    panes.push_back(Directory::new("root".to_string(), vec![entry("docs", true), entry("a", false)], 0));
    panes.push_back(Directory::new("docs".to_string(), vec![entry("readme.md", false)], 0));
    panes.push_back(Directory::new("x".to_string(), Vec::new(), 0));
    let frame = draw_dir_selector(&panes, &config(2, 20)).unwrap();
    assert_eq!(frame.panes.len(), 3);
    assert_eq!(frame.panes[0].width, 12);
    assert_eq!(frame.panes[1].width, 17);
    assert_eq!(frame.panes[2].width, 8);
    assert_eq!(frame.columns, vec![0, 12 + SEPARATOR_WIDTH, 12 + 17 + 2 * SEPARATOR_WIDTH]);
    assert_eq!(frame.width, 12 + 17 + 8 + 2 * SEPARATOR_WIDTH);
    assert_eq!(frame.separator, " ");
    assert_eq!(frame.separator.chars().count(), SEPARATOR_WIDTH);
    assert_eq!(lines(&frame.panes[0]), vec!["| docs---> |", "| a        |"]);
    assert_eq!(frame.panes[0].rows[0].content.style().foreground_color, Some(Color::Green));
    assert_eq!(lines(&frame.panes[1]), vec!["| readme.md---> |", "|               |"]);
    assert_eq!(lines(&frame.panes[2]), vec!["|      |", "|      |"]);
}

#[test]
fn frame_is_as_wide_as_its_panes_and_the_separators_between_them() {
    for count in 1..6usize {
        let mut panes: VecDeque<Directory> = VecDeque::new();
        for i in 0..count {
            panes.push_back(files(&[&"n".repeat(i + 1)], 0));
        }
        let frame = draw_dir_selector(&panes, &config(1, 20)).unwrap();
        let sum: usize = frame.panes.iter().map(|p| p.width).sum();
        assert_eq!(frame.width, sum + SEPARATOR_WIDTH * (count - 1));
        for i in 1..count {
            assert_eq!(frame.columns[i], frame.columns[i - 1] + frame.panes[i - 1].width + SEPARATOR_WIDTH);
        }
        assert_eq!(frame.columns[0], 0);
    }
}

#[test]
fn only_the_last_pane_is_focused() {
    let mut panes: VecDeque<Directory> = VecDeque::new();
    panes.push_back(Directory::new("a".to_string(), vec![entry("b", true)], 0));
    panes.push_back(Directory::new("b".to_string(), vec![entry("c", true)], 0));
    let frame = draw_dir_selector(&panes, &config(1, 20)).unwrap();
    assert_eq!(lines(&frame.panes[0]), vec!["| b---> |"]);
    assert_eq!(frame.panes[0].rows[0].content.style().foreground_color, Some(Color::Green));
    assert_eq!(lines(&frame.panes[1]), vec!["| c<--- |"]);
    assert_eq!(frame.panes[1].rows[0].content.style().foreground_color, Some(Color::Red));
}

#[test]
fn frame_of_one_pane_has_its_width() {
    let mut panes: VecDeque<Directory> = VecDeque::new();
    panes.push_back(root());
    let frame = draw_dir_selector(&panes, &config(3, 20)).unwrap();
    assert_eq!(frame.columns, vec![0]);
    assert_eq!(frame.width, 13);
}

#[test]
fn frame_of_no_pane_is_empty() {
    let frame = draw_dir_selector(&VecDeque::new(), &config(3, 20)).unwrap();
    assert!(frame.panes.is_empty());
    assert!(frame.columns.is_empty());
    assert_eq!(frame.width, 0);
}

#[test]
fn current_path_joins_with_slashes() {
    let path = vec!["C:".to_string(), "Users".to_string(), "me".to_string()];
    assert_eq!(draw_current_path(&path), "C:/Users/me");
    assert_eq!(draw_current_path(&Vec::new()), "");
    assert_eq!(draw_current_path(&vec!["/".to_string()]), "/");
}
