use dirnav::config::Config;
use dirnav::directory::Directory;
use dirnav::entry::Entry;

fn entry(name: &str, is_dir: bool) -> Entry {
    Entry { name: name.to_string(), is_dir, is_hidden: false }
}

fn names(dir: &Directory) -> Vec<String> {
    dir.contents.iter().map(|e| e.name.clone()).collect()
}

fn config(n_rows: usize) -> Config {
    Config { max_path_length: 0, max_directory_depth: 5, n_rows, max_col_width: 20 }
}

fn numbered(count: usize) -> Vec<Entry> {
    (0..count).map(|i| entry(&format!("f{:02}", i), false)).collect()
}

#[test]
fn new_partitions_the_listing_of_root() {
    let dir = Directory::new(
        "root".to_string(),
        vec![entry("b.txt", false), entry("a_dir", true), entry("c_dir", true)],
        0,
    );
    assert_eq!(dir.name, "root");
    assert_eq!(names(&dir), vec!["a_dir", "c_dir", "b.txt"]);
    assert_eq!(dir.selected_idx, 0);
    assert_eq!(dir.longest_name_len, 5);
    assert_eq!(dir.start_show_idx, 0);
}

#[test]
fn new_keeps_a_selection_inside_the_listing() {
    let dir = Directory::new("d".to_string(), numbered(4), 3);
    assert_eq!(dir.selected_idx, 3);
}

#[test]
fn new_falls_back_to_the_top_row() {
    let dir = Directory::new("d".to_string(), numbered(4), 4);
    assert_eq!(dir.selected_idx, 0);
    let dir = Directory::new("d".to_string(), numbered(4), usize::MAX);
    assert_eq!(dir.selected_idx, 0);
}

#[test]
fn new_takes_an_empty_listing() {
    let dir = Directory::new("empty".to_string(), Vec::new(), 7);
    assert!(dir.contents.is_empty());
    assert_eq!(dir.selected_idx, 0);
    assert_eq!(dir.longest_name_len, 0);
    assert_eq!(dir.start_show_idx, 0);
}

#[test]
fn select_next_stops_on_the_last_row() {
    let mut dir = Directory::new("d".to_string(), numbered(3), 0);
    dir.select_next();
    assert_eq!(dir.selected_idx, 1);
    dir.select_next();
    assert_eq!(dir.selected_idx, 2);
    for _ in 0..5 {
        dir.select_next();
        assert_eq!(dir.selected_idx, 2);
    }
}

#[test]
fn select_prev_stops_on_the_top_row() {
    let mut dir = Directory::new("d".to_string(), numbered(3), 2);
    dir.select_prev();
    assert_eq!(dir.selected_idx, 1);
    dir.select_prev();
    assert_eq!(dir.selected_idx, 0);
    for _ in 0..5 {
        dir.select_prev();
        assert_eq!(dir.selected_idx, 0);
    }
}

#[test]
fn selection_of_an_empty_listing_stays_on_the_top_row() {
    let mut dir = Directory::new("d".to_string(), Vec::new(), 0);
    dir.select_next();
    assert_eq!(dir.selected_idx, 0);
    dir.select_prev();
    assert_eq!(dir.selected_idx, 0);
    dir.move_selection(3, 10);
    assert_eq!(dir.selected_idx, 0);
    dir.move_selection(-3, 10);
    assert_eq!(dir.selected_idx, 0);
    assert_eq!(dir.start_show_idx, 0);
}

#[test]
fn select_next_and_prev_leave_the_rest_alone() {
    let mut dir = Directory::new("d".to_string(), vec![entry("a", true), entry("bcd", false)], 0);
    dir.select_next();
    assert_eq!(dir.name, "d");
    assert_eq!(names(&dir), vec!["a", "bcd"]);
    assert_eq!(dir.longest_name_len, 3);
    assert_eq!(dir.start_show_idx, 0);
    dir.select_prev();
    assert_eq!(names(&dir), vec!["a", "bcd"]);
    assert_eq!(dir.longest_name_len, 3);
}

#[test]
fn move_selection_clamps_and_scrolls() {
    let mut dir = Directory::new("d".to_string(), numbered(50), 0);
    dir.move_selection(1, 10);
    assert_eq!((dir.selected_idx, dir.start_show_idx), (1, 0));
    dir.move_selection(19, 10);
    assert_eq!((dir.selected_idx, dir.start_show_idx), (20, 15));
    dir.move_selection(25, 10);
    assert_eq!((dir.selected_idx, dir.start_show_idx), (45, 40));
    dir.move_selection(100, 10);
    assert_eq!((dir.selected_idx, dir.start_show_idx), (49, 40));
    dir.move_selection(1, 10);
    assert_eq!((dir.selected_idx, dir.start_show_idx), (49, 40));
    dir.move_selection(-1, 10);
    assert_eq!((dir.selected_idx, dir.start_show_idx), (48, 40));
    dir.move_selection(-100, 10);
    assert_eq!((dir.selected_idx, dir.start_show_idx), (0, 0));
    dir.move_selection(-1, 10);
    assert_eq!((dir.selected_idx, dir.start_show_idx), (0, 0));
}

#[test]
fn move_selection_takes_the_largest_steps() {
    let mut dir = Directory::new("d".to_string(), numbered(5), 2);
    dir.move_selection(isize::MAX, 10);
    assert_eq!(dir.selected_idx, 4);
    dir.move_selection(isize::MIN, 10);
    assert_eq!(dir.selected_idx, 0);
    dir.move_selection(0, 10);
    assert_eq!(dir.selected_idx, 0);
}

#[test]
fn from_listing_selects_the_hinted_name() {
    let listing = vec![entry("notes.txt", false), entry("docs", true), entry("bin", true)];
    let dir = Directory::from_listing("root".to_string(), &listing, Some(&"bin".to_string()), &config(10));
    assert_eq!(names(&dir), vec!["docs", "bin", "notes.txt"]);
    assert_eq!(dir.selected_idx, 1);
    assert_eq!(dir.start_show_idx, 0);
    assert_eq!(dir.longest_name_len, 9);
    assert_eq!(dir.name, "root");
}

#[test]
fn from_listing_without_a_hint_selects_the_top_row() {
    let listing = vec![entry("b.txt", false), entry("a_dir", true), entry("c_dir", true)];
    let dir = Directory::from_listing("root".to_string(), &listing, None, &config(10));
    assert_eq!(names(&dir), vec!["a_dir", "c_dir", "b.txt"]);
    assert_eq!(dir.selected_idx, 0);
}

#[test]
fn from_listing_falls_back_when_the_hint_is_gone() {
    let listing = vec![entry("b.txt", false), entry("a_dir", true)];
    let dir = Directory::from_listing("root".to_string(), &listing, Some(&"gone".to_string()), &config(10));
    assert_eq!(dir.selected_idx, 0);
    let dir = Directory::from_listing("root".to_string(), &Vec::new(), Some(&"gone".to_string()), &config(10));
    assert_eq!(dir.selected_idx, 0);
    assert_eq!(dir.start_show_idx, 0);
}

#[test]
fn from_listing_scrolls_to_a_hint_far_down() {
    let dir = Directory::from_listing("d".to_string(), &numbered(50), Some(&"f45".to_string()), &config(10));
    assert_eq!(dir.selected_idx, 45);
    assert_eq!(dir.start_show_idx, 40);
    let dir = Directory::from_listing("d".to_string(), &numbered(50), Some(&"f20".to_string()), &config(10));
    assert_eq!(dir.selected_idx, 20);
    assert_eq!(dir.start_show_idx, 15);
}

#[test]
fn select_named_follows_a_name() {
    let mut dir = Directory::new("d".to_string(), numbered(50), 3);
    dir.select_named(&"f45".to_string(), 10);
    assert_eq!((dir.selected_idx, dir.start_show_idx), (45, 40));
    dir.select_named(&"nothing".to_string(), 10);
    assert_eq!((dir.selected_idx, dir.start_show_idx), (0, 0));
}

#[test]
fn scroll_to_selection_mends_a_stale_window() {
    let mut dir = Directory::new("d".to_string(), numbered(50), 45);
    assert_eq!(dir.start_show_idx, 0);
    dir.scroll_to_selection(10);
    assert_eq!(dir.start_show_idx, 40);
    assert_eq!(dir.selected_idx, 45);
}

#[test]
fn clone_keeps_the_snapshot() {
    let mut dir = Directory::new("d".to_string(), vec![entry("a", true), entry("bcd", false)], 1);
    dir.scroll_to_selection(1);
    let copy = dir.clone();
    assert_eq!(copy.name, dir.name);
    assert_eq!(copy.contents, dir.contents);
    assert_eq!(copy.selected_idx, 1);
    assert_eq!(copy.longest_name_len, 3);
    assert_eq!(copy.start_show_idx, 1);
}

#[test]
fn default_config_is_all_zero() {
    let made = Config::default();
    assert_eq!(made, Config { max_path_length: 0, max_directory_depth: 0, n_rows: 0, max_col_width: 0 });
}
