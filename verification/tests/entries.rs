use dirnav::entry::{find_entry, longest_name_len, partition_dirs_first, sync_index, Entry};

fn entry(name: &str, is_dir: bool) -> Entry {
    Entry { name: name.to_string(), is_dir, is_hidden: false }
}

fn names(entries: &Vec<Entry>) -> Vec<String> {
    entries.iter().map(|e| e.name.clone()).collect()
}

#[test]
fn directories_come_first_in_enumeration_order() {
    let listing = vec![entry("b.txt", false), entry("a_dir", true), entry("c_dir", true)];
    let ordered = partition_dirs_first(&listing);
    assert_eq!(names(&ordered), vec!["a_dir", "c_dir", "b.txt"]);
    assert!(ordered[0].is_dir && ordered[1].is_dir && !ordered[2].is_dir);
}

#[test]
fn partition_is_stable_and_not_alphabetical() {
    let listing = vec![
        entry("z", false),
        entry("y_dir", true),
        entry("a", false),
        entry("b_dir", true),
        entry("m", false),
    ];
    let ordered = partition_dirs_first(&listing);
    assert_eq!(names(&ordered), vec!["y_dir", "b_dir", "z", "a", "m"]);
}

#[test]
fn partition_keeps_every_entry_with_its_flags() {
    let listing = vec![
        Entry { name: ".git".to_string(), is_dir: true, is_hidden: true },
        Entry { name: "x".to_string(), is_dir: false, is_hidden: false },
        Entry { name: ".env".to_string(), is_dir: false, is_hidden: true },
    ];
    let ordered = partition_dirs_first(&listing);
    assert_eq!(ordered, listing);
}

#[test]
fn partition_of_nothing_is_nothing() {
    assert!(partition_dirs_first(&Vec::new()).is_empty());
}

#[test]
fn partition_of_files_only_and_of_directories_only_changes_nothing() {
    let files = vec![entry("b", false), entry("a", false)];
    assert_eq!(partition_dirs_first(&files), files);
    let dirs = vec![entry("b", true), entry("a", true)];
    assert_eq!(partition_dirs_first(&dirs), dirs);
}

#[test]
fn no_file_stands_before_a_directory() {
    for bits in 0..64u32 {
        let listing: Vec<Entry> =
            (0..6).map(|i| entry(&format!("e{}", i), bits & (1 << i) != 0)).collect();
        let ordered = partition_dirs_first(&listing);
        assert_eq!(ordered.len(), listing.len());
        for i in 0..ordered.len() {
            for j in i + 1..ordered.len() {
                assert!(!(!ordered[i].is_dir && ordered[j].is_dir));
            }
        }
    }
}

#[test]
fn find_entry_gives_the_first_of_a_name() {
    let listing = vec![entry("a", true), entry("b", false), entry("a", false)];
    assert_eq!(find_entry(&listing, &"a".to_string()), Some(0));
    assert_eq!(find_entry(&listing, &"b".to_string()), Some(1));
    assert_eq!(find_entry(&listing, &"c".to_string()), None);
    assert_eq!(find_entry(&Vec::new(), &"a".to_string()), None);
}

#[test]
fn sync_index_falls_back_to_the_top_row() {
    let listing = vec![entry("a", true), entry("docs", true), entry("z", false)];
    assert_eq!(sync_index(&listing, &"docs".to_string()), 1);
    assert_eq!(sync_index(&listing, &"gone".to_string()), 0);
    assert_eq!(sync_index(&Vec::new(), &"docs".to_string()), 0);
}

#[test]
fn longest_name_counts_characters() {
    assert_eq!(longest_name_len(&Vec::new()), 0);
    let listing = vec![entry("ab", true), entry("abcde", false), entry("abc", false)];
    assert_eq!(longest_name_len(&listing), 5);
    let accented = vec![entry("\u{e9}t\u{e9}", false), entry("ab", false)];
    assert_eq!(longest_name_len(&accented), 3);
}

#[test]
fn hidden_bit_is_read_from_the_attributes() {
    assert!(Entry::from_attributes("a".to_string(), false, 0x2).is_hidden);
    assert!(Entry::from_attributes("a".to_string(), false, 0x22).is_hidden);
    assert!(!Entry::from_attributes("a".to_string(), true, 0x20).is_hidden);
    assert!(!Entry::from_attributes(".a".to_string(), true, 0).is_hidden);
    let made = Entry::from_attributes("dir".to_string(), true, 0x10);
    assert_eq!(made, Entry { name: "dir".to_string(), is_dir: true, is_hidden: false });
}

#[test]
fn leading_dot_hides_where_there_is_no_attribute() {
    assert!(Entry::from_name(".git".to_string(), true).is_hidden);
    assert!(!Entry::from_name("git".to_string(), true).is_hidden);
    assert!(!Entry::from_name("a.b".to_string(), false).is_hidden);
    assert!(!Entry::from_name(String::new(), false).is_hidden);
    let made = Entry::from_name(".x".to_string(), false);
    assert_eq!(made, Entry { name: ".x".to_string(), is_dir: false, is_hidden: true });
}

#[test]
fn clone_keeps_the_entry() {
    let made = Entry { name: "n".to_string(), is_dir: true, is_hidden: true };
    assert_eq!(made.clone(), made);
}
