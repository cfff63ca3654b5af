use lecturn::highlighting::{Rgb, Type};
use lecturn::Row;

#[test]
fn insert_then_delete_restores_row() {
    let mut row = Row::from("hello");
    row.insert(2, 'X');
    assert_eq!(row.as_str(), "heXllo");
    assert_eq!(row.len(), 6);
    row.delete(2);
    assert_eq!(row.as_str(), "hello");
    assert_eq!(row.len(), 5);
}

#[test]
fn insert_past_end_appends_and_delete_at_end_restores() {
    let mut row = Row::from("ab");
    row.insert(10, 'c');
    assert_eq!(row.as_str(), "abc");
    row.delete(2);
    assert_eq!(row.as_str(), "ab");
    assert_eq!(row.len(), 2);
}

#[test]
fn length_counts_grapheme_clusters() {
    let row = Row::from("e\u{301}x");
    assert_eq!(row.len(), 2);
    assert!(!row.is_empty());
    assert!(Row::from("").is_empty());
}

#[test]
fn insert_goes_between_clusters() {
    let mut row = Row::from("e\u{301}x");
    row.insert(1, 'y');
    assert_eq!(row.as_str(), "e\u{301}yx");
    assert_eq!(row.len(), 3);
}

#[test]
fn delete_removes_a_whole_cluster() {
    let mut row = Row::from("ae\u{301}b");
    row.delete(1);
    assert_eq!(row.as_str(), "ab");
    assert_eq!(row.len(), 2);
}

#[test]
fn delete_out_of_range_changes_nothing() {
    let mut row = Row::from("abc");
    row.delete(3);
    assert_eq!(row.as_str(), "abc");
    assert_eq!(row.len(), 3);
}

#[test]
fn split_then_append_reconstructs() {
    let mut row = Row::from("hello world");
    let tail = row.split(5);
    assert_eq!(row.as_str(), "hello");
    assert_eq!(tail.as_str(), " world");
    assert_eq!(row.len(), 5);
    assert_eq!(tail.len(), 6);
    row.append(&tail);
    assert_eq!(row.as_str(), "hello world");
    assert_eq!(row.len(), 11);
}

#[test]
fn split_past_end_leaves_empty_tail() {
    let mut row = Row::from("abc");
    let tail = row.split(7);
    assert_eq!(row.as_str(), "abc");
    assert!(tail.is_empty());
}

#[test]
fn split_at_zero_moves_everything() {
    let mut row = Row::from("abc");
    let tail = row.split(0);
    assert!(row.is_empty());
    assert_eq!(tail.as_str(), "abc");
}

#[test]
fn find_gives_cluster_index() {
    let row = Row::from("hello");
    assert_eq!(row.find("l"), Some(2));
    assert_eq!(row.find("lo"), Some(3));
    assert_eq!(row.find("z"), None);
    assert_eq!(row.find(""), None);
    let accented = Row::from("e\u{301}lo");
    assert_eq!(accented.find("lo"), Some(1));
}

#[test]
fn as_bytes_is_utf8() {
    let row = Row::from("h\u{e9}");
    assert_eq!(row.as_bytes(), "h\u{e9}".as_bytes());
}

#[test]
fn render_expands_tabs_and_resets() {
    let row = Row::from("a\tb");
    assert_eq!(row.render(0, 10), "a    b\u{1b}[49m\u{1b}[39m");
    assert_eq!(row.render(1, 2), "    \u{1b}[49m\u{1b}[39m");
    assert_eq!(row.render(5, 2), "\u{1b}[49m\u{1b}[39m");
}

#[test]
fn render_switches_colors_at_highlight_changes() {
    let mut row = Row::from("a\tb");
    row.add_highlighting(Type::Search, 0);
    assert_eq!(
        row.render(0, 3),
        "\u{1b}[48;2;249;241;165m\u{1b}[38;2;0;0;0ma\u{1b}[49m\u{1b}[39m    b\u{1b}[49m\u{1b}[39m"
    );
    row.add_highlighting(Type::SearchSelected, 2);
    assert_eq!(
        row.render(2, 3),
        "\u{1b}[48;2;255;255;255m\u{1b}[38;2;0;0;0mb\u{1b}[49m\u{1b}[39m"
    );
    row.reset_highlighting();
    assert_eq!(row.render(0, 1), "a\u{1b}[49m\u{1b}[39m");
}

#[test]
fn highlighting_out_of_range_is_ignored() {
    let mut row = Row::from("ab");
    row.add_highlighting(Type::Search, 9);
    assert_eq!(row.render(0, 2), "ab\u{1b}[49m\u{1b}[39m");
}

#[test]
fn highlight_kinds_map_to_colors() {
    let s = Type::Search.to_color();
    assert_eq!(s.fg_color, Rgb(0, 0, 0));
    assert_eq!(s.bg_color, Rgb(249, 241, 165));
    let sel = Type::SearchSelected.to_color();
    assert_eq!(sel.bg_color, Rgb(255, 255, 255));
    let plain = Type::Plain.to_color();
    assert_eq!(plain.fg_color, Rgb(255, 255, 255));
    assert_eq!(plain.bg_color, Rgb(0, 0, 0));
}

#[test]
fn occurrences_lists_each_starting_cluster() {
    let row = Row::from("abab");
    assert_eq!(row.occurrences("ab"), vec![0, 2]);
    assert_eq!(row.occurrences("b"), vec![1, 3]);
    assert!(row.occurrences("c").is_empty());
    assert!(row.occurrences("").is_empty());
    let accented = Row::from("e\u{301}le");
    assert_eq!(accented.occurrences("e"), vec![0, 2]);
}
