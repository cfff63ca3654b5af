use lecturn::{Document, Position};

fn doc_of(text: &str) -> Document {
    Document::from_text("f.txt".to_owned(), text)
}

fn row_text(doc: &Document, y: usize) -> String {
    doc.row(y).unwrap().as_str().to_owned()
}

#[test]
fn default_document_is_one_empty_row() {
    let doc = Document::default();
    assert_eq!(doc.len(), 1);
    assert!(doc.is_empty());
    assert!(!doc.is_dirty());
    assert!(doc.file_name.is_none());
}

#[test]
fn find_returns_positions_top_to_bottom() {
    let doc = doc_of("hello\nworld\n");
    let found = doc.find("o");
    assert_eq!(found, vec![Position { x: 4, y: 0 }, Position { x: 1, y: 1 }]);
}

#[test]
fn find_every_occurrence_by_row_then_column() {
    let doc = doc_of("xax\nbbb\naa\n");
    let found = doc.find("a");
    assert_eq!(
        found,
        vec![Position { x: 1, y: 0 }, Position { x: 0, y: 2 }, Position { x: 1, y: 2 }]
    );
}

#[test]
fn find_counts_overlapping_occurrences() {
    let doc = doc_of("aaa\n");
    assert_eq!(doc.find("aa"), vec![Position { x: 0, y: 0 }, Position { x: 1, y: 0 }]);
}

#[test]
fn lone_carriage_return_at_end_is_kept() {
    let doc = doc_of("a\r");
    assert_eq!(doc.len(), 1);
    assert_eq!(row_text(&doc, 0), "a\r");
    let ended = doc_of("a\r\nb\r");
    assert_eq!(row_text(&ended, 0), "a");
    assert_eq!(row_text(&ended, 1), "b\r");
}

#[test]
fn find_nothing_or_empty_query_is_empty() {
    let doc = doc_of("hello\nworld\n");
    assert!(doc.find("zz").is_empty());
    assert!(doc.find("").is_empty());
}

#[test]
fn typing_into_empty_document() {
    let mut doc = Document::default();
    doc.insert(&Position { x: 0, y: 0 }, 'h');
    doc.insert(&Position { x: 1, y: 0 }, 'i');
    assert_eq!(doc.len(), 1);
    assert_eq!(row_text(&doc, 0), "hi");
    assert!(doc.is_dirty());
}

#[test]
fn delete_at_row_end_merges_next_row() {
    let mut doc = doc_of("hello\nworld\n");
    doc.delete(&Position { x: 5, y: 0 });
    assert_eq!(doc.len(), 1);
    assert_eq!(row_text(&doc, 0), "helloworld");
    assert!(doc.is_dirty());
}

#[test]
fn delete_inside_row_removes_cluster() {
    let mut doc = doc_of("hello\n");
    doc.delete(&Position { x: 0, y: 0 });
    assert_eq!(row_text(&doc, 0), "ello");
}

#[test]
fn delete_past_last_row_is_noop() {
    let mut doc = doc_of("hello\n");
    doc.delete(&Position { x: 0, y: 3 });
    assert_eq!(row_text(&doc, 0), "hello");
    assert!(!doc.is_dirty());
}

#[test]
fn newline_splits_row() {
    let mut doc = doc_of("hello\n");
    doc.insert(&Position { x: 2, y: 0 }, '\n');
    assert_eq!(doc.len(), 2);
    assert_eq!(row_text(&doc, 0), "he");
    assert_eq!(row_text(&doc, 1), "llo");
}

#[test]
fn newline_below_last_row_adds_row() {
    let mut doc = doc_of("a\n");
    doc.insert(&Position { x: 0, y: 1 }, '\n');
    assert_eq!(doc.len(), 2);
    assert_eq!(row_text(&doc, 1), "");
}

#[test]
fn character_below_last_row_starts_row() {
    let mut doc = doc_of("a\n");
    doc.insert(&Position { x: 4, y: 1 }, 'z');
    assert_eq!(doc.len(), 2);
    assert_eq!(row_text(&doc, 1), "z");
}

#[test]
fn insert_far_below_is_noop() {
    let mut doc = doc_of("a\n");
    doc.insert(&Position { x: 0, y: 5 }, 'z');
    assert_eq!(doc.len(), 1);
    assert!(!doc.is_dirty());
}

#[test]
fn text_is_read_line_by_line() {
    let doc = doc_of("a\r\nb\nc");
    assert_eq!(doc.len(), 3);
    assert_eq!(row_text(&doc, 0), "a");
    assert_eq!(row_text(&doc, 1), "b");
    assert_eq!(row_text(&doc, 2), "c");
    assert_eq!(doc.file_name.as_deref(), Some("f.txt"));
    assert!(!doc.is_dirty());
}

#[test]
fn empty_text_gives_one_empty_row() {
    let doc = doc_of("");
    assert_eq!(doc.len(), 1);
    assert!(doc.is_empty());
}

#[test]
fn contents_end_each_row_with_newline() {
    let doc = doc_of("a\r\nb");
    assert_eq!(doc.contents(), "a\nb\n");
    assert_eq!(Document::default().contents(), "\n");
}

#[test]
fn saving_clears_dirty_flag() {
    let mut doc = Document::default();
    doc.insert(&Position { x: 0, y: 0 }, 'x');
    assert!(doc.is_dirty());
    doc.set_file_name("g.txt".to_owned());
    assert_eq!(doc.name().as_deref(), Some("g.txt"));
    doc.mark_saved();
    assert!(!doc.is_dirty());
}

#[test]
fn is_empty_only_for_single_empty_row() {
    assert!(!doc_of("x\n").is_empty());
    assert!(!doc_of("\n\n").is_empty());
    assert!(doc_of("\n").is_empty());
}

#[test]
fn row_mut_changes_row_in_place() {
    let mut doc = doc_of("ab\n");
    doc.row_mut(0).unwrap().insert(1, 'z');
    assert_eq!(row_text(&doc, 0), "azb");
    assert!(doc.row_mut(4).is_none());
    assert!(doc.row(4).is_none());
}
