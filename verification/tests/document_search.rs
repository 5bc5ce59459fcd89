use flowstate_workspace::document_search::{
    find_literal_ranges, DocumentSearchMatch, DocumentSearchSnapshot,
};

#[test]
fn finds_literal_byte_ranges() {
    assert_eq!(
        find_literal_ranges("policy policy", "policy"),
        vec![DocumentSearchMatch { start: 0, end: 6 }, DocumentSearchMatch { start: 7, end: 13 },]
    );
}

#[test]
fn empty_needle_returns_no_matches() {
    assert!(find_literal_ranges("policy", "").is_empty());
}

#[test]
fn tracks_line_starts() {
    let snapshot = DocumentSearchSnapshot::new("a\nb\nc".to_string());

    assert_eq!(snapshot.line_starts(), &[0, 2, 4]);
    assert_eq!(snapshot.line_for_byte(0), 0);
    assert_eq!(snapshot.line_for_byte(2), 1);
    assert_eq!(snapshot.line_for_byte(4), 2);
}

#[test]
fn snapshots_search_their_text() {
    let snapshot = DocumentSearchSnapshot::new("aaaa\naa".to_string());
    assert_eq!(snapshot.text(), "aaaa\naa");
    let found = snapshot.find_literal("aa");
    assert_eq!(
        found,
        vec![
            DocumentSearchMatch { start: 0, end: 2 },
            DocumentSearchMatch { start: 2, end: 4 },
            DocumentSearchMatch { start: 5, end: 7 },
        ]
    );
    assert_eq!(found[0].len(), 2);
    assert!(!found[0].is_empty());
    assert!(DocumentSearchMatch { start: 3, end: 3 }.is_empty());
    assert_eq!(snapshot.line_for_byte(4), 0);
    assert_eq!(snapshot.line_for_byte(100), 1);
}

#[test]
fn offsets_are_bytes() {
    assert_eq!(
        find_literal_ranges("é€x", "x"),
        vec![DocumentSearchMatch { start: 5, end: 6 }]
    );
    assert!(find_literal_ranges("", "x").is_empty());
}

#[test]
fn an_empty_text_has_one_line() {
    let snapshot = DocumentSearchSnapshot::new(String::new());
    assert_eq!(snapshot.line_starts(), &[0]);
    assert_eq!(snapshot.line_for_byte(0), 0);
}
