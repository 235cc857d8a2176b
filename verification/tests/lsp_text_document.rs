use conflic::lsp::diagnostics::make_range;
use conflic::lsp::navigation::span_contains_position;
use conflic::lsp::text_document::{apply_content_changes, position_to_offset, ContentChange, Position, Range};
use conflic::model::{SourceLocation, SourceSpan};

fn pos(line: u32, character: u32) -> Position {
    Position { line, character }
}

#[test]
fn test_apply_content_changes_supports_incremental_ranges() {
    let mut document = String::from("{\n  \"name\": \"demo\",\n  \"version\": \"1.0.0\"\n}\n");
    apply_content_changes(
        &mut document,
        vec![ContentChange {
            range: Some(Range {
                start: pos(2, 13),
                end: pos(2, 20),
            }),
            range_length: None,
            text: "\"2.0.0\"".to_string(),
        }],
    );

    assert!(document.contains("\"version\": \"2.0.0\""));
}

#[test]
fn test_position_to_offset_handles_line_boundaries() {
    let document = "first\nsecond\n";
    assert_eq!(position_to_offset(document, pos(1, 3)), Some(9));
}

#[test]
fn test_position_to_offset_supports_multibyte_characters() {
    let document = "naive\ncaf\u{00e9}\n";
    assert_eq!(position_to_offset(document, pos(1, 4)), Some(11));
}

#[test]
fn position_origin_is_offset_zero_even_in_empty_document() {
    assert_eq!(position_to_offset("", pos(0, 0)), Some(0));
}

#[test]
fn position_at_end_of_document_is_its_length() {
    assert_eq!(position_to_offset("ab\ncd", pos(1, 2)), Some(5));
}

#[test]
fn position_past_line_end_is_not_reached() {
    assert_eq!(position_to_offset("ab\ncd", pos(0, 3)), None);
    assert_eq!(position_to_offset("ab\ncd", pos(2, 0)), None);
}

#[test]
fn position_counts_utf16_units_for_astral_characters() {
    // U+1F600 takes two UTF-16 units and four UTF-8 bytes.
    let document = "\u{1F600}x";
    assert_eq!(position_to_offset(document, pos(0, 2)), Some(4));
    assert_eq!(position_to_offset(document, pos(0, 1)), None);
}

#[test]
fn change_without_range_replaces_whole_document() {
    let mut document = String::from("old text");
    apply_content_changes(
        &mut document,
        vec![ContentChange { range: None, range_length: None, text: "new".to_string() }],
    );
    assert_eq!(document, "new");
}

#[test]
fn change_with_unreachable_or_reversed_range_replaces_whole_document() {
    let mut document = String::from("abc");
    apply_content_changes(
        &mut document,
        vec![ContentChange {
            range: Some(Range { start: pos(5, 0), end: pos(5, 1) }),
            range_length: None,
            text: "x".to_string(),
        }],
    );
    assert_eq!(document, "x");

    let mut document = String::from("abc");
    apply_content_changes(
        &mut document,
        vec![ContentChange {
            range: Some(Range { start: pos(0, 2), end: pos(0, 1) }),
            range_length: None,
            text: "y".to_string(),
        }],
    );
    assert_eq!(document, "y");
}

#[test]
fn changes_apply_in_order() {
    let mut document = String::from("hello world");
    apply_content_changes(
        &mut document,
        vec![
            ContentChange {
                range: Some(Range { start: pos(0, 0), end: pos(0, 5) }),
                range_length: Some(5),
                text: "goodbye".to_string(),
            },
            ContentChange {
                range: Some(Range { start: pos(0, 7), end: pos(0, 7) }),
                range_length: Some(0),
                text: ",".to_string(),
            },
        ],
    );
    assert_eq!(document, "goodbye, world");
}

#[test]
fn make_range_covers_the_whole_zero_based_line() {
    let r = make_range(3);
    assert_eq!(r.start, pos(2, 0));
    assert_eq!(r.end, pos(2, u32::MAX));
    assert_eq!(make_range(0).start, pos(0, 0));
    assert_eq!(make_range(1).end, pos(0, u32::MAX));
}

fn location(line: usize) -> SourceLocation {
    SourceLocation { file: "package.json".to_string(), line, column: 0, key_path: String::new() }
}

#[test]
fn span_contains_position_uses_one_based_span_with_exclusive_end() {
    // Lines 2..3 (one-based), from column 5 to column 10 (exclusive end).
    let span = SourceSpan { start: 0, end: 0, line: 2, column: 5, end_line: 3, end_column: 10 };
    let src = location(2);
    assert!(span_contains_position(Some(&span), &src, &pos(1, 4)));
    assert!(!span_contains_position(Some(&span), &src, &pos(1, 3)));
    assert!(span_contains_position(Some(&span), &src, &pos(2, 8)));
    assert!(!span_contains_position(Some(&span), &src, &pos(2, 9)));
    assert!(!span_contains_position(Some(&span), &src, &pos(0, 4)));
    assert!(!span_contains_position(Some(&span), &src, &pos(3, 0)));
}

#[test]
fn span_contains_position_without_span_matches_whole_line() {
    let src = location(4);
    assert!(span_contains_position(None, &src, &pos(3, 0)));
    assert!(span_contains_position(None, &src, &pos(3, 500)));
    assert!(!span_contains_position(None, &src, &pos(4, 0)));
}
