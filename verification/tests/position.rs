use sbom_generator::model::position::{
    column_in_line, get_position_in_string, line_span, position_in_line, Position, PositionError,
};

fn at(content: &str, offset: usize) -> (u32, u32) {
    let p = get_position_in_string(content, offset).expect("a position");
    (p.line, p.col)
}

#[test]
fn position_counts_lines_and_columns_from_one() {
    let content = "ab\ncd";
    assert_eq!(at(content, 0), (1, 1));
    assert_eq!(at(content, 1), (1, 2));
    assert_eq!(at(content, 2), (1, 3));
    assert_eq!(at(content, 3), (2, 1));
    assert_eq!(at(content, 4), (2, 2));
}

#[test]
fn position_of_the_end_of_the_text_is_out_of_range() {
    assert_eq!(
        get_position_in_string("ab\ncd", 5).unwrap_err(),
        PositionError::OffsetOutOfRange
    );
    assert_eq!(
        get_position_in_string("ab\ncd", 50).unwrap_err(),
        PositionError::OffsetOutOfRange
    );
    assert_eq!(
        get_position_in_string("", 0).unwrap_err(),
        PositionError::OffsetOutOfRange
    );
}

#[test]
fn position_counts_graphemes_not_bytes() {
    // "e" with a combining acute accent is one grapheme of three bytes.
    let content = "e\u{301}x";
    assert_eq!(content.len(), 4);
    assert_eq!(at(content, 0), (1, 1));
    assert_eq!(at(content, 3), (1, 2));
}

#[test]
fn position_inside_a_grapheme_is_the_next_column() {
    let content = "e\u{301}x";
    assert_eq!(at(content, 1), (1, 2));
    assert_eq!(at(content, 2), (1, 2));
}

#[test]
fn position_takes_carriage_return_and_line_feed_as_one_grapheme() {
    let content = "a\r\nb";
    assert_eq!(at(content, 1), (1, 2));
    assert_eq!(at(content, 2), (1, 3));
    assert_eq!(at(content, 3), (2, 1));
}

#[test]
fn position_after_empty_lines() {
    let content = "\n\n\nx";
    assert_eq!(at(content, 0), (1, 1));
    assert_eq!(at(content, 1), (2, 1));
    assert_eq!(at(content, 2), (3, 1));
    assert_eq!(at(content, 3), (4, 1));
}

#[test]
fn line_span_ends_behind_the_line_feed() {
    let bytes = "ab\ncd\nef".as_bytes();
    assert_eq!(line_span(bytes, 0), (0, 3));
    assert_eq!(line_span(bytes, 2), (0, 3));
    assert_eq!(line_span(bytes, 3), (3, 6));
    assert_eq!(line_span(bytes, 7), (6, 8));
}

#[test]
fn column_in_line_takes_the_first_grapheme_that_holds_the_place() {
    let graphemes = vec![(0usize, 3usize), (3, 4), (4, 6)];
    assert_eq!(column_in_line(&graphemes, 0), Some(1));
    assert_eq!(column_in_line(&graphemes, 2), Some(2));
    assert_eq!(column_in_line(&graphemes, 3), Some(2));
    assert_eq!(column_in_line(&graphemes, 4), Some(3));
    assert_eq!(column_in_line(&graphemes, 5), Some(4));
    assert_eq!(column_in_line(&graphemes, 6), None);
    assert_eq!(column_in_line(&Vec::new(), 0), None);
}

#[test]
fn position_in_line_without_a_grapheme_is_not_found() {
    let bytes = "ab\ncd".as_bytes();
    assert_eq!(
        position_in_line(bytes, 4, &Vec::new()).unwrap_err(),
        PositionError::NotFound
    );
    let p = position_in_line(bytes, 4, &vec![(0, 1), (1, 2)]).unwrap();
    assert_eq!((p.line, p.col), (2, 2));
}

#[test]
fn default_position_is_the_start() {
    let p = Position::default();
    assert_eq!((p.line, p.col), (1, 1));
}
