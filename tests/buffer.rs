use rut::buffer::Buffer;

#[test]
fn two_line_offsets_and_lengths() {
    let b = Buffer::new("ab\ncd");
    assert_eq!(b.line_count(), 2);
    assert_eq!(b.get_buffer_index((0, 1)), Some(3));
    assert_eq!(b.line_length(0), 2);
    assert_eq!(b.line_length(1), 2);
    assert_eq!(b.get_buffer_index((2, 1)), Some(5));
    assert_eq!(b.size(), 5);
}

#[test]
fn row_past_last_line_has_no_offset() {
    let b = Buffer::new("ab\ncd");
    for column in 0..5 {
        assert_eq!(b.get_buffer_index((column, 2)), None);
        assert_eq!(b.get_buffer_index((column, 7)), None);
    }
}

#[test]
fn column_past_line_end_has_no_offset() {
    let b = Buffer::new("ab\ncd");
    assert_eq!(b.get_buffer_index((3, 0)), None);
    assert_eq!(b.get_buffer_index((3, 1)), None);
    assert_eq!(b.get_buffer_index((usize::MAX, 0)), None);
}

#[test]
fn offsets_map_back_to_positions() {
    let text = "hello\n\nwörld\nx";
    let chars: Vec<char> = text.chars().collect();
    let b = Buffer::new(text);
    for row in 0..b.line_count() {
        for column in 0..=b.line_length(row) {
            let off = b.get_buffer_index((column, row)).unwrap();
            assert!(off <= b.size());
            let before = &chars[..off];
            let back_row = before.iter().filter(|c| **c == '\n').count();
            let line_begin = before.iter().rposition(|c| *c == '\n').map_or(0, |p| p + 1);
            assert_eq!((off - line_begin, back_row), (column, row));
        }
    }
}

#[test]
fn empty_text_is_one_empty_line() {
    let b = Buffer::new("");
    assert_eq!(b.line_count(), 1);
    assert_eq!(b.line_length(0), 0);
    assert_eq!(b.size(), 0);
    assert_eq!(b.get_buffer_index((0, 0)), Some(0));
    assert_eq!(b.get_buffer_index((1, 0)), None);
    assert_eq!(b.get_buffer_index((0, 1)), None);
}

#[test]
fn trailing_line_feed_opens_an_empty_line() {
    let b = Buffer::new("a\n");
    assert_eq!(b.line_count(), 2);
    assert_eq!(b.line_length(0), 1);
    assert_eq!(b.line_length(1), 0);
    assert_eq!(b.get_buffer_index((0, 1)), Some(2));
}

#[test]
fn lengths_count_characters_not_bytes() {
    let b = Buffer::new("é€\nü");
    assert_eq!(b.size(), 4);
    assert_eq!(b.line_length(0), 2);
    assert_eq!(b.line_length(1), 1);
    assert_eq!(b.get_buffer_index((1, 1)), Some(4));
}

#[test]
fn insert_then_delete_restores_text() {
    let text = "hé\nllo";
    for k in 0..=text.chars().count() {
        let mut b = Buffer::new(text);
        b.insert(k, 'Z');
        assert_eq!(b.size(), 7);
        b.delete(k);
        assert_eq!(b.contents(), text);
    }
}

#[test]
fn insert_places_character_before_offset() {
    let mut b = Buffer::new("ab\ncd");
    b.insert(2, '\n');
    assert_eq!(b.contents(), "ab\n\ncd");
    assert_eq!(b.line_count(), 3);
    b.insert(6, '!');
    assert_eq!(b.contents(), "ab\n\ncd!");
}

#[test]
fn delete_removes_character_at_offset() {
    let mut b = Buffer::new("ab\ncd");
    b.delete(2);
    assert_eq!(b.contents(), "abcd");
    assert_eq!(b.line_count(), 1);
    b.delete(0);
    assert_eq!(b.contents(), "bcd");
}
