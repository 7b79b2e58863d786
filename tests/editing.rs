use fsh::edit::EditBuffer;

fn buffer_of(text: &str, cursor: usize) -> EditBuffer {
    let mut b = EditBuffer::new();
    b.replace_with(text);
    while b.cursor_index() > cursor {
        b.move_left();
    }
    b
}

#[test]
fn positional_delete() {
    let mut b = buffer_of("abcd", 2);
    assert_eq!(b.cursor_index(), 2);
    b.delete_before_cursor();
    assert_eq!(b.text_string(), "acd");
    assert_eq!(b.cursor_index(), 1);
}

#[test]
fn delete_at_start_does_nothing() {
    let mut b = buffer_of("abc", 0);
    b.delete_before_cursor();
    assert_eq!(b.text_string(), "abc");
    assert_eq!(b.cursor_index(), 0);
}

#[test]
fn cursor_clamps_at_both_ends() {
    let mut b = buffer_of("abc", 1);
    for _ in 0..10 {
        b.move_right();
        assert!(b.cursor_index() <= b.len());
    }
    assert_eq!(b.cursor_index(), 3);
    for _ in 0..10 {
        b.move_left();
    }
    assert_eq!(b.cursor_index(), 0);
    assert_eq!(b.text_string(), "abc");
}

#[test]
fn insert_at_cursor() {
    let mut b = buffer_of("ac", 1);
    b.insert_char('b');
    assert_eq!(b.text_string(), "abc");
    assert_eq!(b.cursor_index(), 2);
    b.insert_chars(&vec!['x', 'y']);
    assert_eq!(b.text_string(), "abxyc");
    assert_eq!(b.cursor_index(), 4);
}

#[test]
fn replace_and_clear() {
    let mut b = EditBuffer::new();
    assert!(b.is_empty());
    b.replace_with("héllo");
    assert_eq!(b.len(), 5);
    assert_eq!(b.cursor_index(), 5);
    b.clear();
    assert!(b.is_empty());
    assert_eq!(b.cursor_index(), 0);
}

#[test]
fn token_before_cursor() {
    let b = buffer_of("ls src/ma", 9);
    assert_eq!(b.current_token_before_cursor(), "src/ma".chars().collect::<Vec<char>>());
    let b = buffer_of("ls src/ma", 2);
    assert_eq!(b.current_token_before_cursor(), vec!['l', 's']);
    let b = buffer_of("ls src/ma", 3);
    assert!(b.current_token_before_cursor().is_empty());
    let b = buffer_of("cat\tfoo", 7);
    assert_eq!(b.current_token_before_cursor(), vec!['f', 'o', 'o']);
}

#[test]
fn cursor_column_from_prompt() {
    let b = buffer_of("abc", 2);
    assert_eq!(b.cursor_column(10), Some(12));
    assert_eq!(b.cursor_column(u16::MAX), None);
}
