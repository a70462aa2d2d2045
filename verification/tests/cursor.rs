use shrimp::cursor::Cursor;

fn chars(text: &str) -> Vec<char> {
    text.chars().collect()
}

#[test]
fn new_cursor_is_at_the_start() {
    let cursor = Cursor::new("ab");
    assert_eq!(cursor.offset(), 0);
    assert_eq!(cursor.token_offset(), 0);
    assert_eq!(cursor.line(), 1);
    assert_eq!(cursor.token_line(), 1);
    assert!(!cursor.is_at_end());
    assert_eq!(cursor.lexeme(), chars(""));
}

#[test]
fn cursor_over_nothing_is_at_its_end() {
    let cursor = Cursor::new("");
    assert!(cursor.is_at_end());
    assert_eq!(cursor.peek(), '\0');
    assert_eq!(cursor.peek_next(), '\0');
    assert_eq!(cursor.line(), 1);
}

#[test]
fn advance_hands_out_the_characters_in_order() {
    let mut cursor = Cursor::new("a\u{e9}c");
    assert_eq!(cursor.advance(), 'a');
    assert_eq!(cursor.offset(), 1);
    assert_eq!(cursor.advance(), '\u{e9}');
    assert_eq!(cursor.offset(), 2);
    assert!(!cursor.is_at_end());
    assert_eq!(cursor.advance(), 'c');
    assert_eq!(cursor.offset(), 3);
    assert!(cursor.is_at_end());
}

#[test]
fn peek_does_not_move() {
    let mut cursor = Cursor::new("xyz");
    assert_eq!(cursor.peek(), 'x');
    assert_eq!(cursor.peek(), 'x');
    assert_eq!(cursor.peek_next(), 'y');
    assert_eq!(cursor.offset(), 0);
    cursor.advance();
    assert_eq!(cursor.peek(), 'y');
    assert_eq!(cursor.peek_next(), 'z');
    cursor.advance();
    assert_eq!(cursor.peek(), 'z');
    assert_eq!(cursor.peek_next(), '\0');
    cursor.advance();
    assert_eq!(cursor.peek(), '\0');
    assert_eq!(cursor.peek_next(), '\0');
    assert_eq!(cursor.offset(), 3);
}

#[test]
fn newline_that_is_read_starts_a_line() {
    let mut cursor = Cursor::new("a\n\nb");
    assert_eq!(cursor.line(), 1);
    cursor.advance();
    assert_eq!(cursor.line(), 1);
    assert_eq!(cursor.peek(), '\n');
    assert_eq!(cursor.line(), 1);
    cursor.advance();
    assert_eq!(cursor.line(), 2);
    cursor.advance();
    assert_eq!(cursor.line(), 3);
    cursor.advance();
    assert_eq!(cursor.line(), 3);
    assert!(cursor.is_at_end());
}

#[test]
fn carriage_return_starts_no_line() {
    let mut cursor = Cursor::new("\r\r\n");
    cursor.advance();
    cursor.advance();
    assert_eq!(cursor.line(), 1);
    cursor.advance();
    assert_eq!(cursor.line(), 2);
}

#[test]
fn lexeme_runs_from_the_mark_to_the_position() {
    let mut cursor = Cursor::new("hello world");
    cursor.advance();
    cursor.advance();
    assert_eq!(cursor.lexeme(), chars("he"));
    cursor.mark_token_start();
    assert_eq!(cursor.token_offset(), 2);
    assert_eq!(cursor.offset(), 2);
    assert_eq!(cursor.lexeme(), chars(""));
    cursor.advance();
    cursor.advance();
    cursor.advance();
    assert_eq!(cursor.lexeme(), chars("llo"));
    assert_eq!(cursor.token_offset(), 2);
    assert_eq!(cursor.offset(), 5);
}

#[test]
fn mark_keeps_the_line_of_the_token() {
    let mut cursor = Cursor::new("\n\"a\nb\"");
    cursor.advance();
    cursor.mark_token_start();
    assert_eq!(cursor.token_line(), 2);
    while !cursor.is_at_end() {
        cursor.advance();
    }
    assert_eq!(cursor.line(), 3);
    assert_eq!(cursor.token_line(), 2);
    assert_eq!(cursor.lexeme(), chars("\"a\nb\""));
}

#[test]
fn text_copies_a_part_of_the_source() {
    let cursor = Cursor::new("a\u{2713}cde");
    assert_eq!(cursor.text(0, 5), chars("a\u{2713}cde"));
    assert_eq!(cursor.text(1, 3), chars("\u{2713}c"));
    assert_eq!(cursor.text(4, 5), chars("e"));
    assert_eq!(cursor.text(2, 2), chars(""));
    assert_eq!(cursor.text(5, 5), chars(""));
    assert_eq!(cursor.offset(), 0);
}

#[test]
fn nul_in_the_source_is_a_character_like_any_other() {
    let mut cursor = Cursor::new("\0a");
    assert!(!cursor.is_at_end());
    assert_eq!(cursor.peek(), '\0');
    assert_eq!(cursor.advance(), '\0');
    assert!(!cursor.is_at_end());
    assert_eq!(cursor.advance(), 'a');
    assert!(cursor.is_at_end());
    assert_eq!(cursor.lexeme(), chars("\0a"));
}
