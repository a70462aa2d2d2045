use shrimp::lexer::Lexer;
use shrimp::token::{Token, TokenKind};

fn token(kind: TokenKind, lexeme: &str, literal: Option<&str>, line: usize) -> Token {
    Token {
        kind,
        lexeme: lexeme.chars().collect(),
        literal: literal.map(|text| text.chars().collect()),
        line,
    }
}

#[test]
fn unterminated_string_is_illegal_then_end_of_input() {
    let mut lexer = Lexer::new("\"abc".to_string());
    assert_eq!(lexer.next_token(), token(TokenKind::Illegal, "\"", None, 1));
    assert!(lexer.is_at_end());
    assert_eq!(lexer.next_token(), token(TokenKind::EndOfInput, "", None, 1));
}

#[test]
fn unterminated_string_uses_up_the_source() {
    let mut lexer = Lexer::new("x \"abc\ndef ghi".to_string());
    assert_eq!(lexer.next_token(), token(TokenKind::Identifier, "x", None, 1));
    assert_eq!(lexer.next_token(), token(TokenKind::Illegal, "\"", None, 1));
    assert_eq!(lexer.next_token(), token(TokenKind::EndOfInput, "", None, 2));
}

#[test]
fn end_of_input_is_delivered_again_and_again() {
    let mut lexer = Lexer::new("a\n".to_string());
    assert_eq!(lexer.next_token().kind, TokenKind::Identifier);
    for _ in 0..5 {
        assert_eq!(lexer.next_token(), token(TokenKind::EndOfInput, "", None, 2));
        assert!(lexer.is_at_end());
    }
}

#[test]
fn caller_may_continue_after_an_illegal_character() {
    let mut lexer = Lexer::new("a # b @@ 1".to_string());
    assert_eq!(lexer.next_token(), token(TokenKind::Identifier, "a", None, 1));
    assert_eq!(lexer.next_token(), token(TokenKind::Illegal, "#", None, 1));
    assert_eq!(lexer.next_token(), token(TokenKind::Identifier, "b", None, 1));
    assert_eq!(lexer.next_token(), token(TokenKind::Illegal, "@", None, 1));
    assert_eq!(lexer.next_token(), token(TokenKind::Illegal, "@", None, 1));
    assert_eq!(lexer.next_token(), token(TokenKind::IntLiteral, "1", Some("1"), 1));
    assert_eq!(lexer.next_token(), token(TokenKind::EndOfInput, "", None, 1));
}

#[test]
fn illegal_character_of_several_bytes_is_one_character() {
    let mut lexer = Lexer::new("\u{2713}\u{e9}x".to_string());
    assert_eq!(lexer.next_token(), token(TokenKind::Illegal, "\u{2713}", None, 1));
    assert_eq!(lexer.next_token(), token(TokenKind::Illegal, "\u{e9}", None, 1));
    assert_eq!(lexer.next_token(), token(TokenKind::Identifier, "x", None, 1));
    assert_eq!(lexer.next_token(), token(TokenKind::EndOfInput, "", None, 1));
}

#[test]
fn is_at_end_follows_the_tokens() {
    let mut lexer = Lexer::new("a b ".to_string());
    assert!(!lexer.is_at_end());
    lexer.next_token();
    assert!(!lexer.is_at_end());
    lexer.next_token();
    assert!(!lexer.is_at_end());
    assert_eq!(lexer.next_token().kind, TokenKind::EndOfInput);
    assert!(lexer.is_at_end());
    assert!(Lexer::new(String::new()).is_at_end());
}

#[test]
fn trailing_blanks_are_read_with_the_end_of_input() {
    let mut lexer = Lexer::new("a  // c\n \n".to_string());
    assert_eq!(lexer.next_token(), token(TokenKind::Identifier, "a", None, 1));
    assert_eq!(lexer.next_token(), token(TokenKind::EndOfInput, "", None, 3));
}

#[test]
fn only_literals_carry_a_payload() {
    let mut lexer = Lexer::new("x var 12 1.25 \"s\" + == #".to_string());
    loop {
        let t = lexer.next_token();
        let is_literal = matches!(
            t.kind,
            TokenKind::StringLiteral | TokenKind::IntLiteral | TokenKind::FloatLiteral
        );
        assert_eq!(t.literal.is_some(), is_literal);
        if t.kind == TokenKind::IntLiteral || t.kind == TokenKind::FloatLiteral {
            assert_eq!(t.literal.as_ref(), Some(&t.lexeme));
        }
        if t.kind == TokenKind::EndOfInput {
            break;
        }
    }
}

#[test]
fn lexemes_put_together_are_the_source_without_blanks() {
    let source = "if(a1>=2.50){x=\"s t\";}else{y=!z/3}";
    let mut lexer = Lexer::new(source.to_string());
    let mut text = String::new();
    loop {
        let t = lexer.next_token();
        if t.kind == TokenKind::EndOfInput {
            break;
        }
        assert_ne!(t.kind, TokenKind::Illegal);
        text.extend(t.lexeme.iter());
    }
    assert_eq!(text, source);
}

#[test]
fn two_scanners_do_not_share_state() {
    let mut a = Lexer::new("one two\nthree".to_string());
    let mut b = Lexer::new("one two\nthree".to_string());
    let a1 = a.next_token();
    let a2 = a.next_token();
    let b1 = b.next_token();
    let a3 = a.next_token();
    let b2 = b.next_token();
    let b3 = b.next_token();
    assert_eq!(a1, b1);
    assert_eq!(a2, b2);
    assert_eq!(a3, b3);
    assert_eq!(a3, token(TokenKind::Identifier, "three", None, 2));
}

#[test]
fn division_before_a_comment() {
    let mut lexer = Lexer::new("a / // b\n/ c".to_string());
    assert_eq!(lexer.next_token(), token(TokenKind::Identifier, "a", None, 1));
    assert_eq!(lexer.next_token(), token(TokenKind::Slash, "/", None, 1));
    assert_eq!(lexer.next_token(), token(TokenKind::Slash, "/", None, 2));
    assert_eq!(lexer.next_token(), token(TokenKind::Identifier, "c", None, 2));
    assert_eq!(lexer.next_token(), token(TokenKind::EndOfInput, "", None, 2));
}

#[test]
fn three_slashes_are_a_comment() {
    let mut lexer = Lexer::new("/// a\n1".to_string());
    assert_eq!(lexer.next_token(), token(TokenKind::IntLiteral, "1", Some("1"), 2));
}
