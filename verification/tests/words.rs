use shrimp::chars::{is_alpha_numeric, is_blank, is_digit, is_letter};
use shrimp::token::{lookup_keyword, spells, TokenKind};

fn chars(text: &str) -> Vec<char> {
    text.chars().collect()
}

#[test]
fn digits_are_the_ten_ascii_digits() {
    for c in '0'..='9' {
        assert!(is_digit(c));
    }
    for c in ['/', ':', 'a', ' ', '.', '\0', '\u{663}', '\u{ff11}'] {
        assert!(!is_digit(c));
    }
}

#[test]
fn letters_are_ascii_letters_and_underscore() {
    for c in ('a'..='z').chain('A'..='Z') {
        assert!(is_letter(c));
    }
    assert!(is_letter('_'));
    for c in ['@', '[', '`', '{', '0', '9', ' ', '-', '\0', '\u{e9}', '\u{3b1}'] {
        assert!(!is_letter(c));
    }
}

#[test]
fn word_characters_are_letters_and_digits() {
    for c in ['a', 'Z', '_', '0', '9'] {
        assert!(is_alpha_numeric(c));
    }
    for c in [' ', '.', '-', '"', '\n', '\u{e9}'] {
        assert!(!is_alpha_numeric(c));
    }
}

#[test]
fn blanks_are_space_tab_return_and_newline() {
    for c in [' ', '\t', '\r', '\n'] {
        assert!(is_blank(c));
    }
    for c in ['a', '0', '\0', '\u{b}', '\u{c}', '\u{a0}', '/'] {
        assert!(!is_blank(c));
    }
}

#[test]
fn table_holds_the_fifteen_reserved_words() {
    let table = [
        ("var", TokenKind::Var),
        ("const", TokenKind::Const),
        ("fn", TokenKind::Fn),
        ("struct", TokenKind::Struct),
        ("if", TokenKind::If),
        ("else", TokenKind::Else),
        ("for", TokenKind::For),
        ("while", TokenKind::While),
        ("return", TokenKind::Return),
        ("this", TokenKind::This),
        ("true", TokenKind::True),
        ("false", TokenKind::False),
        ("and", TokenKind::And),
        ("or", TokenKind::Or),
        ("nil", TokenKind::Nil),
    ];
    for (word, kind) in table {
        assert_eq!(lookup_keyword(&chars(word)), Some(kind));
    }
}

#[test]
fn table_holds_nothing_else() {
    for word in ["", "v", "va", "vars", "Var", "VAR", "forest", "fo", "nil ", " nil", "null", "x"] {
        assert_eq!(lookup_keyword(&chars(word)), None);
    }
}

#[test]
fn spells_compares_character_by_character() {
    assert!(spells(&chars(""), ""));
    assert!(spells(&chars("abc"), "abc"));
    assert!(spells(&['h', '\u{e9}', '\u{2713}'], "h\u{e9}\u{2713}"));
    assert!(!spells(&chars("abc"), "abd"));
    assert!(!spells(&chars("abc"), "ab"));
    assert!(!spells(&chars("ab"), "abc"));
    assert!(!spells(&chars(""), "a"));
    assert!(!spells(&chars("a"), ""));
    assert!(!spells(&chars("abc"), "Abc"));
    assert!(!spells(&chars("xbc"), "abc"));
}

#[test]
fn sentinels_end_a_scan() {
    assert!(TokenKind::EndOfInput.ends_scan());
    assert!(TokenKind::Illegal.ends_scan());
    assert!(!TokenKind::Identifier.ends_scan());
    assert!(!TokenKind::Nil.ends_scan());
    assert!(!TokenKind::Slash.ends_scan());
}
