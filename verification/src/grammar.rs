//! The lexical grammar, stated over the source as a sequence of characters.
//!
//! Everything here is mathematics: what the token at a position is, where it
//! ends, and what a whole scan delivers. The scanner is proved against it.

use crate::chars::{is_alpha_numeric, is_blank, is_digit, is_letter};
use crate::token::{keyword_kind, TokenKind, TokenView};
use vstd::prelude::*;

verus! {

/// The character at `i`, or NUL where the source has none.
pub open spec fn char_at(src: Seq<char>, i: int) -> char {
    if 0 <= i < src.len() {
        src[i]
    } else {
        '\0'
    }
}

/// Where the longest run of characters that `keep` accepts, starting at `from`,
/// ends: the first position at or after `from` whose character `keep` refuses,
/// or the end of the source.
pub open spec fn run_end(src: Seq<char>, from: int, keep: spec_fn(char) -> bool) -> int
    decreases src.len() - from,
{
    if 0 <= from < src.len() && keep(src[from]) {
        run_end(src, from + 1, keep)
    } else {
        from
    }
}

/// The end of the white space that starts at `from`.
pub open spec fn blank_end(src: Seq<char>, from: int) -> int {
    run_end(src, from, |c: char| is_blank(c))
}

/// The end of the digits that start at `from`.
pub open spec fn digits_end(src: Seq<char>, from: int) -> int {
    run_end(src, from, |c: char| is_digit(c))
}

/// The end of the letters, digits and underscores that start at `from`.
pub open spec fn word_end(src: Seq<char>, from: int) -> int {
    run_end(src, from, |c: char| is_alpha_numeric(c))
}

/// The next newline at or after `from`, or the end of the source.
pub open spec fn line_end(src: Seq<char>, from: int) -> int {
    run_end(src, from, |c: char| c != '\n')
}

/// The next double quote at or after `from`, or the end of the source.
pub open spec fn quote_at(src: Seq<char>, from: int) -> int {
    run_end(src, from, |c: char| c != '"')
}

/// How many newlines stand before position `pos`.
pub open spec fn newlines_before(src: Seq<char>, pos: int) -> nat
    decreases pos,
{
    if pos <= 0 {
        0
    } else {
        newlines_before(src, pos - 1) + if char_at(src, pos - 1) == '\n' {
            1nat
        } else {
            0nat
        }
    }
}

/// The line, counted from 1, that position `pos` lies on.
pub open spec fn line_at(src: Seq<char>, pos: int) -> nat {
    1 + newlines_before(src, pos)
}

/// Whether a line comment opens at `at`.
pub open spec fn starts_comment(src: Seq<char>, at: int) -> bool {
    char_at(src, at) == '/' && char_at(src, at + 1) == '/'
}

/// Where the next token starts when the scanner is at `pos`: after all white
/// space and all line comments. A comment runs up to its newline, which is
/// white space in turn.
pub open spec fn token_start(src: Seq<char>, pos: int) -> int
    decreases src.len() - pos,
    via token_start_decreases
{
    let at = blank_end(src, pos);
    if starts_comment(src, at) {
        token_start(src, line_end(src, at + 2))
    } else {
        at
    }
}

#[via_fn]
proof fn token_start_decreases(src: Seq<char>, pos: int) {
    let at = blank_end(src, pos);
    if starts_comment(src, at) {
        lemma_run_end(src, pos, |c: char| is_blank(c));
        lemma_run_end(src, at + 2, |c: char| c != '\n');
    }
}

/// The outcome of reading one token: the token, and the position after it.
pub struct Lexed {
    pub token: TokenView,
    pub next: int,
}

/// The kind of a token that one character makes, whatever follows it.
pub open spec fn punctuation_kind(c: char) -> Option<TokenKind> {
    if c == '(' {
        Some(TokenKind::LParen)
    } else if c == ')' {
        Some(TokenKind::RParen)
    } else if c == '{' {
        Some(TokenKind::LBrace)
    } else if c == '}' {
        Some(TokenKind::RBrace)
    } else if c == '[' {
        Some(TokenKind::LBracket)
    } else if c == ']' {
        Some(TokenKind::RBracket)
    } else if c == ',' {
        Some(TokenKind::Comma)
    } else if c == '.' {
        Some(TokenKind::Dot)
    } else if c == ':' {
        Some(TokenKind::Colon)
    } else if c == ';' {
        Some(TokenKind::Semicolon)
    } else if c == '+' {
        Some(TokenKind::Plus)
    } else if c == '-' {
        Some(TokenKind::Minus)
    } else if c == '*' {
        Some(TokenKind::Star)
    } else if c == '/' {
        Some(TokenKind::Slash)
    } else {
        None
    }
}

/// For a character that may be followed by `=`: the kind that it makes alone,
/// and the kind that it makes together with the `=`.
pub open spec fn operator_kinds(c: char) -> Option<(TokenKind, TokenKind)> {
    if c == '=' {
        Some((TokenKind::Assign, TokenKind::EqEq))
    } else if c == '!' {
        Some((TokenKind::Bang, TokenKind::BangEq))
    } else if c == '<' {
        Some((TokenKind::Less, TokenKind::LessEq))
    } else if c == '>' {
        Some((TokenKind::Greater, TokenKind::GreaterEq))
    } else {
        None
    }
}

/// A token of the given kind whose lexeme is the source from `start` to `end`.
pub open spec fn spanning(
    src: Seq<char>,
    start: int,
    end: int,
    kind: TokenKind,
    literal: Option<Seq<char>>,
) -> Lexed {
    Lexed {
        token: TokenView {
            kind,
            lexeme: src.subrange(start, end),
            literal,
            line: line_at(src, start),
        },
        next: end,
    }
}

/// The token at the end of the source.
pub open spec fn end_of_input(src: Seq<char>, start: int) -> Lexed {
    Lexed {
        token: TokenView {
            kind: TokenKind::EndOfInput,
            lexeme: Seq::empty(),
            literal: None,
            line: line_at(src, start),
        },
        next: start,
    }
}

/// The token that a double quote at `start` opens. With a closing quote it is
/// a string, whose payload is the text between the two quotes, untouched.
/// Without one the whole rest of the source is used up, and the token is
/// `Illegal`, on the line of the opening quote and with that quote as lexeme.
pub open spec fn string_at(src: Seq<char>, start: int) -> Lexed {
    let close = quote_at(src, start + 1);
    if close < src.len() {
        spanning(
            src,
            start,
            close + 1,
            TokenKind::StringLiteral,
            Some(src.subrange(start + 1, close)),
        )
    } else {
        Lexed {
            token: TokenView {
                kind: TokenKind::Illegal,
                lexeme: src.subrange(start, start + 1),
                literal: None,
                line: line_at(src, start),
            },
            next: src.len() as int,
        }
    }
}

/// The number that a digit at `start` opens: the digits, and a fraction only
/// where a dot is followed by a digit. The payload is the text of the number.
pub open spec fn number_at(src: Seq<char>, start: int) -> Lexed {
    let whole = digits_end(src, start);
    if char_at(src, whole) == '.' && is_digit(char_at(src, whole + 1)) {
        let end = digits_end(src, whole + 1);
        spanning(src, start, end, TokenKind::FloatLiteral, Some(src.subrange(start, end)))
    } else {
        spanning(src, start, whole, TokenKind::IntLiteral, Some(src.subrange(start, whole)))
    }
}

/// The word that a letter or underscore at `start` opens: first the longest
/// run of word characters, then the table of reserved words on all of it.
pub open spec fn word_at(src: Seq<char>, start: int) -> Lexed {
    let end = word_end(src, start);
    let kind = match keyword_kind(src.subrange(start, end)) {
        Some(reserved) => reserved,
        None => TokenKind::Identifier,
    };
    spanning(src, start, end, kind, None)
}

/// The token that starts at `start`, where `start` is the start of a token:
/// neither white space nor the opening of a comment.
pub open spec fn token_at(src: Seq<char>, start: int) -> Lexed {
    if !(0 <= start < src.len()) {
        end_of_input(src, start)
    } else {
        let c = src[start];
        match punctuation_kind(c) {
            Some(kind) => spanning(src, start, start + 1, kind, None),
            None => match operator_kinds(c) {
                Some((alone, with_eq)) => if char_at(src, start + 1) == '=' {
                    spanning(src, start, start + 2, with_eq, None)
                } else {
                    spanning(src, start, start + 1, alone, None)
                },
                None => if c == '"' {
                    string_at(src, start)
                } else if is_digit(c) {
                    number_at(src, start)
                } else if is_letter(c) {
                    word_at(src, start)
                } else {
                    spanning(src, start, start + 1, TokenKind::Illegal, None)
                },
            },
        }
    }
}

/// What one call for the next token delivers when the scanner is at `pos`.
pub open spec fn lex_at(src: Seq<char>, pos: int) -> Lexed {
    token_at(src, token_start(src, pos))
}

/// What a full scan delivers from `pos`: token after token, up to and
/// including the first `EndOfInput` or `Illegal`.
pub open spec fn tokens_from(src: Seq<char>, pos: int) -> Seq<TokenView>
    decreases src.len() - pos,
    via tokens_from_decreases
{
    let step = lex_at(src, pos);
    if step.token.kind.ends_scan() {
        seq![step.token]
    } else {
        seq![step.token] + tokens_from(src, step.next)
    }
}

#[via_fn]
proof fn tokens_from_decreases(src: Seq<char>, pos: int) {
    lemma_lex_advances(src, pos);
}

/// Where a full scan from `pos` leaves the scanner: just after the token that
/// ended it.
pub open spec fn scan_stop(src: Seq<char>, pos: int) -> int
    decreases src.len() - pos,
    via scan_stop_decreases
{
    let step = lex_at(src, pos);
    if step.token.kind.ends_scan() {
        step.next
    } else {
        scan_stop(src, step.next)
    }
}

#[via_fn]
proof fn scan_stop_decreases(src: Seq<char>, pos: int) {
    lemma_lex_advances(src, pos);
}

/// `run_end` is what its name says: it lies between `from` and the end of the
/// source, everything before it is kept, and the character at it is not.
pub proof fn lemma_run_end(src: Seq<char>, from: int, keep: spec_fn(char) -> bool)
    ensures
        from <= run_end(src, from, keep),
        0 <= from <= src.len() ==> run_end(src, from, keep) <= src.len(),
        forall|i: int| from <= i < run_end(src, from, keep) ==> 0 <= i < src.len() && keep(src[i]),
        0 <= run_end(src, from, keep) < src.len() ==> !keep(src[run_end(src, from, keep)]),
    decreases src.len() - from,
{
    if 0 <= from < src.len() && keep(src[from]) {
        lemma_run_end(src, from + 1, keep);
    }
}

/// The count of newlines grows by at most one per character.
pub proof fn lemma_line_at_bound(src: Seq<char>, pos: int)
    requires
        0 <= pos,
    ensures
        line_at(src, pos) <= pos + 1,
    decreases pos,
{
    if pos > 0 {
        lemma_line_at_bound(src, pos - 1);
    }
}

/// The start of the next token is at or after the scanner's position, within
/// the source, and is neither white space nor the opening of a comment.
pub proof fn lemma_token_start(src: Seq<char>, pos: int)
    requires
        0 <= pos <= src.len(),
    ensures
        pos <= token_start(src, pos) <= src.len(),
        !is_blank(char_at(src, token_start(src, pos))),
        !starts_comment(src, token_start(src, pos)),
    decreases src.len() - pos,
{
    let at = blank_end(src, pos);
    lemma_run_end(src, pos, |c: char| is_blank(c));
    if starts_comment(src, at) {
        lemma_run_end(src, at + 2, |c: char| c != '\n');
        lemma_token_start(src, line_end(src, at + 2));
    }
}

/// A token that starts inside the source ends after its start and within the
/// source; only at the end of the source does the scanner stay where it is.
pub proof fn lemma_token_at_advances(src: Seq<char>, start: int)
    requires
        0 <= start <= src.len(),
    ensures
        start <= token_at(src, start).next <= src.len(),
        start < src.len() <==> start < token_at(src, start).next,
        start < src.len() <==> token_at(src, start).token.kind != TokenKind::EndOfInput,
{
    if start < src.len() {
        lemma_run_end(src, start + 1, |c: char| c != '"');
        lemma_run_end(src, start, |c: char| is_digit(c));
        lemma_run_end(src, digits_end(src, start) + 1, |c: char| is_digit(c));
        lemma_run_end(src, start, |c: char| is_alpha_numeric(c));
    }
}

/// Every call for the next token leaves the scanner within the source and
/// never moves it back; any token but `EndOfInput` moves it forward.
pub proof fn lemma_lex_advances(src: Seq<char>, pos: int)
    ensures
        0 <= pos <= src.len() ==> pos <= lex_at(src, pos).next <= src.len(),
        lex_at(src, pos).token.kind != TokenKind::EndOfInput ==> 0 <= pos < lex_at(src, pos).next
            <= src.len(),
{
    if 0 <= pos <= src.len() {
        lemma_token_start(src, pos);
        lemma_token_at_advances(src, token_start(src, pos));
    }
}

} // verus!
