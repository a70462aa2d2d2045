//! The scanner: it drives a cursor over the source and produces tokens.

use crate::chars::{is_alpha_numeric, is_blank, is_digit, is_letter};
use crate::cursor::Cursor;
use crate::grammar::{
    blank_end, digits_end, lemma_run_end, lemma_token_at_advances, lemma_token_start, lex_at,
    line_at, line_end, number_at, operator_kinds, punctuation_kind, quote_at, scan_stop,
    string_at, token_at, token_start, tokens_from, word_at, word_end,
};
use crate::token::{lookup_keyword, token_views, Token, TokenKind, TokenView};
use vstd::prelude::*;

verus! {

/// The kind of a token that one character makes, whatever follows it.
fn punctuation(c: char) -> (kind: Option<TokenKind>)
    ensures
        kind == punctuation_kind(c),
{
    match c {
        '(' => Some(TokenKind::LParen),
        ')' => Some(TokenKind::RParen),
        '{' => Some(TokenKind::LBrace),
        '}' => Some(TokenKind::RBrace),
        '[' => Some(TokenKind::LBracket),
        ']' => Some(TokenKind::RBracket),
        ',' => Some(TokenKind::Comma),
        '.' => Some(TokenKind::Dot),
        ':' => Some(TokenKind::Colon),
        ';' => Some(TokenKind::Semicolon),
        '+' => Some(TokenKind::Plus),
        '-' => Some(TokenKind::Minus),
        '*' => Some(TokenKind::Star),
        '/' => Some(TokenKind::Slash),
        _ => None,
    }
}

/// For a character that may be followed by `=`: the kind that it makes alone,
/// and the kind that it makes together with the `=`.
fn operator(c: char) -> (kinds: Option<(TokenKind, TokenKind)>)
    ensures
        kinds == operator_kinds(c),
{
    match c {
        '=' => Some((TokenKind::Assign, TokenKind::EqEq)),
        '!' => Some((TokenKind::Bang, TokenKind::BangEq)),
        '<' => Some((TokenKind::Less, TokenKind::LessEq)),
        '>' => Some((TokenKind::Greater, TokenKind::GreaterEq)),
        _ => None,
    }
}

/// A scanner over one source text. It is made once, drained, and discarded.
pub struct Lexer {
    cursor: Cursor,
}

impl Lexer {
    /// The source text.
    pub closed spec fn source(&self) -> Seq<char> {
        self.cursor.source()
    }

    /// How much of the source has been read.
    pub closed spec fn position(&self) -> int {
        self.cursor.position()
    }

    /// The scanner's own bookkeeping is consistent.
    pub closed spec fn inv(&self) -> bool {
        self.cursor.wf()
    }

    /// A well-formed scanner: its position is within its source.
    pub open spec fn wf(&self) -> bool {
        &&& self.inv()
        &&& 0 <= self.position() <= self.source().len()
    }

    /// A scanner at the start of `input`.
    pub fn new(input: String) -> (lexer: Lexer)
        ensures
            lexer.wf(),
            lexer.source() == input@,
            lexer.position() == 0,
    {
        Lexer { cursor: Cursor::new(input.as_str()) }
    }

    /// Whether all of the source has been read.
    pub fn is_at_end(&self) -> (at_end: bool)
        requires
            self.wf(),
        ensures
            at_end == (self.position() == self.source().len()),
    {
        self.cursor.is_at_end()
    }

    /// Drains the scanner: token after token, up to and including the first
    /// `EndOfInput`. An `Illegal` token aborts the scan at once: it is the last
    /// token delivered, and no `EndOfInput` follows it.
    pub fn scan(&mut self) -> (tokens: Vec<Token>)
        requires
            old(self).wf(),
        ensures
            final(self).wf(),
            final(self).source() == old(self).source(),
            final(self).position() == scan_stop(old(self).source(), old(self).position()),
            token_views(tokens@) == tokens_from(old(self).source(), old(self).position()),
            tokens@.len() >= 1,
            tokens@.last().kind.ends_scan(),
            forall|i: int| 0 <= i < tokens@.len() - 1 ==> !(#[trigger] tokens@[i]).kind.ends_scan(),
            (forall|i: int|
                0 <= i < tokens@.len() ==> (#[trigger] tokens@[i]).kind != TokenKind::Illegal)
                ==> tokens@.last().kind == TokenKind::EndOfInput,
            tokens@.last().kind == TokenKind::EndOfInput ==> final(self).position()
                == old(self).source().len(),
    {
        let ghost src = self.source();
        let ghost from = self.position();
        let mut tokens: Vec<Token> = Vec::new();
        loop
            invariant
                self.wf(),
                src == old(self).source(),
                from == old(self).position(),
                self.source() == src,
                scan_stop(src, self.position()) == scan_stop(src, from),
                token_views(tokens@) + tokens_from(src, self.position()) == tokens_from(src, from),
                forall|i: int| 0 <= i < tokens@.len() ==> !(#[trigger] tokens@[i]).kind.ends_scan(),
            decreases src.len() - self.position(),
        {
            let ghost before = self.position();
            let token = self.next_token();
            let done = token.kind.ends_scan();
            proof {
                lemma_token_start(src, before);
                lemma_token_at_advances(src, token_start(src, before));
            }
            tokens.push(token);
            if done {
                return tokens;
            }
        }
    }

    /// Reads the next token. White space and comments before it are skipped.
    /// At the end of the source the token is `EndOfInput`, at every call.
    pub fn next_token(&mut self) -> (token: Token)
        requires
            old(self).wf(),
        ensures
            final(self).wf(),
            final(self).source() == old(self).source(),
            token@ == lex_at(old(self).source(), old(self).position()).token,
            final(self).position() == lex_at(old(self).source(), old(self).position()).next,
    {
        let ghost src = self.source();
        let ghost from = self.position();
        loop
            invariant
                self.wf(),
                src == old(self).source(),
                from == old(self).position(),
                self.source() == src,
                token_start(src, self.position()) == token_start(src, from),
            decreases src.len() - self.position(),
        {
            proof {
                lemma_run_end(src, self.position(), |c: char| is_blank(c));
            }
            self.skip_white_space();
            self.cursor.mark_token_start();
            if self.cursor.is_at_end() {
                assert(src.subrange(self.position(), self.position()) == Seq::<char>::empty());
                return self.new_token(TokenKind::EndOfInput, None);
            }
            let c = self.cursor.advance();
            if c == '/' && self.cursor.peek() == '/' {
                proof {
                    lemma_run_end(src, self.position(), |c: char| c != '\n');
                }
                self.skip_line();
            } else {
                return self.handle_char(c);
            }
        }
    }

    /// Skips white space.
    fn skip_white_space(&mut self)
        requires
            old(self).wf(),
        ensures
            final(self).wf(),
            final(self).source() == old(self).source(),
            final(self).position() == blank_end(old(self).source(), old(self).position()),
    {
        while is_blank(self.cursor.peek())
            invariant
                self.wf(),
                self.source() == old(self).source(),
                blank_end(self.source(), self.position()) == blank_end(
                    old(self).source(),
                    old(self).position(),
                ),
            decreases self.source().len() - self.position(),
        {
            self.cursor.advance();
        }
    }

    /// Skips the rest of the line, up to its newline.
    fn skip_line(&mut self)
        requires
            old(self).wf(),
        ensures
            final(self).wf(),
            final(self).source() == old(self).source(),
            final(self).position() == line_end(old(self).source(), old(self).position()),
    {
        while !self.cursor.is_at_end() && self.cursor.peek() != '\n'
            invariant
                self.wf(),
                self.source() == old(self).source(),
                line_end(self.source(), self.position()) == line_end(
                    old(self).source(),
                    old(self).position(),
                ),
            decreases self.source().len() - self.position(),
        {
            self.cursor.advance();
        }
    }

    /// The token whose first character, `c`, has just been read.
    fn handle_char(&mut self, c: char) -> (token: Token)
        requires
            old(self).wf(),
            old(self).cursor.mark() + 1 == old(self).position(),
            c == old(self).source()[old(self).cursor.mark()],
        ensures
            final(self).wf(),
            final(self).source() == old(self).source(),
            token@ == token_at(old(self).source(), old(self).cursor.mark()).token,
            final(self).position() == token_at(old(self).source(), old(self).cursor.mark()).next,
    {
        if let Some(kind) = punctuation(c) {
            self.new_token(kind, None)
        } else if let Some((alone, with_eq)) = operator(c) {
            if self.cursor.peek() == '=' {
                self.cursor.advance();
                self.new_token(with_eq, None)
            } else {
                self.new_token(alone, None)
            }
        } else if c == '"' {
            self.handle_str()
        } else if is_digit(c) {
            self.handle_num()
        } else if is_letter(c) {
            self.handle_id()
        } else {
            self.new_token(TokenKind::Illegal, None)
        }
    }

    /// The word whose first character has just been read: a reserved word
    /// where the table holds all of it, an identifier where it does not.
    fn handle_id(&mut self) -> (token: Token)
        requires
            old(self).wf(),
            old(self).cursor.mark() + 1 == old(self).position(),
            is_letter(old(self).source()[old(self).cursor.mark()]),
        ensures
            final(self).wf(),
            final(self).source() == old(self).source(),
            token@ == word_at(old(self).source(), old(self).cursor.mark()).token,
            final(self).position() == word_at(old(self).source(), old(self).cursor.mark()).next,
    {
        while is_alpha_numeric(self.cursor.peek())
            invariant
                self.wf(),
                self.source() == old(self).source(),
                self.cursor.mark() == old(self).cursor.mark(),
                word_end(self.source(), self.position()) == word_end(
                    self.source(),
                    self.cursor.mark(),
                ),
            decreases self.source().len() - self.position(),
        {
            self.cursor.advance();
        }
        let word = self.cursor.lexeme();
        let kind = match lookup_keyword(word.as_slice()) {
            Some(reserved) => reserved,
            None => TokenKind::Identifier,
        };
        Token { kind, lexeme: word, literal: None, line: self.cursor.token_line() }
    }

    /// The string whose opening quote has just been read.
    fn handle_str(&mut self) -> (token: Token)
        requires
            old(self).wf(),
            old(self).cursor.mark() + 1 == old(self).position(),
        ensures
            final(self).wf(),
            final(self).source() == old(self).source(),
            token@ == string_at(old(self).source(), old(self).cursor.mark()).token,
            final(self).position() == string_at(old(self).source(), old(self).cursor.mark()).next,
    {
        while !self.cursor.is_at_end() && self.cursor.peek() != '"'
            invariant
                self.wf(),
                self.source() == old(self).source(),
                self.cursor.mark() == old(self).cursor.mark(),
                self.cursor.mark() < self.position(),
                quote_at(self.source(), self.position()) == quote_at(
                    self.source(),
                    self.cursor.mark() + 1,
                ),
            decreases self.source().len() - self.position(),
        {
            self.cursor.advance();
        }
        let open = self.cursor.token_offset();
        if self.cursor.is_at_end() {
            Token {
                kind: TokenKind::Illegal,
                lexeme: self.cursor.text(open, open + 1),
                literal: None,
                line: self.cursor.token_line(),
            }
        } else {
            let close = self.cursor.offset();
            self.cursor.advance();
            let body = self.cursor.text(open + 1, close);
            self.new_token(TokenKind::StringLiteral, Some(body))
        }
    }

    /// The number whose first digit has just been read.
    fn handle_num(&mut self) -> (token: Token)
        requires
            old(self).wf(),
            old(self).cursor.mark() + 1 == old(self).position(),
            is_digit(old(self).source()[old(self).cursor.mark()]),
        ensures
            final(self).wf(),
            final(self).source() == old(self).source(),
            token@ == number_at(old(self).source(), old(self).cursor.mark()).token,
            final(self).position() == number_at(old(self).source(), old(self).cursor.mark()).next,
    {
        self.skip_digits();
        let mut kind = TokenKind::IntLiteral;
        if self.cursor.peek() == '.' && is_digit(self.cursor.peek_next()) {
            self.cursor.advance();
            self.skip_digits();
            kind = TokenKind::FloatLiteral;
        }
        let text = self.cursor.lexeme();
        self.new_token(kind, Some(text))
    }

    /// Skips digits.
    fn skip_digits(&mut self)
        requires
            old(self).wf(),
        ensures
            final(self).wf(),
            final(self).source() == old(self).source(),
            final(self).cursor.mark() == old(self).cursor.mark(),
            final(self).position() == digits_end(old(self).source(), old(self).position()),
    {
        while is_digit(self.cursor.peek())
            invariant
                self.wf(),
                self.source() == old(self).source(),
                self.cursor.mark() == old(self).cursor.mark(),
                digits_end(self.source(), self.position()) == digits_end(
                    old(self).source(),
                    old(self).position(),
                ),
            decreases self.source().len() - self.position(),
        {
            self.cursor.advance();
        }
    }

    /// The token of the given kind that spans what has been read since the mark.
    fn new_token(&self, kind: TokenKind, literal: Option<Vec<char>>) -> (token: Token)
        requires
            self.wf(),
        ensures
            token@ == (TokenView {
                kind,
                lexeme: self.source().subrange(self.cursor.mark(), self.position()),
                literal: match literal {
                    Some(text) => Some(text@),
                    None => None,
                },
                line: line_at(self.source(), self.cursor.mark()),
            }),
    {
        Token { kind, lexeme: self.cursor.lexeme(), literal, line: self.cursor.token_line() }
    }
}

} // verus!
