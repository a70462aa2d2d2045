//! Tokens, their kinds, and the table of reserved words.

use vstd::prelude::*;

verus! {

/// The lexical category of a token.
#[derive(Clone, Copy, Debug, PartialEq, Eq, Hash, Structural)]
pub enum TokenKind {
    // Structure
    LParen,
    RParen,
    LBrace,
    RBrace,
    LBracket,
    RBracket,
    Comma,
    Dot,
    Colon,
    Semicolon,
    // Operators
    Plus,
    Minus,
    Star,
    Slash,
    Bang,
    BangEq,
    Assign,
    EqEq,
    Less,
    LessEq,
    Greater,
    GreaterEq,
    // Names and literals
    Identifier,
    StringLiteral,
    IntLiteral,
    FloatLiteral,
    // Reserved words
    Var,
    Const,
    Fn,
    Struct,
    If,
    Else,
    For,
    While,
    Return,
    This,
    True,
    False,
    And,
    Or,
    Nil,
    // Sentinels
    EndOfInput,
    Illegal,
}

impl TokenKind {
    /// The two sentinels: a full scan delivers nothing after either.
    pub open spec fn spec_ends_scan(self) -> bool {
        self == TokenKind::EndOfInput || self == TokenKind::Illegal
    }

    #[verifier::when_used_as_spec(spec_ends_scan)]
    pub fn ends_scan(self) -> (b: bool)
        ensures
            b == self.spec_ends_scan(),
    {
        self == TokenKind::EndOfInput || self == TokenKind::Illegal
    }

    /// The kinds whose tokens carry a payload: the three literals.
    pub open spec fn has_literal(self) -> bool {
        self == TokenKind::StringLiteral || self == TokenKind::IntLiteral || self
            == TokenKind::FloatLiteral
    }

    /// The reserved words.
    pub open spec fn is_keyword(self) -> bool {
        self == TokenKind::Var || self == TokenKind::Const || self == TokenKind::Fn || self
            == TokenKind::Struct || self == TokenKind::If || self == TokenKind::Else || self
            == TokenKind::For || self == TokenKind::While || self == TokenKind::Return || self
            == TokenKind::This || self == TokenKind::True || self == TokenKind::False || self
            == TokenKind::And || self == TokenKind::Or || self == TokenKind::Nil
    }
}

/// The mathematical model of a token, which the contracts speak of.
pub struct TokenView {
    pub kind: TokenKind,
    /// The characters of the source that the token was read from.
    pub lexeme: Seq<char>,
    /// The payload of a literal; `None` for every other kind.
    pub literal: Option<Seq<char>>,
    /// The line, counted from 1, on which the token starts.
    pub line: nat,
}

/// One token of the source.
#[derive(Clone, Debug, PartialEq, Eq)]
pub struct Token {
    pub kind: TokenKind,
    /// The characters of the source that the token was read from.
    pub lexeme: Vec<char>,
    /// The payload of a literal; `None` for every other kind.
    pub literal: Option<Vec<char>>,
    /// The line, counted from 1, on which the token starts.
    pub line: usize,
}

impl View for Token {
    type V = TokenView;

    open spec fn view(&self) -> TokenView {
        TokenView {
            kind: self.kind,
            lexeme: self.lexeme@,
            literal: match self.literal {
                Some(text) => Some(text@),
                None => None,
            },
            line: self.line as nat,
        }
    }
}

/// The models of a run of tokens, in order.
pub open spec fn token_views(tokens: Seq<Token>) -> Seq<TokenView> {
    tokens.map_values(|t: Token| t@)
}

/// The table of reserved words: the kind that a word maps to, if it is reserved.
/// The match is exact and case-sensitive.
pub open spec fn keyword_kind(word: Seq<char>) -> Option<TokenKind> {
    if word == "var"@ {
        Some(TokenKind::Var)
    } else if word == "const"@ {
        Some(TokenKind::Const)
    } else if word == "fn"@ {
        Some(TokenKind::Fn)
    } else if word == "struct"@ {
        Some(TokenKind::Struct)
    } else if word == "if"@ {
        Some(TokenKind::If)
    } else if word == "else"@ {
        Some(TokenKind::Else)
    } else if word == "for"@ {
        Some(TokenKind::For)
    } else if word == "while"@ {
        Some(TokenKind::While)
    } else if word == "return"@ {
        Some(TokenKind::Return)
    } else if word == "this"@ {
        Some(TokenKind::This)
    } else if word == "true"@ {
        Some(TokenKind::True)
    } else if word == "false"@ {
        Some(TokenKind::False)
    } else if word == "and"@ {
        Some(TokenKind::And)
    } else if word == "or"@ {
        Some(TokenKind::Or)
    } else if word == "nil"@ {
        Some(TokenKind::Nil)
    } else {
        None
    }
}

/// Whether `word` holds the characters of `spelling`, in order and nothing else.
pub fn spells(word: &[char], spelling: &str) -> (same: bool)
    ensures
        same == (word@ == spelling@),
{
    let mut i: usize = 0;
    for c in it: spelling.chars()
        invariant
            it.seq() == spelling@,
            i == it.index(),
            i <= word.len(),
            word@.take(i as int) == spelling@.take(i as int),
    {
        if i >= word.len() || word[i] != c {
            return false;
        }
        i = i + 1;
    }
    assert(spelling@ == spelling@.take(i as int));
    if i == word.len() {
        assert(word@ == word@.take(i as int));
        true
    } else {
        false
    }
}

/// Looks a word up in the table of reserved words.
pub fn lookup_keyword(word: &[char]) -> (kind: Option<TokenKind>)
    ensures
        kind == keyword_kind(word@),
{
    if spells(word, "var") {
        Some(TokenKind::Var)
    } else if spells(word, "const") {
        Some(TokenKind::Const)
    } else if spells(word, "fn") {
        Some(TokenKind::Fn)
    } else if spells(word, "struct") {
        Some(TokenKind::Struct)
    } else if spells(word, "if") {
        Some(TokenKind::If)
    } else if spells(word, "else") {
        Some(TokenKind::Else)
    } else if spells(word, "for") {
        Some(TokenKind::For)
    } else if spells(word, "while") {
        Some(TokenKind::While)
    } else if spells(word, "return") {
        Some(TokenKind::Return)
    } else if spells(word, "this") {
        Some(TokenKind::This)
    } else if spells(word, "true") {
        Some(TokenKind::True)
    } else if spells(word, "false") {
        Some(TokenKind::False)
    } else if spells(word, "and") {
        Some(TokenKind::And)
    } else if spells(word, "or") {
        Some(TokenKind::Or)
    } else if spells(word, "nil") {
        Some(TokenKind::Nil)
    } else {
        None
    }
}

} // verus!
