//! What holds of every source text: the laws of the grammar, each proved.

use crate::chars::{is_alpha_numeric, is_blank, is_digit, is_letter};
use crate::grammar::{
    char_at, digits_end, lemma_lex_advances, lemma_run_end, lemma_token_at_advances,
    lemma_token_start, lex_at, line_at, line_end, newlines_before, operator_kinds, quote_at,
    scan_stop, starts_comment, token_start, tokens_from, word_end,
};
use crate::lexer::Lexer;
use crate::token::{keyword_kind, TokenKind};
use vstd::prelude::*;

verus! {

/// A full scan always ends, and it ends with a sentinel: it delivers at least
/// one token, the last one is `EndOfInput` or `Illegal`, and no token before
/// the last is either. So a scan without an `Illegal` token ends with
/// `EndOfInput`, and then all of the source has been read.
pub proof fn law_scan_ends_with_sentinel(src: Seq<char>, pos: int)
    requires
        0 <= pos <= src.len(),
    ensures
        tokens_from(src, pos).len() >= 1,
        tokens_from(src, pos).last().kind.ends_scan(),
        forall|i: int|
            0 <= i < tokens_from(src, pos).len() - 1 ==> !(#[trigger] tokens_from(
                src,
                pos,
            )[i]).kind.ends_scan(),
        (forall|i: int|
            0 <= i < tokens_from(src, pos).len() ==> (#[trigger] tokens_from(src, pos)[i]).kind
                != TokenKind::Illegal) ==> tokens_from(src, pos).last().kind
            == TokenKind::EndOfInput,
        tokens_from(src, pos).last().kind == TokenKind::EndOfInput ==> scan_stop(src, pos)
            == src.len(),
        pos <= scan_stop(src, pos) <= src.len(),
    decreases src.len() - pos,
{
    let step = lex_at(src, pos);
    lemma_lex_advances(src, pos);
    if !step.token.kind.ends_scan() {
        law_scan_ends_with_sentinel(src, step.next);
        let rest = tokens_from(src, step.next);
        let all = tokens_from(src, pos);
        if forall|i: int| 0 <= i < all.len() ==> (#[trigger] all[i]).kind != TokenKind::Illegal {
            assert forall|i: int| 0 <= i < rest.len() implies (#[trigger] rest[i]).kind
                != TokenKind::Illegal by {
                assert(all[i + 1] == rest[i]);
            }
        }
    }
}

/// The end of the source is a state that the scanner stays in: once a call
/// has delivered `EndOfInput`, every later call delivers the same token and
/// leaves the scanner where it is.
pub proof fn law_end_of_input_is_terminal(src: Seq<char>, pos: int)
    requires
        0 <= pos <= src.len(),
        lex_at(src, pos).token.kind == TokenKind::EndOfInput,
    ensures
        lex_at(src, pos).next == src.len(),
        lex_at(src, lex_at(src, pos).next) == lex_at(src, pos),
{
    lemma_token_start(src, pos);
}

/// Scanning has no hidden state: two scanners at the same position in the
/// same text deliver the same next token and the same full scan. So two fresh
/// scanners over one text deliver one and the same sequence of tokens.
pub proof fn law_same_source_same_tokens(a: Lexer, b: Lexer)
    requires
        a.wf(),
        b.wf(),
        a.source() == b.source(),
        a.position() == b.position(),
    ensures
        lex_at(a.source(), a.position()) == lex_at(b.source(), b.position()),
        tokens_from(a.source(), a.position()) == tokens_from(b.source(), b.position()),
        scan_stop(a.source(), a.position()) == scan_stop(b.source(), b.position()),
{
}

/// The longer operator wins: where a token starts with `=`, `!`, `<` or `>`
/// and a `=` follows directly, the token is the two-character operator.
pub proof fn law_operator_takes_equals(src: Seq<char>, pos: int)
    requires
        0 <= pos <= src.len(),
        operator_kinds(char_at(src, token_start(src, pos))) is Some,
        char_at(src, token_start(src, pos) + 1) == '=',
    ensures
        operator_kinds(src[token_start(src, pos)]) matches Some((_, with_eq)) && lex_at(
            src,
            pos,
        ).token.kind == with_eq,
        lex_at(src, pos).token.lexeme == src.subrange(
            token_start(src, pos),
            token_start(src, pos) + 2,
        ),
        lex_at(src, pos).next == token_start(src, pos) + 2,
{
}

/// No operator is cut short: a token `=`, `!`, `<` or `>` is never directly
/// followed by `=`, and a token `/` never by `/`. So `==` is never two
/// `Assign` tokens, `<=` is never `Less` and `Assign`, and a comment is never
/// a token.
pub proof fn law_operator_is_maximal(src: Seq<char>, pos: int)
    requires
        0 <= pos <= src.len(),
    ensures
        ({
            let kind = lex_at(src, pos).token.kind;
            kind == TokenKind::Assign || kind == TokenKind::Bang || kind == TokenKind::Less || kind
                == TokenKind::Greater
        }) ==> char_at(src, lex_at(src, pos).next) != '=',
        lex_at(src, pos).token.kind == TokenKind::Slash ==> char_at(src, lex_at(src, pos).next)
            != '/',
{
    lemma_token_start(src, pos);
}

/// A token's lexeme is what was read for it, and its line is the line that
/// it starts on. For every kind but the sentinels the lexeme is the source
/// from the token's start to the scanner's position afterwards. `Illegal`
/// holds the one character that the token starts with, and the scanner is
/// left just after that character, or at the end of the source where the
/// character opened a string that is never closed. `EndOfInput` holds
/// nothing, and the scanner does not move.
pub proof fn law_lexeme_is_what_was_read(src: Seq<char>, pos: int)
    requires
        0 <= pos <= src.len(),
    ensures
        ({
            let start = token_start(src, pos);
            let step = lex_at(src, pos);
            &&& pos <= start <= step.next <= src.len()
            &&& step.token.line == line_at(src, start)
            &&& step.token.kind == TokenKind::EndOfInput ==> {
                &&& start == src.len()
                &&& step.next == start
                &&& step.token.lexeme == Seq::<char>::empty()
            }
            &&& step.token.kind == TokenKind::Illegal ==> {
                &&& start < src.len()
                &&& step.token.lexeme == seq![src[start]]
                &&& if src[start] == '"' {
                    step.next == src.len()
                } else {
                    step.next == start + 1
                }
            }
            &&& !step.token.kind.ends_scan() ==> {
                &&& start < step.next
                &&& step.token.lexeme == src.subrange(start, step.next)
            }
        }),
{
    let start = token_start(src, pos);
    lemma_token_start(src, pos);
    lemma_token_at_advances(src, start);
    if start < src.len() {
        assert(src.subrange(start, start + 1) == seq![src[start]]);
    }
}

/// Only literals carry a payload. That of a number is its lexeme. That of a
/// string is the text between its two quotes, which holds no quote.
pub proof fn law_literal_only_for_literals(src: Seq<char>, pos: int)
    requires
        0 <= pos <= src.len(),
    ensures
        ({
            let token = lex_at(src, pos).token;
            &&& token.literal is Some <==> token.kind.has_literal()
            &&& (token.kind == TokenKind::IntLiteral || token.kind == TokenKind::FloatLiteral)
                ==> token.literal == Some(token.lexeme)
            &&& token.kind == TokenKind::StringLiteral ==> {
                &&& token.literal is Some
                &&& token.lexeme == seq!['"'] + token.literal->0 + seq!['"']
                &&& !token.literal->0.contains('"')
            }
        }),
{
    let start = token_start(src, pos);
    lemma_token_start(src, pos);
    let token = lex_at(src, pos).token;
    if token.kind == TokenKind::StringLiteral {
        let close = quote_at(src, start + 1);
        lemma_run_end(src, start + 1, |c: char| c != '"');
        let body = src.subrange(start + 1, close);
        assert forall|i: int| 0 <= i < body.len() implies body[i] != '"' by {
            assert(body[i] == src[start + 1 + i]);
        }
    }
}

/// The table of reserved words holds reserved words only: no word maps to
/// an identifier, a literal, an operator or a sentinel.
pub proof fn law_table_holds_reserved_words_only(word: Seq<char>)
    ensures
        keyword_kind(word) matches Some(kind) ==> kind.is_keyword(),
{
}

/// A word is read whole before the table of reserved words is consulted:
/// the token starts with a letter or underscore, holds word characters only,
/// and no word character follows it. It is a reserved word exactly where the
/// table holds its whole lexeme. So `forest` is one identifier, not `for`
/// and a remainder.
pub proof fn law_word_is_read_whole(src: Seq<char>, pos: int)
    requires
        0 <= pos <= src.len(),
    ensures
        ({
            let step = lex_at(src, pos);
            let token = step.token;
            &&& is_letter(char_at(src, token_start(src, pos))) <==> (token.kind.is_keyword()
                || token.kind == TokenKind::Identifier)
            &&& (token.kind.is_keyword() || token.kind == TokenKind::Identifier) ==> {
                &&& token.lexeme.len() >= 1
                &&& is_letter(token.lexeme[0])
                &&& forall|i: int|
                    0 <= i < token.lexeme.len() ==> is_alpha_numeric(#[trigger] token.lexeme[i])
                &&& !is_alpha_numeric(char_at(src, step.next))
                &&& token.kind.is_keyword() ==> keyword_kind(token.lexeme) == Some(token.kind)
                &&& token.kind == TokenKind::Identifier ==> keyword_kind(token.lexeme) is None
            }
        }),
{
    let start = token_start(src, pos);
    lemma_token_start(src, pos);
    lemma_run_end(src, start, |c: char| is_alpha_numeric(c));
    if start < src.len() && is_letter(src[start]) {
        let word = src.subrange(start, word_end(src, start));
        assert forall|i: int| 0 <= i < word.len() implies is_alpha_numeric(#[trigger] word[i]) by {
            assert(word[i] == src[start + i]);
        }
    }
}

/// A number is read whole: it starts with a digit and no digit follows it.
/// An integer is digits only, and what follows it is no fraction: no dot
/// followed by a digit. A number with a fraction is digits, one dot, and
/// digits again, at least one on either side. So `1.` is an integer and a dot.
pub proof fn law_number_is_read_whole(src: Seq<char>, pos: int)
    requires
        0 <= pos <= src.len(),
    ensures
        ({
            let step = lex_at(src, pos);
            let token = step.token;
            &&& is_digit(char_at(src, token_start(src, pos))) <==> (token.kind
                == TokenKind::IntLiteral || token.kind == TokenKind::FloatLiteral)
            &&& (token.kind == TokenKind::IntLiteral || token.kind == TokenKind::FloatLiteral)
                ==> !is_digit(char_at(src, step.next))
            &&& token.kind == TokenKind::IntLiteral ==> {
                &&& token.lexeme.len() >= 1
                &&& forall|i: int|
                    0 <= i < token.lexeme.len() ==> is_digit(#[trigger] token.lexeme[i])
                &&& !(char_at(src, step.next) == '.' && is_digit(char_at(src, step.next + 1)))
            }
            &&& token.kind == TokenKind::FloatLiteral ==> exists|dot: int|
                {
                    &&& 0 < dot < token.lexeme.len() - 1
                    &&& #[trigger] token.lexeme[dot] == '.'
                    &&& forall|i: int|
                        0 <= i < token.lexeme.len() && i != dot ==> is_digit(
                            #[trigger] token.lexeme[i],
                        )
                }
        }),
{
    let start = token_start(src, pos);
    lemma_token_start(src, pos);
    let token = lex_at(src, pos).token;
    if start < src.len() && is_digit(src[start]) {
        let whole = digits_end(src, start);
        lemma_run_end(src, start, |c: char| is_digit(c));
        lemma_run_end(src, whole + 1, |c: char| is_digit(c));
        if token.kind == TokenKind::IntLiteral {
            assert forall|i: int| 0 <= i < token.lexeme.len() implies is_digit(
                #[trigger] token.lexeme[i],
            ) by {
                assert(token.lexeme[i] == src[start + i]);
            }
        } else {
            let dot = whole - start;
            assert(token.lexeme[dot] == src[whole]);
            assert forall|i: int| 0 <= i < token.lexeme.len() && i != dot implies is_digit(
                #[trigger] token.lexeme[i],
            ) by {
                assert(token.lexeme[i] == src[start + i]);
            }
        }
    }
}

/// White space and comments yield no token. The next token at a blank is
/// the next token after it, and the next token at a comment is the next
/// token at the end of the comment's line.
pub proof fn law_blanks_and_comments_yield_no_token(src: Seq<char>, pos: int)
    requires
        0 <= pos <= src.len(),
    ensures
        is_blank(char_at(src, pos)) ==> lex_at(src, pos) == lex_at(src, pos + 1),
        starts_comment(src, pos) ==> lex_at(src, pos) == lex_at(src, line_end(src, pos)),
        starts_comment(src, pos) ==> pos + 2 <= line_end(src, pos) <= src.len(),
        line_end(src, pos) < src.len() ==> src[line_end(src, pos)] == '\n',
{
    lemma_run_end(src, pos, |c: char| c != '\n');
    if starts_comment(src, pos) {
        lemma_run_end(src, pos + 2, |c: char| c != '\n');
    }
}

/// A string that is never closed is no string: where a token starts with a
/// double quote and no other quote follows, the token is `Illegal`, on the
/// line of that quote and with that quote as its lexeme. It uses up the rest
/// of the source, so the next call delivers `EndOfInput`, and a full scan
/// delivers the `Illegal` token and nothing more.
pub proof fn law_unclosed_string_is_illegal(src: Seq<char>, pos: int)
    requires
        0 <= pos <= src.len(),
        char_at(src, token_start(src, pos)) == '"',
        forall|i: int| token_start(src, pos) < i < src.len() ==> src[i] != '"',
    ensures
        lex_at(src, pos).token.kind == TokenKind::Illegal,
        lex_at(src, pos).token.lexeme == seq!['"'],
        lex_at(src, pos).token.literal is None,
        lex_at(src, pos).token.line == line_at(src, token_start(src, pos)),
        lex_at(src, pos).next == src.len(),
        lex_at(src, src.len() as int).token.kind == TokenKind::EndOfInput,
        tokens_from(src, pos) == seq![lex_at(src, pos).token],
{
    let start = token_start(src, pos);
    lemma_run_end(src, start + 1, |c: char| c != '"');
}

/// Lines are counted from 1, one more for every newline read, inside a
/// string too; so from token to token the line never decreases.
pub proof fn law_lines_never_decrease(src: Seq<char>, pos: int)
    requires
        0 <= pos <= src.len(),
    ensures
        lex_at(src, pos).token.line == 1 + newlines_before(src, token_start(src, pos)),
        1 <= lex_at(src, pos).token.line <= lex_at(src, lex_at(src, pos).next).token.line,
{
    let start = token_start(src, pos);
    let next = lex_at(src, pos).next;
    lemma_token_start(src, pos);
    lemma_token_at_advances(src, start);
    lemma_token_start(src, next);
    lemma_newlines_grow(src, start, token_start(src, next));
}

/// The count of newlines before a position grows with the position.
proof fn lemma_newlines_grow(src: Seq<char>, a: int, b: int)
    requires
        a <= b,
    ensures
        newlines_before(src, a) <= newlines_before(src, b),
    decreases b - a,
{
    if a < b {
        lemma_newlines_grow(src, a, b - 1);
    }
}

} // verus!
