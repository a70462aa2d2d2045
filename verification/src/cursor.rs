//! The cursor: the source text, a position in it, the start of the token that
//! is being read, and the line. It knows nothing of tokens.

use crate::grammar::{char_at, lemma_line_at_bound, line_at};
use vstd::prelude::*;

verus! {

/// A position in a source text.
pub struct Cursor {
    /// The characters of the source, followed by one NUL. The NUL is what a
    /// look-ahead at the end finds; and since it takes up a slot of the vector,
    /// the source is shorter than `usize::MAX`, so no line number overflows.
    chars: Vec<char>,
    /// Where the token that is being read starts.
    start: usize,
    /// The line of `start`.
    start_line: usize,
    /// The next character to be read.
    pos: usize,
    /// The line of `pos`.
    line: usize,
}

impl Cursor {
    /// The source text.
    pub closed spec fn source(&self) -> Seq<char> {
        self.chars@.drop_last()
    }

    /// How many characters have been read.
    pub closed spec fn position(&self) -> int {
        self.pos as int
    }

    /// Where the token that is being read starts.
    pub closed spec fn mark(&self) -> int {
        self.start as int
    }

    /// The cursor's own bookkeeping is consistent.
    pub closed spec fn inv(&self) -> bool {
        &&& self.chars.len() > 0
        &&& self.chars@.last() == '\0'
        &&& self.pos < self.chars.len()
        &&& self.line == line_at(self.source(), self.pos as int)
        &&& self.start_line == line_at(self.source(), self.start as int)
    }

    /// A well-formed cursor: the mark is not ahead of the position, and the
    /// position is within the source.
    pub open spec fn wf(&self) -> bool {
        &&& self.inv()
        &&& 0 <= self.mark() <= self.position() <= self.source().len() < usize::MAX
    }

    /// A cursor at the start of `input`, on line 1.
    pub fn new(input: &str) -> (cursor: Cursor)
        ensures
            cursor.wf(),
            cursor.source() == input@,
            cursor.position() == 0,
            cursor.mark() == 0,
    {
        let mut chars: Vec<char> = Vec::new();
        for c in it: input.chars()
            invariant
                it.seq() == input@,
                chars@ == it.seq().take(it.index()),
        {
            chars.push(c);
        }
        chars.push('\0');
        assert(chars.len() == input@.len() + 1);
        Cursor { chars, start: 0, start_line: 1, pos: 0, line: 1 }
    }

    /// Whether all of the source has been read.
    pub fn is_at_end(&self) -> (at_end: bool)
        requires
            self.wf(),
        ensures
            at_end == (self.position() == self.source().len()),
    {
        self.pos + 1 == self.chars.len()
    }

    /// The next character, without reading it; NUL at the end of the source.
    pub fn peek(&self) -> (c: char)
        requires
            self.wf(),
        ensures
            c == char_at(self.source(), self.position()),
    {
        self.chars[self.pos]
    }

    /// The character after the next one, without reading either; NUL where
    /// the source has none.
    pub fn peek_next(&self) -> (c: char)
        requires
            self.wf(),
        ensures
            c == char_at(self.source(), self.position() + 1),
    {
        if self.pos + 1 < self.chars.len() {
            self.chars[self.pos + 1]
        } else {
            '\0'
        }
    }

    /// Reads the next character. A newline that is read starts a new line.
    pub fn advance(&mut self) -> (c: char)
        requires
            old(self).wf(),
            old(self).position() < old(self).source().len(),
        ensures
            final(self).wf(),
            final(self).source() == old(self).source(),
            final(self).mark() == old(self).mark(),
            final(self).position() == old(self).position() + 1,
            c == old(self).source()[old(self).position()],
    {
        let c = self.chars[self.pos];
        proof {
            lemma_line_at_bound(self.source(), self.pos as int);
        }
        if c == '\n' {
            self.line = self.line + 1;
        }
        self.pos = self.pos + 1;
        c
    }

    /// Starts the next token at the current position.
    pub fn mark_token_start(&mut self)
        requires
            old(self).wf(),
        ensures
            final(self).wf(),
            final(self).source() == old(self).source(),
            final(self).position() == old(self).position(),
            final(self).mark() == old(self).position(),
    {
        self.start = self.pos;
        self.start_line = self.line;
    }

    /// The line, counted from 1, of the current position.
    pub fn line(&self) -> (line: usize)
        requires
            self.wf(),
        ensures
            line == line_at(self.source(), self.position()),
    {
        self.line
    }

    /// The line, counted from 1, on which the marked token starts.
    pub fn token_line(&self) -> (line: usize)
        requires
            self.wf(),
        ensures
            line == line_at(self.source(), self.mark()),
    {
        self.start_line
    }

    /// How many characters have been read.
    pub fn offset(&self) -> (offset: usize)
        requires
            self.wf(),
        ensures
            offset == self.position(),
    {
        self.pos
    }

    /// Where the marked token starts.
    pub fn token_offset(&self) -> (offset: usize)
        requires
            self.wf(),
        ensures
            offset == self.mark(),
    {
        self.start
    }

    /// A copy of the source from `from` up to `to`.
    pub fn text(&self, from: usize, to: usize) -> (text: Vec<char>)
        requires
            self.wf(),
            from <= to <= self.source().len(),
        ensures
            text@ == self.source().subrange(from as int, to as int),
    {
        let mut text: Vec<char> = Vec::new();
        let mut i: usize = from;
        while i < to
            invariant
                self.wf(),
                from <= i <= to <= self.source().len(),
                text@ == self.source().subrange(from as int, i as int),
            decreases to - i,
        {
            text.push(self.chars[i]);
            i = i + 1;
        }
        text
    }

    /// The lexeme so far: the source from the mark up to the position.
    pub fn lexeme(&self) -> (text: Vec<char>)
        requires
            self.wf(),
        ensures
            text@ == self.source().subrange(self.mark(), self.position()),
    {
        self.text(self.start, self.pos)
    }
}

} // verus!
