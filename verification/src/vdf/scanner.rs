//! The VDF lexer.
//!
//! A [`Scanner`] walks a byte slice and hands out one token per call of
//! [`Scanner::next_token`]: ASCII whitespace is skipped silently, `{` and `}`
//! are single-byte tokens, and `"` opens a string literal that runs to the
//! next unescaped `"` (a backslash always skips the byte after it). String
//! lexemes keep their surrounding quotes; consumers strip exactly one byte on
//! each side. Any other byte is an error.

use vstd::prelude::*;

verus! {

/// A VDF token kind.
#[derive(Debug, Clone, Copy, PartialEq, Eq, Structural)]
pub enum TokenType {
    /// Left brace (`{`).
    BraceLeft,
    /// Right brace (`}`).
    BraceRight,
    /// A quote-delimited string literal.
    StringLiteral,
}

/// A VDF token: its kind and the slice of the source it was read from.
#[derive(Debug, Clone, Copy, PartialEq, Eq)]
pub struct Token<'a> {
    /// The token kind.
    pub kind: TokenType,
    /// The bytes of the token, quotes included for string literals.
    pub lexeme: &'a [u8],
}

/// The mathematical value of a [`Token`]: its kind and lexeme bytes.
pub struct SpecToken {
    /// The token kind.
    pub kind: TokenType,
    /// The lexeme bytes.
    pub lexeme: Seq<u8>,
}

impl View for Token<'_> {
    type V = SpecToken;

    open spec fn view(&self) -> SpecToken {
        SpecToken { kind: self.kind, lexeme: self.lexeme@ }
    }
}

/// A lexing error.
#[derive(Debug, Clone, Copy, PartialEq, Eq, Structural)]
pub enum Error {
    /// A byte that no token can start with, outside a string literal.
    UnexpectedToken(u8),
    /// The input ended inside a string literal.
    UnterminatedString,
}

/// Whether `c` is ASCII whitespace (space, tab, line feed, form feed,
/// carriage return).
pub open spec fn is_ws(c: u8) -> bool {
    c == 32 || c == 9 || c == 10 || c == 12 || c == 13
}

/// The first position at or after `i` that holds a non-whitespace byte, or
/// the end of `src`.
pub open spec fn skip_ws(src: Seq<u8>, i: int) -> int
    decreases src.len() - i,
{
    if i < 0 || i >= src.len() {
        i
    } else if is_ws(src[i]) {
        skip_ws(src, i + 1)
    } else {
        i
    }
}

/// Scanning a string literal whose opening quote sits just before `i`: the
/// position one past the closing quote, or `None` when the input ends first.
/// A backslash at `i` escapes the byte after it, so both are skipped.
pub open spec fn string_end(src: Seq<u8>, i: int) -> Option<int>
    decreases src.len() + 2 - i,
{
    if i < 0 {
        None
    } else if i >= src.len() {
        None
    } else if src[i] == 34 {
        Some(i + 1)
    } else if src[i] == 92 {
        string_end(src, i + 2)
    } else {
        string_end(src, i + 1)
    }
}

/// What one scanning step from position `i` of `src` produces.
pub enum ScanStep {
    /// Nothing but whitespace remains.
    End,
    /// A token of `kind` whose lexeme is `src[lo..hi]`; scanning resumes at
    /// `hi`.
    Tok { kind: TokenType, lo: int, hi: int },
    /// A lexing error; scanning resumes at `next`.
    Fail { error: Error, next: int },
}

/// One scanning step from position `i`: skip whitespace, then read a brace, a
/// string literal, or fail on any other byte.
pub open spec fn scan_step(src: Seq<u8>, i: int) -> ScanStep {
    let j = skip_ws(src, i);
    if j >= src.len() {
        ScanStep::End
    } else if src[j] == 123 {
        ScanStep::Tok { kind: TokenType::BraceLeft, lo: j, hi: j + 1 }
    } else if src[j] == 125 {
        ScanStep::Tok { kind: TokenType::BraceRight, lo: j, hi: j + 1 }
    } else if src[j] == 34 {
        match string_end(src, j + 1) {
            Some(k) => ScanStep::Tok { kind: TokenType::StringLiteral, lo: j, hi: k },
            None => ScanStep::Fail { error: Error::UnterminatedString, next: src.len() as int },
        }
    } else {
        ScanStep::Fail { error: Error::UnexpectedToken(src[j]), next: j + 1 }
    }
}

/// The scanner state: a source slice and the bounds of the current lexeme.
#[derive(Debug, Clone, Copy)]
pub struct Scanner<'a> {
    /// The source being scanned.
    pub source: &'a [u8],
    /// The start of the current lexeme.
    pub start: usize,
    /// The current position of the scanner.
    pub current: usize,
}

impl<'a> Scanner<'a> {
    /// Creates a scanner at the start of `source`.
    pub fn new(source: &'a [u8]) -> (s: Scanner<'a>)
        ensures
            s.source == source,
            s.start == 0,
            s.current == 0,
    {
        Scanner { source, start: 0, current: 0 }
    }

    /// Whether the scanner has exhausted its source.
    pub fn is_finished(&self) -> (r: bool)
        ensures
            r == (self.current >= self.source@.len()),
    {
        self.current >= self.source.len()
    }

    /// The token of `kind` spanning the current lexeme.
    fn token(&self, kind: TokenType) -> (t: Token<'a>)
        requires
            self.start <= self.current <= self.source@.len(),
        ensures
            t.kind == kind,
            t.lexeme@ == self.source@.subrange(self.start as int, self.current as int),
    {
        Token { kind, lexeme: vstd::slice::slice_subrange(self.source, self.start, self.current) }
    }

    /// The position just past the first non-whitespace byte run starting at
    /// `from`.
    fn skip_whitespace(source: &[u8], from: usize) -> (r: usize)
        ensures
            r == skip_ws(source@, from as int),
            from <= r,
            r <= source@.len() || r == from,
    {
        let len = source.len();
        let mut cur = from;
        loop
            invariant
                from <= cur,
                len == source@.len(),
                cur <= len || cur == from,
                skip_ws(source@, from as int) == skip_ws(source@, cur as int),
            decreases len - cur,
        {
            if cur >= len {
                return cur;
            }
            let c = source[cur];
            if c == 32 || c == 9 || c == 10 || c == 12 || c == 13 {
                cur = cur + 1;
            } else {
                return cur;
            }
        }
    }

    /// Scans the rest of a string literal whose opening quote sits just
    /// before `from`; returns the position one past the closing quote.
    fn scan_string_tail(source: &[u8], from: usize) -> (r: Result<usize, Error>)
        requires
            from <= source@.len(),
        ensures
            match string_end(source@, from as int) {
                Some(k) => r == Ok::<usize, Error>(k as usize) && from < k <= source@.len(),
                None => r == Err::<usize, Error>(Error::UnterminatedString),
            },
    {
        let len = source.len();
        let mut cur = from;
        loop
            invariant
                from <= cur <= len,
                len == source@.len(),
                string_end(source@, from as int) == string_end(source@, cur as int),
            decreases len - cur,
        {
            if cur >= len {
                return Err(Error::UnterminatedString);
            }
            let c = source[cur];
            if c == 34 {
                return Ok(cur + 1);
            }
            if c == 92 {
                // An escape covers two bytes; when the escaped byte is
                // missing the literal is unterminated.
                if cur + 1 < len {
                    cur = cur + 2;
                } else {
                    proof {
                        assert(string_end(source@, cur as int) == string_end(source@, cur + 2));
                        assert(string_end(source@, cur + 2) is None);
                        assert(string_end(source@, len as int) is None);
                    }
                    cur = len;
                }
            } else {
                cur = cur + 1;
            }
        }
    }

    /// Hands out the next token, or `None` at the end of the input.
    ///
    /// The result and the new scanner position follow [`scan_step`] applied
    /// at the old position.
    pub fn next_token(&mut self) -> (r: Option<Result<Token<'a>, Error>>)
        ensures
            final(self).source == old(self).source,
            final(self).start == skip_ws(old(self).source@, old(self).current as int),
            match scan_step(old(self).source@, old(self).current as int) {
                ScanStep::End => {
                    &&& r is None
                    &&& final(self).current == skip_ws(old(self).source@, old(self).current as int)
                },
                ScanStep::Tok { kind, lo, hi } => {
                    &&& final(self).current == hi
                    &&& r matches Some(Ok(t)) && t.kind == kind && t.lexeme@ == old(
                        self,
                    ).source@.subrange(lo, hi)
                    &&& old(self).current as int <= lo < hi <= old(self).source@.len()
                    &&& (kind == TokenType::StringLiteral ==> hi - lo >= 2)
                },
                ScanStep::Fail { error, next } => {
                    &&& final(self).current == next
                    &&& r == Some(Err::<Token<'a>, Error>(error))
                },
            },
    {
        let j = Self::skip_whitespace(self.source, self.current);
        self.start = j;
        self.current = j;
        if j >= self.source.len() {
            return None;
        }
        let c = self.source[j];
        if c == 123 {
            self.current = j + 1;
            return Some(Ok(self.token(TokenType::BraceLeft)));
        }
        if c == 125 {
            self.current = j + 1;
            return Some(Ok(self.token(TokenType::BraceRight)));
        }
        if c == 34 {
            match Self::scan_string_tail(self.source, j + 1) {
                Ok(k) => {
                    self.current = k;
                    return Some(Ok(self.token(TokenType::StringLiteral)));
                },
                Err(e) => {
                    self.current = self.source.len();
                    return Some(Err(e));
                },
            }
        }
        self.current = j + 1;
        Some(Err(Error::UnexpectedToken(c)))
    }
}

} // verus!
