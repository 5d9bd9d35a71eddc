//! The token model.
use vstd::prelude::*;
use crate::span::Span;

verus! {

#[derive(Clone, Copy, Debug, PartialEq, Eq, Structural)]
pub enum Keyword {
    Not,
    And,
    Nand,
    Or,
    Nor,
    Xor,
    Nxor,
    Rol,
    Ror,
    Shl,
    Shr,
    Add,
    Sub,
    SetWord,
    Mov,
    Lod,
    Sto,
    Pc,
    Lab,
    Lih,
    Nop,
    Hlt,
}

#[derive(Clone, Copy, Debug, PartialEq, Eq, Structural)]
pub enum Base {
    Binary,
    Decimal,
    Hex,
}

#[derive(Clone, Copy, Debug, PartialEq, Eq, Structural)]
pub enum Register {
    A,
    B,
    C,
}

#[derive(Clone, Copy, Debug, PartialEq, Eq, Structural)]
pub enum TokenKind {
    /// `# ...` up to the end of the line.
    LineComment,
    /// A name that is neither a keyword nor a register.
    Identifier,
    Keyword(Keyword),
    /// A number; `prefix_len` characters of base prefix precede its digits.
    Numeric { base: Base, prefix_len: usize },
    /// `'X'`; `terminated` tells whether the closing quote was there.
    Character { terminated: bool },
    Register(Register),
    NewLine,
    /// `:`
    Colon,
    /// `=`
    Eq,
    /// `|`
    Or,
    /// `!`
    Bang,
    /// `>`
    Greater,
    /// `<`
    Less,
    /// `(`
    OpenParen,
    /// `)`
    CloseParen,
    /// `[`
    OpenBracket,
    /// `]`
    CloseBracket,
    /// `&`
    Ampersand,
    /// `+`
    Plus,
    /// `-`
    Minus,
    /// `*`
    Star,
    /// `/`
    Slash,
    Unknown,
    Eof,
}

#[derive(Clone, Copy, Debug, PartialEq, Eq, Structural)]
pub struct Token {
    pub kind: TokenKind,
    pub span: Span,
}

impl Token {
    pub fn new(span: Span, kind: TokenKind) -> (r: Token)
        ensures
            r.span == span,
            r.kind == kind,
    {
        Token { kind, span }
    }

    /// Number of characters the token covers.
    pub fn len(&self) -> (r: usize)
        ensures
            r == (if self.span.end >= self.span.start { self.span.end - self.span.start } else { 0 }),
    {
        self.span.len()
    }
}

} // verus!
