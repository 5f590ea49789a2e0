//! Tokens, the parser's input alphabet.

use vstd::prelude::*;
use crate::span::Span;

verus! {

/// The closed set of token kinds.
#[derive(Clone, Copy, Debug, PartialEq, Eq, Structural, Hash)]
pub enum TokenKind {
    Ident,
    Struct,
    Fn,
    Let,
    LParen,
    RParen,
    LBrace,
    RBrace,
    LBracket,
    RBracket,
    Colon,
    Comma,
    Semicolon,
    Arrow,
    Assign,
    PathSeparator,
    Dot,
    Plus,
    Minus,
    Star,
    Slash,
    Caret,
    Not,
    Equals,
    NotEquals,
    Less,
    Greater,
    LessEq,
    GreaterEq,
    DecLit,
    HexLit,
    OctLit,
    BinLit,
    FloatLit,
    RawStr,
    Eof,
    Error,
}

impl TokenKind {
    /// Kinds that never stand for a concrete token: the end of the stream
    /// and a lexical error.
    pub open spec fn is_terminal(self) -> bool {
        self == TokenKind::Eof || self == TokenKind::Error
    }
}

/// A token: its kind, the exact source text it was read from, and where.
#[derive(Debug, PartialEq, Eq)]
pub struct Token {
    pub kind: TokenKind,
    pub lit: String,
    pub span: Span,
}

/// The mathematical value of a token.
pub struct TokenView {
    pub kind: TokenKind,
    pub lit: Seq<char>,
    pub span: Span,
}

impl View for Token {
    type V = TokenView;

    open spec fn view(&self) -> TokenView {
        TokenView { kind: self.kind, lit: self.lit@, span: self.span }
    }
}

impl Clone for Token {
    fn clone(&self) -> (t: Token)
        ensures
            t == *self,
    {
        Token { kind: self.kind, lit: self.lit.clone(), span: self.span }
    }
}

impl Token {
    /// A token of the given kind, text and span.
    pub fn new(kind: TokenKind, lit: &str, span: Span) -> (t: Token)
        ensures
            t@ == (TokenView { kind, lit: lit@, span }),
    {
        Token { kind, lit: lit.to_owned(), span }
    }
}

} // verus!
