//! What a parse can end with besides a tree.

use vstd::prelude::*;
use crate::ast::{LiteralKind, LiteralKindView};
use crate::token::{Token, TokenKind, TokenView};

verus! {

/// A parse error: the first point at which the input left the grammar.
#[derive(Debug, PartialEq, Eq)]
pub enum ParserError {
    /// A literal of another kind stood where an integer literal was needed.
    ExpectedIntegerLit(LiteralKind),
    /// The token received is not the one the production needed. The second
    /// field is the kind that was expected, where it is recorded.
    InvalidToken(Token, Option<TokenKind>),
    /// An array type was given a negative length.
    InvalidArraySize(i128),
    /// The token cannot start a literal.
    UnexpectedToken(Token),
}

/// The value of a [`ParserError`].
pub enum ParserErrorView {
    ExpectedIntegerLit(LiteralKindView),
    InvalidToken(TokenView, Option<TokenKind>),
    InvalidArraySize(i128),
    UnexpectedToken(TokenView),
}

impl View for ParserError {
    type V = ParserErrorView;

    open spec fn view(&self) -> ParserErrorView {
        match *self {
            ParserError::ExpectedIntegerLit(k) => ParserErrorView::ExpectedIntegerLit(k@),
            ParserError::InvalidToken(t, k) => ParserErrorView::InvalidToken(t@, k),
            ParserError::InvalidArraySize(n) => ParserErrorView::InvalidArraySize(n),
            ParserError::UnexpectedToken(t) => ParserErrorView::UnexpectedToken(t@),
        }
    }
}

impl From<Token> for ParserError {
    fn from(token: Token) -> (e: ParserError) {
        ParserError::InvalidToken(token, None)
    }
}

impl vstd::std_specs::convert::FromSpecImpl<Token> for ParserError {
    open spec fn obeys_from_spec() -> bool {
        true
    }

    open spec fn from_spec(token: Token) -> ParserError {
        ParserError::InvalidToken(token, None)
    }
}

impl ParserError {
    /// The error for a token that the production at hand cannot take.
    pub fn from_token(token: Token) -> (e: ParserError)
        ensures
            e@ == ParserErrorView::InvalidToken(token@, None),
    {
        ParserError::InvalidToken(token, None)
    }
}

/// Input that lies outside the supported grammar altogether. Such input is
/// not a parse error: the parser has no production that could report it.
#[derive(Clone, Copy, Debug, PartialEq, Eq, Structural, Hash)]
pub enum Unsupported {
    /// A statement that does not start with `let`.
    Statement,
    /// A token that cannot start an expression.
    Primary,
    /// `.` followed by something other than a bare identifier or a call.
    AccessTarget,
    /// The text of an integer literal is not a numeral that fits 128 bits.
    Numeral,
    /// The text of a string literal is shorter than its two delimiters.
    RawString,
    /// The interner cannot hold another string.
    SymbolLimit,
}

/// Why a production did not yield a node.
#[derive(Debug, PartialEq, Eq)]
pub enum Failure {
    Rejected(ParserError),
    Unsupported(Unsupported),
}

/// The value of a [`Failure`].
pub enum FailureView {
    Rejected(ParserErrorView),
    Unsupported(Unsupported),
}

impl View for Failure {
    type V = FailureView;

    open spec fn view(&self) -> FailureView {
        match *self {
            Failure::Rejected(e) => FailureView::Rejected(e@),
            Failure::Unsupported(u) => FailureView::Unsupported(u),
        }
    }
}

} // verus!
