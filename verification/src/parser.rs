//! The parser: a cursor over the tokens, and one function for each
//! production of the grammar.
//!
//! Every function states that it yields what [`crate::grammar`] says of the
//! tokens at the cursor it started from, and that it leaves the cursor where
//! the grammar says.

use vstd::prelude::*;
use vstd::string::StrSliceExecFns;
use crate::ast::{
    expr_view, exprs_view, lemma_exprs_view_push, lemma_views_push, views, BinaryOp, Decls, Expression,
    ExpressionKind, FieldDecl, FnDecl, Ident, Literal, LiteralKind, ParameterDecl, Path,
    PathSegment, StatementDecl, StructDecl, Type, TypeKind, UnaryOp, VarDecl,
};
use crate::error::{Failure, FailureView, ParserError, ParserErrorView, Unsupported};
use crate::grammar;
use crate::grammar::Cursor;
use crate::interner::Interner;
use crate::laws::law_struct_has_fields;
use crate::numeral::parse_integer;
use crate::span::Span;
use crate::token::{Token, TokenKind};

verus! {

/// A cursor over a token sequence, with the interner that identifiers and
/// string contents go to.
pub struct Parser {
    tokens: Vec<Token>,
    pos: usize,
    interner: Interner,
}

/// The value of what a production returned.
pub open spec fn result_view<T: View>(r: Result<T, Failure>) -> Result<T::V, FailureView> {
    match r {
        Ok(v) => Ok(v@),
        Err(f) => Err(f@),
    }
}

/// The values of the nodes that a list production returned.
pub open spec fn list_view<T: View>(r: Result<Vec<T>, Failure>) -> Result<Seq<T::V>, FailureView> {
    match r {
        Ok(v) => Ok(views(v@)),
        Err(f) => Err(f@),
    }
}

/// The values of the expressions that a list production returned.
pub open spec fn exprs_result_view(r: Result<Vec<Expression>, Failure>) -> Result<
    Seq<crate::ast::ExpressionView>,
    FailureView,
> {
    match r {
        Ok(v) => Ok(exprs_view(v@)),
        Err(f) => Err(f@),
    }
}

/// What looking at the next token gave, against what the grammar says.
pub open spec fn peeked(r: Result<Token, Failure>, p: Result<crate::token::TokenView, ParserErrorView>) -> bool {
    match r {
        Ok(t) => p == Ok::<crate::token::TokenView, ParserErrorView>(t@),
        Err(f) => p is Err && f@ == FailureView::Rejected(p->Err_0),
    }
}

impl Parser {
    /// The tokens that the parser reads.
    pub closed spec fn tokens(&self) -> Seq<Token> {
        self.tokens@
    }

    /// How far the parser has come, and the strings interned so far.
    pub closed spec fn cursor(&self) -> Cursor {
        Cursor { pos: self.pos as nat, names: self.interner.names() }
    }

    /// The position lies within the tokens or just past them, and the
    /// interner is well formed.
    pub closed spec fn wf(&self) -> bool {
        &&& self.pos <= self.tokens.len()
        &&& self.interner.wf()
    }

    /// This parser is `before` with the cursor moved on to `to`.
    pub open spec fn moved(&self, before: Parser, to: Cursor) -> bool {
        &&& self.wf()
        &&& self.tokens() == before.tokens()
        &&& self.cursor() == to
        &&& before.cursor().pos <= to.pos <= self.tokens().len()
    }

    /// A parser at the start of `tokens`. Past the last token the stream
    /// yields its end.
    pub fn new(tokens: Vec<Token>, interner: Interner) -> (p: Parser)
        requires
            interner.wf(),
        ensures
            p.wf(),
            p.tokens() == tokens@,
            p.cursor() == (Cursor { pos: 0, names: interner.names() }),
    {
        Parser { tokens, pos: 0, interner }
    }

    /// Gives the interner back.
    pub fn into_interner(self) -> (i: Interner)
        requires
            self.wf(),
        ensures
            i.wf(),
            i.names() == self.cursor().names,
    {
        self.interner
    }

    /// The number of tokens consumed.
    pub fn position(&self) -> (n: usize)
        ensures
            n == self.cursor().pos,
    {
        self.pos
    }

    /// The token at the cursor; past the last token, the end of the stream.
    fn current(&self) -> (t: Token)
        requires
            self.wf(),
        ensures
            t@ == grammar::token_at(self.tokens(), self.cursor().pos),
    {
        if self.pos < self.tokens.len() {
            self.tokens[self.pos].clone()
        } else {
            let at = if self.tokens.len() == 0 {
                0
            } else {
                self.tokens[self.tokens.len() - 1].span.end
            };
            Token { kind: TokenKind::Eof, lit: String::new(), span: Span::at(at) }
        }
    }

    /// Looks at the next token without consuming it.
    pub fn peek(&self) -> (r: Result<Token, Failure>)
        requires
            self.wf(),
        ensures
            peeked(r, grammar::peek(self.tokens(), self.cursor())),
    {
        let t = self.current();
        match t.kind {
            TokenKind::Eof | TokenKind::Error => Err(Failure::Rejected(ParserError::from_token(t))),
            _ => Ok(t),
        }
    }

    /// Consumes the next token.
    pub fn next(&mut self) -> (r: Result<Token, Failure>)
        requires
            old(self).wf(),
        ensures
            final(self).moved(*old(self), grammar::next(old(self).tokens(), old(self).cursor()).next),
            result_view(r) == grammar::next(old(self).tokens(), old(self).cursor()).out,
            r is Ok ==> final(self).cursor().pos == old(self).cursor().pos + 1,
    {
        let t = self.current();
        match t.kind {
            TokenKind::Eof | TokenKind::Error => Err(Failure::Rejected(ParserError::from_token(t))),
            _ => {
                self.pos = self.pos + 1;
                Ok(t)
            },
        }
    }

    /// Consumes the next token, which must be of the given kind.
    pub fn eat(&mut self, expected: TokenKind) -> (r: Result<Token, Failure>)
        requires
            old(self).wf(),
        ensures
            final(self).moved(
                *old(self),
                grammar::eat(old(self).tokens(), old(self).cursor(), expected).next,
            ),
            result_view(r) == grammar::eat(old(self).tokens(), old(self).cursor(), expected).out,
            r is Ok ==> final(self).cursor().pos == old(self).cursor().pos + 1,
    {
        let t = self.next()?;
        if t.kind == expected {
            Ok(t)
        } else {
            Err(Failure::Rejected(ParserError::from_token(t)))
        }
    }

    /// Consumes the next token, which must be of one of the given kinds.
    #[verifier::loop_isolation(false)]
    pub fn eat_one_of(&mut self, expecteds: &[TokenKind]) -> (r: Result<Token, Failure>)
        requires
            old(self).wf(),
        ensures
            final(self).moved(
                *old(self),
                grammar::eat_one_of(old(self).tokens(), old(self).cursor(), expecteds@).next,
            ),
            result_view(r) == grammar::eat_one_of(
                old(self).tokens(),
                old(self).cursor(),
                expecteds@,
            ).out,
    {
        let t = self.next()?;
        let mut i: usize = 0;
        while i < expecteds.len()
            invariant
                0 <= i <= expecteds.len(),
                forall|j: int| 0 <= j < i ==> expecteds@[j] != t.kind,
            decreases expecteds.len() - i,
        {
            if t.kind == expecteds[i] {
                return Ok(t);
            }
            i += 1;
        }
        Err(Failure::Rejected(ParserError::from_token(t)))
    }

    /// Consumes the next token if it is of the given kind, and leaves it
    /// where it is if it is of another.
    pub fn eat_optional(&mut self, expected: TokenKind) -> (r: Result<Option<Token>, Failure>)
        requires
            old(self).wf(),
        ensures
            final(self).moved(
                *old(self),
                grammar::eat_optional(old(self).tokens(), old(self).cursor(), expected).next,
            ),
            match r {
                Ok(Some(t)) => grammar::eat_optional(
                    old(self).tokens(),
                    old(self).cursor(),
                    expected,
                ).out == Ok::<Option<crate::token::TokenView>, FailureView>(Some(t@)),
                Ok(None) => grammar::eat_optional(
                    old(self).tokens(),
                    old(self).cursor(),
                    expected,
                ).out == Ok::<Option<crate::token::TokenView>, FailureView>(None),
                Err(f) => grammar::eat_optional(
                    old(self).tokens(),
                    old(self).cursor(),
                    expected,
                ).out == Err::<Option<crate::token::TokenView>, FailureView>(f@),
            },
    {
        let t = self.peek()?;
        if t.kind == expected {
            let taken = self.next()?;
            Ok(Some(taken))
        } else {
            Ok(None)
        }
    }

    /// Interns a string.
    fn intern(&mut self, text: &str) -> (r: Result<crate::interner::Symbol, Failure>)
        requires
            old(self).wf(),
        ensures
            final(self).moved(*old(self), grammar::intern(text@, old(self).cursor()).next),
            result_view(r) == grammar::intern(text@, old(self).cursor()).out,
    {
        match self.interner.intern(text) {
            Some(id) => Ok(id),
            None => Err(Failure::Unsupported(Unsupported::SymbolLimit)),
        }
    }

    /// Parses an identifier.
    pub fn parse_ident(&mut self) -> (r: Result<Ident, Failure>)
        requires
            old(self).wf(),
        ensures
            final(self).moved(*old(self), grammar::ident(old(self).tokens(), old(self).cursor()).next),
            result_view(r) == grammar::ident(old(self).tokens(), old(self).cursor()).out,
            r is Ok ==> final(self).cursor().pos == old(self).cursor().pos + 1,
    {
        let t = self.eat(TokenKind::Ident)?;
        let id = self.intern(t.lit.as_str())?;
        Ok(Ident { id, span: t.span })
    }

    /// Parses one segment of a path.
    pub fn parse_path_segment(&mut self) -> (r: Result<PathSegment, Failure>)
        requires
            old(self).wf(),
        ensures
            final(self).moved(
                *old(self),
                grammar::path_segment(old(self).tokens(), old(self).cursor()).next,
            ),
            result_view(r) == grammar::path_segment(old(self).tokens(), old(self).cursor()).out,
            r is Ok ==> final(self).cursor().pos == old(self).cursor().pos + 1,
    {
        let ident = self.parse_ident()?;
        Ok(PathSegment { ident })
    }

    /// Parses a path: one or more segments, each with or without a path
    /// separator before it.
    #[verifier::loop_isolation(false)]
    pub fn parse_path(&mut self) -> (r: Result<Path, Failure>)
        requires
            old(self).wf(),
        ensures
            final(self).moved(*old(self), grammar::path(old(self).tokens(), old(self).cursor()).next),
            result_view(r) == grammar::path(old(self).tokens(), old(self).cursor()).out,
            r is Ok ==> old(self).cursor().pos < final(self).cursor().pos,
            r is Ok ==> r->Ok_0.segments@.len() >= 1,
    {
        let ghost ts = self.tokens();
        let ghost start = self.cursor();
        let t = self.peek()?;
        if t.kind == TokenKind::PathSeparator {
            self.eat(TokenKind::PathSeparator)?;
        }
        let first = self.parse_path_segment()?;
        let mut segments: Vec<PathSegment> = Vec::new();
        segments.push(first);
        assert(segments@ =~= seq![first]);
        loop
            invariant
                self.wf(),
                self.tokens() == ts,
                start.pos < self.cursor().pos <= ts.len(),
                segments@.len() >= 1,
                grammar::path(ts, start) == grammar::path_rest(ts, self.cursor(), segments@),
            decreases ts.len() - self.cursor().pos,
        {
            let t = self.peek()?;
            if t.kind == TokenKind::PathSeparator {
                self.eat(TokenKind::PathSeparator)?;
            } else if t.kind != TokenKind::Ident {
                let span = Span::new(
                    segments[0].ident.span.start,
                    segments[segments.len() - 1].ident.span.end,
                );
                return Ok(Path { segments, span });
            }
            let segment = self.parse_path_segment()?;
            segments.push(segment);
        }
    }

    /// Parses a string literal's token: the text between the delimiters is
    /// interned.
    fn raw_string(&mut self, token: &Token) -> (r: Result<Literal, Failure>)
        requires
            old(self).wf(),
        ensures
            final(self).moved(*old(self), grammar::raw_string(token@, old(self).cursor()).next),
            result_view(r) == grammar::raw_string(token@, old(self).cursor()).out,
            final(self).cursor().pos == old(self).cursor().pos,
    {
        let text = token.lit.as_str();
        let n = text.unicode_len();
        if n < 2 {
            return Err(Failure::Unsupported(Unsupported::RawString));
        }
        let inner = text.substring_char(1, n - 1);
        let id = self.intern(inner)?;
        Ok(Literal { kind: LiteralKind::RawStr(id), span: token.span })
    }

    /// Parses a literal.
    pub fn parse_literal(&mut self) -> (r: Result<Literal, Failure>)
        requires
            old(self).wf(),
        ensures
            final(self).moved(
                *old(self),
                grammar::literal(old(self).tokens(), old(self).cursor()).next,
            ),
            result_view(r) == grammar::literal(old(self).tokens(), old(self).cursor()).out,
            r is Ok ==> old(self).cursor().pos < final(self).cursor().pos,
        decreases old(self).tokens().len() - old(self).cursor().pos, 2int,
    {
        let t = self.peek()?;
        match t.kind {
            TokenKind::DecLit => {
                let token = self.eat(TokenKind::DecLit)?;
                numeral(&token, 10, 0)
            },
            TokenKind::HexLit => {
                let token = self.eat(TokenKind::HexLit)?;
                numeral(&token, 16, 2)
            },
            TokenKind::OctLit => {
                let token = self.eat(TokenKind::OctLit)?;
                numeral(&token, 8, 2)
            },
            TokenKind::BinLit => {
                let token = self.eat(TokenKind::BinLit)?;
                numeral(&token, 2, 2)
            },
            TokenKind::FloatLit => {
                let token = self.eat(TokenKind::FloatLit)?;
                let span = token.span;
                Ok(Literal { kind: LiteralKind::Float(token.lit), span })
            },
            TokenKind::RawStr => {
                let token = self.eat(TokenKind::RawStr)?;
                self.raw_string(&token)
            },
            TokenKind::LBracket => self.parse_array_literal(),
            TokenKind::Ident => {
                let ident = self.parse_ident()?;
                Ok(Literal { kind: LiteralKind::Ident(ident), span: ident.span })
            },
            _ => Err(Failure::Rejected(ParserError::UnexpectedToken(t))),
        }
    }

    /// Parses an array literal: expressions in brackets.
    pub fn parse_array_literal(&mut self) -> (r: Result<Literal, Failure>)
        requires
            old(self).wf(),
        ensures
            final(self).moved(
                *old(self),
                grammar::array_literal(old(self).tokens(), old(self).cursor()).next,
            ),
            result_view(r) == grammar::array_literal(old(self).tokens(), old(self).cursor()).out,
            r is Ok ==> old(self).cursor().pos < final(self).cursor().pos,
        decreases old(self).tokens().len() - old(self).cursor().pos, 1int,
    {
        let open = self.eat(TokenKind::LBracket)?;
        let items = self.parse_expr_list(TokenKind::RBracket)?;
        let close = self.eat(TokenKind::RBracket)?;
        Ok(
            Literal {
                kind: LiteralKind::Array(items),
                span: Span::new(open.span.start, close.span.end),
            },
        )
    }

    /// Parses the integer literal that an array length is given by.
    pub fn parse_integer_literal(&mut self) -> (r: Result<i128, Failure>)
        requires
            old(self).wf(),
        ensures
            final(self).moved(
                *old(self),
                grammar::integer(old(self).tokens(), old(self).cursor()).next,
            ),
            result_view(r) == grammar::integer(old(self).tokens(), old(self).cursor()).out,
            r is Ok ==> old(self).cursor().pos < final(self).cursor().pos,
    {
        let lit = self.parse_literal()?;
        match lit.kind {
            LiteralKind::Int(v) => Ok(v),
            other => Err(Failure::Rejected(ParserError::ExpectedIntegerLit(other))),
        }
    }

    /// Passes what stands between two elements of a list: a comma, unless
    /// the closing token follows.
    fn separator(&mut self, closing: TokenKind) -> (r: Result<(), Failure>)
        requires
            old(self).wf(),
        ensures
            final(self).moved(
                *old(self),
                grammar::separator(old(self).tokens(), old(self).cursor(), closing).next,
            ),
            result_view(r) == grammar::separator(
                old(self).tokens(),
                old(self).cursor(),
                closing,
            ).out,
    {
        let t = self.peek()?;
        if t.kind != closing {
            self.eat(TokenKind::Comma)?;
        }
        Ok(())
    }

    /// Parses the expressions of a list up to the closing token, which is
    /// left in place.
    #[verifier::loop_isolation(false)]
    pub fn parse_expr_list(&mut self, closing: TokenKind) -> (r: Result<Vec<Expression>, Failure>)
        requires
            old(self).wf(),
        ensures
            final(self).moved(
                *old(self),
                grammar::expr_list(
                    old(self).tokens(),
                    old(self).cursor(),
                    closing,
                    Seq::empty(),
                ).next,
            ),
            exprs_result_view(r) == grammar::expr_list(
                old(self).tokens(),
                old(self).cursor(),
                closing,
                Seq::empty(),
            ).out,
        decreases old(self).tokens().len() - old(self).cursor().pos, 6int,
    {
        let ghost ts = self.tokens();
        let ghost start = self.cursor();
        let mut exprs: Vec<Expression> = Vec::new();
        proof {
            lemma_exprs_view_push(exprs@, arbitrary());
            assert(exprs@ =~= Seq::<Expression>::empty());
        }
        loop
            invariant
                self.wf(),
                self.tokens() == ts,
                start.pos <= self.cursor().pos <= ts.len(),
                grammar::expr_list(ts, start, closing, Seq::empty()) == grammar::expr_list(
                    ts,
                    self.cursor(),
                    closing,
                    exprs_view(exprs@),
                ),
            decreases ts.len() - self.cursor().pos,
        {
            let t = self.peek()?;
            if t.kind == closing {
                return Ok(exprs);
            }
            let item = self.parse_expression()?;
            proof {
                lemma_exprs_view_push(exprs@, item);
            }
            exprs.push(item);
            self.separator(closing)?;
        }
    }

    /// Parses an expression.
    pub fn parse_expression(&mut self) -> (r: Result<Expression, Failure>)
        requires
            old(self).wf(),
        ensures
            final(self).moved(
                *old(self),
                grammar::expression(old(self).tokens(), old(self).cursor()).next,
            ),
            result_view(r) == grammar::expression(old(self).tokens(), old(self).cursor()).out,
            r is Ok ==> old(self).cursor().pos < final(self).cursor().pos,
        decreases old(self).tokens().len() - old(self).cursor().pos, 5int,
    {
        let first = self.parse_primary()?;
        self.parse_inner_expression(first, 0)
    }

    /// Parses a primary expression.
    pub fn parse_primary(&mut self) -> (r: Result<Expression, Failure>)
        requires
            old(self).wf(),
        ensures
            final(self).moved(
                *old(self),
                grammar::primary(old(self).tokens(), old(self).cursor()).next,
            ),
            result_view(r) == grammar::primary(old(self).tokens(), old(self).cursor()).out,
            r is Ok ==> old(self).cursor().pos < final(self).cursor().pos,
        decreases old(self).tokens().len() - old(self).cursor().pos, 4int,
    {
        proof {
            reveal_with_fuel(expr_view, 2);
        }
        let t = self.peek()?;
        match t.kind {
            TokenKind::Ident => {
                let ident = self.parse_ident()?;
                let after = self.peek()?;
                if after.kind == TokenKind::LParen {
                    self.eat(TokenKind::LParen)?;
                    let args = self.parse_expr_list(TokenKind::RParen)?;
                    let close = self.eat(TokenKind::RParen)?;
                    let mut segments: Vec<PathSegment> = Vec::new();
                    segments.push(PathSegment { ident });
                    assert(segments@ =~= seq![PathSegment { ident }]);
                    Ok(
                        Expression {
                            kind: ExpressionKind::FnCall(Path { segments, span: ident.span }, args),
                            span: Span::new(ident.span.start, close.span.end),
                        },
                    )
                } else {
                    Ok(
                        Expression {
                            kind: ExpressionKind::Literal(
                                Literal { kind: LiteralKind::Ident(ident), span: ident.span },
                            ),
                            span: ident.span,
                        },
                    )
                }
            },
            TokenKind::LBracket
            | TokenKind::DecLit
            | TokenKind::HexLit
            | TokenKind::OctLit
            | TokenKind::BinLit
            | TokenKind::FloatLit
            | TokenKind::RawStr => {
                let lit = self.parse_literal()?;
                let span = lit.span;
                Ok(Expression { kind: ExpressionKind::Literal(lit), span })
            },
            TokenKind::Minus | TokenKind::Not => {
                let token = self.next()?;
                let op = match UnaryOp::from_kind(token.kind) {
                    Some(op) => op,
                    None => {
                        return Err(Failure::Unsupported(Unsupported::Primary));
                    },
                };
                let operand = self.parse_expression()?;
                let span = Span::new(token.span.start, operand.span.end);
                Ok(Expression { kind: ExpressionKind::Unary(op, Box::new(operand)), span })
            },
            TokenKind::LParen => {
                self.next()?;
                let inner = self.parse_expression()?;
                self.eat(TokenKind::RParen)?;
                Ok(inner)
            },
            _ => Err(Failure::Unsupported(Unsupported::Primary)),
        }
    }

    /// Folds the binary operators after `lhs` that bind at least as tightly
    /// as `min_prec` into it, from the left.
    #[verifier::loop_isolation(false)]
    pub fn parse_inner_expression(&mut self, lhs: Expression, min_prec: u8) -> (r: Result<
        Expression,
        Failure,
    >)
        requires
            old(self).wf(),
        ensures
            final(self).moved(
                *old(self),
                grammar::climb(old(self).tokens(), old(self).cursor(), lhs@, min_prec as int).next,
            ),
            result_view(r) == grammar::climb(
                old(self).tokens(),
                old(self).cursor(),
                lhs@,
                min_prec as int,
            ).out,
            r is Ok && grammar::operator_at(old(self).tokens(), old(self).cursor(), min_prec as int)
                is Some ==> old(self).cursor().pos < final(self).cursor().pos,
        decreases old(self).tokens().len() - old(self).cursor().pos, 0int,
    {
        let ghost ts = self.tokens();
        let ghost start = self.cursor();
        let ghost first = lhs@;
        let mut lhs = lhs;
        loop
            invariant
                self.wf(),
                self.tokens() == ts,
                start.pos <= self.cursor().pos <= ts.len(),
                grammar::climb(ts, start, first, min_prec as int) == grammar::climb(
                    ts,
                    self.cursor(),
                    lhs@,
                    min_prec as int,
                ),
                self.cursor().pos == start.pos ==> self.cursor() == start,
            decreases ts.len() - self.cursor().pos,
        {
            let t = self.peek()?;
            let op = match BinaryOp::from_kind(t.kind) {
                Some(op) => op,
                None => {
                    return Ok(lhs);
                },
            };
            if op.precedence() < min_prec {
                return Ok(lhs);
            }
            self.next()?;
            let operand = self.parse_primary()?;
            let rhs = self.fold_tighter(operand, op.precedence())?;
            lhs = combine(lhs, op, rhs)?;
        }
    }

    /// Folds the operators after `rhs` that bind tighter than `binding`
    /// into it.
    #[verifier::loop_isolation(false)]
    fn fold_tighter(&mut self, rhs: Expression, binding: u8) -> (r: Result<Expression, Failure>)
        requires
            old(self).wf(),
        ensures
            final(self).moved(
                *old(self),
                grammar::climb_tighter(
                    old(self).tokens(),
                    old(self).cursor(),
                    rhs@,
                    binding as int,
                ).next,
            ),
            result_view(r) == grammar::climb_tighter(
                old(self).tokens(),
                old(self).cursor(),
                rhs@,
                binding as int,
            ).out,
        decreases old(self).tokens().len() - old(self).cursor().pos, 1int,
    {
        let ghost ts = self.tokens();
        let ghost start = self.cursor();
        let ghost first = rhs@;
        let mut rhs = rhs;
        loop
            invariant
                self.wf(),
                self.tokens() == ts,
                start.pos <= self.cursor().pos <= ts.len(),
                grammar::climb_tighter(ts, start, first, binding as int) == grammar::climb_tighter(
                    ts,
                    self.cursor(),
                    rhs@,
                    binding as int,
                ),
            decreases ts.len() - self.cursor().pos,
        {
            let t = self.peek()?;
            let op = match BinaryOp::from_kind(t.kind) {
                Some(op) => op,
                None => {
                    return Ok(rhs);
                },
            };
            if op.precedence() <= binding {
                return Ok(rhs);
            }
            rhs = self.parse_inner_expression(rhs, op.precedence())?;
        }
    }

    /// Parses a type.
    pub fn parse_type(&mut self) -> (r: Result<Type, Failure>)
        requires
            old(self).wf(),
        ensures
            final(self).moved(*old(self), grammar::ty(old(self).tokens(), old(self).cursor()).next),
            result_view(r) == grammar::ty(old(self).tokens(), old(self).cursor()).out,
            r is Ok ==> old(self).cursor().pos < final(self).cursor().pos,
        decreases old(self).tokens().len() - old(self).cursor().pos, 1int,
    {
        let t = self.peek()?;
        match t.kind {
            TokenKind::Ident | TokenKind::PathSeparator => {
                let path = self.parse_path()?;
                let span = Span::new(t.span.start, path.span.end);
                Ok(Type { kind: TypeKind::Path(path), span })
            },
            TokenKind::LBracket => self.parse_array_ty(),
            _ => Err(Failure::Rejected(ParserError::from_token(t))),
        }
    }

    /// Parses an array type: `[`, the element type, `;`, the length, `]`.
    pub fn parse_array_ty(&mut self) -> (r: Result<Type, Failure>)
        requires
            old(self).wf(),
        ensures
            final(self).moved(
                *old(self),
                grammar::array_type(old(self).tokens(), old(self).cursor()).next,
            ),
            result_view(r) == grammar::array_type(old(self).tokens(), old(self).cursor()).out,
            r is Ok ==> old(self).cursor().pos < final(self).cursor().pos,
        decreases old(self).tokens().len() - old(self).cursor().pos, 0int,
    {
        let open = self.eat(TokenKind::LBracket)?;
        let element = self.parse_type()?;
        self.eat(TokenKind::Semicolon)?;
        let len = self.parse_integer_literal()?;
        if len < 0 {
            return Err(Failure::Rejected(ParserError::InvalidArraySize(len)));
        }
        let close = self.eat(TokenKind::RBracket)?;
        Ok(
            Type {
                kind: TypeKind::Array(Box::new(element), #[verifier::truncate] (len as usize)),
                span: Span::new(open.span.start, close.span.end),
            },
        )
    }

    /// Parses a type annotation that may be left out: the `intro` token and
    /// a type, or nothing.
    fn annotation(&mut self, intro: TokenKind) -> (r: Result<Option<Type>, Failure>)
        requires
            old(self).wf(),
        ensures
            final(self).moved(
                *old(self),
                grammar::annotation(old(self).tokens(), old(self).cursor(), intro).next,
            ),
            match r {
                Ok(t) => grammar::annotation(old(self).tokens(), old(self).cursor(), intro).out
                    == Ok::<Option<crate::ast::TypeView>, FailureView>(crate::ast::opt_type_view(t)),
                Err(f) => grammar::annotation(old(self).tokens(), old(self).cursor(), intro).out
                    == Err::<Option<crate::ast::TypeView>, FailureView>(f@),
            },
    {
        let t = self.peek()?;
        if t.kind == intro {
            self.eat(intro)?;
            let annotated = self.parse_type()?;
            Ok(Some(annotated))
        } else {
            Ok(None)
        }
    }

    /// Parses `name : type`.
    fn typed_name(&mut self) -> (r: Result<(Ident, Type), Failure>)
        requires
            old(self).wf(),
        ensures
            final(self).moved(
                *old(self),
                grammar::typed_name(old(self).tokens(), old(self).cursor()).next,
            ),
            result_view(r) == grammar::typed_name(old(self).tokens(), old(self).cursor()).out,
            r is Ok ==> old(self).cursor().pos < final(self).cursor().pos,
    {
        let ident = self.parse_ident()?;
        self.eat(TokenKind::Colon)?;
        let ty = self.parse_type()?;
        Ok((ident, ty))
    }

    /// Parses a parameter of a function.
    pub fn parse_named_parameter(&mut self) -> (r: Result<ParameterDecl, Failure>)
        requires
            old(self).wf(),
        ensures
            final(self).moved(
                *old(self),
                grammar::named_parameter(old(self).tokens(), old(self).cursor()).next,
            ),
            result_view(r) == grammar::named_parameter(old(self).tokens(), old(self).cursor()).out,
            r is Ok ==> old(self).cursor().pos < final(self).cursor().pos,
    {
        let (ident, ty) = self.typed_name()?;
        let span = Span::new(ident.span.start, ty.span.end);
        Ok(ParameterDecl { ident, ty, span })
    }

    /// Parses the fields of a struct, up to the closing brace.
    #[verifier::loop_isolation(false)]
    pub fn parse_fields(&mut self) -> (r: Result<Vec<FieldDecl>, Failure>)
        requires
            old(self).wf(),
        ensures
            final(self).moved(
                *old(self),
                grammar::fields(old(self).tokens(), old(self).cursor(), Seq::empty()).next,
            ),
            list_view(r) == grammar::fields(old(self).tokens(), old(self).cursor(), Seq::empty()).out,
    {
        let ghost ts = self.tokens();
        let ghost start = self.cursor();
        let mut fields: Vec<FieldDecl> = Vec::new();
        proof {
            lemma_views_push(fields@, arbitrary());
            assert(fields@ =~= Seq::<FieldDecl>::empty());
        }
        loop
            invariant
                self.wf(),
                self.tokens() == ts,
                start.pos <= self.cursor().pos <= ts.len(),
                grammar::fields(ts, start, Seq::empty()) == grammar::fields(
                    ts,
                    self.cursor(),
                    views(fields@),
                ),
            decreases ts.len() - self.cursor().pos,
        {
            let t = self.peek()?;
            match t.kind {
                TokenKind::Ident => {
                    let (ident, field_type) = self.typed_name()?;
                    self.separator(TokenKind::RBrace)?;
                    let span = Span::new(ident.span.start, field_type.span.end);
                    let field = FieldDecl { ident, field_type, span };
                    proof {
                        lemma_views_push(fields@, field);
                    }
                    fields.push(field);
                },
                TokenKind::RBrace => {
                    return Ok(fields);
                },
                _ => {
                    return Err(Failure::Rejected(ParserError::from_token(t)));
                },
            }
        }
    }

    /// Parses a struct declaration.
    pub fn parse_struct(&mut self) -> (r: Result<StructDecl, Failure>)
        requires
            old(self).wf(),
        ensures
            final(self).moved(
                *old(self),
                grammar::struct_decl(old(self).tokens(), old(self).cursor()).next,
            ),
            result_view(r) == grammar::struct_decl(old(self).tokens(), old(self).cursor()).out,
            r is Ok ==> old(self).cursor().pos < final(self).cursor().pos,
            r is Ok ==> r->Ok_0.fields@.len() >= 1,
    {
        proof {
            if grammar::struct_decl(self.tokens(), self.cursor()).out is Ok {
                law_struct_has_fields(self.tokens(), self.cursor());
            }
        }
        let keyword = self.eat(TokenKind::Struct)?;
        let ident = self.parse_ident()?;
        self.eat(TokenKind::LBrace)?;
        let t = self.peek()?;
        if t.kind != TokenKind::Ident {
            return Err(Failure::Rejected(ParserError::from_token(t)));
        }
        let fields = self.parse_fields()?;
        let close = self.eat(TokenKind::RBrace)?;
        Ok(StructDecl { ident, fields, span: Span::new(keyword.span.start, close.span.end) })
    }

    /// Parses a variable declaration.
    pub fn parse_variable_decl(&mut self) -> (r: Result<StatementDecl, Failure>)
        requires
            old(self).wf(),
        ensures
            final(self).moved(
                *old(self),
                grammar::variable_decl(old(self).tokens(), old(self).cursor()).next,
            ),
            result_view(r) == grammar::variable_decl(old(self).tokens(), old(self).cursor()).out,
            r is Ok ==> old(self).cursor().pos < final(self).cursor().pos,
    {
        let keyword = self.eat(TokenKind::Let)?;
        let ident = self.parse_ident()?;
        let ty = self.annotation(TokenKind::Colon)?;
        self.eat(TokenKind::Assign)?;
        let expr = self.parse_expression()?;
        let semi = self.eat(TokenKind::Semicolon)?;
        Ok(
            StatementDecl::VarDecl(
                VarDecl { ident, ty, expr, span: Span::new(keyword.span.start, semi.span.end) },
            ),
        )
    }

    /// Parses a statement.
    pub fn parse_statement(&mut self) -> (r: Result<StatementDecl, Failure>)
        requires
            old(self).wf(),
        ensures
            final(self).moved(
                *old(self),
                grammar::statement(old(self).tokens(), old(self).cursor()).next,
            ),
            result_view(r) == grammar::statement(old(self).tokens(), old(self).cursor()).out,
            r is Ok ==> old(self).cursor().pos < final(self).cursor().pos,
    {
        let t = self.peek()?;
        match t.kind {
            TokenKind::Let => self.parse_variable_decl(),
            _ => Err(Failure::Unsupported(Unsupported::Statement)),
        }
    }

    /// Parses a function declaration.
    #[verifier::loop_isolation(false)]
    pub fn parse_fn(&mut self) -> (r: Result<FnDecl, Failure>)
        requires
            old(self).wf(),
        ensures
            final(self).moved(
                *old(self),
                grammar::fn_decl(old(self).tokens(), old(self).cursor()).next,
            ),
            result_view(r) == grammar::fn_decl(old(self).tokens(), old(self).cursor()).out,
            r is Ok ==> old(self).cursor().pos < final(self).cursor().pos,
    {
        let ghost ts = self.tokens();
        let keyword = self.eat(TokenKind::Fn)?;
        let ident = self.parse_ident()?;
        self.eat(TokenKind::LParen)?;

        let ghost at_params = self.cursor();
        let mut parameters: Vec<ParameterDecl> = Vec::new();
        proof {
            lemma_views_push(parameters@, arbitrary());
            assert(parameters@ =~= Seq::<ParameterDecl>::empty());
        }
        loop
            invariant
                self.wf(),
                self.tokens() == ts,
                at_params.pos <= self.cursor().pos <= ts.len(),
                grammar::parameters(ts, at_params, Seq::empty()) == grammar::parameters(
                    ts,
                    self.cursor(),
                    views(parameters@),
                ),
            decreases ts.len() - self.cursor().pos,
        {
            let t = self.peek()?;
            if t.kind == TokenKind::RParen {
                break ;
            }
            let parameter = self.parse_named_parameter()?;
            self.separator(TokenKind::RParen)?;
            proof {
                lemma_views_push(parameters@, parameter);
            }
            parameters.push(parameter);
        }
        self.eat(TokenKind::RParen)?;

        let ret = self.annotation(TokenKind::Arrow)?;
        self.eat(TokenKind::LBrace)?;

        let ghost at_body = self.cursor();
        let mut statements: Vec<StatementDecl> = Vec::new();
        proof {
            lemma_views_push(statements@, arbitrary());
            assert(statements@ =~= Seq::<StatementDecl>::empty());
        }
        loop
            invariant
                self.wf(),
                self.tokens() == ts,
                at_body.pos <= self.cursor().pos <= ts.len(),
                grammar::statements(ts, at_body, Seq::empty()) == grammar::statements(
                    ts,
                    self.cursor(),
                    views(statements@),
                ),
            decreases ts.len() - self.cursor().pos,
        {
            let t = self.peek()?;
            if t.kind == TokenKind::RBrace {
                break ;
            }
            let statement = self.parse_statement()?;
            proof {
                lemma_views_push(statements@, statement);
            }
            statements.push(statement);
        }
        let close = self.eat(TokenKind::RBrace)?;

        Ok(
            FnDecl {
                ident,
                parameters,
                ret,
                statements,
                span: Span::new(keyword.span.start, close.span.end),
            },
        )
    }

    /// Parses one top-level declaration.
    pub fn parse_declaration(&mut self) -> (r: Result<Decls, Failure>)
        requires
            old(self).wf(),
        ensures
            final(self).moved(
                *old(self),
                grammar::declaration(old(self).tokens(), old(self).cursor()).next,
            ),
            result_view(r) == grammar::declaration(old(self).tokens(), old(self).cursor()).out,
            r is Ok ==> old(self).cursor().pos < final(self).cursor().pos,
    {
        proof {
            reveal(grammar::declaration);
        }
        let t = self.peek()?;
        match t.kind {
            TokenKind::Struct => {
                let decl = self.parse_struct()?;
                Ok(Decls::Struct(decl))
            },
            TokenKind::Fn => {
                let decl = self.parse_fn()?;
                Ok(Decls::Fn(decl))
            },
            _ => Err(Failure::Rejected(ParserError::from_token(t))),
        }
    }

    /// Whether the program at the cursor lies within the supported grammar.
    pub open spec fn supported(&self) -> bool {
        grammar::supported(self.tokens(), self.cursor())
    }

    /// Parses declarations up to the end of the stream. The result is the
    /// declarations, the first parse error, or the word that the input lies
    /// outside the supported grammar. This is the function to call where it
    /// is not known that the input is supported.
    #[verifier::loop_isolation(false)]
    pub fn try_parse(&mut self) -> (r: Result<Vec<Decls>, Failure>)
        requires
            old(self).wf(),
        ensures
            final(self).moved(
                *old(self),
                grammar::program(old(self).tokens(), old(self).cursor()).next,
            ),
            list_view(r) == grammar::program(old(self).tokens(), old(self).cursor()).out,
    {
        let ghost ts = self.tokens();
        let ghost start = self.cursor();
        let mut decls: Vec<Decls> = Vec::new();
        proof {
            lemma_views_push(decls@, arbitrary());
            assert(decls@ =~= Seq::<Decls>::empty());
        }
        loop
            invariant
                self.wf(),
                self.tokens() == ts,
                start.pos <= self.cursor().pos <= ts.len(),
                grammar::program(ts, start) == grammar::declarations(
                    ts,
                    self.cursor(),
                    views(decls@),
                ),
            decreases ts.len() - self.cursor().pos,
        {
            match self.peek() {
                Err(Failure::Rejected(ParserError::InvalidToken(t, _))) => {
                    if t.kind == TokenKind::Eof {
                        return Ok(decls);
                    }
                },
                _ => {},
            }
            let decl = self.parse_declaration()?;
            proof {
                lemma_views_push(decls@, decl);
            }
            decls.push(decl);
        }
    }

    /// Parses declarations up to the end of the stream. The first error
    /// ends the parse and is returned.
    ///
    /// The program must lie within the supported grammar; for any other
    /// input call [`Parser::try_parse`], which reports it.
    pub fn parse(&mut self) -> (r: Result<Vec<Decls>, ParserError>)
        requires
            old(self).wf(),
            old(self).supported(),
        ensures
            final(self).moved(
                *old(self),
                grammar::program(old(self).tokens(), old(self).cursor()).next,
            ),
            match r {
                Ok(decls) => grammar::program(old(self).tokens(), old(self).cursor()).out == Ok::<
                    Seq<crate::ast::DeclsView>,
                    FailureView,
                >(views(decls@)),
                Err(e) => grammar::program(old(self).tokens(), old(self).cursor()).out == Err::<
                    Seq<crate::ast::DeclsView>,
                    FailureView,
                >(FailureView::Rejected(e@)),
            },
    {
        match self.try_parse() {
            Ok(decls) => Ok(decls),
            Err(Failure::Rejected(e)) => Err(e),
            Err(Failure::Unsupported(_)) => vstd::pervasive::unreached(),
        }
    }
}

/// Reads an integer literal's token: its text without the first `skip`
/// characters, in the given radix.
pub fn numeral(token: &Token, radix: u32, skip: usize) -> (r: Result<Literal, Failure>)
    requires
        2 <= radix <= 36,
    ensures
        result_view(r) == grammar::numeral(token@, radix as int, skip as int),
{
    let text = token.lit.as_str();
    let n = text.unicode_len();
    if n < skip {
        return Err(Failure::Unsupported(Unsupported::Numeral));
    }
    match parse_integer(text.substring_char(skip, n), radix) {
        Some(v) => Ok(Literal { kind: LiteralKind::Int(v), span: token.span }),
        None => Err(Failure::Unsupported(Unsupported::Numeral)),
    }
}

/// Joins two operands by a binary operator.
pub fn combine(lhs: Expression, op: BinaryOp, rhs: Expression) -> (r: Result<Expression, Failure>)
    ensures
        result_view(r) == grammar::combine(lhs@, op, rhs@),
{
    proof {
        reveal_with_fuel(expr_view, 2);
    }
    let span = Span::new(lhs.span.start, rhs.span.end);
    if op == BinaryOp::Access {
        match rhs.kind {
            ExpressionKind::Literal(Literal { kind: LiteralKind::Ident(field), span: _ }) => Ok(
                Expression { kind: ExpressionKind::FieldAccess(Box::new(lhs), field), span },
            ),
            ExpressionKind::FnCall(callee, args) => {
                if callee.segments.len() > 0 {
                    let method = callee.segments[0];
                    let mut all = args;
                    proof {
                        lemma_exprs_view_push(all@, lhs);
                    }
                    all.insert(0, lhs);
                    Ok(Expression { kind: ExpressionKind::MethodCall(method, all), span })
                } else {
                    Err(Failure::Unsupported(Unsupported::AccessTarget))
                }
            },
            _ => Err(Failure::Unsupported(Unsupported::AccessTarget)),
        }
    } else {
        Ok(Expression { kind: ExpressionKind::Binary(Box::new(lhs), op, Box::new(rhs)), span })
    }
}

} // verus!
