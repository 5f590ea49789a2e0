//! The grammar, as mathematics: what each production yields on a token
//! sequence.
//!
//! A production is a function from the tokens and a [`Cursor`] to a
//! [`Step`]: the node (or the reason why there is none) and the cursor
//! after it. The cursor holds what a parse changes: the position in the
//! token sequence and the strings interned so far.
//!
//! Lists are defined by recursion on the rest of the tokens. Where a list
//! goes on after an element, the definition first asks that the element
//! took at least one token ([`advances`]); it always does, and the question
//! only serves to show that the recursion ends.

use vstd::prelude::*;
use crate::ast::{
    BinaryOp, DeclsView, ExpressionKindView, ExpressionView, FieldDeclView, FnDeclView, Ident,
    LiteralKindView, LiteralView, ParameterDeclView, PathSegment, PathView, StatementDeclView,
    StructDeclView, TypeKindView, TypeView, UnaryOp, VarDeclView,
};
use crate::error::{FailureView, ParserErrorView, Unsupported};
use crate::interner::{intern_names, intern_symbol, Symbol, MAX_SYMBOLS};
use crate::numeral::integer_of;
use crate::span::Span;
use crate::token::{Token, TokenKind, TokenView};

verus! {

/// What a parse has changed so far.
pub struct Cursor {
    /// The number of tokens consumed.
    pub pos: nat,
    /// The interned strings, in the order of their symbols.
    pub names: Seq<Seq<char>>,
}

/// The result of a production and the cursor after it.
pub struct Step<T> {
    pub out: Result<T, FailureView>,
    pub next: Cursor,
}

/// The step that yields a node.
pub open spec fn done<T>(value: T, next: Cursor) -> Step<T> {
    Step { out: Ok(value), next }
}

/// The step that ends with a parse error.
pub open spec fn reject<T>(error: ParserErrorView, next: Cursor) -> Step<T> {
    Step { out: Err(FailureView::Rejected(error)), next }
}

/// The step that ends on input outside the supported grammar.
pub open spec fn unsupported<T>(what: Unsupported, next: Cursor) -> Step<T> {
    Step { out: Err(FailureView::Unsupported(what)), next }
}

/// The failure of one production as the failure of the one that called it.
pub open spec fn forward<T, U>(step: Step<T>) -> Step<U>
    recommends
        step.out is Err,
{
    Step { out: Err(step.out->Err_0), next: step.next }
}

/// The error for a token that the production at hand cannot take.
pub open spec fn invalid(token: TokenView) -> ParserErrorView {
    ParserErrorView::InvalidToken(token, None)
}

/// The cursor one token further.
pub open spec fn advance(c: Cursor) -> Cursor {
    Cursor { pos: c.pos + 1, names: c.names }
}

/// Whether `to` lies further along the tokens than `from`.
pub open spec fn advances(ts: Seq<Token>, from: Cursor, to: Cursor) -> bool {
    from.pos < to.pos <= ts.len()
}

/// The token that stands for the end of the stream: it has no text and
/// lies where the last token ends.
pub open spec fn end_of_stream(ts: Seq<Token>) -> TokenView {
    let at = if ts.len() == 0 {
        0u32
    } else {
        ts.last().span.end
    };
    TokenView { kind: TokenKind::Eof, lit: Seq::empty(), span: Span { start: at, end: at } }
}

/// The token at a position; past the last token, the end of the stream.
pub open spec fn token_at(ts: Seq<Token>, pos: nat) -> TokenView {
    if pos < ts.len() {
        ts[pos as int]@
    } else {
        end_of_stream(ts)
    }
}

/// The next token, not consumed. The end of the stream and a lexical error
/// are no tokens to look at: they are reported as invalid.
pub open spec fn peek(ts: Seq<Token>, c: Cursor) -> Result<TokenView, ParserErrorView> {
    let t = token_at(ts, c.pos);
    if t.kind.is_terminal() {
        Err(invalid(t))
    } else {
        Ok(t)
    }
}

/// The next token, consumed. The end of the stream and a lexical error are
/// reported as invalid and not consumed.
pub open spec fn next(ts: Seq<Token>, c: Cursor) -> Step<TokenView> {
    match peek(ts, c) {
        Ok(t) => done(t, advance(c)),
        Err(e) => reject(e, c),
    }
}

/// The next token, consumed, if it is of the given kind; an invalid-token
/// error otherwise, with the token consumed all the same.
pub open spec fn eat(ts: Seq<Token>, c: Cursor, kind: TokenKind) -> Step<TokenView> {
    match peek(ts, c) {
        Ok(t) => if t.kind == kind {
            done(t, advance(c))
        } else {
            reject(invalid(t), advance(c))
        },
        Err(e) => reject(e, c),
    }
}

/// As [`eat`], for any kind of a set.
pub open spec fn eat_one_of(ts: Seq<Token>, c: Cursor, kinds: Seq<TokenKind>) -> Step<TokenView> {
    match peek(ts, c) {
        Ok(t) => if kinds.contains(t.kind) {
            done(t, advance(c))
        } else {
            reject(invalid(t), advance(c))
        },
        Err(e) => reject(e, c),
    }
}

/// The next token, consumed, if it is of the given kind; nothing, and
/// nothing consumed, if it is of another.
pub open spec fn eat_optional(ts: Seq<Token>, c: Cursor, kind: TokenKind) -> Step<
    Option<TokenView>,
> {
    match peek(ts, c) {
        Ok(t) => if t.kind == kind {
            done(Some(t), advance(c))
        } else {
            done(None, c)
        },
        Err(e) => reject(e, c),
    }
}

/// Interning a string: its symbol, and the cursor with the string among
/// the names. A new string that the interner has no room for is
/// unsupported.
pub open spec fn intern(text: Seq<char>, c: Cursor) -> Step<Symbol> {
    if !c.names.contains(text) && c.names.len() >= MAX_SYMBOLS {
        unsupported(Unsupported::SymbolLimit, c)
    } else {
        done(
            intern_symbol(c.names, text),
            Cursor { pos: c.pos, names: intern_names(c.names, text) },
        )
    }
}

/// An identifier: one `Ident` token, its text interned.
pub open spec fn ident(ts: Seq<Token>, c: Cursor) -> Step<Ident> {
    let t = eat(ts, c, TokenKind::Ident);
    match t.out {
        Ok(token) => {
            let sym = intern(token.lit, t.next);
            match sym.out {
                Ok(id) => done(Ident { id, span: token.span }, sym.next),
                Err(_) => forward(sym),
            }
        },
        Err(_) => forward(t),
    }
}

/// A path segment: one identifier.
pub open spec fn path_segment(ts: Seq<Token>, c: Cursor) -> Step<PathSegment> {
    let name = ident(ts, c);
    match name.out {
        Ok(id) => done(PathSegment { ident: id }, name.next),
        Err(_) => forward(name),
    }
}

/// The span of a path: from its first segment to its last.
pub open spec fn path_span(segments: Seq<PathSegment>) -> Span {
    Span::between(segments.first().ident.span.start, segments.last().ident.span.end)
}

/// The segments of a path after those in `acc`: each an identifier, with
/// or without a path separator before it.
pub open spec fn path_rest(ts: Seq<Token>, c: Cursor, acc: Seq<PathSegment>) -> Step<PathView>
    decreases ts.len() - c.pos,
{
    match peek(ts, c) {
        Err(e) => reject(e, c),
        Ok(t) => if t.kind == TokenKind::PathSeparator || t.kind == TokenKind::Ident {
            let segment = path_segment(
                ts,
                if t.kind == TokenKind::PathSeparator {
                    advance(c)
                } else {
                    c
                },
            );
            match segment.out {
                Ok(seg) => path_rest(ts, segment.next, acc.push(seg)),
                Err(_) => forward(segment),
            }
        } else {
            done(PathView { segments: acc, span: path_span(acc) }, c)
        },
    }
}

/// A path: an optional path separator, then one or more segments.
pub open spec fn path(ts: Seq<Token>, c: Cursor) -> Step<PathView> {
    match peek(ts, c) {
        Err(e) => reject(e, c),
        Ok(t) => {
            let first = path_segment(
                ts,
                if t.kind == TokenKind::PathSeparator {
                    advance(c)
                } else {
                    c
                },
            );
            match first.out {
                Ok(seg) => path_rest(ts, first.next, seq![seg]),
                Err(_) => forward(first),
            }
        },
    }
}

/// An integer literal: the token's text without the first `skip`
/// characters, read in the given radix. Text that is no numeral of the
/// radix, or whose value does not fit, is unsupported.
pub open spec fn numeral(token: TokenView, radix: int, skip: int) -> Result<
    LiteralView,
    FailureView,
> {
    if token.lit.len() < skip {
        Err(FailureView::Unsupported(Unsupported::Numeral))
    } else {
        match integer_of(token.lit.subrange(skip, token.lit.len() as int), radix) {
            Some(v) => Ok(LiteralView { kind: LiteralKindView::Int(v), span: token.span }),
            None => Err(FailureView::Unsupported(Unsupported::Numeral)),
        }
    }
}

/// A string literal: the token's text without its first and last
/// character, interned.
pub open spec fn raw_string(token: TokenView, c: Cursor) -> Step<LiteralView> {
    if token.lit.len() < 2 {
        unsupported(Unsupported::RawString, c)
    } else {
        let sym = intern(token.lit.subrange(1, token.lit.len() - 1), c);
        match sym.out {
            Ok(id) => done(
                LiteralView { kind: LiteralKindView::RawStr(id), span: token.span },
                sym.next,
            ),
            Err(_) => forward(sym),
        }
    }
}

/// The node for two operands joined by a binary operator. Member access
/// makes a field access of a bare identifier on its right, and a method
/// call, with the left operand as first argument, of a call on its right;
/// anything else on its right is unsupported.
pub open spec fn combine(lhs: ExpressionView, op: BinaryOp, rhs: ExpressionView) -> Result<
    ExpressionView,
    FailureView,
> {
    let span = Span::between(lhs.span.start, rhs.span.end);
    if op == BinaryOp::Access {
        match rhs.kind {
            ExpressionKindView::Literal(
                LiteralView { kind: LiteralKindView::Ident(field), span: _ },
            ) => Ok(
                ExpressionView { kind: ExpressionKindView::FieldAccess(Box::new(lhs), field), span },
            ),
            ExpressionKindView::FnCall(callee, args) => if callee.segments.len() > 0 {
                Ok(
                    ExpressionView {
                        kind: ExpressionKindView::MethodCall(
                            callee.segments.first(),
                            seq![lhs] + args,
                        ),
                        span,
                    },
                )
            } else {
                Err(FailureView::Unsupported(Unsupported::AccessTarget))
            },
            _ => Err(FailureView::Unsupported(Unsupported::AccessTarget)),
        }
    } else {
        Ok(ExpressionView { kind: ExpressionKindView::Binary(Box::new(lhs), op, Box::new(rhs)), span })
    }
}

/// The binary operator at the cursor, if the next token is one that binds
/// at least as tightly as `floor`.
pub open spec fn operator_at(ts: Seq<Token>, c: Cursor, floor: int) -> Option<BinaryOp> {
    match BinaryOp::of(token_at(ts, c.pos).kind) {
        Some(op) => if op.binding() >= floor {
            Some(op)
        } else {
            None
        },
        None => None,
    }
}

/// A list of expressions up to, and without, the closing token: each but
/// the last followed by a comma, the last with or without one.
pub open spec fn expr_list(
    ts: Seq<Token>,
    c: Cursor,
    closing: TokenKind,
    acc: Seq<ExpressionView>,
) -> Step<Seq<ExpressionView>>
    decreases ts.len() - c.pos, 6int,
{
    match peek(ts, c) {
        Err(e) => reject(e, c),
        Ok(t) => if t.kind == closing {
            done(acc, c)
        } else {
            let item = expression(ts, c);
            match item.out {
                Err(_) => forward(item),
                Ok(e) => {
                    let sep = separator(ts, item.next, closing);
                    match sep.out {
                        Err(_) => forward(sep),
                        Ok(_) => if advances(ts, c, sep.next) {
                            expr_list(ts, sep.next, closing, acc.push(e))
                        } else {
                            arbitrary()
                        },
                    }
                },
            }
        },
    }
}

/// What stands between two elements of a list: a comma, unless the closing
/// token follows.
pub open spec fn separator(ts: Seq<Token>, c: Cursor, closing: TokenKind) -> Step<()> {
    match peek(ts, c) {
        Err(e) => reject(e, c),
        Ok(t) => if t.kind == closing {
            done((), c)
        } else {
            let comma = eat(ts, c, TokenKind::Comma);
            match comma.out {
                Ok(_) => done((), comma.next),
                Err(_) => forward(comma),
            }
        },
    }
}

/// An expression: a primary, then the binary operators that follow it.
pub open spec fn expression(ts: Seq<Token>, c: Cursor) -> Step<ExpressionView>
    decreases ts.len() - c.pos, 5int,
{
    let first = primary(ts, c);
    match first.out {
        Err(_) => first,
        Ok(lhs) => if advances(ts, c, first.next) {
            climb(ts, first.next, lhs, 0)
        } else {
            arbitrary()
        },
    }
}

/// A primary expression: a call, a bare identifier, a literal, a unary
/// operator with its operand, or an expression in parentheses. The operand
/// of a unary operator is a whole expression. Parentheses leave no node.
pub open spec fn primary(ts: Seq<Token>, c: Cursor) -> Step<ExpressionView>
    decreases ts.len() - c.pos, 4int,
{
    match peek(ts, c) {
        Err(e) => reject(e, c),
        Ok(t) => match t.kind {
            TokenKind::Ident => {
                let name = ident(ts, c);
                match name.out {
                    Err(_) => forward(name),
                    Ok(id) => match peek(ts, name.next) {
                        Err(e) => reject(e, name.next),
                        Ok(after) => if after.kind == TokenKind::LParen {
                            call(ts, c, id, advance(name.next))
                        } else {
                            done(
                                ExpressionView {
                                    kind: ExpressionKindView::Literal(
                                        LiteralView {
                                            kind: LiteralKindView::Ident(id),
                                            span: id.span,
                                        },
                                    ),
                                    span: id.span,
                                },
                                name.next,
                            )
                        },
                    },
                }
            },
            TokenKind::LBracket
            | TokenKind::DecLit
            | TokenKind::HexLit
            | TokenKind::OctLit
            | TokenKind::BinLit
            | TokenKind::FloatLit
            | TokenKind::RawStr => {
                let lit = literal(ts, c);
                match lit.out {
                    Err(_) => forward(lit),
                    Ok(l) => done(
                        ExpressionView { kind: ExpressionKindView::Literal(l), span: l.span },
                        lit.next,
                    ),
                }
            },
            TokenKind::Minus | TokenKind::Not => {
                let operand = expression(ts, advance(c));
                match operand.out {
                    Err(_) => operand,
                    Ok(e) => done(
                        ExpressionView {
                            kind: ExpressionKindView::Unary(
                                UnaryOp::of(t.kind)->Some_0,
                                Box::new(e),
                            ),
                            span: Span::between(t.span.start, e.span.end),
                        },
                        operand.next,
                    ),
                }
            },
            TokenKind::LParen => {
                let inner = expression(ts, advance(c));
                match inner.out {
                    Err(_) => inner,
                    Ok(e) => {
                        let close = eat(ts, inner.next, TokenKind::RParen);
                        match close.out {
                            Err(_) => forward(close),
                            Ok(_) => done(e, close.next),
                        }
                    },
                }
            },
            _ => unsupported(Unsupported::Primary, c),
        },
    }
}

/// The rest of a call after the callee's name and the opening parenthesis:
/// the arguments and the closing parenthesis. `start` is where the callee
/// began, `c` where the arguments begin.
pub open spec fn call(ts: Seq<Token>, start: Cursor, callee: Ident, c: Cursor) -> Step<
    ExpressionView,
>
    decreases ts.len() - start.pos, 3int,
{
    if advances(ts, start, c) {
        let args = expr_list(ts, c, TokenKind::RParen, Seq::empty());
        match args.out {
            Err(_) => forward(args),
            Ok(list) => {
                let close = eat(ts, args.next, TokenKind::RParen);
                match close.out {
                    Err(_) => forward(close),
                    Ok(rp) => done(
                        ExpressionView {
                            kind: ExpressionKindView::FnCall(
                                PathView {
                                    segments: seq![PathSegment { ident: callee }],
                                    span: callee.span,
                                },
                                list,
                            ),
                            span: Span::between(callee.span.start, rp.span.end),
                        },
                        close.next,
                    ),
                }
            },
        }
    } else {
        arbitrary()
    }
}

/// A literal: an integer in one of four radixes, a floating-point number,
/// a string, an array of expressions in brackets, or a bare identifier.
pub open spec fn literal(ts: Seq<Token>, c: Cursor) -> Step<LiteralView>
    decreases ts.len() - c.pos, 2int,
{
    match peek(ts, c) {
        Err(e) => reject(e, c),
        Ok(t) => match t.kind {
            TokenKind::DecLit => Step { out: numeral(t, 10, 0), next: advance(c) },
            TokenKind::HexLit => Step { out: numeral(t, 16, 2), next: advance(c) },
            TokenKind::OctLit => Step { out: numeral(t, 8, 2), next: advance(c) },
            TokenKind::BinLit => Step { out: numeral(t, 2, 2), next: advance(c) },
            TokenKind::FloatLit => done(
                LiteralView { kind: LiteralKindView::Float(t.lit), span: t.span },
                advance(c),
            ),
            TokenKind::RawStr => raw_string(t, advance(c)),
            TokenKind::LBracket => array_literal(ts, c),
            TokenKind::Ident => {
                let name = ident(ts, c);
                match name.out {
                    Err(_) => forward(name),
                    Ok(id) => done(
                        LiteralView { kind: LiteralKindView::Ident(id), span: id.span },
                        name.next,
                    ),
                }
            },
            _ => reject(ParserErrorView::UnexpectedToken(t), c),
        },
    }
}

/// An array literal: a list of expressions in brackets.
pub open spec fn array_literal(ts: Seq<Token>, c: Cursor) -> Step<LiteralView>
    decreases ts.len() - c.pos, 1int,
{
    let open = eat(ts, c, TokenKind::LBracket);
    match open.out {
        Err(_) => forward(open),
        Ok(lb) => {
            let items = expr_list(ts, open.next, TokenKind::RBracket, Seq::empty());
            match items.out {
                Err(_) => forward(items),
                Ok(list) => {
                    let close = eat(ts, items.next, TokenKind::RBracket);
                    match close.out {
                        Err(_) => forward(close),
                        Ok(rb) => done(
                            LiteralView {
                                kind: LiteralKindView::Array(list),
                                span: Span::between(lb.span.start, rb.span.end),
                            },
                            close.next,
                        ),
                    }
                },
            }
        },
    }
}

/// The binary operators after `lhs` that bind at least as tightly as
/// `floor`, folded into it from the left. Each operator's right operand is
/// a primary with the tighter-binding operators after it folded in.
pub open spec fn climb(ts: Seq<Token>, c: Cursor, lhs: ExpressionView, floor: int) -> Step<
    ExpressionView,
>
    decreases ts.len() - c.pos, 0int,
{
    match peek(ts, c) {
        Err(e) => reject(e, c),
        Ok(_) => match operator_at(ts, c, floor) {
            None => done(lhs, c),
            Some(op) => {
                let operand = primary(ts, advance(c));
                match operand.out {
                    Err(_) => operand,
                    Ok(rhs) => if advances(ts, c, operand.next) {
                        let tighter = climb_tighter(ts, operand.next, rhs, op.binding() as int);
                        match tighter.out {
                            Err(_) => tighter,
                            Ok(folded) => match combine(lhs, op, folded) {
                                Err(f) => Step { out: Err(f), next: tighter.next },
                                Ok(joined) => if advances(ts, c, tighter.next) {
                                    climb(ts, tighter.next, joined, floor)
                                } else {
                                    arbitrary()
                                },
                            },
                        }
                    } else {
                        arbitrary()
                    },
                }
            },
        },
    }
}

/// The operators after `rhs` that bind tighter than `binding`, folded into
/// it.
pub open spec fn climb_tighter(
    ts: Seq<Token>,
    c: Cursor,
    rhs: ExpressionView,
    binding: int,
) -> Step<ExpressionView>
    decreases ts.len() - c.pos, 1int,
{
    match peek(ts, c) {
        Err(e) => reject(e, c),
        Ok(_) => match operator_at(ts, c, binding + 1) {
            None => done(rhs, c),
            Some(op) => {
                let folded = climb(ts, c, rhs, op.binding() as int);
                match folded.out {
                    Err(_) => folded,
                    Ok(e) => if advances(ts, c, folded.next) {
                        climb_tighter(ts, folded.next, e, binding)
                    } else {
                        arbitrary()
                    },
                }
            },
        },
    }
}

/// The integer that stands where a literal is expected: an error names the
/// kind of any other literal.
pub open spec fn integer(ts: Seq<Token>, c: Cursor) -> Step<i128> {
    let lit = literal(ts, c);
    match lit.out {
        Err(_) => forward(lit),
        Ok(l) => match l.kind {
            LiteralKindView::Int(v) => done(v, lit.next),
            other => reject(ParserErrorView::ExpectedIntegerLit(other), lit.next),
        },
    }
}

/// A type: a path, or an array type in brackets.
pub open spec fn ty(ts: Seq<Token>, c: Cursor) -> Step<TypeView>
    decreases ts.len() - c.pos, 1int,
{
    match peek(ts, c) {
        Err(e) => reject(e, c),
        Ok(t) => match t.kind {
            TokenKind::Ident | TokenKind::PathSeparator => {
                let p = path(ts, c);
                match p.out {
                    Err(_) => forward(p),
                    Ok(pv) => done(
                        TypeView {
                            kind: TypeKindView::Path(pv),
                            span: Span::between(t.span.start, pv.span.end),
                        },
                        p.next,
                    ),
                }
            },
            TokenKind::LBracket => array_type(ts, c),
            _ => reject(invalid(t), c),
        },
    }
}

/// An array type: `[`, the element type, `;`, the length, `]`. A negative
/// length is an error of its own.
pub open spec fn array_type(ts: Seq<Token>, c: Cursor) -> Step<TypeView>
    decreases ts.len() - c.pos, 0int,
{
    let open = eat(ts, c, TokenKind::LBracket);
    match open.out {
        Err(_) => forward(open),
        Ok(lb) => {
            let elem = ty(ts, open.next);
            match elem.out {
                Err(_) => elem,
                Ok(element) => {
                    let semi = eat(ts, elem.next, TokenKind::Semicolon);
                    match semi.out {
                        Err(_) => forward(semi),
                        Ok(_) => {
                            let len = integer(ts, semi.next);
                            match len.out {
                                Err(_) => forward(len),
                                Ok(n) => if n < 0 {
                                    reject(ParserErrorView::InvalidArraySize(n), len.next)
                                } else {
                                    let close = eat(ts, len.next, TokenKind::RBracket);
                                    match close.out {
                                        Err(_) => forward(close),
                                        Ok(rb) => done(
                                            TypeView {
                                                kind: TypeKindView::Array(
                                                    Box::new(element),
                                                    n as usize,
                                                ),
                                                span: Span::between(lb.span.start, rb.span.end),
                                            },
                                            close.next,
                                        ),
                                    }
                                },
                            }
                        },
                    }
                },
            }
        },
    }
}

/// A type annotation that may be left out: the given token and a type, or
/// nothing where another token stands.
pub open spec fn annotation(ts: Seq<Token>, c: Cursor, intro: TokenKind) -> Step<Option<TypeView>> {
    match peek(ts, c) {
        Err(e) => reject(e, c),
        Ok(t) => if t.kind == intro {
            let annotated = ty(ts, advance(c));
            match annotated.out {
                Err(_) => forward(annotated),
                Ok(tv) => done(Some(tv), annotated.next),
            }
        } else {
            done(None, c)
        },
    }
}

/// A name and its type, with a colon between them, and the cursor after.
pub open spec fn typed_name(ts: Seq<Token>, c: Cursor) -> Step<(Ident, TypeView)> {
    let name = ident(ts, c);
    match name.out {
        Err(_) => forward(name),
        Ok(id) => {
            let colon = eat(ts, name.next, TokenKind::Colon);
            match colon.out {
                Err(_) => forward(colon),
                Ok(_) => {
                    let t = ty(ts, colon.next);
                    match t.out {
                        Err(_) => forward(t),
                        Ok(tv) => done((id, tv), t.next),
                    }
                },
            }
        },
    }
}

/// A parameter of a function: `name : type`.
pub open spec fn named_parameter(ts: Seq<Token>, c: Cursor) -> Step<ParameterDeclView> {
    let pair = typed_name(ts, c);
    match pair.out {
        Err(_) => forward(pair),
        Ok((id, tv)) => done(
            ParameterDeclView { ident: id, ty: tv, span: Span::between(id.span.start, tv.span.end) },
            pair.next,
        ),
    }
}

/// The parameters up to, and without, the closing parenthesis.
pub open spec fn parameters(ts: Seq<Token>, c: Cursor, acc: Seq<ParameterDeclView>) -> Step<
    Seq<ParameterDeclView>,
>
    decreases ts.len() - c.pos,
{
    match peek(ts, c) {
        Err(e) => reject(e, c),
        Ok(t) => if t.kind == TokenKind::RParen {
            done(acc, c)
        } else {
            let item = named_parameter(ts, c);
            match item.out {
                Err(_) => forward(item),
                Ok(p) => {
                    let sep = separator(ts, item.next, TokenKind::RParen);
                    match sep.out {
                        Err(_) => forward(sep),
                        Ok(_) => if advances(ts, c, sep.next) {
                            parameters(ts, sep.next, acc.push(p))
                        } else {
                            arbitrary()
                        },
                    }
                },
            }
        },
    }
}

/// The fields of a struct up to, and without, the closing brace. Only an
/// identifier can start a field.
pub open spec fn fields(ts: Seq<Token>, c: Cursor, acc: Seq<FieldDeclView>) -> Step<
    Seq<FieldDeclView>,
>
    decreases ts.len() - c.pos,
{
    match peek(ts, c) {
        Err(e) => reject(e, c),
        Ok(t) => match t.kind {
            TokenKind::Ident => {
                let pair = typed_name(ts, c);
                match pair.out {
                    Err(_) => forward(pair),
                    Ok((id, tv)) => {
                        let sep = separator(ts, pair.next, TokenKind::RBrace);
                        match sep.out {
                            Err(_) => forward(sep),
                            Ok(_) => if advances(ts, c, sep.next) {
                                fields(
                                    ts,
                                    sep.next,
                                    acc.push(
                                        FieldDeclView {
                                            ident: id,
                                            field_type: tv,
                                            span: Span::between(id.span.start, tv.span.end),
                                        },
                                    ),
                                )
                            } else {
                                arbitrary()
                            },
                        }
                    },
                }
            },
            TokenKind::RBrace => done(acc, c),
            _ => reject(invalid(t), c),
        },
    }
}

/// A struct declaration: `struct`, the name, and one or more fields in
/// braces.
pub open spec fn struct_decl(ts: Seq<Token>, c: Cursor) -> Step<StructDeclView> {
    let keyword = eat(ts, c, TokenKind::Struct);
    match keyword.out {
        Err(_) => forward(keyword),
        Ok(kw) => {
            let name = ident(ts, keyword.next);
            match name.out {
                Err(_) => forward(name),
                Ok(id) => {
                    let open = eat(ts, name.next, TokenKind::LBrace);
                    match open.out {
                        Err(_) => forward(open),
                        Ok(_) => match peek(ts, open.next) {
                            Err(e) => reject(e, open.next),
                            Ok(t) => if t.kind != TokenKind::Ident {
                                reject(invalid(t), open.next)
                            } else {
                                let body = fields(ts, open.next, Seq::empty());
                                match body.out {
                                    Err(_) => forward(body),
                                    Ok(list) => {
                                        let close = eat(ts, body.next, TokenKind::RBrace);
                                        match close.out {
                                            Err(_) => forward(close),
                                            Ok(rb) => done(
                                                StructDeclView {
                                                    ident: id,
                                                    fields: list,
                                                    span: Span::between(
                                                        kw.span.start,
                                                        rb.span.end,
                                                    ),
                                                },
                                                close.next,
                                            ),
                                        }
                                    },
                                }
                            },
                        },
                    }
                },
            }
        },
    }
}

/// A variable declaration: `let`, the name, an optional `: type`, `=`, the
/// initializer, `;`.
pub open spec fn variable_decl(ts: Seq<Token>, c: Cursor) -> Step<StatementDeclView> {
    let keyword = eat(ts, c, TokenKind::Let);
    match keyword.out {
        Err(_) => forward(keyword),
        Ok(kw) => {
            let name = ident(ts, keyword.next);
            match name.out {
                Err(_) => forward(name),
                Ok(id) => {
                    let declared = annotation(ts, name.next, TokenKind::Colon);
                    match declared.out {
                        Err(_) => forward(declared),
                        Ok(tv) => {
                            let assign = eat(ts, declared.next, TokenKind::Assign);
                            match assign.out {
                                Err(_) => forward(assign),
                                Ok(_) => {
                                    let init = expression(ts, assign.next);
                                    match init.out {
                                        Err(_) => forward(init),
                                        Ok(e) => {
                                            let semi = eat(ts, init.next, TokenKind::Semicolon);
                                            match semi.out {
                                                Err(_) => forward(semi),
                                                Ok(s) => done(
                                                    StatementDeclView::VarDecl(
                                                        VarDeclView {
                                                            ident: id,
                                                            ty: tv,
                                                            expr: e,
                                                            span: Span::between(
                                                                kw.span.start,
                                                                s.span.end,
                                                            ),
                                                        },
                                                    ),
                                                    semi.next,
                                                ),
                                            }
                                        },
                                    }
                                },
                            }
                        },
                    }
                },
            }
        },
    }
}

/// A statement. Only variable declarations are supported.
pub open spec fn statement(ts: Seq<Token>, c: Cursor) -> Step<StatementDeclView> {
    match peek(ts, c) {
        Err(e) => reject(e, c),
        Ok(t) => if t.kind == TokenKind::Let {
            variable_decl(ts, c)
        } else {
            unsupported(Unsupported::Statement, c)
        },
    }
}

/// The statements up to, and without, the closing brace.
pub open spec fn statements(ts: Seq<Token>, c: Cursor, acc: Seq<StatementDeclView>) -> Step<
    Seq<StatementDeclView>,
>
    decreases ts.len() - c.pos,
{
    match peek(ts, c) {
        Err(e) => reject(e, c),
        Ok(t) => if t.kind == TokenKind::RBrace {
            done(acc, c)
        } else {
            let item = statement(ts, c);
            match item.out {
                Err(_) => forward(item),
                Ok(s) => if advances(ts, c, item.next) {
                    statements(ts, item.next, acc.push(s))
                } else {
                    arbitrary()
                },
            }
        },
    }
}

/// A function declaration: `fn`, the name, the parameters in parentheses,
/// an optional `-> type`, and the statements in braces.
pub open spec fn fn_decl(ts: Seq<Token>, c: Cursor) -> Step<FnDeclView> {
    let keyword = eat(ts, c, TokenKind::Fn);
    match keyword.out {
        Err(_) => forward(keyword),
        Ok(kw) => {
            let name = ident(ts, keyword.next);
            match name.out {
                Err(_) => forward(name),
                Ok(id) => {
                    let open = eat(ts, name.next, TokenKind::LParen);
                    match open.out {
                        Err(_) => forward(open),
                        Ok(_) => {
                            let params = parameters(ts, open.next, Seq::empty());
                            match params.out {
                                Err(_) => forward(params),
                                Ok(ps) => {
                                    let close = eat(ts, params.next, TokenKind::RParen);
                                    match close.out {
                                        Err(_) => forward(close),
                                        Ok(_) => fn_tail(ts, close.next, kw, id, ps),
                                    }
                                },
                            }
                        },
                    }
                },
            }
        },
    }
}

/// A function declaration after its parameters: the return type, if any,
/// and the body.
pub open spec fn fn_tail(
    ts: Seq<Token>,
    c: Cursor,
    keyword: TokenView,
    name: Ident,
    params: Seq<ParameterDeclView>,
) -> Step<FnDeclView> {
    let ret = annotation(ts, c, TokenKind::Arrow);
    match ret.out {
        Err(_) => forward(ret),
        Ok(rt) => {
            let open = eat(ts, ret.next, TokenKind::LBrace);
            match open.out {
                Err(_) => forward(open),
                Ok(_) => {
                    let body = statements(ts, open.next, Seq::empty());
                    match body.out {
                        Err(_) => forward(body),
                        Ok(sts) => {
                            let close = eat(ts, body.next, TokenKind::RBrace);
                            match close.out {
                                Err(_) => forward(close),
                                Ok(rb) => done(
                                    FnDeclView {
                                        ident: name,
                                        parameters: params,
                                        ret: rt,
                                        statements: sts,
                                        span: Span::between(keyword.span.start, rb.span.end),
                                    },
                                    close.next,
                                ),
                            }
                        },
                    }
                },
            }
        },
    }
}

/// One top-level declaration: a struct or a function, by its first token.
#[verifier::opaque]
pub open spec fn declaration(ts: Seq<Token>, c: Cursor) -> Step<DeclsView> {
    match peek(ts, c) {
        Err(e) => reject(e, c),
        Ok(t) => match t.kind {
            TokenKind::Struct => {
                let s = struct_decl(ts, c);
                match s.out {
                    Err(_) => forward(s),
                    Ok(d) => done(DeclsView::Struct(d), s.next),
                }
            },
            TokenKind::Fn => {
                let f = fn_decl(ts, c);
                match f.out {
                    Err(_) => forward(f),
                    Ok(d) => done(DeclsView::Fn(d), f.next),
                }
            },
            _ => reject(invalid(t), c),
        },
    }
}

/// The declarations up to the end of the stream, after those in `acc`.
pub open spec fn declarations(ts: Seq<Token>, c: Cursor, acc: Seq<DeclsView>) -> Step<
    Seq<DeclsView>,
>
    decreases ts.len() - c.pos,
{
    if token_at(ts, c.pos).kind == TokenKind::Eof {
        done(acc, c)
    } else {
        let item = declaration(ts, c);
        match item.out {
            Err(_) => forward(item),
            Ok(d) => if advances(ts, c, item.next) {
                declarations(ts, item.next, acc.push(d))
            } else {
                arbitrary()
            },
        }
    }
}

/// A whole program: the declarations from the cursor to the end of the
/// stream.
pub open spec fn program(ts: Seq<Token>, c: Cursor) -> Step<Seq<DeclsView>> {
    declarations(ts, c, Seq::empty())
}

/// Whether the program at the cursor lies within the supported grammar:
/// parsing it ends with the declarations or with a parse error.
pub open spec fn supported(ts: Seq<Token>, c: Cursor) -> bool {
    match program(ts, c).out {
        Err(FailureView::Unsupported(_)) => false,
        _ => true,
    }
}

} // verus!
