//! Laws of the grammar: what holds of every token sequence.

use vstd::prelude::*;
use crate::ast::{
    BinaryOp, DeclsView, ExpressionKindView, ExpressionView, Ident, LiteralKindView, LiteralView,
    PathSegment, PathView, TypeKindView, TypeView,
};
use crate::error::{FailureView, ParserErrorView};
use crate::grammar::{
    advance, advances, array_type, call, climb, climb_tighter, declaration, declarations, done,
    eat, expr_list, expression, fields, ident, integer, invalid, literal, operator_at, path,
    path_rest, peek, primary, program, reject, separator, struct_decl, token_at, ty, Cursor,
};
use crate::interner::{intern_names, intern_symbol, MAX_SYMBOLS};
use crate::numeral::{digit_of, digits_value};
use crate::progress::{lemma_declaration_progress, lemma_expression_progress};
use crate::span::Span;
use crate::token::{Token, TokenKind, TokenView};

verus! {

/// Whether the interner has room for `text`: it holds it already or can
/// take one more string.
pub open spec fn has_room(c: Cursor, text: Seq<char>) -> bool {
    c.names.contains(text) || c.names.len() < MAX_SYMBOLS
}

/// The cursor after an identifier token with the given text.
pub open spec fn after_ident(c: Cursor, text: Seq<char>) -> Cursor {
    Cursor { pos: c.pos + 1, names: intern_names(c.names, text) }
}

/// The identifier node for an identifier token read at the cursor.
pub open spec fn ident_node(c: Cursor, token: TokenView) -> Ident {
    Ident { id: intern_symbol(c.names, token.lit), span: token.span }
}

/// Member access with a bare identifier on its right is a field access:
/// where `.` and an identifier follow `lhs`, and no `(` follows them, the
/// parse goes on with the field access of that identifier on `lhs` as its
/// left operand.
pub proof fn law_field_access(ts: Seq<Token>, c: Cursor, lhs: ExpressionView, floor: int)
    requires
        floor <= BinaryOp::Access.binding(),
        token_at(ts, c.pos).kind == TokenKind::Dot,
        token_at(ts, c.pos + 1).kind == TokenKind::Ident,
        token_at(ts, c.pos + 2).kind != TokenKind::LParen,
        has_room(c, token_at(ts, c.pos + 1).lit),
    ensures
        climb(ts, c, lhs, floor) == climb(
            ts,
            after_ident(advance(c), token_at(ts, c.pos + 1).lit),
            ExpressionView {
                kind: ExpressionKindView::FieldAccess(
                    Box::new(lhs),
                    ident_node(c, token_at(ts, c.pos + 1)),
                ),
                span: Span::between(lhs.span.start, token_at(ts, c.pos + 1).span.end),
            },
            floor,
        ),
{
    reveal_with_fuel(climb, 2);
    reveal_with_fuel(primary, 2);
    reveal_with_fuel(climb_tighter, 2);
    let field = token_at(ts, c.pos + 1);
    let c1 = advance(c);
    let c2 = after_ident(c1, field.lit);
    assert(c.pos + 1 < ts.len());
    assert(ident(ts, c1) == done(ident_node(c, field), c2));
    let rhs = ExpressionView {
        kind: ExpressionKindView::Literal(
            LiteralView { kind: LiteralKindView::Ident(ident_node(c, field)), span: field.span },
        ),
        span: field.span,
    };
    if peek(ts, c2) is Ok {
        assert(primary(ts, c1) == done(rhs, c2));
        assert(operator_at(ts, c2, BinaryOp::Access.binding() + 1) is None);
        assert(climb_tighter(ts, c2, rhs, BinaryOp::Access.binding() as int) == done(rhs, c2));
    } else {
        assert(primary(ts, c1) == reject::<ExpressionView>(peek(ts, c2)->Err_0, c2));
    }
}

/// An expression that is `a.b`, with a token after it that is no operator
/// and opens no call, is the field access of `b` on `a`.
pub proof fn law_field_access_expression(ts: Seq<Token>, c: Cursor)
    requires
        token_at(ts, c.pos).kind == TokenKind::Ident,
        token_at(ts, c.pos + 1).kind == TokenKind::Dot,
        token_at(ts, c.pos + 2).kind == TokenKind::Ident,
        !token_at(ts, c.pos + 3).kind.is_terminal(),
        token_at(ts, c.pos + 3).kind != TokenKind::LParen,
        BinaryOp::of(token_at(ts, c.pos + 3).kind) is None,
        has_room(c, token_at(ts, c.pos).lit),
        has_room(after_ident(c, token_at(ts, c.pos).lit), token_at(ts, c.pos + 2).lit),
    ensures
        expression(ts, c) == done(
            ExpressionView {
                kind: ExpressionKindView::FieldAccess(
                    Box::new(
                        ExpressionView {
                            kind: ExpressionKindView::Literal(
                                LiteralView {
                                    kind: LiteralKindView::Ident(
                                        ident_node(c, token_at(ts, c.pos)),
                                    ),
                                    span: token_at(ts, c.pos).span,
                                },
                            ),
                            span: token_at(ts, c.pos).span,
                        },
                    ),
                    ident_node(
                        after_ident(c, token_at(ts, c.pos).lit),
                        token_at(ts, c.pos + 2),
                    ),
                ),
                span: Span::between(
                    token_at(ts, c.pos).span.start,
                    token_at(ts, c.pos + 2).span.end,
                ),
            },
            after_ident(
                advance(after_ident(c, token_at(ts, c.pos).lit)),
                token_at(ts, c.pos + 2).lit,
            ),
        ),
{
    reveal_with_fuel(expression, 2);
    reveal_with_fuel(primary, 2);
    reveal_with_fuel(climb, 2);
    let a = token_at(ts, c.pos);
    let c1 = after_ident(c, a.lit);
    assert(c.pos + 3 < ts.len());
    let lhs = ExpressionView {
        kind: ExpressionKindView::Literal(
            LiteralView { kind: LiteralKindView::Ident(ident_node(c, a)), span: a.span },
        ),
        span: a.span,
    };
    assert(ident(ts, c) == done(ident_node(c, a), c1));
    assert(primary(ts, c) == done(lhs, c1));
    law_field_access(ts, c1, lhs, 0);
}

/// A list of expressions that is parsed stops at its closing token.
pub proof fn lemma_expr_list_stops(
    ts: Seq<Token>,
    c: Cursor,
    closing: TokenKind,
    acc: Seq<ExpressionView>,
)
    requires
        expr_list(ts, c, closing, acc).out is Ok,
    ensures
        peek(ts, expr_list(ts, c, closing, acc).next) is Ok,
        token_at(ts, expr_list(ts, c, closing, acc).next.pos).kind == closing,
        c.pos <= expr_list(ts, c, closing, acc).next.pos < ts.len(),
    decreases ts.len() - c.pos,
{
    reveal_with_fuel(expr_list, 2);
    let t = peek(ts, c)->Ok_0;
    if t.kind != closing {
        lemma_expression_progress(ts, c);
        let item = expression(ts, c);
        let sep = separator(ts, item.next, closing);
        lemma_expr_list_stops(ts, sep.next, closing, acc.push(item.out->Ok_0));
    }
}

/// Member access with a call on its right is a method call: where `.`, a
/// name and an argument list in parentheses follow `lhs`, the parse goes
/// on with the call of that method, `lhs` as its first argument and the
/// listed arguments after it in their order. The call spans from the start
/// of `lhs` to the end of the call on the right.
pub proof fn law_method_call(ts: Seq<Token>, c: Cursor, lhs: ExpressionView, floor: int)
    requires
        floor <= BinaryOp::Access.binding(),
        token_at(ts, c.pos).kind == TokenKind::Dot,
        token_at(ts, c.pos + 1).kind == TokenKind::Ident,
        token_at(ts, c.pos + 2).kind == TokenKind::LParen,
        has_room(c, token_at(ts, c.pos + 1).lit),
        expr_list(
            ts,
            advance(after_ident(advance(c), token_at(ts, c.pos + 1).lit)),
            TokenKind::RParen,
            Seq::empty(),
        ).out is Ok,
    ensures
        ({
            let method = token_at(ts, c.pos + 1);
            let args = expr_list(
                ts,
                advance(after_ident(advance(c), method.lit)),
                TokenKind::RParen,
                Seq::empty(),
            );
            let close = token_at(ts, args.next.pos);
            climb(ts, c, lhs, floor) == climb(
                ts,
                advance(args.next),
                ExpressionView {
                    kind: ExpressionKindView::MethodCall(
                        PathSegment { ident: ident_node(c, method) },
                        seq![lhs] + args.out->Ok_0,
                    ),
                    span: Span::between(
                        lhs.span.start,
                        Span::between(method.span.start, close.span.end).end,
                    ),
                },
                floor,
            )
        }),
{
    reveal_with_fuel(climb, 2);
    reveal_with_fuel(primary, 2);
    reveal_with_fuel(call, 2);
    reveal_with_fuel(climb_tighter, 2);
    let method = token_at(ts, c.pos + 1);
    let c1 = advance(c);
    let c2 = after_ident(c1, method.lit);
    let c3 = advance(c2);
    let args = expr_list(ts, c3, TokenKind::RParen, Seq::empty());
    lemma_expr_list_stops(ts, c3, TokenKind::RParen, Seq::empty());
    let close = token_at(ts, args.next.pos);
    let c5 = advance(args.next);
    let name = ident_node(c, method);
    assert(ident(ts, c1) == done(name, c2));
    assert(eat(ts, args.next, TokenKind::RParen) == done(close, c5));
    let rhs = ExpressionView {
        kind: ExpressionKindView::FnCall(
            PathView { segments: seq![PathSegment { ident: name }], span: name.span },
            args.out->Ok_0,
        ),
        span: Span::between(name.span.start, close.span.end),
    };
    assert(call(ts, c1, name, c3) == done(rhs, c5));
    assert(primary(ts, c1) == done(rhs, c5));
    assert(seq![PathSegment { ident: name }].first() == PathSegment { ident: name });
    if peek(ts, c5) is Ok {
        assert(operator_at(ts, c5, BinaryOp::Access.binding() + 1) is None);
        assert(climb_tighter(ts, c5, rhs, BinaryOp::Access.binding() as int) == done(rhs, c5));
    }
}

/// A struct without fields is rejected at its closing brace, whatever its
/// name.
pub proof fn law_empty_struct_fails(ts: Seq<Token>, c: Cursor)
    requires
        token_at(ts, c.pos).kind == TokenKind::Struct,
        token_at(ts, c.pos + 1).kind == TokenKind::Ident,
        token_at(ts, c.pos + 2).kind == TokenKind::LBrace,
        token_at(ts, c.pos + 3).kind == TokenKind::RBrace,
        has_room(c, token_at(ts, c.pos + 1).lit),
    ensures
        struct_decl(ts, c) == reject::<crate::ast::StructDeclView>(
            invalid(token_at(ts, c.pos + 3)),
            advance(after_ident(advance(c), token_at(ts, c.pos + 1).lit)),
        ),
{
    assert(c.pos + 3 < ts.len());
}

/// The fields of a struct go on from those read before.
pub proof fn lemma_fields_keep(ts: Seq<Token>, c: Cursor, acc: Seq<crate::ast::FieldDeclView>)
    requires
        fields(ts, c, acc).out is Ok,
    ensures
        fields(ts, c, acc).out->Ok_0.len() >= acc.len(),
    decreases ts.len() - c.pos,
{
    let t = peek(ts, c)->Ok_0;
    if t.kind == TokenKind::Ident {
        crate::progress::lemma_typed_name_progress(ts, c);
        let pair = crate::grammar::typed_name(ts, c);
        let (id, tv) = pair.out->Ok_0;
        let sep = separator(ts, pair.next, TokenKind::RBrace);
        lemma_fields_keep(
            ts,
            sep.next,
            acc.push(
                crate::ast::FieldDeclView {
                    ident: id,
                    field_type: tv,
                    span: Span::between(id.span.start, tv.span.end),
                },
            ),
        );
    }
}

/// A struct has at least one field.
pub proof fn law_struct_has_fields(ts: Seq<Token>, c: Cursor)
    requires
        struct_decl(ts, c).out is Ok,
    ensures
        struct_decl(ts, c).out->Ok_0.fields.len() >= 1,
{
    let keyword = eat(ts, c, TokenKind::Struct);
    let name = ident(ts, keyword.next);
    let open = eat(ts, name.next, TokenKind::LBrace);
    let at = open.next;
    crate::progress::lemma_typed_name_progress(ts, at);
    let pair = crate::grammar::typed_name(ts, at);
    let (id, tv) = pair.out->Ok_0;
    let sep = separator(ts, pair.next, TokenKind::RBrace);
    lemma_fields_keep(
        ts,
        sep.next,
        Seq::empty().push(
            crate::ast::FieldDeclView {
                ident: id,
                field_type: tv,
                span: Span::between(id.span.start, tv.span.end),
            },
        ),
    );
}

/// A comma before the closing brace changes nothing in the fields of a
/// struct: with the comma and without it the list ends with the fields
/// read so far, at the closing brace.
pub proof fn law_trailing_comma(ts: Seq<Token>, c: Cursor, acc: Seq<crate::ast::FieldDeclView>)
    requires
        token_at(ts, c.pos).kind == TokenKind::Comma,
        token_at(ts, c.pos + 1).kind == TokenKind::RBrace,
    ensures
        separator(ts, c, TokenKind::RBrace) == done((), advance(c)),
        fields(ts, advance(c), acc) == done(acc, advance(c)),
        separator(ts, advance(c), TokenKind::RBrace) == done((), advance(c)),
{
    assert(c.pos + 1 < ts.len());
}

/// The length of an array type: a negative length is rejected as an
/// invalid array size, with the length; any other length, followed by the
/// closing bracket, gives an array type of that length.
pub proof fn law_array_length(ts: Seq<Token>, c: Cursor)
    requires
        token_at(ts, c.pos).kind == TokenKind::LBracket,
        ty(ts, advance(c)).out is Ok,
        eat(ts, ty(ts, advance(c)).next, TokenKind::Semicolon).out is Ok,
        integer(ts, advance(ty(ts, advance(c)).next)).out is Ok,
    ensures
        ({
            let element = ty(ts, advance(c));
            let len = integer(ts, advance(element.next));
            let n = len.out->Ok_0;
            let close = token_at(ts, len.next.pos);
            &&& n < 0 ==> array_type(ts, c) == reject::<TypeView>(
                ParserErrorView::InvalidArraySize(n),
                len.next,
            )
            &&& n >= 0 && close.kind == TokenKind::RBracket ==> array_type(ts, c) == done(
                TypeView {
                    kind: TypeKindView::Array(Box::new(element.out->Ok_0), n as usize),
                    span: Span::between(token_at(ts, c.pos).span.start, close.span.end),
                },
                advance(len.next),
            )
        }),
{
    reveal_with_fuel(array_type, 2);
    assert(c.pos < ts.len());
    let element = ty(ts, advance(c));
    let len = integer(ts, advance(element.next));
    if len.next.pos >= ts.len() {
        assert(token_at(ts, len.next.pos).kind == TokenKind::Eof);
    }
}

/// The radix of each kind of integer literal.
pub open spec fn radix_of(kind: TokenKind) -> int {
    match kind {
        TokenKind::HexLit => 16,
        TokenKind::OctLit => 8,
        TokenKind::BinLit => 2,
        _ => 10,
    }
}

/// The number of characters that come before the digits in each kind of
/// integer literal.
pub open spec fn prefix_of(kind: TokenKind) -> int {
    match kind {
        TokenKind::HexLit | TokenKind::OctLit | TokenKind::BinLit => 2,
        _ => 0,
    }
}

/// A string of digits of the radix has a value, which is not negative.
pub proof fn lemma_digits_have_value(s: Seq<char>, radix: int)
    requires
        radix >= 1,
        forall|i: int| 0 <= i < s.len() ==> digit_of(#[trigger] s[i], radix) is Some,
    ensures
        digits_value(s, radix) is Some,
        digits_value(s, radix)->0 >= 0,
    decreases s.len(),
{
    if s.len() > 0 {
        let init = s.drop_last();
        assert forall|i: int| 0 <= i < init.len() implies digit_of(
            #[trigger] init[i],
            radix,
        ) is Some by {
            assert(init[i] == s[i]);
        }
        lemma_digits_have_value(init, radix);
        let v = digits_value(init, radix)->0;
        assert(digit_of(s.last(), radix) is Some);
        assert(v * radix >= 0) by (nonlinear_arith)
            requires
                v >= 0,
                radix >= 1,
        ;
    }
}

/// An integer literal denotes the value of its digits in its radix: where
/// the text after the prefix is one or more digits of the radix, and their
/// value fits 128 bits, the literal is that value.
pub proof fn law_integer_literal_value(ts: Seq<Token>, c: Cursor)
    requires
        ({
            let t = token_at(ts, c.pos);
            let digits = t.lit.skip(prefix_of(t.kind));
            &&& t.kind == TokenKind::DecLit || t.kind == TokenKind::HexLit || t.kind
                == TokenKind::OctLit || t.kind == TokenKind::BinLit
            &&& t.lit.len() > prefix_of(t.kind)
            &&& forall|i: int|
                0 <= i < digits.len() ==> digit_of(#[trigger] digits[i], radix_of(t.kind)) is Some
            &&& digits_value(digits, radix_of(t.kind)) is Some ==> digits_value(
                digits,
                radix_of(t.kind),
            )->0 <= i128::MAX
        }),
    ensures
        ({
            let t = token_at(ts, c.pos);
            let digits = t.lit.skip(prefix_of(t.kind));
            literal(ts, c) == done(
                LiteralView {
                    kind: LiteralKindView::Int(
                        digits_value(digits, radix_of(t.kind))->0 as i128,
                    ),
                    span: t.span,
                },
                advance(c),
            )
        }),
{
    reveal_with_fuel(literal, 2);
    let t = token_at(ts, c.pos);
    let digits = t.lit.skip(prefix_of(t.kind));
    assert(c.pos < ts.len());
    lemma_digits_have_value(digits, radix_of(t.kind));
    assert(digit_of(digits[0], radix_of(t.kind)) is Some);
    assert(digits[0] != '-' && digits[0] != '+');
    assert(digits == t.lit.subrange(prefix_of(t.kind), t.lit.len() as int));
}

/// A decimal literal with a minus sign denotes the negated value of its
/// digits.
pub proof fn law_negative_decimal_literal(ts: Seq<Token>, c: Cursor)
    requires
        ({
            let t = token_at(ts, c.pos);
            let digits = t.lit.skip(1);
            &&& t.kind == TokenKind::DecLit
            &&& t.lit.len() > 1
            &&& t.lit[0] == '-'
            &&& forall|i: int| 0 <= i < digits.len() ==> digit_of(#[trigger] digits[i], 10) is Some
            &&& digits_value(digits, 10) is Some ==> -digits_value(digits, 10)->0 >= i128::MIN
        }),
    ensures
        ({
            let t = token_at(ts, c.pos);
            literal(ts, c) == done(
                LiteralView {
                    kind: LiteralKindView::Int((-digits_value(t.lit.skip(1), 10)->0) as i128),
                    span: t.span,
                },
                advance(c),
            )
        }),
{
    reveal_with_fuel(literal, 2);
    let t = token_at(ts, c.pos);
    let digits = t.lit.skip(1);
    assert(c.pos < ts.len());
    lemma_digits_have_value(digits, 10);
    assert(digits == t.lit.subrange(1, t.lit.len() as int));
    assert(t.lit.subrange(0, t.lit.len() as int) =~= t.lit);
}

/// A path has at least one segment.
pub proof fn law_path_has_segments(ts: Seq<Token>, c: Cursor)
    requires
        path(ts, c).out is Ok,
    ensures
        path(ts, c).out->Ok_0.segments.len() >= 1,
{
    let t = peek(ts, c)->Ok_0;
    let first = crate::grammar::path_segment(
        ts,
        if t.kind == TokenKind::PathSeparator {
            advance(c)
        } else {
            c
        },
    );
    lemma_path_rest_keeps(ts, first.next, seq![first.out->Ok_0]);
}

/// The rest of a path keeps the segments read so far.
pub proof fn lemma_path_rest_keeps(ts: Seq<Token>, c: Cursor, acc: Seq<PathSegment>)
    requires
        path_rest(ts, c, acc).out is Ok,
    ensures
        path_rest(ts, c, acc).out->Ok_0.segments.len() >= acc.len(),
        path_rest(ts, c, acc).out->Ok_0.segments.take(acc.len() as int) == acc,
    decreases ts.len() - c.pos,
{
    let t = peek(ts, c)->Ok_0;
    if t.kind == TokenKind::PathSeparator || t.kind == TokenKind::Ident {
        let segment = crate::grammar::path_segment(
            ts,
            if t.kind == TokenKind::PathSeparator {
                advance(c)
            } else {
                c
            },
        );
        let more = acc.push(segment.out->Ok_0);
        lemma_path_rest_keeps(ts, segment.next, more);
        let all = path_rest(ts, c, acc).out->Ok_0.segments;
        assert(all.take(acc.len() as int) =~= all.take(more.len() as int).take(acc.len() as int));
        assert(more.take(acc.len() as int) =~= acc);
    } else {
        assert(acc.take(acc.len() as int) =~= acc);
    }
}

/// The cursor at which the declaration with the given index starts, in a
/// program that starts at `c`.
pub open spec fn declaration_start(ts: Seq<Token>, c: Cursor, index: nat) -> Cursor
    decreases index,
{
    if index == 0 {
        c
    } else {
        declaration(ts, declaration_start(ts, c, (index - 1) as nat)).next
    }
}

/// The start of a declaration counted from the first is the start of the
/// one before it counted from the second.
pub proof fn lemma_declaration_start_shift(ts: Seq<Token>, c: Cursor, index: nat)
    ensures
        declaration_start(ts, c, index + 1) == declaration_start(
            ts,
            declaration(ts, c).next,
            index,
        ),
    decreases index,
{
    reveal_with_fuel(declaration_start, 2);
    if index > 0 {
        lemma_declaration_start_shift(ts, c, (index - 1) as nat);
    }
}

/// The declarations of a program go on from those read before, and end at
/// the end of the stream.
pub proof fn lemma_declarations_end(ts: Seq<Token>, c: Cursor, acc: Seq<DeclsView>)
    requires
        declarations(ts, c, acc).out is Ok,
    ensures
        ({
            let all = declarations(ts, c, acc).out->Ok_0;
            &&& all.len() >= acc.len()
            &&& all.take(acc.len() as int) == acc
            &&& declarations(ts, c, acc).next == declaration_start(
                ts,
                c,
                (all.len() - acc.len()) as nat,
            )
            &&& token_at(ts, declarations(ts, c, acc).next.pos).kind == TokenKind::Eof
        }),
    decreases ts.len() - c.pos,
{
    let all = declarations(ts, c, acc).out->Ok_0;
    if token_at(ts, c.pos).kind == TokenKind::Eof {
        assert(all.take(acc.len() as int) =~= acc);
    } else {
        lemma_declaration_progress(ts, c);
        let item = declaration(ts, c);
        let more = acc.push(item.out->Ok_0);
        lemma_declarations_end(ts, item.next, more);
        assert(all.take(acc.len() as int) =~= all.take(more.len() as int).take(acc.len() as int));
        assert(more.take(acc.len() as int) =~= acc);
        lemma_declaration_start_shift(ts, c, (all.len() - more.len()) as nat);
    }
}

/// The declaration with index `i` after those in `acc` is the one that the
/// grammar yields where the one before it ended.
pub proof fn lemma_declarations_in_order(ts: Seq<Token>, c: Cursor, acc: Seq<DeclsView>, i: nat)
    requires
        declarations(ts, c, acc).out is Ok,
        acc.len() + i < declarations(ts, c, acc).out->Ok_0.len(),
    ensures
        declaration(ts, declaration_start(ts, c, i)).out == Ok::<DeclsView, FailureView>(
            declarations(ts, c, acc).out->Ok_0[acc.len() + i as int],
        ),
        advances(ts, declaration_start(ts, c, i), declaration_start(ts, c, i + 1)),
    decreases ts.len() - c.pos,
{
    reveal_with_fuel(declaration_start, 2);
    let all = declarations(ts, c, acc).out->Ok_0;
    if token_at(ts, c.pos).kind == TokenKind::Eof {
    } else {
        lemma_declaration_progress(ts, c);
        let item = declaration(ts, c);
        let more = acc.push(item.out->Ok_0);
        if i == 0 {
            lemma_declarations_end(ts, item.next, more);
            assert(all.take(more.len() as int)[acc.len() as int] == more[acc.len() as int]);
        } else {
            lemma_declarations_in_order(ts, item.next, more, (i - 1) as nat);
            lemma_declaration_start_shift(ts, c, (i - 1) as nat);
            lemma_declaration_start_shift(ts, c, i);
        }
    }
}

/// Declarations come out in the order of the source: the declaration with
/// index `i` is the one that starts where the one before it ended, it is a
/// struct where `struct` stands there and a function where `fn` stands
/// there, and the next one starts further on.
pub proof fn law_declarations_keep_order(ts: Seq<Token>, c: Cursor, i: nat)
    requires
        program(ts, c).out is Ok,
        i < program(ts, c).out->Ok_0.len(),
    ensures
        ({
            let decl = program(ts, c).out->Ok_0[i as int];
            let at = declaration_start(ts, c, i);
            &&& declaration(ts, at).out == Ok::<DeclsView, FailureView>(decl)
            &&& advances(ts, at, declaration_start(ts, c, i + 1))
            &&& decl is Struct <==> token_at(ts, at.pos).kind == TokenKind::Struct
            &&& decl is Fn <==> token_at(ts, at.pos).kind == TokenKind::Fn
        }),
{
    lemma_declarations_in_order(ts, c, Seq::empty(), i);
    reveal(declaration);
}

/// The span of a declaration.
pub open spec fn declaration_span(decl: DeclsView) -> Span {
    match decl {
        DeclsView::Struct(s) => s.span,
        DeclsView::Fn(f) => f.span,
    }
}

/// A declaration spans from the start of its first token, the keyword, to
/// the end of its last, the closing brace.
pub proof fn law_declaration_span(ts: Seq<Token>, c: Cursor)
    requires
        declaration(ts, c).out is Ok,
    ensures
        declaration(ts, c).next.pos >= 1,
        token_at(ts, (declaration(ts, c).next.pos - 1) as nat).kind == TokenKind::RBrace,
        declaration_span(declaration(ts, c).out->Ok_0) == Span::between(
            token_at(ts, c.pos).span.start,
            token_at(ts, (declaration(ts, c).next.pos - 1) as nat).span.end,
        ),
{
    reveal(declaration);
    let t = peek(ts, c)->Ok_0;
    if t.kind == TokenKind::Struct {
        let keyword = eat(ts, c, TokenKind::Struct);
        let name = ident(ts, keyword.next);
        let open = eat(ts, name.next, TokenKind::LBrace);
        let body = fields(ts, open.next, Seq::empty());
        let close = eat(ts, body.next, TokenKind::RBrace);
        assert(close.next == advance(body.next));
    } else {
        let keyword = eat(ts, c, TokenKind::Fn);
        let name = ident(ts, keyword.next);
        let open = eat(ts, name.next, TokenKind::LParen);
        let params = crate::grammar::parameters(ts, open.next, Seq::empty());
        let close = eat(ts, params.next, TokenKind::RParen);
        let ret = crate::grammar::annotation(ts, close.next, TokenKind::Arrow);
        let brace = eat(ts, ret.next, TokenKind::LBrace);
        let body = crate::grammar::statements(ts, brace.next, Seq::empty());
        let end = eat(ts, body.next, TokenKind::RBrace);
        assert(end.next == advance(body.next));
    }
}

/// The number of declarations of a program that are read before a failure
/// ends the parse, or before the end of the stream.
pub open spec fn declarations_read(ts: Seq<Token>, c: Cursor) -> nat
    decreases ts.len() - c.pos,
{
    if token_at(ts, c.pos).kind == TokenKind::Eof {
        0
    } else {
        let item = declaration(ts, c);
        if item.out is Ok && advances(ts, c, item.next) {
            1 + declarations_read(ts, item.next)
        } else {
            0
        }
    }
}

/// A failure of the declarations after `acc` is the failure of the first
/// declaration that fails.
pub proof fn lemma_first_failure(ts: Seq<Token>, c: Cursor, acc: Seq<DeclsView>)
    requires
        declarations(ts, c, acc).out is Err,
    ensures
        ({
            let at = declaration_start(ts, c, declarations_read(ts, c));
            &&& declaration(ts, at).out is Err
            &&& declarations(ts, c, acc).out->Err_0 == declaration(ts, at).out->Err_0
            &&& declarations(ts, c, acc).next == declaration(ts, at).next
        }),
    decreases ts.len() - c.pos,
{
    if token_at(ts, c.pos).kind != TokenKind::Eof {
        lemma_declaration_progress(ts, c);
        let item = declaration(ts, c);
        if item.out is Ok {
            lemma_first_failure(ts, item.next, acc.push(item.out->Ok_0));
            lemma_declaration_start_shift(ts, c, declarations_read(ts, item.next));
        }
    }
}

/// The first failure ends the parse: a program fails with the failure of
/// its first declaration that fails, unchanged, and the cursor is left
/// where that declaration left it.
pub proof fn law_first_failure_ends_program(ts: Seq<Token>, c: Cursor)
    requires
        program(ts, c).out is Err,
    ensures
        ({
            let at = declaration_start(ts, c, declarations_read(ts, c));
            &&& declaration(ts, at).out is Err
            &&& program(ts, c).out->Err_0 == declaration(ts, at).out->Err_0
            &&& program(ts, c).next == declaration(ts, at).next
        }),
{
    lemma_first_failure(ts, c, Seq::empty());
}

/// Every declaration before the first that fails is read.
pub proof fn law_declarations_before_failure(ts: Seq<Token>, c: Cursor, i: nat)
    requires
        i < declarations_read(ts, c),
    ensures
        declaration(ts, declaration_start(ts, c, i)).out is Ok,
    decreases i,
{
    reveal_with_fuel(declaration_start, 2);
    if i > 0 {
        let item = declaration(ts, c);
        law_declarations_before_failure(ts, item.next, (i - 1) as nat);
        lemma_declaration_start_shift(ts, c, (i - 1) as nat);
    }
}

/// A program is read to the end of the stream: the cursor is left where
/// the last declaration ended, and the end of the stream stands there.
pub proof fn law_program_ends_at_end_of_stream(ts: Seq<Token>, c: Cursor)
    requires
        program(ts, c).out is Ok,
    ensures
        program(ts, c).next == declaration_start(ts, c, program(ts, c).out->Ok_0.len()),
        token_at(ts, program(ts, c).next.pos).kind == TokenKind::Eof,
{
    lemma_declarations_end(ts, c, Seq::empty());
}

} // verus!
