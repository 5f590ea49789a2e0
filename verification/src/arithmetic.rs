//! Arithmetic as the textbook writes its grammar, and the law that
//! precedence climbing reads it the same way.
//!
//! The grammar of sums and products has one rule for each level of
//! precedence:
//!
//! ```text
//! sum     = product { ("+" | "-") product }
//! product = atom { ("*" | "/") atom }
//! atom    = "(" sum ")" | any other primary expression
//! ```
//!
//! with each repetition folded from the left. It says in the most direct
//! way that `*` and `/` bind tighter than `+` and `-`, that operators of
//! one level associate to the left, and that a group in parentheses is one
//! operand.

use vstd::prelude::*;
use crate::ast::{BinaryOp, ExpressionKindView, ExpressionView};
use crate::grammar::{
    advance, advances, climb, climb_tighter, combine, done, eat, expression, forward, operator_at,
    peek, primary, reject, token_at, Cursor, Step,
};
use crate::progress::{lemma_primary_progress, moves_on, takes_tokens};
use crate::span::Span;
use crate::token::{Token, TokenKind};

verus! {

/// The operator of a token that adds or subtracts.
pub open spec fn additive(kind: TokenKind) -> Option<BinaryOp> {
    match kind {
        TokenKind::Plus => Some(BinaryOp::Add),
        TokenKind::Minus => Some(BinaryOp::Sub),
        _ => None,
    }
}

/// The operator of a token that multiplies or divides.
pub open spec fn multiplicative(kind: TokenKind) -> Option<BinaryOp> {
    match kind {
        TokenKind::Star => Some(BinaryOp::Mul),
        TokenKind::Slash => Some(BinaryOp::Div),
        _ => None,
    }
}

/// The node of a binary operator with its two operands.
pub open spec fn binary(lhs: ExpressionView, op: BinaryOp, rhs: ExpressionView) -> ExpressionView {
    ExpressionView {
        kind: ExpressionKindView::Binary(Box::new(lhs), op, Box::new(rhs)),
        span: Span::between(lhs.span.start, rhs.span.end),
    }
}

/// A sum: a product, then the products added to it or subtracted from it.
pub open spec fn sum(ts: Seq<Token>, c: Cursor) -> Step<ExpressionView>
    decreases ts.len() - c.pos, 3int,
{
    let first = product(ts, c);
    match first.out {
        Err(_) => first,
        Ok(lhs) => if advances(ts, c, first.next) {
            sum_rest(ts, first.next, lhs)
        } else {
            arbitrary()
        },
    }
}

/// The products added to `lhs` or subtracted from it, from the left.
pub open spec fn sum_rest(ts: Seq<Token>, c: Cursor, lhs: ExpressionView) -> Step<ExpressionView>
    decreases ts.len() - c.pos, 0int,
{
    match peek(ts, c) {
        Err(e) => reject(e, c),
        Ok(t) => match additive(t.kind) {
            None => done(lhs, c),
            Some(op) => {
                let rhs = product(ts, advance(c));
                match rhs.out {
                    Err(_) => rhs,
                    Ok(r) => if advances(ts, c, rhs.next) {
                        sum_rest(ts, rhs.next, binary(lhs, op, r))
                    } else {
                        arbitrary()
                    },
                }
            },
        },
    }
}

/// A product: an atom, then the atoms it is multiplied with or divided by.
pub open spec fn product(ts: Seq<Token>, c: Cursor) -> Step<ExpressionView>
    decreases ts.len() - c.pos, 2int,
{
    let first = atom(ts, c);
    match first.out {
        Err(_) => first,
        Ok(lhs) => if advances(ts, c, first.next) {
            product_rest(ts, first.next, lhs)
        } else {
            arbitrary()
        },
    }
}

/// The atoms that `lhs` is multiplied with or divided by, from the left.
pub open spec fn product_rest(ts: Seq<Token>, c: Cursor, lhs: ExpressionView) -> Step<
    ExpressionView,
>
    decreases ts.len() - c.pos, 0int,
{
    match peek(ts, c) {
        Err(e) => reject(e, c),
        Ok(t) => match multiplicative(t.kind) {
            None => done(lhs, c),
            Some(op) => {
                let rhs = atom(ts, advance(c));
                match rhs.out {
                    Err(_) => rhs,
                    Ok(r) => if advances(ts, c, rhs.next) {
                        product_rest(ts, rhs.next, binary(lhs, op, r))
                    } else {
                        arbitrary()
                    },
                }
            },
        },
    }
}

/// An atom: a sum in parentheses, which leave no node, or any other
/// primary expression.
pub open spec fn atom(ts: Seq<Token>, c: Cursor) -> Step<ExpressionView>
    decreases ts.len() - c.pos, 1int,
{
    if token_at(ts, c.pos).kind == TokenKind::LParen {
        let inner = sum(ts, advance(c));
        match inner.out {
            Err(_) => inner,
            Ok(e) => {
                let close = eat(ts, inner.next, TokenKind::RParen);
                match close.out {
                    Err(_) => forward(close),
                    Ok(_) => done(e, close.next),
                }
            },
        }
    } else {
        primary(ts, c)
    }
}

/// A sum that is read has taken a token.
pub proof fn lemma_sum_progress(ts: Seq<Token>, c: Cursor)
    ensures
        takes_tokens(ts, c, sum(ts, c)),
    decreases ts.len() - c.pos, 3int,
{
    lemma_product_progress(ts, c);
    let first = product(ts, c);
    if first.out is Ok {
        lemma_sum_rest_progress(ts, first.next, first.out->Ok_0);
    }
}

/// The rest of a sum does not move the cursor back.
pub proof fn lemma_sum_rest_progress(ts: Seq<Token>, c: Cursor, lhs: ExpressionView)
    ensures
        moves_on(ts, c, sum_rest(ts, c, lhs)),
    decreases ts.len() - c.pos, 0int,
{
    match peek(ts, c) {
        Err(_) => {},
        Ok(t) => match additive(t.kind) {
            None => {},
            Some(op) => {
                lemma_product_progress(ts, advance(c));
                let rhs = product(ts, advance(c));
                if rhs.out is Ok {
                    lemma_sum_rest_progress(ts, rhs.next, binary(lhs, op, rhs.out->Ok_0));
                }
            },
        },
    }
}

/// A product that is read has taken a token.
pub proof fn lemma_product_progress(ts: Seq<Token>, c: Cursor)
    ensures
        takes_tokens(ts, c, product(ts, c)),
    decreases ts.len() - c.pos, 2int,
{
    lemma_atom_progress(ts, c);
    let first = atom(ts, c);
    if first.out is Ok {
        lemma_product_rest_progress(ts, first.next, first.out->Ok_0);
    }
}

/// The rest of a product does not move the cursor back.
pub proof fn lemma_product_rest_progress(ts: Seq<Token>, c: Cursor, lhs: ExpressionView)
    ensures
        moves_on(ts, c, product_rest(ts, c, lhs)),
    decreases ts.len() - c.pos, 0int,
{
    match peek(ts, c) {
        Err(_) => {},
        Ok(t) => match multiplicative(t.kind) {
            None => {},
            Some(op) => {
                lemma_atom_progress(ts, advance(c));
                let rhs = atom(ts, advance(c));
                if rhs.out is Ok {
                    lemma_product_rest_progress(ts, rhs.next, binary(lhs, op, rhs.out->Ok_0));
                }
            },
        },
    }
}

/// An atom that is read has taken a token.
pub proof fn lemma_atom_progress(ts: Seq<Token>, c: Cursor)
    ensures
        takes_tokens(ts, c, atom(ts, c)),
    decreases ts.len() - c.pos, 1int,
{
    if token_at(ts, c.pos).kind == TokenKind::LParen {
        lemma_sum_progress(ts, advance(c));
    } else {
        lemma_primary_progress(ts, c);
    }
}

/// A product that is read ends before a token that does not multiply or
/// divide, and that token is no end of the stream.
pub proof fn lemma_product_rest_stops(ts: Seq<Token>, c: Cursor, lhs: ExpressionView)
    requires
        product_rest(ts, c, lhs).out is Ok,
    ensures
        peek(ts, product_rest(ts, c, lhs).next) is Ok,
        multiplicative(token_at(ts, product_rest(ts, c, lhs).next.pos).kind) is None,
        product_rest(ts, product_rest(ts, c, lhs).next, product_rest(ts, c, lhs).out->Ok_0)
            == product_rest(ts, c, lhs),
    decreases ts.len() - c.pos,
{
    let t = peek(ts, c)->Ok_0;
    match multiplicative(t.kind) {
        None => {},
        Some(op) => {
            lemma_atom_progress(ts, advance(c));
            let rhs = atom(ts, advance(c));
            lemma_product_rest_stops(ts, rhs.next, binary(lhs, op, rhs.out->Ok_0));
        },
    }
}

/// An atom that is read is what precedence climbing reads as a primary
/// expression.
pub proof fn lemma_atom_is_primary(ts: Seq<Token>, c: Cursor)
    requires
        atom(ts, c).out is Ok,
    ensures
        primary(ts, c) == atom(ts, c),
    decreases ts.len() - c.pos, 0int,
{
    reveal_with_fuel(primary, 2);
    if token_at(ts, c.pos).kind == TokenKind::LParen {
        let inner = sum(ts, advance(c));
        if c.pos >= ts.len() {
            assert(token_at(ts, c.pos).kind == TokenKind::Eof);
        }
        lemma_sum_progress(ts, advance(c));
        assert(BinaryOp::of(token_at(ts, inner.next.pos).kind) is None);
        law_sums_and_products(ts, advance(c));
    }
}

/// The atoms that multiply or divide `lhs` are what precedence climbing
/// folds into `lhs` at the level of `*` and `/`, where no member access
/// follows them.
pub proof fn lemma_product_rest_is_climb(ts: Seq<Token>, c: Cursor, lhs: ExpressionView)
    requires
        product_rest(ts, c, lhs).out is Ok,
        operator_at(ts, product_rest(ts, c, lhs).next, BinaryOp::Mul.binding() as int) is None,
    ensures
        climb(ts, c, lhs, BinaryOp::Mul.binding() as int) == product_rest(ts, c, lhs),
        climb_tighter(ts, c, lhs, BinaryOp::Add.binding() as int) == product_rest(ts, c, lhs),
    decreases ts.len() - c.pos,
{
    reveal_with_fuel(climb, 2);
    reveal_with_fuel(climb_tighter, 2);
    let t = peek(ts, c)->Ok_0;
    let whole = product_rest(ts, c, lhs);
    lemma_product_rest_stops(ts, c, lhs);
    match multiplicative(t.kind) {
        None => {
            assert(whole == done(lhs, c));
        },
        Some(op) => {
            let c1 = advance(c);
            let rhs = atom(ts, c1);
            let r = rhs.out->Ok_0;
            lemma_atom_progress(ts, c1);
            lemma_atom_is_primary(ts, c1);
            let node = binary(lhs, op, r);
            assert(whole == product_rest(ts, rhs.next, node));
            lemma_product_rest_stops(ts, rhs.next, node);
            lemma_product_rest_progress(ts, rhs.next, node);
            lemma_product_rest_is_climb(ts, rhs.next, node);
            // Nothing binds tighter than `*` and `/` but member access, and
            // none follows the atom.
            assert(operator_at(ts, rhs.next, BinaryOp::Mul.binding() + 1) is None);
            assert(climb_tighter(ts, rhs.next, r, BinaryOp::Mul.binding() as int) == done(
                r,
                rhs.next,
            ));
            assert(combine(lhs, op, r) == Ok::<ExpressionView, crate::error::FailureView>(node));
            assert(operator_at(ts, c, BinaryOp::Mul.binding() as int) == Some(op));
            assert(climb(ts, c, lhs, BinaryOp::Mul.binding() as int) == climb(
                ts,
                rhs.next,
                node,
                BinaryOp::Mul.binding() as int,
            ));
            assert(operator_at(ts, c, BinaryOp::Add.binding() + 1) == Some(op));
            assert(climb_tighter(ts, whole.next, whole.out->Ok_0, BinaryOp::Add.binding() as int)
                == done(whole.out->Ok_0, whole.next));
        },
    }
}

/// The products after `lhs`, first those that multiply or divide it and
/// then those added to the result or subtracted from it, are what
/// precedence climbing folds into `lhs`.
pub proof fn lemma_rest_is_climb(ts: Seq<Token>, c: Cursor, lhs: ExpressionView)
    requires
        product_rest(ts, c, lhs).out is Ok,
        sum_rest(ts, product_rest(ts, c, lhs).next, product_rest(ts, c, lhs).out->Ok_0).out is Ok,
        BinaryOp::of(
            token_at(
                ts,
                sum_rest(
                    ts,
                    product_rest(ts, c, lhs).next,
                    product_rest(ts, c, lhs).out->Ok_0,
                ).next.pos,
            ).kind,
        ) is None,
    ensures
        climb(ts, c, lhs, 0) == sum_rest(
            ts,
            product_rest(ts, c, lhs).next,
            product_rest(ts, c, lhs).out->Ok_0,
        ),
    decreases ts.len() - c.pos,
{
    reveal_with_fuel(climb, 2);
    reveal_with_fuel(climb_tighter, 2);
    let t = peek(ts, c)->Ok_0;
    let factors = product_rest(ts, c, lhs);
    let whole = sum_rest(ts, factors.next, factors.out->Ok_0);
    lemma_product_rest_stops(ts, c, lhs);
    match multiplicative(t.kind) {
        Some(op) => {
            let c1 = advance(c);
            let rhs = atom(ts, c1);
            let r = rhs.out->Ok_0;
            lemma_atom_progress(ts, c1);
            lemma_atom_is_primary(ts, c1);
            let node = binary(lhs, op, r);
            assert(factors == product_rest(ts, rhs.next, node));
            lemma_product_rest_stops(ts, rhs.next, node);
            lemma_rest_is_climb(ts, rhs.next, node);
            lemma_after_atom_no_access(ts, rhs.next, node);
            assert(operator_at(ts, rhs.next, BinaryOp::Mul.binding() + 1) is None);
            assert(climb_tighter(ts, rhs.next, r, BinaryOp::Mul.binding() as int) == done(
                r,
                rhs.next,
            ));
            assert(combine(lhs, op, r) == Ok::<ExpressionView, crate::error::FailureView>(node));
            assert(operator_at(ts, c, 0) == Some(op));
        },
        None => {
            assert(factors == done(lhs, c));
            match additive(t.kind) {
                Some(op) => {
                    let c1 = advance(c);
                    let first = atom(ts, c1);
                    lemma_atom_progress(ts, c1);
                    lemma_atom_is_primary(ts, c1);
                    let a = first.out->Ok_0;
                    let term = product_rest(ts, first.next, a);
                    assert(product(ts, c1) == term);
                    lemma_product_rest_progress(ts, first.next, a);
                    lemma_product_rest_stops(ts, first.next, a);
                    let node = binary(lhs, op, term.out->Ok_0);
                    assert(whole == sum_rest(ts, term.next, node));
                    assert(product_rest(ts, term.next, node) == done(node, term.next));
                    lemma_no_access_after_product(ts, term.next, node);
                    lemma_product_rest_is_climb(ts, first.next, a);
                    lemma_rest_is_climb(ts, term.next, node);
                    assert(operator_at(ts, c, 0) == Some(op));
                    assert(combine(lhs, op, term.out->Ok_0) == Ok::<
                        ExpressionView,
                        crate::error::FailureView,
                    >(node));
                },
                None => {
                    assert(whole == done(lhs, c));
                },
            }
        },
    }
}

/// Where the sum after a product ends before a token that is no operator,
/// no member access stands right after the product.
pub proof fn lemma_no_access_after_product(ts: Seq<Token>, c: Cursor, lhs: ExpressionView)
    requires
        multiplicative(token_at(ts, c.pos).kind) is None,
        sum_rest(ts, c, lhs).out is Ok,
        BinaryOp::of(token_at(ts, sum_rest(ts, c, lhs).next.pos).kind) is None,
    ensures
        operator_at(ts, c, BinaryOp::Mul.binding() as int) is None,
{
}

/// Where the products and sums after an atom end before a token that is no
/// operator, no member access stands right after the atom.
pub proof fn lemma_after_atom_no_access(ts: Seq<Token>, c: Cursor, lhs: ExpressionView)
    requires
        product_rest(ts, c, lhs).out is Ok,
        sum_rest(ts, product_rest(ts, c, lhs).next, product_rest(ts, c, lhs).out->Ok_0).out is Ok,
        BinaryOp::of(
            token_at(
                ts,
                sum_rest(
                    ts,
                    product_rest(ts, c, lhs).next,
                    product_rest(ts, c, lhs).out->Ok_0,
                ).next.pos,
            ).kind,
        ) is None,
    ensures
        token_at(ts, c.pos).kind != TokenKind::Dot,
        operator_at(ts, product_rest(ts, c, lhs).next, BinaryOp::Mul.binding() as int) is None,
{
    lemma_product_rest_stops(ts, c, lhs);
    let factors = product_rest(ts, c, lhs);
    lemma_no_access_after_product(ts, factors.next, factors.out->Ok_0);
}

/// Precedence climbing reads sums and products as the grammar of sums and
/// products writes them: where a sum stands at the cursor, and the token
/// after it is no binary operator, the expression at the cursor is that
/// sum, node for node. So `*` and `/` bind tighter than `+` and `-`,
/// operators of one level associate to the left, and a group in
/// parentheses is one operand.
pub proof fn law_sums_and_products(ts: Seq<Token>, c: Cursor)
    requires
        sum(ts, c).out is Ok,
        BinaryOp::of(token_at(ts, sum(ts, c).next.pos).kind) is None,
    ensures
        expression(ts, c) == sum(ts, c),
    decreases ts.len() - c.pos, 1int,
{
    reveal_with_fuel(expression, 2);
    let first = atom(ts, c);
    lemma_atom_progress(ts, c);
    lemma_atom_is_primary(ts, c);
    let a = first.out->Ok_0;
    lemma_product_rest_progress(ts, first.next, a);
    lemma_rest_is_climb(ts, first.next, a);
}

/// Where no tighter-binding operator follows the right operand, an
/// operator is applied to the operands on both its sides at once, and the
/// parse goes on with the result as left operand. So operators of one
/// level, and an operator before a looser one, group to the left.
pub proof fn law_operator_groups_left(ts: Seq<Token>, c: Cursor, lhs: ExpressionView, floor: int)
    requires
        peek(ts, c) is Ok,
        operator_at(ts, c, floor) is Some,
        primary(ts, advance(c)).out is Ok,
        operator_at(
            ts,
            primary(ts, advance(c)).next,
            operator_at(ts, c, floor)->0.binding() + 1,
        ) is None,
        combine(lhs, operator_at(ts, c, floor)->0, primary(ts, advance(c)).out->Ok_0) is Ok,
    ensures
        climb(ts, c, lhs, floor) == climb(
            ts,
            primary(ts, advance(c)).next,
            combine(lhs, operator_at(ts, c, floor)->0, primary(ts, advance(c)).out->Ok_0)->Ok_0,
            floor,
        ),
{
    reveal_with_fuel(climb, 2);
    reveal_with_fuel(climb_tighter, 2);
    lemma_primary_progress(ts, advance(c));
}

/// Two operators in a row: in `a op1 b op2 c`, with a token after it that
/// is no operator, the tighter-binding operator is applied first, and the
/// left one where both bind alike.
pub proof fn law_two_operators(ts: Seq<Token>, c: Cursor)
    requires
        primary(ts, c).out is Ok,
        peek(ts, primary(ts, c).next) is Ok,
        BinaryOp::of(token_at(ts, primary(ts, c).next.pos).kind) is Some,
        primary(ts, advance(primary(ts, c).next)).out is Ok,
        peek(ts, primary(ts, advance(primary(ts, c).next)).next) is Ok,
        BinaryOp::of(
            token_at(ts, primary(ts, advance(primary(ts, c).next)).next.pos).kind,
        ) is Some,
        primary(ts, advance(primary(ts, advance(primary(ts, c).next)).next)).out is Ok,
        peek(ts, primary(ts, advance(primary(ts, advance(primary(ts, c).next)).next)).next) is Ok,
        BinaryOp::of(
            token_at(
                ts,
                primary(ts, advance(primary(ts, advance(primary(ts, c).next)).next)).next.pos,
            ).kind,
        ) is None,
        BinaryOp::of(token_at(ts, primary(ts, c).next.pos).kind)->0 != BinaryOp::Access,
        BinaryOp::of(token_at(ts, primary(ts, advance(primary(ts, c).next)).next.pos).kind)->0
            != BinaryOp::Access,
    ensures
        ({
            let first = primary(ts, c);
            let second = primary(ts, advance(first.next));
            let third = primary(ts, advance(second.next));
            let op1 = BinaryOp::of(token_at(ts, first.next.pos).kind)->0;
            let op2 = BinaryOp::of(token_at(ts, second.next.pos).kind)->0;
            let (a, b, d) = (first.out->Ok_0, second.out->Ok_0, third.out->Ok_0);
            expression(ts, c) == done(
                if op2.binding() > op1.binding() {
                    binary(a, op1, binary(b, op2, d))
                } else {
                    binary(binary(a, op1, b), op2, d)
                },
                third.next,
            )
        }),
{
    reveal_with_fuel(expression, 2);
    reveal_with_fuel(climb, 4);
    reveal_with_fuel(climb_tighter, 4);
    let first = primary(ts, c);
    let second = primary(ts, advance(first.next));
    let third = primary(ts, advance(second.next));
    let op1 = BinaryOp::of(token_at(ts, first.next.pos).kind)->0;
    let op2 = BinaryOp::of(token_at(ts, second.next.pos).kind)->0;
    let (a, b, d) = (first.out->Ok_0, second.out->Ok_0, third.out->Ok_0);
    lemma_primary_progress(ts, c);
    lemma_primary_progress(ts, advance(first.next));
    lemma_primary_progress(ts, advance(second.next));
    assert(climb(ts, third.next, d, op2.binding() as int) == done(d, third.next));
    assert(climb_tighter(ts, third.next, d, op2.binding() as int) == done(d, third.next));
    if op2.binding() > op1.binding() {
        let inner = binary(b, op2, d);
        assert(combine(b, op2, d) == Ok::<ExpressionView, crate::error::FailureView>(inner));
        assert(climb(ts, third.next, inner, op2.binding() as int) == done(inner, third.next));
        assert(climb(ts, second.next, b, op2.binding() as int) == done(inner, third.next));
        assert(climb_tighter(ts, third.next, inner, op1.binding() as int) == done(
            inner,
            third.next,
        ));
        assert(climb_tighter(ts, second.next, b, op1.binding() as int) == done(inner, third.next));
        let outer = binary(a, op1, inner);
        assert(combine(a, op1, inner) == Ok::<ExpressionView, crate::error::FailureView>(outer));
        assert(climb(ts, third.next, outer, 0) == done(outer, third.next));
    } else {
        let inner = binary(a, op1, b);
        assert(climb_tighter(ts, second.next, b, op1.binding() as int) == done(b, second.next));
        assert(combine(a, op1, b) == Ok::<ExpressionView, crate::error::FailureView>(inner));
        let outer = binary(inner, op2, d);
        assert(combine(inner, op2, d) == Ok::<ExpressionView, crate::error::FailureView>(outer));
        assert(climb(ts, third.next, outer, 0) == done(outer, third.next));
        assert(climb(ts, second.next, inner, 0) == done(outer, third.next));
    }
}

} // verus!
