//! Progress: no production moves the cursor back, and every production
//! that yields a node has taken at least one token.
//!
//! The grammar asks of each element of a list that it [`advances`] before
//! it goes on with the rest. These lemmas show that the answer is always
//! yes.

use vstd::prelude::*;
use crate::ast::{
    DeclsView, ExpressionView, FieldDeclView, Ident, ParameterDeclView, PathSegment,
    StatementDeclView,
};
use crate::grammar::{
    advance, advances, annotation, array_literal, array_type, call, climb, climb_tighter,
    declaration, declarations, eat, expr_list, expression, fields, fn_decl, fn_tail, ident,
    integer, literal, named_parameter, operator_at, parameters, path, path_rest, path_segment,
    peek, primary, program, separator, statement, statements, struct_decl, token_at, ty, typed_name,
    variable_decl, Cursor, Step,
};
use crate::token::{Token, TokenKind, TokenView};

verus! {

/// The step did not move the cursor back, nor past the end of the tokens.
pub open spec fn moves_on<T>(ts: Seq<Token>, c: Cursor, step: Step<T>) -> bool {
    c.pos <= step.next.pos && (step.next.pos == c.pos || step.next.pos <= ts.len())
}

/// The step did not move the cursor back, and took a token if it yielded a
/// node.
pub open spec fn takes_tokens<T>(ts: Seq<Token>, c: Cursor, step: Step<T>) -> bool {
    moves_on(ts, c, step) && (step.out is Ok ==> advances(ts, c, step.next))
}

/// The rest of a path does not move the cursor back.
pub proof fn lemma_path_rest_progress(ts: Seq<Token>, c: Cursor, acc: Seq<PathSegment>)
    ensures
        moves_on(ts, c, path_rest(ts, c, acc)),
    decreases ts.len() - c.pos,
{
    match peek(ts, c) {
        Err(_) => {},
        Ok(t) => if t.kind == TokenKind::PathSeparator || t.kind == TokenKind::Ident {
            let segment = path_segment(
                ts,
                if t.kind == TokenKind::PathSeparator {
                    advance(c)
                } else {
                    c
                },
            );
            if segment.out is Ok {
                lemma_path_rest_progress(ts, segment.next, acc.push(segment.out->Ok_0));
            }
        },
    }
}

/// A path that is read has taken a token.
pub proof fn lemma_path_progress(ts: Seq<Token>, c: Cursor)
    ensures
        takes_tokens(ts, c, path(ts, c)),
{
    match peek(ts, c) {
        Err(_) => {},
        Ok(t) => {
            let first = path_segment(
                ts,
                if t.kind == TokenKind::PathSeparator {
                    advance(c)
                } else {
                    c
                },
            );
            if first.out is Ok {
                lemma_path_rest_progress(ts, first.next, seq![first.out->Ok_0]);
            }
        },
    }
}

/// A list of expressions does not move the cursor back.
pub proof fn lemma_expr_list_progress(
    ts: Seq<Token>,
    c: Cursor,
    closing: TokenKind,
    acc: Seq<ExpressionView>,
)
    ensures
        moves_on(ts, c, expr_list(ts, c, closing, acc)),
    decreases ts.len() - c.pos, 6int,
{
    match peek(ts, c) {
        Err(_) => {},
        Ok(t) => if t.kind != closing {
            lemma_expression_progress(ts, c);
            let item = expression(ts, c);
            if item.out is Ok {
                let sep = separator(ts, item.next, closing);
                if sep.out is Ok {
                    lemma_expr_list_progress(ts, sep.next, closing, acc.push(item.out->Ok_0));
                }
            }
        },
    }
}

/// An expression that is read has taken a token.
pub proof fn lemma_expression_progress(ts: Seq<Token>, c: Cursor)
    ensures
        takes_tokens(ts, c, expression(ts, c)),
    decreases ts.len() - c.pos, 5int,
{
    lemma_primary_progress(ts, c);
    let first = primary(ts, c);
    if first.out is Ok {
        lemma_climb_progress(ts, first.next, first.out->Ok_0, 0);
    }
}

/// A primary expression that is read has taken a token.
pub proof fn lemma_primary_progress(ts: Seq<Token>, c: Cursor)
    ensures
        takes_tokens(ts, c, primary(ts, c)),
    decreases ts.len() - c.pos, 4int,
{
    match peek(ts, c) {
        Err(_) => {},
        Ok(t) => match t.kind {
            TokenKind::Ident => {
                let name = ident(ts, c);
                if name.out is Ok && peek(ts, name.next) is Ok {
                    lemma_call_progress(ts, c, name.out->Ok_0, advance(name.next));
                }
            },
            TokenKind::LBracket
            | TokenKind::DecLit
            | TokenKind::HexLit
            | TokenKind::OctLit
            | TokenKind::BinLit
            | TokenKind::FloatLit
            | TokenKind::RawStr => {
                lemma_literal_progress(ts, c);
            },
            TokenKind::Minus | TokenKind::Not | TokenKind::LParen => {
                lemma_expression_progress(ts, advance(c));
            },
            _ => {},
        },
    }
}

/// A call that is read has taken a token.
pub proof fn lemma_call_progress(ts: Seq<Token>, start: Cursor, callee: Ident, c: Cursor)
    requires
        advances(ts, start, c),
    ensures
        takes_tokens(ts, start, call(ts, start, callee, c)),
    decreases ts.len() - start.pos, 3int,
{
    lemma_expr_list_progress(ts, c, TokenKind::RParen, Seq::empty());
}

/// A literal that is read has taken a token.
pub proof fn lemma_literal_progress(ts: Seq<Token>, c: Cursor)
    ensures
        takes_tokens(ts, c, literal(ts, c)),
    decreases ts.len() - c.pos, 2int,
{
    match peek(ts, c) {
        Err(_) => {},
        Ok(t) => if t.kind == TokenKind::LBracket {
            lemma_array_literal_progress(ts, c);
        },
    }
}

/// An array literal that is read has taken a token.
pub proof fn lemma_array_literal_progress(ts: Seq<Token>, c: Cursor)
    ensures
        takes_tokens(ts, c, array_literal(ts, c)),
    decreases ts.len() - c.pos, 1int,
{
    let open = eat(ts, c, TokenKind::LBracket);
    if open.out is Ok {
        lemma_expr_list_progress(ts, open.next, TokenKind::RBracket, Seq::empty());
    }
}

/// Folding operators in does not move the cursor back, and takes a token
/// where an operator stands at the cursor.
pub proof fn lemma_climb_progress(ts: Seq<Token>, c: Cursor, lhs: ExpressionView, floor: int)
    ensures
        moves_on(ts, c, climb(ts, c, lhs, floor)),
        climb(ts, c, lhs, floor).out is Ok && operator_at(ts, c, floor) is Some ==> advances(
            ts,
            c,
            climb(ts, c, lhs, floor).next,
        ),
    decreases ts.len() - c.pos, 0int,
{
    if peek(ts, c) is Ok {
        match operator_at(ts, c, floor) {
            None => {},
            Some(op) => {
                lemma_primary_progress(ts, advance(c));
                let operand = primary(ts, advance(c));
                if operand.out is Ok {
                    lemma_climb_tighter_progress(
                        ts,
                        operand.next,
                        operand.out->Ok_0,
                        op.binding() as int,
                    );
                    let tighter = climb_tighter(
                        ts,
                        operand.next,
                        operand.out->Ok_0,
                        op.binding() as int,
                    );
                    if tighter.out is Ok {
                        match crate::grammar::combine(lhs, op, tighter.out->Ok_0) {
                            Err(_) => {},
                            Ok(joined) => {
                                lemma_climb_progress(ts, tighter.next, joined, floor);
                            },
                        }
                    }
                }
            },
        }
    }
}

/// Folding tighter operators in does not move the cursor back.
pub proof fn lemma_climb_tighter_progress(
    ts: Seq<Token>,
    c: Cursor,
    rhs: ExpressionView,
    binding: int,
)
    ensures
        moves_on(ts, c, climb_tighter(ts, c, rhs, binding)),
    decreases ts.len() - c.pos, 1int,
{
    if peek(ts, c) is Ok {
        match operator_at(ts, c, binding + 1) {
            None => {},
            Some(op) => {
                lemma_climb_progress(ts, c, rhs, op.binding() as int);
                let folded = climb(ts, c, rhs, op.binding() as int);
                if folded.out is Ok {
                    lemma_climb_tighter_progress(ts, folded.next, folded.out->Ok_0, binding);
                }
            },
        }
    }
}

/// An integer that is read has taken a token.
pub proof fn lemma_integer_progress(ts: Seq<Token>, c: Cursor)
    ensures
        takes_tokens(ts, c, integer(ts, c)),
        c.pos < integer(ts, c).next.pos ==> integer(ts, c).next.pos <= ts.len(),
{
    lemma_literal_progress(ts, c);
}

/// A type that is read has taken a token.
pub proof fn lemma_ty_progress(ts: Seq<Token>, c: Cursor)
    ensures
        takes_tokens(ts, c, ty(ts, c)),
    decreases ts.len() - c.pos, 1int,
{
    match peek(ts, c) {
        Err(_) => {},
        Ok(t) => match t.kind {
            TokenKind::Ident | TokenKind::PathSeparator => {
                lemma_path_progress(ts, c);
            },
            TokenKind::LBracket => {
                lemma_array_type_progress(ts, c);
            },
            _ => {},
        },
    }
}

/// An array type that is read has taken a token.
pub proof fn lemma_array_type_progress(ts: Seq<Token>, c: Cursor)
    ensures
        takes_tokens(ts, c, array_type(ts, c)),
    decreases ts.len() - c.pos, 0int,
{
    let open = eat(ts, c, TokenKind::LBracket);
    if open.out is Ok {
        lemma_ty_progress(ts, open.next);
        let elem = ty(ts, open.next);
        if elem.out is Ok {
            let semi = eat(ts, elem.next, TokenKind::Semicolon);
            if semi.out is Ok {
                lemma_integer_progress(ts, semi.next);
            }
        }
    }
}

/// A type annotation does not move the cursor back.
pub proof fn lemma_annotation_progress(ts: Seq<Token>, c: Cursor, intro: TokenKind)
    ensures
        moves_on(ts, c, annotation(ts, c, intro)),
{
    if peek(ts, c) is Ok {
        lemma_ty_progress(ts, advance(c));
    }
}

/// A name with its type that is read has taken a token.
pub proof fn lemma_typed_name_progress(ts: Seq<Token>, c: Cursor)
    ensures
        takes_tokens(ts, c, typed_name(ts, c)),
{
    let name = ident(ts, c);
    if name.out is Ok {
        let colon = eat(ts, name.next, TokenKind::Colon);
        if colon.out is Ok {
            lemma_ty_progress(ts, colon.next);
        }
    }
}

/// A parameter that is read has taken a token.
pub proof fn lemma_named_parameter_progress(ts: Seq<Token>, c: Cursor)
    ensures
        takes_tokens(ts, c, named_parameter(ts, c)),
{
    lemma_typed_name_progress(ts, c);
}

/// A list of parameters does not move the cursor back.
pub proof fn lemma_parameters_progress(ts: Seq<Token>, c: Cursor, acc: Seq<ParameterDeclView>)
    ensures
        moves_on(ts, c, parameters(ts, c, acc)),
    decreases ts.len() - c.pos,
{
    match peek(ts, c) {
        Err(_) => {},
        Ok(t) => if t.kind != TokenKind::RParen {
            lemma_named_parameter_progress(ts, c);
            let item = named_parameter(ts, c);
            if item.out is Ok {
                let sep = separator(ts, item.next, TokenKind::RParen);
                if sep.out is Ok {
                    lemma_parameters_progress(ts, sep.next, acc.push(item.out->Ok_0));
                }
            }
        },
    }
}

/// A list of fields does not move the cursor back.
pub proof fn lemma_fields_progress(ts: Seq<Token>, c: Cursor, acc: Seq<FieldDeclView>)
    ensures
        moves_on(ts, c, fields(ts, c, acc)),
    decreases ts.len() - c.pos,
{
    match peek(ts, c) {
        Err(_) => {},
        Ok(t) => if t.kind == TokenKind::Ident {
            lemma_typed_name_progress(ts, c);
            let pair = typed_name(ts, c);
            match pair.out {
                Err(_) => {},
                Ok((id, tv)) => {
                    let sep = separator(ts, pair.next, TokenKind::RBrace);
                    if sep.out is Ok {
                        lemma_fields_progress(
                            ts,
                            sep.next,
                            acc.push(
                                FieldDeclView {
                                    ident: id,
                                    field_type: tv,
                                    span: crate::span::Span::between(id.span.start, tv.span.end),
                                },
                            ),
                        );
                    }
                },
            }
        },
    }
}

/// A struct declaration that is read has taken a token.
pub proof fn lemma_struct_decl_progress(ts: Seq<Token>, c: Cursor)
    ensures
        takes_tokens(ts, c, struct_decl(ts, c)),
{
    let keyword = eat(ts, c, TokenKind::Struct);
    if keyword.out is Ok {
        let name = ident(ts, keyword.next);
        if name.out is Ok {
            let open = eat(ts, name.next, TokenKind::LBrace);
            if open.out is Ok {
                lemma_fields_progress(ts, open.next, Seq::empty());
            }
        }
    }
}

/// A variable declaration that is read has taken a token.
pub proof fn lemma_variable_decl_progress(ts: Seq<Token>, c: Cursor)
    ensures
        takes_tokens(ts, c, variable_decl(ts, c)),
{
    let keyword = eat(ts, c, TokenKind::Let);
    if keyword.out is Ok {
        let name = ident(ts, keyword.next);
        if name.out is Ok {
            lemma_annotation_progress(ts, name.next, TokenKind::Colon);
            let declared = annotation(ts, name.next, TokenKind::Colon);
            if declared.out is Ok {
                let assign = eat(ts, declared.next, TokenKind::Assign);
                if assign.out is Ok {
                    lemma_expression_progress(ts, assign.next);
                }
            }
        }
    }
}

/// A statement that is read has taken a token.
pub proof fn lemma_statement_progress(ts: Seq<Token>, c: Cursor)
    ensures
        takes_tokens(ts, c, statement(ts, c)),
{
    lemma_variable_decl_progress(ts, c);
}

/// A list of statements does not move the cursor back.
pub proof fn lemma_statements_progress(ts: Seq<Token>, c: Cursor, acc: Seq<StatementDeclView>)
    ensures
        moves_on(ts, c, statements(ts, c, acc)),
    decreases ts.len() - c.pos,
{
    match peek(ts, c) {
        Err(_) => {},
        Ok(t) => if t.kind != TokenKind::RBrace {
            lemma_statement_progress(ts, c);
            let item = statement(ts, c);
            if item.out is Ok {
                lemma_statements_progress(ts, item.next, acc.push(item.out->Ok_0));
            }
        },
    }
}

/// The rest of a function declaration that is read has taken a token.
pub proof fn lemma_fn_tail_progress(
    ts: Seq<Token>,
    c: Cursor,
    keyword: TokenView,
    name: Ident,
    params: Seq<ParameterDeclView>,
)
    ensures
        takes_tokens(ts, c, fn_tail(ts, c, keyword, name, params)),
{
    lemma_annotation_progress(ts, c, TokenKind::Arrow);
    let ret = annotation(ts, c, TokenKind::Arrow);
    if ret.out is Ok {
        let open = eat(ts, ret.next, TokenKind::LBrace);
        if open.out is Ok {
            lemma_statements_progress(ts, open.next, Seq::empty());
        }
    }
}

/// A function declaration that is read has taken a token.
pub proof fn lemma_fn_decl_progress(ts: Seq<Token>, c: Cursor)
    ensures
        takes_tokens(ts, c, fn_decl(ts, c)),
{
    let keyword = eat(ts, c, TokenKind::Fn);
    if keyword.out is Ok {
        let name = ident(ts, keyword.next);
        if name.out is Ok {
            let open = eat(ts, name.next, TokenKind::LParen);
            if open.out is Ok {
                lemma_parameters_progress(ts, open.next, Seq::empty());
                let params = parameters(ts, open.next, Seq::empty());
                if params.out is Ok {
                    let close = eat(ts, params.next, TokenKind::RParen);
                    if close.out is Ok {
                        lemma_fn_tail_progress(
                            ts,
                            close.next,
                            keyword.out->Ok_0,
                            name.out->Ok_0,
                            params.out->Ok_0,
                        );
                    }
                }
            }
        }
    }
}

/// A declaration that is read has taken a token.
pub proof fn lemma_declaration_progress(ts: Seq<Token>, c: Cursor)
    ensures
        takes_tokens(ts, c, declaration(ts, c)),
{
    reveal(declaration);
    lemma_struct_decl_progress(ts, c);
    lemma_fn_decl_progress(ts, c);
}

/// A list of declarations does not move the cursor back.
pub proof fn lemma_declarations_progress(ts: Seq<Token>, c: Cursor, acc: Seq<DeclsView>)
    ensures
        moves_on(ts, c, declarations(ts, c, acc)),
    decreases ts.len() - c.pos,
{
    if token_at(ts, c.pos).kind != TokenKind::Eof {
        lemma_declaration_progress(ts, c);
        let item = declaration(ts, c);
        if item.out is Ok {
            lemma_declarations_progress(ts, item.next, acc.push(item.out->Ok_0));
        }
    }
}

/// A whole program does not move the cursor back.
pub proof fn lemma_program_progress(ts: Seq<Token>, c: Cursor)
    ensures
        moves_on(ts, c, program(ts, c)),
{
    lemma_declarations_progress(ts, c, Seq::empty());
}

} // verus!
