use descent_parser::ast::{
    BinaryOp, Decls, Expression, ExpressionKind, FieldDecl, FnDecl, Ident, Literal, LiteralKind,
    ParameterDecl, Path, PathSegment, StatementDecl, StructDecl, Type, TypeKind, UnaryOp, VarDecl,
};
use descent_parser::error::{Failure, ParserError, Unsupported};
use descent_parser::interner::{Interner, Symbol};
use descent_parser::parser::{combine, numeral, Parser};
use descent_parser::span::Span;
use descent_parser::token::{Token, TokenKind};

// A small tokenizer for the tests: longest match, a `-` directly before a
// digit belongs to the number.

fn keyword_or_ident(text: &str) -> TokenKind {
    match text {
        "struct" => TokenKind::Struct,
        "fn" => TokenKind::Fn,
        "let" => TokenKind::Let,
        _ => TokenKind::Ident,
    }
}

fn number_end(bytes: &[u8], start: usize) -> (TokenKind, usize) {
    let mut i = start;
    if bytes[i] == b'-' {
        i += 1;
    }
    if bytes[i] == b'0' && i + 1 < bytes.len() && matches!(bytes[i + 1], b'x' | b'o' | b'b') {
        let kind = match bytes[i + 1] {
            b'x' => TokenKind::HexLit,
            b'o' => TokenKind::OctLit,
            _ => TokenKind::BinLit,
        };
        i += 2;
        while i < bytes.len() && bytes[i].is_ascii_alphanumeric() {
            i += 1;
        }
        return (kind, i);
    }
    while i < bytes.len() && bytes[i].is_ascii_digit() {
        i += 1;
    }
    if i + 1 < bytes.len() && bytes[i] == b'.' && bytes[i + 1].is_ascii_digit() {
        i += 1;
        while i < bytes.len() && bytes[i].is_ascii_digit() {
            i += 1;
        }
        return (TokenKind::FloatLit, i);
    }
    (TokenKind::DecLit, i)
}

fn punctuation(bytes: &[u8], i: usize) -> (TokenKind, usize) {
    let two = if i + 1 < bytes.len() { &bytes[i..i + 2] } else { &bytes[i..i + 1] };
    match two {
        b"->" => return (TokenKind::Arrow, 2),
        b"::" => return (TokenKind::PathSeparator, 2),
        b"==" => return (TokenKind::Equals, 2),
        b"!=" => return (TokenKind::NotEquals, 2),
        b"<=" => return (TokenKind::LessEq, 2),
        b">=" => return (TokenKind::GreaterEq, 2),
        _ => {}
    }
    let kind = match bytes[i] {
        b'(' => TokenKind::LParen,
        b')' => TokenKind::RParen,
        b'{' => TokenKind::LBrace,
        b'}' => TokenKind::RBrace,
        b'[' => TokenKind::LBracket,
        b']' => TokenKind::RBracket,
        b':' => TokenKind::Colon,
        b',' => TokenKind::Comma,
        b';' => TokenKind::Semicolon,
        b'=' => TokenKind::Assign,
        b'.' => TokenKind::Dot,
        b'+' => TokenKind::Plus,
        b'-' => TokenKind::Minus,
        b'*' => TokenKind::Star,
        b'/' => TokenKind::Slash,
        b'^' => TokenKind::Caret,
        b'!' => TokenKind::Not,
        b'<' => TokenKind::Less,
        b'>' => TokenKind::Greater,
        _ => TokenKind::Error,
    };
    (kind, 1)
}

fn lex(src: &str) -> Vec<Token> {
    let bytes = src.as_bytes();
    let mut tokens = Vec::new();
    let mut i = 0;
    while i < bytes.len() {
        let b = bytes[i];
        if b.is_ascii_whitespace() {
            i += 1;
            continue;
        }
        let (kind, end) = if b.is_ascii_alphabetic() || b == b'_' {
            let mut j = i;
            while j < bytes.len() && (bytes[j].is_ascii_alphanumeric() || bytes[j] == b'_') {
                j += 1;
            }
            (keyword_or_ident(&src[i..j]), j)
        } else if b.is_ascii_digit()
            || (b == b'-' && i + 1 < bytes.len() && bytes[i + 1].is_ascii_digit())
        {
            number_end(bytes, i)
        } else if b == b'"' {
            let mut j = i + 1;
            while j < bytes.len() && bytes[j] != b'"' {
                j += 1;
            }
            if j < bytes.len() {
                (TokenKind::RawStr, j + 1)
            } else {
                (TokenKind::Error, j)
            }
        } else {
            let (kind, len) = punctuation(bytes, i);
            (kind, i + len)
        };
        tokens.push(Token::new(kind, &src[i..end], Span::new(i as u32, end as u32)));
        i = end;
    }
    tokens
}

fn parser(src: &str) -> Parser {
    Parser::new(lex(src), Interner::new())
}

fn sp(start: u32, end: u32) -> Span {
    Span { start, end }
}

fn id(sym: usize, start: u32, end: u32) -> Ident {
    Ident { id: Symbol(sym), span: sp(start, end) }
}

fn path_type(sym: usize, start: u32, end: u32) -> Type {
    Type {
        kind: TypeKind::Path(Path {
            segments: vec![PathSegment { ident: id(sym, start, end) }],
            span: sp(start, end),
        }),
        span: sp(start, end),
    }
}

fn num(value: i128, start: u32, end: u32) -> Expression {
    Expression {
        kind: ExpressionKind::Literal(Literal { kind: LiteralKind::Int(value), span: sp(start, end) }),
        span: sp(start, end),
    }
}

fn name(sym: usize, start: u32, end: u32) -> Expression {
    Expression {
        kind: ExpressionKind::Literal(Literal {
            kind: LiteralKind::Ident(id(sym, start, end)),
            span: sp(start, end),
        }),
        span: sp(start, end),
    }
}

fn binary(lhs: Expression, op: BinaryOp, rhs: Expression) -> Expression {
    let span = sp(lhs.span.start, rhs.span.end);
    Expression { kind: ExpressionKind::Binary(Box::new(lhs), op, Box::new(rhs)), span }
}

fn invalid(kind: TokenKind, lit: &str, start: u32) -> Failure {
    Failure::Rejected(ParserError::InvalidToken(
        Token::new(kind, lit, Span::new(start, start + lit.len() as u32)),
        None,
    ))
}

fn eof(at: u32) -> Failure {
    invalid(TokenKind::Eof, "", at)
}

fn op_text(op: BinaryOp) -> &'static str {
    match op {
        BinaryOp::Access => ".",
        BinaryOp::Mul => "*",
        BinaryOp::Div => "/",
        BinaryOp::Add => "+",
        BinaryOp::Sub => "-",
        BinaryOp::Xor => "^",
        BinaryOp::Less => "<",
        BinaryOp::Greater => ">",
        BinaryOp::LessEq => "<=",
        BinaryOp::GreaterEq => ">=",
        BinaryOp::Equal => "==",
        BinaryOp::NotEqual => "!=",
    }
}

fn show_list(items: &[Expression], names: &Interner) -> String {
    let parts: Vec<String> = items.iter().map(|e| show(e, names)).collect();
    parts.join(" ")
}

// The tree without its spans, fully parenthesized, operator first.
fn show(e: &Expression, names: &Interner) -> String {
    match &e.kind {
        ExpressionKind::Literal(lit) => match &lit.kind {
            LiteralKind::Int(v) => format!("{}", v),
            LiteralKind::Float(text) => format!("{}f", text),
            LiteralKind::RawStr(sym) => format!("{:?}", names.resolve(*sym).unwrap()),
            LiteralKind::Array(items) => format!("[{}]", show_list(items, names)),
            LiteralKind::Ident(ident) => names.resolve(ident.id).unwrap(),
        },
        ExpressionKind::Unary(op, operand) => {
            let sign = match op {
                UnaryOp::Neg => "neg",
                UnaryOp::Not => "not",
            };
            format!("({} {})", sign, show(operand, names))
        }
        ExpressionKind::Binary(lhs, op, rhs) => {
            format!("({} {} {})", op_text(*op), show(lhs, names), show(rhs, names))
        }
        ExpressionKind::FnCall(callee, args) => {
            let callee = names.resolve(callee.segments[0].ident.id).unwrap();
            format!("(call {} [{}])", callee, show_list(args, names))
        }
        ExpressionKind::MethodCall(method, args) => {
            let method = names.resolve(method.ident.id).unwrap();
            format!("(method {} [{}])", method, show_list(args, names))
        }
        ExpressionKind::FieldAccess(base, field) => {
            format!("(field {} {})", show(base, names), names.resolve(field.id).unwrap())
        }
        ExpressionKind::Path(_) => "path".to_string(),
    }
}

// Parses `src` as an expression; a `;` is added so that the expression
// does not stand at the end of the stream.
fn shape(src: &str) -> String {
    let mut p = parser(&format!("{};", src));
    let e = p.parse_expression().unwrap();
    assert_eq!(p.peek().unwrap().kind, TokenKind::Semicolon);
    show(&e, &p.into_interner())
}

fn expression_failure(src: &str) -> Failure {
    parser(src).parse_expression().unwrap_err()
}

fn type_of(src: &str) -> Result<Type, Failure> {
    parser(src).parse_type()
}

#[test]
fn struct_test() {
    let decls = parser("struct S { x: T, y: U }").parse().unwrap();
    assert_eq!(
        decls,
        vec![Decls::Struct(StructDecl {
            ident: id(0, 7, 8),
            fields: vec![
                FieldDecl { ident: id(1, 11, 12), field_type: path_type(2, 14, 15), span: sp(11, 15) },
                FieldDecl { ident: id(3, 17, 18), field_type: path_type(4, 20, 21), span: sp(17, 21) },
            ],
            span: sp(0, 23),
        })]
    );
}

#[test]
fn aaaaaaa() {
    let mut parser = parser("(10 + 5 - (2 * 3 / (3 ^ 8)) == 7) != 1;");
    let e = parser.parse_expression().unwrap();
    assert_eq!(parser.position(), 21);
    assert_eq!(e.span, sp(1, 38));
    let left = match &e.kind {
        ExpressionKind::Binary(lhs, BinaryOp::NotEqual, rhs) => {
            assert_eq!(**rhs, num(1, 37, 38));
            lhs
        }
        other => panic!("{:?}", other),
    };
    assert_eq!(left.span, sp(1, 32));
    assert_eq!(
        show(&e, &parser.into_interner()),
        "(!= (== (- (+ 10 5) (/ (* 2 3) (^ 3 8))) 7) 1)"
    );
}

#[test]
fn aaaaaaa2() {
    let mut parser = parser(r#"[0, 1, 2, 3] + "foo bar" - -52.0;"#);
    let e = parser.parse_expression().unwrap();
    assert_eq!(parser.position(), 13);
    assert_eq!(e.span, sp(0, 32));
    assert_eq!(
        show(&e, &parser.into_interner()),
        r#"(- (+ [0 1 2 3] "foo bar") -52.0f)"#
    );
}

#[test]
fn empty_input_is_an_empty_program() {
    assert_eq!(parser("").parse(), Ok(vec![]));
    assert_eq!(parser("   ").try_parse(), Ok(vec![]));
}

#[test]
fn explicit_end_token_ends_the_program() {
    let mut tokens = lex("struct S { x: T }");
    tokens.push(Token::new(TokenKind::Eof, "", Span::new(17, 17)));
    let mut p = Parser::new(tokens, Interner::new());
    let decls = p.parse().unwrap();
    assert_eq!(decls.len(), 1);
    assert_eq!(p.position(), 7);
}

#[test]
fn function_declaration_round_trip() {
    let decls = parser("fn f(x: i32) -> i32 { let y: i32 = x; }").parse().unwrap();
    assert_eq!(
        decls,
        vec![Decls::Fn(FnDecl {
            ident: id(0, 3, 4),
            parameters: vec![ParameterDecl {
                ident: id(1, 5, 6),
                ty: path_type(2, 8, 11),
                span: sp(5, 11),
            }],
            ret: Some(path_type(2, 16, 19)),
            statements: vec![StatementDecl::VarDecl(VarDecl {
                ident: id(3, 26, 27),
                ty: Some(path_type(2, 29, 32)),
                expr: name(1, 35, 36),
                span: sp(22, 37),
            })],
            span: sp(0, 39),
        })]
    );
}

#[test]
fn declarations_keep_their_order() {
    let src = "struct A { x: T } fn f() {} struct B { y: T } fn g() {} fn h() {}";
    let mut p = parser(src);
    let decls = p.parse().unwrap();
    let names = p.into_interner();
    let seen: Vec<(bool, String)> = decls
        .iter()
        .map(|d| match d {
            Decls::Struct(s) => (true, names.resolve(s.ident.id).unwrap()),
            Decls::Fn(f) => (false, names.resolve(f.ident.id).unwrap()),
        })
        .collect();
    let expected: Vec<(bool, String)> =
        [(true, "A"), (false, "f"), (true, "B"), (false, "g"), (false, "h")]
            .iter()
            .map(|(s, n)| (*s, n.to_string()))
            .collect();
    assert_eq!(seen, expected);
}

#[test]
fn first_error_ends_the_parse() {
    let mut p = parser("struct A { x: T } let struct B { y: T }");
    assert_eq!(p.parse(), Err(ParserError::InvalidToken(Token::new(TokenKind::Let, "let", sp(18, 21)), None)));
    assert_eq!(p.position(), 7);
}

#[test]
fn lexical_error_at_top_level_is_an_invalid_token() {
    assert_eq!(
        parser("struct A { x: T } #").try_parse(),
        Err(invalid(TokenKind::Error, "#", 18))
    );
}

#[test]
fn empty_struct_body_fails() {
    assert_eq!(parser("struct S {}").try_parse(), Err(invalid(TokenKind::RBrace, "}", 10)));
    assert_eq!(
        parser("struct S {}").parse(),
        Err(ParserError::InvalidToken(Token::new(TokenKind::RBrace, "}", sp(10, 11)), None))
    );
}

#[test]
fn trailing_comma_after_last_field_changes_nothing_but_the_end() {
    let with = parser("struct S { x: T, }").parse().unwrap();
    let without = parser("struct S { x: T }").parse().unwrap();
    let field = FieldDecl { ident: id(1, 11, 12), field_type: path_type(2, 14, 15), span: sp(11, 15) };
    assert_eq!(
        with,
        vec![Decls::Struct(StructDecl { ident: id(0, 7, 8), fields: vec![field], span: sp(0, 18) })]
    );
    match (&with[0], &without[0]) {
        (Decls::Struct(a), Decls::Struct(b)) => {
            assert_eq!(a.ident, b.ident);
            assert_eq!(a.fields, b.fields);
            assert_eq!(b.span, sp(0, 17));
        }
        other => panic!("{:?}", other),
    }
}

#[test]
fn comma_is_mandatory_between_fields() {
    assert_eq!(
        parser("struct S { x: [T; 1] y: U }").try_parse(),
        Err(invalid(TokenKind::Ident, "y", 21))
    );
    // Two identifiers in a row read as one path, so the colon is what fails.
    assert_eq!(
        parser("struct S { x: T y: U }").try_parse(),
        Err(invalid(TokenKind::Colon, ":", 17))
    );
}

#[test]
fn field_list_rejects_a_token_that_starts_no_field() {
    assert_eq!(
        parser("struct S { x: T, 5 }").try_parse(),
        Err(invalid(TokenKind::DecLit, "5", 17))
    );
    assert_eq!(parser("struct S { x: T,").try_parse(), Err(eof(16)));
}

#[test]
fn struct_needs_name_and_braces() {
    assert_eq!(parser("struct { x: T }").try_parse(), Err(invalid(TokenKind::LBrace, "{", 7)));
    assert_eq!(parser("struct S x: T }").try_parse(), Err(invalid(TokenKind::Ident, "x", 9)));
    assert_eq!(parser("struct S { x T }").try_parse(), Err(invalid(TokenKind::Ident, "T", 13)));
}

#[test]
fn function_without_parameters_return_type_or_statements() {
    let decls = parser("fn f() {}").parse().unwrap();
    assert_eq!(
        decls,
        vec![Decls::Fn(FnDecl {
            ident: id(0, 3, 4),
            parameters: vec![],
            ret: None,
            statements: vec![],
            span: sp(0, 9),
        })]
    );
}

#[test]
fn function_parameters_with_trailing_comma() {
    let mut p = parser("fn f(a: T, b: [U; 2],) { }");
    let decls = p.parse().unwrap();
    match &decls[0] {
        Decls::Fn(f) => {
            assert_eq!(f.parameters.len(), 2);
            assert_eq!(f.parameters[0].span, sp(5, 9));
            assert_eq!(f.parameters[1].ident, id(3, 11, 12));
            assert_eq!(
                f.parameters[1].ty,
                Type {
                    kind: TypeKind::Array(Box::new(path_type(4, 15, 16)), 2),
                    span: sp(14, 20),
                }
            );
            assert_eq!(f.parameters[1].span, sp(11, 20));
        }
        other => panic!("{:?}", other),
    }
}

#[test]
fn comma_is_mandatory_between_parameters() {
    assert_eq!(
        parser("fn f(a: [T; 1] b: U) {}").try_parse(),
        Err(invalid(TokenKind::Ident, "b", 15))
    );
}

#[test]
fn several_statements_and_untyped_let() {
    let mut p = parser("fn f() { let a = 1; let b: T = a + 2; }");
    let decls = p.parse().unwrap();
    match &decls[0] {
        Decls::Fn(f) => {
            assert_eq!(f.statements.len(), 2);
            assert_eq!(
                f.statements[0],
                StatementDecl::VarDecl(VarDecl {
                    ident: id(1, 13, 14),
                    ty: None,
                    expr: num(1, 17, 18),
                    span: sp(9, 19),
                })
            );
            match &f.statements[1] {
                StatementDecl::VarDecl(v) => {
                    assert_eq!(v.ty, Some(path_type(3, 27, 28)));
                    assert_eq!(v.expr, binary(name(1, 31, 32), BinaryOp::Add, num(2, 35, 36)));
                    assert_eq!(v.span, sp(20, 37));
                }
            }
        }
        other => panic!("{:?}", other),
    }
}

#[test]
fn statement_that_is_no_let_is_unsupported() {
    let mut p = parser("fn f() { x = 1; }");
    assert_eq!(p.try_parse(), Err(Failure::Unsupported(Unsupported::Statement)));
    assert_eq!(p.position(), 5);
    assert_eq!(
        parser("x").parse_statement(),
        Err(Failure::Unsupported(Unsupported::Statement))
    );
}

#[test]
fn let_needs_assign_initializer_and_semicolon() {
    assert_eq!(parser("let x;").parse_variable_decl(), Err(invalid(TokenKind::Semicolon, ";", 5)));
    assert_eq!(parser("let x = 1 }").parse_variable_decl(), Err(invalid(TokenKind::RBrace, "}", 10)));
    assert_eq!(parser("let = 1;").parse_variable_decl(), Err(invalid(TokenKind::Assign, "=", 4)));
    assert_eq!(parser("let x = 1").parse_variable_decl(), Err(eof(9)));
}

#[test]
fn path_with_and_without_separators() {
    let expected = |a: (u32, u32), b: (u32, u32), start: u32| Type {
        kind: TypeKind::Path(Path {
            segments: vec![
                PathSegment { ident: id(0, a.0, a.1) },
                PathSegment { ident: id(1, b.0, b.1) },
            ],
            span: sp(a.0, b.1),
        }),
        span: sp(start, b.1),
    };
    assert_eq!(type_of("a::b;"), Ok(expected((0, 1), (3, 4), 0)));
    assert_eq!(type_of("::a::b;"), Ok(expected((2, 3), (5, 6), 0)));
    assert_eq!(type_of("a b;"), Ok(expected((0, 1), (2, 3), 0)));
    assert_eq!(type_of("a;"), Ok(path_type(0, 0, 1)));
}

#[test]
fn path_needs_a_segment_after_a_separator() {
    assert_eq!(type_of("::;"), Err(invalid(TokenKind::Semicolon, ";", 2)));
    assert_eq!(type_of("a::;"), Err(invalid(TokenKind::Semicolon, ";", 3)));
    assert_eq!(parser("::").parse_path(), Err(eof(2)));
}

#[test]
fn path_at_the_end_of_the_stream_fails() {
    assert_eq!(type_of("a"), Err(eof(1)));
}

#[test]
fn type_rejects_other_tokens() {
    assert_eq!(type_of("5"), Err(invalid(TokenKind::DecLit, "5", 0)));
    assert_eq!(type_of(""), Err(eof(0)));
    let mut p = parser("5");
    assert!(p.parse_type().is_err());
    assert_eq!(p.position(), 0);
}

#[test]
fn array_type_with_length() {
    assert_eq!(
        type_of("[i32; 4]"),
        Ok(Type { kind: TypeKind::Array(Box::new(path_type(0, 1, 4)), 4), span: sp(0, 8) })
    );
    assert_eq!(
        parser("[i32; 4]").parse_array_ty(),
        Ok(Type { kind: TypeKind::Array(Box::new(path_type(0, 1, 4)), 4), span: sp(0, 8) })
    );
    assert_eq!(
        type_of("[i32; 0x10]"),
        Ok(Type { kind: TypeKind::Array(Box::new(path_type(0, 1, 4)), 16), span: sp(0, 11) })
    );
    assert_eq!(
        type_of("[i32; 0]"),
        Ok(Type { kind: TypeKind::Array(Box::new(path_type(0, 1, 4)), 0), span: sp(0, 8) })
    );
}

#[test]
fn nested_array_type() {
    let inner = Type { kind: TypeKind::Array(Box::new(path_type(0, 2, 3)), 2), span: sp(1, 7) };
    assert_eq!(
        type_of("[[T; 2]; 3]"),
        Ok(Type { kind: TypeKind::Array(Box::new(inner), 3), span: sp(0, 11) })
    );
}

#[test]
fn negative_array_length_is_its_own_error() {
    assert_eq!(
        type_of("[i32; -1]"),
        Err(Failure::Rejected(ParserError::InvalidArraySize(-1)))
    );
    let mut p = parser("[i32; -170141183460469231731687303715884105728]");
    assert_eq!(
        p.parse_type(),
        Err(Failure::Rejected(ParserError::InvalidArraySize(i128::MIN)))
    );
    assert_eq!(p.position(), 4);
}

#[test]
fn array_length_must_be_an_integer_literal() {
    assert_eq!(
        type_of("[i32; 1.5]"),
        Err(Failure::Rejected(ParserError::ExpectedIntegerLit(LiteralKind::Float("1.5".to_string()))))
    );
    assert_eq!(
        type_of("[i32; n]"),
        Err(Failure::Rejected(ParserError::ExpectedIntegerLit(LiteralKind::Ident(id(1, 6, 7)))))
    );
    assert_eq!(
        type_of(r#"[i32; "s"]"#),
        Err(Failure::Rejected(ParserError::ExpectedIntegerLit(LiteralKind::RawStr(Symbol(1)))))
    );
    assert_eq!(
        type_of("[i32; [1]]"),
        Err(Failure::Rejected(ParserError::ExpectedIntegerLit(LiteralKind::Array(vec![num(1, 7, 8)]))))
    );
    assert_eq!(parser("x").parse_integer_literal().is_err(), true);
    assert_eq!(parser("12").parse_integer_literal(), Ok(12));
}

#[test]
fn array_length_that_is_no_literal_is_an_unexpected_token() {
    assert_eq!(
        type_of("[i32; +]"),
        Err(Failure::Rejected(ParserError::UnexpectedToken(Token::new(
            TokenKind::Plus,
            "+",
            sp(6, 7)
        ))))
    );
    let mut p = parser("+");
    assert!(p.parse_literal().is_err());
    assert_eq!(p.position(), 0);
}

#[test]
fn array_type_needs_semicolon_and_closing_bracket() {
    assert_eq!(type_of("[i32, 4]"), Err(invalid(TokenKind::Comma, ",", 4)));
    assert_eq!(type_of("[i32; 4)"), Err(invalid(TokenKind::RParen, ")", 7)));
    assert_eq!(type_of("[i32; 4"), Err(eof(7)));
}

#[test]
fn integer_literals_in_each_radix() {
    let value = |src: &str| match parser(src).parse_literal().unwrap().kind {
        LiteralKind::Int(v) => v,
        other => panic!("{:?}", other),
    };
    assert_eq!(value("0xFF"), 255);
    assert_eq!(value("0b101"), 5);
    assert_eq!(value("0o17"), 15);
    assert_eq!(value("42"), 42);
    assert_eq!(value("-42"), -42);
    assert_eq!(value("0xff"), 255);
    assert_eq!(value("170141183460469231731687303715884105727"), i128::MAX);
    assert_eq!(
        parser("0xFF").parse_literal(),
        Ok(Literal { kind: LiteralKind::Int(255), span: sp(0, 4) })
    );
}

#[test]
fn numeral_strips_the_prefix_by_characters() {
    let t = |kind, lit: &str| Token::new(kind, lit, Span::new(0, lit.len() as u32));
    assert_eq!(
        numeral(&t(TokenKind::HexLit, "0x1f"), 16, 2),
        Ok(Literal { kind: LiteralKind::Int(31), span: sp(0, 4) })
    );
    assert_eq!(
        numeral(&t(TokenKind::DecLit, "31"), 10, 0),
        Ok(Literal { kind: LiteralKind::Int(31), span: sp(0, 2) })
    );
    assert_eq!(
        numeral(&t(TokenKind::HexLit, "\u{e9}\u{e9}1f"), 16, 2),
        Ok(Literal { kind: LiteralKind::Int(31), span: sp(0, 6) })
    );
}

#[test]
fn malformed_numerals_are_unsupported() {
    let t = |kind, lit: &str| Token::new(kind, lit, Span::new(0, lit.len() as u32));
    let unsupported = Err(Failure::Unsupported(Unsupported::Numeral));
    assert_eq!(numeral(&t(TokenKind::HexLit, "0x"), 16, 2), unsupported);
    assert_eq!(numeral(&t(TokenKind::HexLit, "0"), 16, 2), unsupported);
    assert_eq!(numeral(&t(TokenKind::HexLit, "-0x1"), 16, 2), unsupported);
    assert_eq!(numeral(&t(TokenKind::OctLit, "0o8"), 8, 2), unsupported);
    assert_eq!(numeral(&t(TokenKind::BinLit, "0b2"), 2, 2), unsupported);
    assert_eq!(numeral(&t(TokenKind::DecLit, ""), 10, 0), unsupported);
    assert_eq!(
        numeral(&t(TokenKind::DecLit, "170141183460469231731687303715884105728"), 10, 0),
        unsupported
    );
    let mut p = parser("0xZZ;");
    assert_eq!(p.parse_expression(), Err(Failure::Unsupported(Unsupported::Numeral)));
    assert_eq!(p.position(), 1);
}

#[test]
fn float_literal_keeps_its_text() {
    assert_eq!(
        parser("52.0").parse_literal(),
        Ok(Literal { kind: LiteralKind::Float("52.0".to_string()), span: sp(0, 4) })
    );
}

#[test]
fn string_literal_is_interned_without_its_delimiters() {
    let mut p = parser(r#""foo bar" "" "foo bar""#);
    assert_eq!(
        p.parse_literal(),
        Ok(Literal { kind: LiteralKind::RawStr(Symbol(0)), span: sp(0, 9) })
    );
    assert_eq!(
        p.parse_literal(),
        Ok(Literal { kind: LiteralKind::RawStr(Symbol(1)), span: sp(10, 12) })
    );
    assert_eq!(
        p.parse_literal(),
        Ok(Literal { kind: LiteralKind::RawStr(Symbol(0)), span: sp(13, 22) })
    );
    let names = p.into_interner();
    assert_eq!(names.resolve(Symbol(0)), Some("foo bar".to_string()));
    assert_eq!(names.resolve(Symbol(1)), Some(String::new()));
    assert_eq!(names.len(), 2);
}

#[test]
fn string_literal_shorter_than_its_delimiters_is_unsupported() {
    let short = Token::new(TokenKind::RawStr, "\"", Span::new(0, 1));
    let mut p = Parser::new(vec![short], Interner::new());
    assert_eq!(p.parse_literal(), Err(Failure::Unsupported(Unsupported::RawString)));
    assert_eq!(p.position(), 1);
    let empty = Token::new(TokenKind::RawStr, "", Span::new(0, 0));
    assert_eq!(
        Parser::new(vec![empty], Interner::new()).parse_literal(),
        Err(Failure::Unsupported(Unsupported::RawString))
    );
}

#[test]
fn string_delimiters_are_stripped_by_characters() {
    let token = Token::new(TokenKind::RawStr, "\u{ab}h\u{e9}\u{bb}", Span::new(0, 7));
    let mut p = Parser::new(vec![token], Interner::new());
    assert_eq!(p.parse_literal().unwrap().kind, LiteralKind::RawStr(Symbol(0)));
    assert_eq!(p.into_interner().resolve(Symbol(0)), Some("h\u{e9}".to_string()));
}

#[test]
fn identifiers_share_symbols_with_strings_of_the_same_text() {
    let mut p = parser(r#"x "x" y x"#);
    assert_eq!(p.parse_ident(), Ok(id(0, 0, 1)));
    assert_eq!(p.parse_literal().unwrap().kind, LiteralKind::RawStr(Symbol(0)));
    assert_eq!(p.parse_path_segment(), Ok(PathSegment { ident: id(1, 6, 7) }));
    assert_eq!(p.parse_ident(), Ok(id(0, 8, 9)));
}

#[test]
fn injected_interner_keeps_its_symbols() {
    let mut names = Interner::new();
    names.intern("y");
    names.intern("x");
    let mut p = Parser::new(lex("x z y"), names);
    assert_eq!(p.parse_ident(), Ok(id(1, 0, 1)));
    assert_eq!(p.parse_ident(), Ok(id(2, 2, 3)));
    assert_eq!(p.parse_ident(), Ok(id(0, 4, 5)));
    assert_eq!(p.into_interner().len(), 3);
}

#[test]
fn ident_rejects_other_tokens() {
    let mut p = parser("5 x");
    assert_eq!(p.parse_ident(), Err(invalid(TokenKind::DecLit, "5", 0)));
    assert_eq!(p.position(), 1);
    assert_eq!(p.into_interner().len(), 0);
}

#[test]
fn array_literal_with_and_without_trailing_comma() {
    let expected = |end: u32| Literal {
        kind: LiteralKind::Array(vec![num(0, 1, 2), num(1, 4, 5)]),
        span: sp(0, end),
    };
    assert_eq!(parser("[0, 1]").parse_array_literal(), Ok(expected(6)));
    assert_eq!(parser("[0, 1,]").parse_array_literal(), Ok(expected(7)));
    assert_eq!(
        parser("[]").parse_literal(),
        Ok(Literal { kind: LiteralKind::Array(vec![]), span: sp(0, 2) })
    );
}

#[test]
fn array_literal_needs_commas_and_closing_bracket() {
    assert_eq!(parser("[0 1]").parse_array_literal(), Err(invalid(TokenKind::DecLit, "1", 3)));
    assert_eq!(parser("[0, 1").parse_array_literal(), Err(eof(5)));
    assert_eq!(parser("(0]").parse_array_literal(), Err(invalid(TokenKind::LParen, "(", 0)));
}

#[test]
fn expression_list_stops_before_the_closing_token() {
    let mut p = parser("a, 1, )");
    assert_eq!(p.parse_expr_list(TokenKind::RParen), Ok(vec![name(0, 0, 1), num(1, 3, 4)]));
    assert_eq!(p.position(), 4);
    let mut p = parser(")");
    assert_eq!(p.parse_expr_list(TokenKind::RParen), Ok(vec![]));
    assert_eq!(p.position(), 0);
    assert_eq!(parser("a b)").parse_expr_list(TokenKind::RParen), Err(invalid(TokenKind::Ident, "b", 2)));
}

#[test]
fn multiplication_binds_tighter_than_addition() {
    assert_eq!(shape("1 + 2 * 3"), "(+ 1 (* 2 3))");
    assert_eq!(shape("1 * 2 + 3"), "(+ (* 1 2) 3)");
    assert_eq!(shape("1 - 2 / 3"), "(- 1 (/ 2 3))");
    assert_eq!(shape("1 / 2 - 3"), "(- (/ 1 2) 3)");
    assert_eq!(shape("1 + 2 * 3 - 4 / 5"), "(- (+ 1 (* 2 3)) (/ 4 5))");
    assert_eq!(shape("10 + 5 - (2 * 3 / (3 ^ 8)) == 7"), "(== (- (+ 10 5) (/ (* 2 3) (^ 3 8))) 7)");
}

#[test]
fn operators_of_equal_binding_associate_to_the_left() {
    assert_eq!(shape("1 - 2 - 3"), "(- (- 1 2) 3)");
    assert_eq!(shape("1 - 2 + 3 - 4"), "(- (+ (- 1 2) 3) 4)");
    assert_eq!(shape("8 / 4 / 2"), "(/ (/ 8 4) 2)");
    assert_eq!(shape("8 / 4 * 2"), "(* (/ 8 4) 2)");
    assert_eq!(shape("a == b != c"), "(!= (== a b) c)");
    assert_eq!(shape("a < b >= c"), "(>= (< a b) c)");
}

#[test]
fn parentheses_make_an_atomic_operand_and_leave_no_node() {
    assert_eq!(shape("(1 + 2) * 3"), "(* (+ 1 2) 3)");
    assert_eq!(shape("1 - (2 - 3)"), "(- 1 (- 2 3))");
    assert_eq!(shape("((1))"), "1");
    let mut p = parser("(1 + 2) * 3;");
    let e = p.parse_expression().unwrap();
    assert_eq!(
        e,
        binary(binary(num(1, 1, 2), BinaryOp::Add, num(2, 5, 6)), BinaryOp::Mul, num(3, 10, 11))
    );
    assert_eq!(parser("(7);").parse_expression(), Ok(num(7, 1, 2)));
}

#[test]
fn binding_order_of_all_operators() {
    assert_eq!(shape("a == b < c ^ d + e * f.g"), "(== a (< b (^ c (+ d (* e (field f g))))))");
    assert_eq!(shape("a.g * b + c ^ d < e == f"), "(== (< (^ (+ (* (field a g) b) c) d) e) f)");
    assert_eq!(shape("a <= b > c"), "(> (<= a b) c)");
    assert_eq!(BinaryOp::Access.precedence() > BinaryOp::Mul.precedence(), true);
    assert_eq!(BinaryOp::Mul.precedence(), BinaryOp::Div.precedence());
    assert_eq!(BinaryOp::Mul.precedence() > BinaryOp::Add.precedence(), true);
    assert_eq!(BinaryOp::Add.precedence(), BinaryOp::Sub.precedence());
    assert_eq!(BinaryOp::Sub.precedence() > BinaryOp::Less.precedence(), true);
    assert_eq!(BinaryOp::GreaterEq.precedence() > BinaryOp::Equal.precedence(), true);
    assert_eq!(BinaryOp::Equal.precedence(), BinaryOp::NotEqual.precedence());
}

#[test]
fn operator_tables() {
    assert_eq!(BinaryOp::from_kind(TokenKind::Dot), Some(BinaryOp::Access));
    assert_eq!(BinaryOp::from_kind(TokenKind::Minus), Some(BinaryOp::Sub));
    assert_eq!(BinaryOp::from_kind(TokenKind::Caret), Some(BinaryOp::Xor));
    assert_eq!(BinaryOp::from_kind(TokenKind::LessEq), Some(BinaryOp::LessEq));
    assert_eq!(BinaryOp::from_kind(TokenKind::Not), None);
    assert_eq!(BinaryOp::from_kind(TokenKind::Assign), None);
    assert_eq!(UnaryOp::from_kind(TokenKind::Minus), Some(UnaryOp::Neg));
    assert_eq!(UnaryOp::from_kind(TokenKind::Not), Some(UnaryOp::Not));
    assert_eq!(UnaryOp::from_kind(TokenKind::Plus), None);
}

#[test]
fn unary_operator_takes_a_whole_expression_as_operand() {
    assert_eq!(shape("- a + b"), "(neg (+ a b))");
    assert_eq!(shape("!a == b"), "(not (== a b))");
    assert_eq!(shape("a * - b + c"), "(* a (neg (+ b c)))");
    assert_eq!(shape("- - a"), "(neg (neg a))");
    let e = parser("- a + b;").parse_expression().unwrap();
    assert_eq!(e.span, sp(0, 7));
}

#[test]
fn field_access_on_a_bare_identifier() {
    let e = parser("a.b;").parse_expression().unwrap();
    assert_eq!(
        e,
        Expression {
            kind: ExpressionKind::FieldAccess(Box::new(name(0, 0, 1)), id(1, 2, 3)),
            span: sp(0, 3),
        }
    );
    assert_eq!(shape("a.b.c"), "(field (field a b) c)");
    assert_eq!(shape("(a + b).c"), "(field (+ a b) c)");
    // Parentheses leave no node, so a bare identifier in them is one still.
    assert_eq!(shape("a.(b)"), "(field a b)");
}

#[test]
fn method_call_puts_the_receiver_first() {
    let e = parser("a.f(x, y);").parse_expression().unwrap();
    assert_eq!(
        e,
        Expression {
            kind: ExpressionKind::MethodCall(
                PathSegment { ident: id(1, 2, 3) },
                vec![name(0, 0, 1), name(2, 4, 5), name(3, 7, 8)],
            ),
            span: sp(0, 9),
        }
    );
    assert_eq!(shape("a.f()"), "(method f [a])");
    assert_eq!(shape("a.f(x).g(y).h"), "(field (method g [(method f [a x]) y]) h)");
    assert_eq!(shape("a.b + c.d(1) * 2"), "(+ (field a b) (* (method d [c 1]) 2))");
}

#[test]
fn access_with_another_right_side_is_unsupported() {
    assert_eq!(expression_failure("a.5;"), Failure::Unsupported(Unsupported::AccessTarget));
    assert_eq!(expression_failure("a.(b + c);"), Failure::Unsupported(Unsupported::AccessTarget));
    assert_eq!(expression_failure("a.\"s\";"), Failure::Unsupported(Unsupported::AccessTarget));
    assert_eq!(expression_failure("a.-b;"), Failure::Unsupported(Unsupported::AccessTarget));
    assert_eq!(expression_failure("a.[b];"), Failure::Unsupported(Unsupported::AccessTarget));
}

#[test]
fn combine_field_method_and_binary() {
    assert_eq!(
        combine(name(0, 0, 1), BinaryOp::Access, name(1, 2, 3)),
        Ok(Expression {
            kind: ExpressionKind::FieldAccess(Box::new(name(0, 0, 1)), id(1, 2, 3)),
            span: sp(0, 3),
        })
    );
    assert_eq!(
        combine(name(0, 0, 1), BinaryOp::Add, name(1, 2, 3)),
        Ok(binary(name(0, 0, 1), BinaryOp::Add, name(1, 2, 3)))
    );
    let call = |segments: Vec<PathSegment>| Expression {
        kind: ExpressionKind::FnCall(Path { segments, span: sp(2, 3) }, vec![num(7, 4, 5)]),
        span: sp(2, 6),
    };
    assert_eq!(
        combine(name(0, 0, 1), BinaryOp::Access, call(vec![PathSegment { ident: id(1, 2, 3) }])),
        Ok(Expression {
            kind: ExpressionKind::MethodCall(
                PathSegment { ident: id(1, 2, 3) },
                vec![name(0, 0, 1), num(7, 4, 5)],
            ),
            span: sp(0, 6),
        })
    );
    assert_eq!(
        combine(name(0, 0, 1), BinaryOp::Access, call(vec![])),
        Err(Failure::Unsupported(Unsupported::AccessTarget))
    );
    assert_eq!(
        combine(name(0, 0, 1), BinaryOp::Access, num(7, 2, 3)),
        Err(Failure::Unsupported(Unsupported::AccessTarget))
    );
    // Operands given in the wrong order still give a span with ordered ends.
    assert_eq!(combine(num(1, 8, 9), BinaryOp::Mul, num(2, 0, 1)).unwrap().span, sp(1, 8));
}

#[test]
fn calls_with_any_number_of_arguments() {
    let e = parser("f(1, x);").parse_expression().unwrap();
    assert_eq!(
        e,
        Expression {
            kind: ExpressionKind::FnCall(
                Path { segments: vec![PathSegment { ident: id(0, 0, 1) }], span: sp(0, 1) },
                vec![num(1, 2, 3), name(1, 5, 6)],
            ),
            span: sp(0, 7),
        }
    );
    assert_eq!(shape("f()"), "(call f [])");
    assert_eq!(shape("f(1,)"), "(call f [1])");
    assert_eq!(shape("f(g(1), 2 + 3) * 4"), "(* (call f [(call g [1]) (+ 2 3)]) 4)");
    assert_eq!(expression_failure("f(1 2);"), invalid(TokenKind::DecLit, "2", 4));
    assert_eq!(expression_failure("f(1;"), invalid(TokenKind::Semicolon, ";", 3));
}

#[test]
fn primary_of_each_kind() {
    assert_eq!(parser("x;").parse_primary(), Ok(name(0, 0, 1)));
    assert_eq!(parser("12;").parse_primary(), Ok(num(12, 0, 2)));
    assert_eq!(parser("(12)").parse_primary(), Ok(num(12, 1, 3)));
    let mut p = parser("1 + 2;");
    assert_eq!(p.parse_primary(), Ok(num(1, 0, 1)));
    assert_eq!(p.position(), 1);
    assert_eq!(
        p.parse_inner_expression(num(1, 0, 1), 0),
        Ok(binary(num(1, 0, 1), BinaryOp::Add, num(2, 4, 5)))
    );
}

#[test]
fn inner_expression_leaves_looser_operators() {
    let mut p = parser("* 2 + 3;");
    let mul = BinaryOp::Mul.precedence();
    assert_eq!(
        p.parse_inner_expression(num(1, 0, 0), mul),
        Ok(binary(num(1, 0, 0), BinaryOp::Mul, num(2, 2, 3)))
    );
    assert_eq!(p.peek().unwrap().kind, TokenKind::Plus);
    let mut p = parser("+ 3;");
    assert_eq!(p.parse_inner_expression(num(1, 0, 0), mul), Ok(num(1, 0, 0)));
    assert_eq!(p.position(), 0);
}

#[test]
fn token_that_starts_no_expression_is_unsupported() {
    assert_eq!(expression_failure(";"), Failure::Unsupported(Unsupported::Primary));
    assert_eq!(expression_failure("1 + ;"), Failure::Unsupported(Unsupported::Primary));
    assert_eq!(expression_failure("let"), Failure::Unsupported(Unsupported::Primary));
    assert_eq!(expression_failure("f(,)"), Failure::Unsupported(Unsupported::Primary));
    let mut p = parser("fn f() { let a = ; }");
    assert_eq!(p.try_parse(), Err(Failure::Unsupported(Unsupported::Primary)));
}

#[test]
fn expression_at_the_end_of_the_stream_fails() {
    assert_eq!(expression_failure("1"), eof(1));
    assert_eq!(expression_failure("a"), eof(1));
    assert_eq!(expression_failure("1 +"), eof(3));
    assert_eq!(expression_failure("(1"), eof(2));
    assert_eq!(expression_failure(""), eof(0));
    assert_eq!(expression_failure("1 #"), invalid(TokenKind::Error, "#", 2));
}

#[test]
fn unclosed_parenthesis_is_an_invalid_token() {
    assert_eq!(expression_failure("(1 + 2;"), invalid(TokenKind::Semicolon, ";", 6));
}

#[test]
fn function_needs_its_punctuation() {
    assert_eq!(parser("fn () {}").parse_fn(), Err(invalid(TokenKind::LParen, "(", 3)));
    assert_eq!(parser("fn f {}").parse_fn(), Err(invalid(TokenKind::LBrace, "{", 5)));
    assert_eq!(parser("fn f() -> {}").parse_fn(), Err(invalid(TokenKind::LBrace, "{", 10)));
    assert_eq!(parser("fn f() let").parse_fn(), Err(invalid(TokenKind::Let, "let", 7)));
    assert_eq!(parser("fn f() {").parse_fn(), Err(eof(8)));
    assert_eq!(parser("fn f(").parse_fn(), Err(eof(5)));
    assert_eq!(parser("fn f(5) {}").parse_fn(), Err(invalid(TokenKind::DecLit, "5", 5)));
    assert_eq!(parser("struct S { x: T }").parse_fn(), Err(invalid(TokenKind::Struct, "struct", 0)));
}

#[test]
fn named_parameter_spans_name_and_type() {
    assert_eq!(
        parser("x: [T; 2])").parse_named_parameter(),
        Ok(ParameterDecl {
            ident: id(0, 0, 1),
            ty: Type { kind: TypeKind::Array(Box::new(path_type(1, 4, 5)), 2), span: sp(3, 9) },
            span: sp(0, 9),
        })
    );
    assert_eq!(parser("x T").parse_named_parameter(), Err(invalid(TokenKind::Ident, "T", 2)));
}

#[test]
fn fields_stop_before_the_closing_brace() {
    let mut p = parser("x: T, y: U }");
    let fields = p.parse_fields().unwrap();
    assert_eq!(fields.len(), 2);
    assert_eq!(p.peek().unwrap().kind, TokenKind::RBrace);
    let mut p = parser("}");
    assert_eq!(p.parse_fields(), Ok(vec![]));
    assert_eq!(p.position(), 0);
}

#[test]
fn declaration_is_chosen_by_its_first_token() {
    assert!(matches!(parser("struct S { x: T }").parse_declaration(), Ok(Decls::Struct(_))));
    assert!(matches!(parser("fn f() {}").parse_declaration(), Ok(Decls::Fn(_))));
    let mut p = parser("x");
    assert_eq!(p.parse_declaration(), Err(invalid(TokenKind::Ident, "x", 0)));
    assert_eq!(p.position(), 0);
    assert_eq!(parser("").parse_declaration(), Err(eof(0)));
}

#[test]
fn parse_error_from_a_token() {
    let t = Token::new(TokenKind::Comma, ",", Span::new(4, 5));
    assert_eq!(ParserError::from_token(t.clone()), ParserError::InvalidToken(t.clone(), None));
    assert_eq!(ParserError::from(t.clone()), ParserError::InvalidToken(t.clone(), None));
    let converted: ParserError = t.clone().into();
    assert_eq!(converted, ParserError::InvalidToken(t, None));
}

#[test]
fn paths_and_structs_are_never_empty() {
    let mut p = parser("a::b::c;");
    assert_eq!(p.parse_path().unwrap().segments.len(), 3);
    let decls = parser("struct S { x: T, }").parse().unwrap();
    match &decls[0] {
        Decls::Struct(s) => assert_eq!(s.fields.len(), 1),
        other => panic!("{:?}", other),
    }
}

#[test]
fn two_operators_in_a_row() {
    let ops = [".", "*", "/", "+", "-", "^", "<", ">", "<=", ">=", "==", "!="];
    let kinds = [
        BinaryOp::Access, BinaryOp::Mul, BinaryOp::Div, BinaryOp::Add, BinaryOp::Sub,
        BinaryOp::Xor, BinaryOp::Less, BinaryOp::Greater, BinaryOp::LessEq,
        BinaryOp::GreaterEq, BinaryOp::Equal, BinaryOp::NotEqual,
    ];
    for i in 1..ops.len() {
        for j in 1..ops.len() {
            let src = format!("a {} b {} c", ops[i], ops[j]);
            let expected = if kinds[j].precedence() > kinds[i].precedence() {
                format!("({} a ({} b c))", ops[i], ops[j])
            } else {
                format!("({} ({} a b) c)", ops[j], ops[i])
            };
            assert_eq!(shape(&src), expected, "{}", src);
        }
        assert_eq!(BinaryOp::from_kind(lex(ops[i])[0].kind), Some(kinds[i]));
    }
}

#[test]
fn declaration_spans_from_keyword_to_closing_brace() {
    let src = "  struct A { x: T }   fn f(a: T) -> T { let b = a; }  ";
    let decls = parser(src).parse().unwrap();
    let spans: Vec<Span> = decls
        .iter()
        .map(|d| match d {
            Decls::Struct(s) => s.span,
            Decls::Fn(f) => f.span,
        })
        .collect();
    assert_eq!(spans, vec![sp(2, 19), sp(22, 52)]);
    assert_eq!(&src[2..19], "struct A { x: T }");
    assert_eq!(&src[22..52], "fn f(a: T) -> T { let b = a; }");
}
