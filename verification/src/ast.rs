//! The abstract syntax tree, and the mathematical value of each node.
//!
//! Every node owns its children and carries the span it was parsed from.
//! A node's view replaces vectors by sequences and strings by sequences of
//! characters; contracts speak of views.

use vstd::prelude::*;
use crate::interner::Symbol;
use crate::span::Span;
use crate::token::TokenKind;

verus! {

/// One occurrence of an identifier.
#[derive(Clone, Copy, Debug, PartialEq, Eq, Structural, Hash)]
pub struct Ident {
    pub id: Symbol,
    pub span: Span,
}

/// One segment of a path.
#[derive(Clone, Copy, Debug, PartialEq, Eq, Structural, Hash)]
pub struct PathSegment {
    pub ident: Ident,
}

/// A sequence of one or more segments.
#[derive(Debug, PartialEq, Eq)]
pub struct Path {
    pub segments: Vec<PathSegment>,
    pub span: Span,
}

/// What a type is: a path or an array.
#[derive(Debug, PartialEq, Eq)]
pub enum TypeKind {
    Path(Path),
    /// Element type and number of elements.
    Array(Box<Type>, usize),
}

/// A type.
#[derive(Debug, PartialEq, Eq)]
pub struct Type {
    pub kind: TypeKind,
    pub span: Span,
}

/// The unary operators.
#[derive(Clone, Copy, Debug, PartialEq, Eq, Structural, Hash)]
pub enum UnaryOp {
    Neg,
    Not,
}

/// The binary operators.
#[derive(Clone, Copy, Debug, PartialEq, Eq, Structural, Hash)]
pub enum BinaryOp {
    Access,
    Mul,
    Div,
    Add,
    Sub,
    Xor,
    Less,
    Greater,
    LessEq,
    GreaterEq,
    Equal,
    NotEqual,
}

impl UnaryOp {
    /// The unary operator that a token of the given kind stands for.
    pub open spec fn of(kind: TokenKind) -> Option<UnaryOp> {
        match kind {
            TokenKind::Minus => Some(UnaryOp::Neg),
            TokenKind::Not => Some(UnaryOp::Not),
            _ => None,
        }
    }

    /// The unary operator that a token of the given kind stands for.
    pub fn from_kind(kind: TokenKind) -> (r: Option<UnaryOp>)
        ensures
            r == UnaryOp::of(kind),
    {
        match kind {
            TokenKind::Minus => Some(UnaryOp::Neg),
            TokenKind::Not => Some(UnaryOp::Not),
            _ => None,
        }
    }
}

impl BinaryOp {
    /// The binary operator that a token of the given kind stands for.
    pub open spec fn of(kind: TokenKind) -> Option<BinaryOp> {
        match kind {
            TokenKind::Dot => Some(BinaryOp::Access),
            TokenKind::Star => Some(BinaryOp::Mul),
            TokenKind::Slash => Some(BinaryOp::Div),
            TokenKind::Plus => Some(BinaryOp::Add),
            TokenKind::Minus => Some(BinaryOp::Sub),
            TokenKind::Caret => Some(BinaryOp::Xor),
            TokenKind::Less => Some(BinaryOp::Less),
            TokenKind::Greater => Some(BinaryOp::Greater),
            TokenKind::LessEq => Some(BinaryOp::LessEq),
            TokenKind::GreaterEq => Some(BinaryOp::GreaterEq),
            TokenKind::Equals => Some(BinaryOp::Equal),
            TokenKind::NotEquals => Some(BinaryOp::NotEqual),
            _ => None,
        }
    }

    /// How tightly the operator binds: a larger number binds tighter.
    /// Member access binds tightest, then multiplication and division,
    /// addition and subtraction, exclusive or, the comparisons, and last
    /// equality and inequality.
    pub open spec fn binding(self) -> u8 {
        match self {
            BinaryOp::Access => 6,
            BinaryOp::Mul | BinaryOp::Div => 5,
            BinaryOp::Add | BinaryOp::Sub => 4,
            BinaryOp::Xor => 3,
            BinaryOp::Less | BinaryOp::Greater | BinaryOp::LessEq | BinaryOp::GreaterEq => 2,
            BinaryOp::Equal | BinaryOp::NotEqual => 1,
        }
    }

    /// The binary operator that a token of the given kind stands for.
    pub fn from_kind(kind: TokenKind) -> (r: Option<BinaryOp>)
        ensures
            r == BinaryOp::of(kind),
    {
        match kind {
            TokenKind::Dot => Some(BinaryOp::Access),
            TokenKind::Star => Some(BinaryOp::Mul),
            TokenKind::Slash => Some(BinaryOp::Div),
            TokenKind::Plus => Some(BinaryOp::Add),
            TokenKind::Minus => Some(BinaryOp::Sub),
            TokenKind::Caret => Some(BinaryOp::Xor),
            TokenKind::Less => Some(BinaryOp::Less),
            TokenKind::Greater => Some(BinaryOp::Greater),
            TokenKind::LessEq => Some(BinaryOp::LessEq),
            TokenKind::GreaterEq => Some(BinaryOp::GreaterEq),
            TokenKind::Equals => Some(BinaryOp::Equal),
            TokenKind::NotEquals => Some(BinaryOp::NotEqual),
            _ => None,
        }
    }

    /// How tightly the operator binds.
    #[verifier::when_used_as_spec(binding)]
    pub fn precedence(self) -> (r: u8)
        ensures
            r == self.binding(),
    {
        match self {
            BinaryOp::Access => 6,
            BinaryOp::Mul | BinaryOp::Div => 5,
            BinaryOp::Add | BinaryOp::Sub => 4,
            BinaryOp::Xor => 3,
            BinaryOp::Less | BinaryOp::Greater | BinaryOp::LessEq | BinaryOp::GreaterEq => 2,
            BinaryOp::Equal | BinaryOp::NotEqual => 1,
        }
    }
}

/// What a literal is.
#[derive(Debug, PartialEq, Eq)]
pub enum LiteralKind {
    Int(i128),
    /// The text of a floating-point literal, as it stands in the source.
    Float(String),
    RawStr(Symbol),
    Array(Vec<Expression>),
    Ident(Ident),
}

/// A literal.
#[derive(Debug, PartialEq, Eq)]
pub struct Literal {
    pub kind: LiteralKind,
    pub span: Span,
}

/// What an expression is.
#[derive(Debug, PartialEq, Eq)]
pub enum ExpressionKind {
    Literal(Literal),
    Unary(UnaryOp, Box<Expression>),
    Binary(Box<Expression>, BinaryOp, Box<Expression>),
    FnCall(Path, Vec<Expression>),
    /// The method's name and the arguments, the receiver first.
    MethodCall(PathSegment, Vec<Expression>),
    FieldAccess(Box<Expression>, Ident),
    Path(Path),
}

/// An expression.
#[derive(Debug, PartialEq, Eq)]
pub struct Expression {
    pub kind: ExpressionKind,
    pub span: Span,
}

/// A parameter of a function: its name and type.
#[derive(Debug, PartialEq, Eq)]
pub struct ParameterDecl {
    pub ident: Ident,
    pub ty: Type,
    pub span: Span,
}

/// A field of a struct: its name and type.
#[derive(Debug, PartialEq, Eq)]
pub struct FieldDecl {
    pub ident: Ident,
    pub field_type: Type,
    pub span: Span,
}

/// A struct declaration: its name and one or more fields.
#[derive(Debug, PartialEq, Eq)]
pub struct StructDecl {
    pub ident: Ident,
    pub fields: Vec<FieldDecl>,
    pub span: Span,
}

/// A variable declaration: its name, its type if declared, and its
/// initializer.
#[derive(Debug, PartialEq, Eq)]
pub struct VarDecl {
    pub ident: Ident,
    pub ty: Option<Type>,
    pub expr: Expression,
    pub span: Span,
}

/// A statement.
#[derive(Debug, PartialEq, Eq)]
pub enum StatementDecl {
    VarDecl(VarDecl),
}

/// A function declaration: its name, parameters, return type if declared,
/// and statements.
#[derive(Debug, PartialEq, Eq)]
pub struct FnDecl {
    pub ident: Ident,
    pub parameters: Vec<ParameterDecl>,
    pub ret: Option<Type>,
    pub statements: Vec<StatementDecl>,
    pub span: Span,
}

/// A top-level declaration.
#[derive(Debug, PartialEq, Eq)]
pub enum Decls {
    Struct(StructDecl),
    Fn(FnDecl),
}

/// The value of a [`Path`].
pub struct PathView {
    pub segments: Seq<PathSegment>,
    pub span: Span,
}

/// The value of a [`TypeKind`].
pub enum TypeKindView {
    Path(PathView),
    Array(Box<TypeView>, usize),
}

/// The value of a [`Type`].
pub struct TypeView {
    pub kind: TypeKindView,
    pub span: Span,
}

/// The value of a [`LiteralKind`].
pub enum LiteralKindView {
    Int(i128),
    Float(Seq<char>),
    RawStr(Symbol),
    Array(Seq<ExpressionView>),
    Ident(Ident),
}

/// The value of a [`Literal`].
pub struct LiteralView {
    pub kind: LiteralKindView,
    pub span: Span,
}

/// The value of an [`ExpressionKind`].
pub enum ExpressionKindView {
    Literal(LiteralView),
    Unary(UnaryOp, Box<ExpressionView>),
    Binary(Box<ExpressionView>, BinaryOp, Box<ExpressionView>),
    FnCall(PathView, Seq<ExpressionView>),
    MethodCall(PathSegment, Seq<ExpressionView>),
    FieldAccess(Box<ExpressionView>, Ident),
    Path(PathView),
}

/// The value of an [`Expression`].
pub struct ExpressionView {
    pub kind: ExpressionKindView,
    pub span: Span,
}

/// The value of a [`ParameterDecl`].
pub struct ParameterDeclView {
    pub ident: Ident,
    pub ty: TypeView,
    pub span: Span,
}

/// The value of a [`FieldDecl`].
pub struct FieldDeclView {
    pub ident: Ident,
    pub field_type: TypeView,
    pub span: Span,
}

/// The value of a [`StructDecl`].
pub struct StructDeclView {
    pub ident: Ident,
    pub fields: Seq<FieldDeclView>,
    pub span: Span,
}

/// The value of a [`VarDecl`].
pub struct VarDeclView {
    pub ident: Ident,
    pub ty: Option<TypeView>,
    pub expr: ExpressionView,
    pub span: Span,
}

/// The value of a [`StatementDecl`].
pub enum StatementDeclView {
    VarDecl(VarDeclView),
}

/// The value of a [`FnDecl`].
pub struct FnDeclView {
    pub ident: Ident,
    pub parameters: Seq<ParameterDeclView>,
    pub ret: Option<TypeView>,
    pub statements: Seq<StatementDeclView>,
    pub span: Span,
}

/// The value of a [`Decls`].
pub enum DeclsView {
    Struct(StructDeclView),
    Fn(FnDeclView),
}

/// The values of the nodes in a sequence.
pub open spec fn views<T: View>(s: Seq<T>) -> Seq<T::V> {
    Seq::new(s.len(), |i: int| s[i]@)
}

/// Appending a node appends its value.
pub proof fn lemma_views_push<T: View>(s: Seq<T>, x: T)
    ensures
        views(s.push(x)) == views(s).push(x@),
        views(Seq::<T>::empty()) == Seq::<T::V>::empty(),
{
    assert(views(s.push(x)) =~= views(s).push(x@));
    assert(views(Seq::<T>::empty()) =~= Seq::<T::V>::empty());
}

impl View for Ident {
    type V = Ident;

    open spec fn view(&self) -> Ident {
        *self
    }
}

impl View for PathSegment {
    type V = PathSegment;

    open spec fn view(&self) -> PathSegment {
        *self
    }
}

impl View for Path {
    type V = PathView;

    open spec fn view(&self) -> PathView {
        PathView { segments: self.segments@, span: self.span }
    }
}

/// The value of a type node.
pub open spec fn type_view(t: Type) -> TypeView
    decreases t,
{
    TypeView {
        kind: match t.kind {
            TypeKind::Path(p) => TypeKindView::Path(p@),
            TypeKind::Array(elem, n) => TypeKindView::Array(Box::new(type_view(*elem)), n),
        },
        span: t.span,
    }
}

impl View for Type {
    type V = TypeView;

    open spec fn view(&self) -> TypeView {
        type_view(*self)
    }
}

/// The values of the expressions in a sequence.
pub open spec fn exprs_view(s: Seq<Expression>) -> Seq<ExpressionView>
    decreases s,
{
    Seq::new(
        s.len(),
        |i: int|
            if 0 <= i < s.len() {
                expr_view(s[i])
            } else {
                arbitrary()
            },
    )
}

/// Appending an expression appends its value, and putting one in front
/// puts its value in front.
pub proof fn lemma_exprs_view_push(s: Seq<Expression>, x: Expression)
    ensures
        exprs_view(s.push(x)) == exprs_view(s).push(x@),
        exprs_view(s.insert(0, x)) == seq![x@] + exprs_view(s),
        exprs_view(Seq::<Expression>::empty()) == Seq::<ExpressionView>::empty(),
{
    assert(exprs_view(s.push(x)) =~= exprs_view(s).push(x@));
    assert(exprs_view(s.insert(0, x)) =~= seq![x@] + exprs_view(s));
    assert(exprs_view(Seq::<Expression>::empty()) =~= Seq::<ExpressionView>::empty());
}

/// The value of a literal's kind.
pub open spec fn literal_kind_view(k: LiteralKind) -> LiteralKindView
    decreases k,
{
    match k {
        LiteralKind::Int(v) => LiteralKindView::Int(v),
        LiteralKind::Float(text) => LiteralKindView::Float(text@),
        LiteralKind::RawStr(sym) => LiteralKindView::RawStr(sym),
        LiteralKind::Array(items) => LiteralKindView::Array(exprs_view(items@)),
        LiteralKind::Ident(ident) => LiteralKindView::Ident(ident),
    }
}

/// The value of an expression node.
pub open spec fn expr_view(e: Expression) -> ExpressionView
    decreases e,
{
    ExpressionView {
        kind: match e.kind {
            ExpressionKind::Literal(lit) => ExpressionKindView::Literal(
                LiteralView { kind: literal_kind_view(lit.kind), span: lit.span },
            ),
            ExpressionKind::Unary(op, operand) => ExpressionKindView::Unary(
                op,
                Box::new(expr_view(*operand)),
            ),
            ExpressionKind::Binary(lhs, op, rhs) => ExpressionKindView::Binary(
                Box::new(expr_view(*lhs)),
                op,
                Box::new(expr_view(*rhs)),
            ),
            ExpressionKind::FnCall(callee, args) => ExpressionKindView::FnCall(
                callee@,
                exprs_view(args@),
            ),
            ExpressionKind::MethodCall(method, args) => ExpressionKindView::MethodCall(
                method,
                exprs_view(args@),
            ),
            ExpressionKind::FieldAccess(base, field) => ExpressionKindView::FieldAccess(
                Box::new(expr_view(*base)),
                field,
            ),
            ExpressionKind::Path(p) => ExpressionKindView::Path(p@),
        },
        span: e.span,
    }
}

impl View for LiteralKind {
    type V = LiteralKindView;

    open spec fn view(&self) -> LiteralKindView {
        literal_kind_view(*self)
    }
}

impl View for Literal {
    type V = LiteralView;

    open spec fn view(&self) -> LiteralView {
        LiteralView { kind: self.kind@, span: self.span }
    }
}

impl View for Expression {
    type V = ExpressionView;

    open spec fn view(&self) -> ExpressionView {
        expr_view(*self)
    }
}

impl View for ParameterDecl {
    type V = ParameterDeclView;

    open spec fn view(&self) -> ParameterDeclView {
        ParameterDeclView { ident: self.ident, ty: self.ty@, span: self.span }
    }
}

impl View for FieldDecl {
    type V = FieldDeclView;

    open spec fn view(&self) -> FieldDeclView {
        FieldDeclView { ident: self.ident, field_type: self.field_type@, span: self.span }
    }
}

impl View for StructDecl {
    type V = StructDeclView;

    open spec fn view(&self) -> StructDeclView {
        StructDeclView {
            ident: self.ident,
            fields: views(self.fields@),
            span: self.span,
        }
    }
}

/// The value of an optional type annotation.
pub open spec fn opt_type_view(t: Option<Type>) -> Option<TypeView> {
    match t {
        Some(t) => Some(t@),
        None => None,
    }
}

impl View for VarDecl {
    type V = VarDeclView;

    open spec fn view(&self) -> VarDeclView {
        VarDeclView {
            ident: self.ident,
            ty: opt_type_view(self.ty),
            expr: self.expr@,
            span: self.span,
        }
    }
}

impl View for StatementDecl {
    type V = StatementDeclView;

    open spec fn view(&self) -> StatementDeclView {
        match *self {
            StatementDecl::VarDecl(v) => StatementDeclView::VarDecl(v@),
        }
    }
}

impl View for FnDecl {
    type V = FnDeclView;

    open spec fn view(&self) -> FnDeclView {
        FnDeclView {
            ident: self.ident,
            parameters: views(self.parameters@),
            ret: opt_type_view(self.ret),
            statements: views(self.statements@),
            span: self.span,
        }
    }
}

impl View for Decls {
    type V = DeclsView;

    open spec fn view(&self) -> DeclsView {
        match *self {
            Decls::Struct(s) => DeclsView::Struct(s@),
            Decls::Fn(f) => DeclsView::Fn(f@),
        }
    }
}

} // verus!
