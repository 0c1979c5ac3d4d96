use vstd::prelude::*;

verus! {

/// An interned identifier or string literal: equal keys are equal texts.
pub type Symbol = usize;

/// A half-open byte range of the source text.
#[derive(Debug, Clone, Copy, PartialEq, Eq, Structural)]
pub struct Span {
    pub start: usize,
    pub end: usize,
}

/// A literal or a name.
#[derive(Debug, Clone, Copy, PartialEq, Eq, Structural)]
pub enum AtomicValue {
    Boolean(bool),
    Number(i64),
    Text(Symbol),
    Identifier(Symbol),
    Null,
}

#[derive(Debug, Clone, Copy, PartialEq, Eq, Structural)]
pub enum BinaryOperator {
    Add,
    Sub,
    Mul,
    Div,
    Mod,
    Eq,
    Neq,
    Lt,
    Le,
    Gt,
    Ge,
}

#[derive(Debug, Clone, Copy, PartialEq, Eq, Structural)]
pub enum UnaryOperator {
    Not,
    Negate,
}

/// An expression node: its kind and the source range it came from.
#[derive(Debug)]
pub struct Expr {
    pub kind: Box<ExprKind>,
    pub span: Span,
}

#[derive(Debug)]
pub enum ExprKind {
    Atom(AtomicValue),
    Binary { lhs: Expr, op: BinaryOperator, rhs: Expr },
    Unary { op: UnaryOperator, rhs: Expr },
    /// Statements followed by an optional value; without one the block is `null`.
    Block { stmts: Vec<Stmt>, return_expr: Option<Expr> },
    If { condition: Expr, body: Expr, else_expr: Option<Expr> },
    While { condition: Expr, body: Expr },
    Break { return_expr: Option<Expr> },
    Continue,
    Call { callee: Expr, args: Vec<Expr> },
    Return { value: Option<Expr> },
    GetProperty { target: Expr, identifier: Symbol, is_method_call: bool },
    SetProperty { target: Expr, identifier: Symbol, value: Expr },
    ObjectLiteral { properties: Vec<Property> },
    /// Assignment to a variable.
    Assignment { target: Symbol, value: Expr },
    /// An anonymous function.
    Closure { params: Vec<Symbol>, body: Expr },
    This,
    Super,
}

/// One `key: value` entry of an object literal.
#[derive(Debug)]
pub struct Property {
    pub key: Symbol,
    pub value: Expr,
}

/// A statement node: its kind and the source range it came from.
#[derive(Debug)]
pub struct Stmt {
    pub kind: Box<StmtKind>,
    pub span: Span,
}

#[derive(Debug)]
pub enum StmtKind {
    Expression { expr: Expr },
    VariableDeclaration { name: Symbol, expr: Expr },
    FunctionDeclaration { name: Symbol, params: Vec<Symbol>, body: Expr },
    ClassDeclaration { name: Symbol, superclass: Option<Symbol>, methods: Vec<Method> },
}

/// A method of a class declaration.
#[derive(Debug)]
pub struct Method {
    pub name: Symbol,
    pub params: Vec<Symbol>,
    pub body: Expr,
    pub span: Span,
}

impl Expr {
    pub fn new(kind: ExprKind, span: Span) -> (r: Expr)
        ensures
            *r.kind == kind,
            r.span == span,
    {
        Expr { kind: Box::new(kind), span }
    }
}

impl Stmt {
    pub fn new(kind: StmtKind, span: Span) -> (r: Stmt)
        ensures
            *r.kind == kind,
            r.span == span,
    {
        Stmt { kind: Box::new(kind), span }
    }
}

} // verus!
