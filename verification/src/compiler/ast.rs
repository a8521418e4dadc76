//! The program the compiler translates: statements, expressions and the
//! module declarations between them.
//!
//! A number literal keeps its canonical decimal text (no leading zeros,
//! no trailing fractional zeros, no point when the fraction is zero), as
//! the lexer gives it.

use crate::compiler::types::Type;
use vstd::prelude::*;

verus! {

/// A program: its top-level statements.
#[derive(Debug)]
pub struct Program {
    pub stmts: Vec<Stmt>,
}

#[derive(Debug)]
pub struct Param {
    pub name: String,
    pub ty: Type,
    pub line: usize,
    pub col: usize,
}

#[derive(Debug)]
pub struct Function {
    pub name: String,
    pub params: Vec<Param>,
    pub return_type: Type,
    pub body: Vec<Stmt>,
}

/// One binding of `import { ... }`: the exported `name`, bound locally as
/// `alias` when there is one, else as `name`.
#[derive(Debug)]
pub struct ImportNamed {
    pub name: String,
    pub alias: Option<String>,
}

/// One item of `export { ... }`: the local `name`, exported as `alias`
/// when there is one.
#[derive(Debug)]
pub struct ExportItem {
    pub name: String,
    pub alias: Option<String>,
}

/// `export default`: a function (named, or anonymous with an empty name)
/// or an expression.
#[derive(Debug)]
pub enum ExportDefault {
    Function(Function),
    Expr(Expr),
}

#[derive(Debug)]
pub enum Stmt {
    Let { name: String, ty: Option<Type>, value: Expr, line: usize, col: usize },
    Const { name: String, ty: Option<Type>, value: Expr, line: usize, col: usize },
    Assign { name: String, value: Expr },
    AssignIndex { object: String, index: Expr, value: Expr },
    /// `obj.field = value` (the object may itself be indexed or a member).
    AssignMember { object: Box<Expr>, property: String, value: Expr },
    Function(Function),
    Return(Option<Expr>),
    If { condition: Expr, then_branch: Vec<Stmt>, else_branch: Option<Vec<Stmt>> },
    While { condition: Expr, body: Vec<Stmt> },
    For {
        init: Option<Box<Stmt>>,
        condition: Option<Expr>,
        update: Option<Box<Stmt>>,
        body: Vec<Stmt>,
    },
    ForOf { name: String, ty: Option<Type>, iterable: Box<Expr>, body: Vec<Stmt> },
    Break,
    Continue,
    Expr(Expr),
    /// `import [default,] { a, b as c } from "module";`
    Import { default: Option<String>, named: Vec<ImportNamed>, module: String },
    /// `export` before a function, `let` or `const`.
    ExportDecl(Box<Stmt>),
    /// `export { a, b as c };`
    ExportSpec(Vec<ExportItem>),
    ExportDefault(ExportDefault),
}

#[derive(Debug)]
pub enum Expr {
    /// The literal's canonical decimal text.
    Number(String),
    String(String),
    Bool(bool),
    Ident(String),
    Call { callee: Box<Expr>, args: Vec<Expr> },
    Unary { op: UnaryOp, operand: Box<Expr> },
    Binary { op: BinOp, left: Box<Expr>, right: Box<Expr> },
    Member { object: Box<Expr>, property: String },
    Index { object: Box<Expr>, index: Box<Expr> },
    ArrayLiteral { elements: Vec<Expr> },
    /// `{ key: value, ... }`; its struct comes from the declaration it
    /// initialises.
    ObjectLiteral { fields: Vec<(String, Expr)> },
    /// A static path such as `a::b::c`.
    Path { segments: Vec<String> },
}

#[derive(Debug, Clone, Copy, PartialEq, Eq, Structural)]
pub enum BinOp {
    Add,
    Sub,
    Mul,
    Div,
    Mod,
    EqEq,
    NotEq,
    Lt,
    Gt,
    LtEq,
    GtEq,
    And,
    Or,
}

#[derive(Debug, Clone, Copy, PartialEq, Eq, Structural)]
pub enum UnaryOp {
    Not,
    Neg,
}

} // verus!
