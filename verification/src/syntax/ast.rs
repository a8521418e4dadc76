//! Syntax tree of a `.tsr` program.
//!
//! Numeric literals keep the digits exactly as written (`"3.14"`), so the
//! tree holds no floating-point value.

use crate::syntax::view::{
    cases_v, elements_v, exprs_v, fields_v, function_v, item_v, named_v, opt_stmts_v, opt_str, opt_type, params_v,
    stmt_v, stmts_v, strs_v,
};
use vstd::prelude::*;

verus! {

broadcast use vstd::std_specs::vec::group_vec_axioms;

/// A literal type: `"hello"`, `42`, `true`.
#[derive(Debug)]
pub enum LiteralValue {
    String(String),
    /// The literal's digits as written, with a leading `-` when negated.
    Number(String),
    Bool(bool),
}

/// A type annotation.
#[derive(Debug)]
pub enum Type {
    /// `string`, `number`, `boolean`, `void`, `any`.
    Primitive(String),
    /// A user-declared interface / type alias / enum name.
    Named(String),
    Null,
    Undefined,
    /// `T?` (also what `T | null` normalizes to).
    Optional(Box<Type>),
    /// `T[]`
    Array(Box<Type>),
    /// Inline object type; `name` is derived from the field shape.
    Object { name: String, fields: Vec<(String, Box<Type>, bool)> },
    Union(Vec<Type>),
    Intersection(Vec<Type>),
    Literal(LiteralValue),
    Function { params: Vec<Type>, return_type: Box<Type> },
}

/// Mathematical value of a [`LiteralValue`].
pub enum LiteralV {
    String(Seq<char>),
    Number(Seq<char>),
    Bool(bool),
}

/// Mathematical value of a [`Type`]: the same tree with sequences in place
/// of vectors and strings.
pub enum TypeV {
    Primitive(Seq<char>),
    Named(Seq<char>),
    Null,
    Undefined,
    Optional(Box<TypeV>),
    Array(Box<TypeV>),
    Object { name: Seq<char>, fields: Seq<(Seq<char>, TypeV, bool)> },
    Union(Seq<TypeV>),
    Intersection(Seq<TypeV>),
    Literal(LiteralV),
    Function { params: Seq<TypeV>, return_type: Box<TypeV> },
}

impl View for LiteralValue {
    type V = LiteralV;

    open spec fn view(&self) -> LiteralV {
        match self {
            LiteralValue::String(s) => LiteralV::String(s@),
            LiteralValue::Number(s) => LiteralV::Number(s@),
            LiteralValue::Bool(b) => LiteralV::Bool(*b),
        }
    }
}

/// Values of a sequence of types, element by element.
pub open spec fn types_view(s: Seq<Type>) -> Seq<TypeV>
    decreases s,
{
    if s.len() == 0 {
        Seq::empty()
    } else {
        types_view(s.drop_last()).push(type_view(s.last()))
    }
}

/// Values of a sequence of object-type fields, element by element.
pub open spec fn fields_view(s: Seq<(String, Box<Type>, bool)>) -> Seq<(Seq<char>, TypeV, bool)>
    decreases s,
{
    if s.len() == 0 {
        Seq::empty()
    } else {
        fields_view(s.drop_last()).push((s.last().0@, type_view(*s.last().1), s.last().2))
    }
}

pub open spec fn type_view(t: Type) -> TypeV
    decreases t,
{
    match t {
        Type::Primitive(s) => TypeV::Primitive(s@),
        Type::Named(s) => TypeV::Named(s@),
        Type::Null => TypeV::Null,
        Type::Undefined => TypeV::Undefined,
        Type::Optional(b) => TypeV::Optional(Box::new(type_view(*b))),
        Type::Array(b) => TypeV::Array(Box::new(type_view(*b))),
        Type::Object { name, fields } => TypeV::Object { name: name@, fields: fields_view(fields@) },
        Type::Union(v) => TypeV::Union(types_view(v@)),
        Type::Intersection(v) => TypeV::Intersection(types_view(v@)),
        Type::Literal(l) => TypeV::Literal(l@),
        Type::Function { params, return_type } => TypeV::Function {
            params: types_view(params@),
            return_type: Box::new(type_view(*return_type)),
        },
    }
}

impl View for Type {
    type V = TypeV;

    open spec fn view(&self) -> TypeV {
        type_view(*self)
    }
}

pub proof fn lemma_types_view(s: Seq<Type>)
    ensures
        types_view(s).len() == s.len(),
        forall|i: int| 0 <= i < s.len() ==> #[trigger] types_view(s)[i] == s[i]@,
    decreases s.len(),
{
    if s.len() > 0 {
        lemma_types_view(s.drop_last());
    }
}

pub proof fn lemma_fields_view(s: Seq<(String, Box<Type>, bool)>)
    ensures
        fields_view(s).len() == s.len(),
        forall|i: int|
            0 <= i < s.len() ==> #[trigger] fields_view(s)[i] == (s[i].0@, (*s[i].1)@, s[i].2),
    decreases s.len(),
{
    if s.len() > 0 {
        lemma_fields_view(s.drop_last());
    }
}

/// A copy of a type with the same value.
#[verifier::loop_isolation(false)]
pub fn clone_type(t: &Type) -> (r: Type)
    ensures
        r@ == t@,
    decreases t,
{
    match t {
        Type::Primitive(s) => Type::Primitive(s.clone()),
        Type::Named(s) => Type::Named(s.clone()),
        Type::Null => Type::Null,
        Type::Undefined => Type::Undefined,
        Type::Optional(b) => Type::Optional(Box::new(clone_type(b))),
        Type::Array(b) => Type::Array(Box::new(clone_type(b))),
        Type::Object { name, fields } => {
            let fs = clone_fields(fields);
            Type::Object { name: name.clone(), fields: fs }
        },
        Type::Union(v) => Type::Union(clone_types(v)),
        Type::Intersection(v) => Type::Intersection(clone_types(v)),
        Type::Literal(l) => Type::Literal(
            match l {
                LiteralValue::String(s) => LiteralValue::String(s.clone()),
                LiteralValue::Number(s) => LiteralValue::Number(s.clone()),
                LiteralValue::Bool(b) => LiteralValue::Bool(*b),
            },
        ),
        Type::Function { params, return_type } => {
            let ps = clone_types(params);
            Type::Function { params: ps, return_type: Box::new(clone_type(return_type)) }
        },
    }
}

/// Copies of a vector of types with the same values.
#[verifier::loop_isolation(false)]
pub fn clone_types(v: &Vec<Type>) -> (r: Vec<Type>)
    ensures
        types_view(r@) == types_view(v@),
        r@.len() == v@.len(),
    decreases v,
{
    let mut out: Vec<Type> = Vec::new();
    let mut i: usize = 0;
    while i < v.len()
        invariant
            i <= v@.len(),
            out@.len() == i,
            forall|j: int| 0 <= j < i ==> (#[trigger] out@[j])@ == v@[j]@,
        decreases v@.len() - i,
    {
        proof {
            assert(decreases_to!(*v => v[i as int]));
        }
        let c = clone_type(&v[i]);
        out.push(c);
        i += 1;
    }
    proof {
        lemma_types_view(out@);
        lemma_types_view(v@);
        assert(types_view(out@) =~= types_view(v@));
    }
    out
}

/// Copies of object-type fields with the same values.
#[verifier::loop_isolation(false)]
pub fn clone_fields(v: &Vec<(String, Box<Type>, bool)>) -> (r: Vec<(String, Box<Type>, bool)>)
    ensures
        fields_view(r@) == fields_view(v@),
        r@.len() == v@.len(),
    decreases v,
{
    let mut out: Vec<(String, Box<Type>, bool)> = Vec::new();
    let mut i: usize = 0;
    while i < v.len()
        invariant
            i <= v@.len(),
            out@.len() == i,
            forall|j: int|
                0 <= j < i ==> (#[trigger] out@[j]).0@ == v@[j].0@ && (*out@[j].1)@ == (*v@[j].1)@
                    && out@[j].2 == v@[j].2,
        decreases v@.len() - i,
    {
        proof {
            assert(decreases_to!(*v => v[i as int]));
            assert(decreases_to!(v[i as int] => v[i as int].1));
        }
        let c = clone_type(&v[i].1);
        out.push((v[i].0.clone(), Box::new(c), v[i].2));
        i += 1;
    }
    proof {
        lemma_fields_view(out@);
        lemma_fields_view(v@);
        assert(fields_view(out@) =~= fields_view(v@));
    }
    out
}

impl Clone for Type {
    fn clone(&self) -> (r: Self)
        ensures
            r@ == self@,
    {
        clone_type(self)
    }
}

#[derive(Debug, Clone, Copy, PartialEq, Eq, Structural)]
pub enum BinOp {
    Add,
    Sub,
    Mul,
    Div,
    Mod,
    EqEq,
    NotEq,
    Lt,
    Gt,
    LtEq,
    GtEq,
    And,
    Or,
    NullishCoalesce,
}

#[derive(Debug, Clone, Copy, PartialEq, Eq, Structural)]
pub enum UnaryOp {
    Not,
    Neg,
}

/// A function or arrow parameter.
#[derive(Debug)]
pub struct Param {
    pub name: String,
    pub ty: Type,
    pub line: usize,
    pub col: usize,
}

/// One element of an array literal.
#[derive(Debug)]
pub enum ArrayElement {
    Item(Expr),
    Spread(Expr),
}

/// One field of an object literal.
#[derive(Debug)]
pub enum ObjectField {
    KV(String, Expr),
    Spread(Expr),
}

/// Body of an arrow function.
#[derive(Debug)]
pub enum ArrowBody {
    Expr(Box<Expr>),
    Block(Vec<Stmt>),
}

#[derive(Debug)]
pub enum Expr {
    /// The literal's digits as written.
    Number(String),
    String(String),
    Bool(bool),
    Null,
    Undefined,
    Ident(String),
    Call { callee: Box<Expr>, args: Vec<Expr> },
    Unary { op: UnaryOp, operand: Box<Expr> },
    Binary { op: BinOp, left: Box<Expr>, right: Box<Expr> },
    Member { object: Box<Expr>, property: String },
    Index { object: Box<Expr>, index: Box<Expr> },
    ArrayLiteral { elements: Vec<ArrayElement> },
    ObjectLiteral { fields: Vec<ObjectField> },
    /// `a::b::c`
    Path { segments: Vec<String> },
    Arrow { params: Vec<Param>, return_type: Option<Type>, body: ArrowBody },
    TypeOf(Box<Expr>),
    AsConst(Box<Expr>),
    NonNullAssertion(Box<Expr>),
    AsAssertion { expr: Box<Expr>, ty: Type },
}

#[derive(Debug)]
pub struct Function {
    /// Empty for an anonymous `export default function`.
    pub name: String,
    pub params: Vec<Param>,
    pub return_type: Type,
    pub body: Vec<Stmt>,
    pub line: usize,
    pub col: usize,
}

/// A named binding in an import list; `alias` is the local name.
#[derive(Debug, Clone)]
pub struct ImportNamed {
    pub name: String,
    pub alias: Option<String>,
}

/// An item of `export { a, b as c }`; `alias` is the exported name.
#[derive(Debug, Clone)]
pub struct ExportItem {
    pub name: String,
    pub alias: Option<String>,
}

#[derive(Debug)]
pub enum ExportDefault {
    Function(Function),
    Expr(Expr),
}

/// One arm of a `switch`: the `case` values that share `body`.
#[derive(Debug)]
pub struct SwitchCase {
    pub values: Vec<Expr>,
    pub body: Vec<Stmt>,
    pub is_default: bool,
}

#[derive(Debug)]
pub enum Stmt {
    Let { name: String, ty: Option<Type>, value: Expr, line: usize, col: usize },
    Const { name: String, ty: Option<Type>, value: Expr, line: usize, col: usize },
    /// `name = value;`, positioned at its start.
    Assign { name: String, value: Expr, line: usize, col: usize },
    AssignIndex { object: String, index: Expr, value: Expr, line: usize, col: usize },
    AssignMember { object: Box<Expr>, property: String, value: Expr, line: usize, col: usize },
    Function(Function),
    Return(Option<Expr>),
    If { condition: Expr, then_branch: Vec<Stmt>, else_branch: Option<Vec<Stmt>> },
    While { condition: Expr, body: Vec<Stmt> },
    For {
        init: Option<Box<Stmt>>,
        condition: Option<Expr>,
        update: Option<Box<Stmt>>,
        body: Vec<Stmt>,
    },
    ForOf { name: String, ty: Option<Type>, iterable: Box<Expr>, body: Vec<Stmt> },
    Break,
    Continue,
    Expr(Expr),
    /// `import utils;` / `import utils as u;` / `import * as u from "utils";`
    Import { module: Vec<String>, alias: Option<String> },
    /// `from utils import a, b as c;` / `from utils import *;` /
    /// `import { a } from "utils";`
    FromImport { module: Vec<String>, names: Vec<ImportNamed>, wildcard: bool },
    ExportDecl(Box<Stmt>),
    ExportSpec(Vec<ExportItem>),
    ExportDefault(ExportDefault),
    Switch { discriminant: Expr, cases: Vec<SwitchCase> },
    Try { body: Vec<Stmt>, catch_name: Option<String>, catch_body: Vec<Stmt> },
    Throw(Expr),
    TypeAlias { name: String, ty: Type, line: usize, col: usize },
    Interface {
        name: String,
        extends: Vec<String>,
        fields: Vec<(String, Box<Type>, bool)>,
        line: usize,
        col: usize,
    },
    /// Variants with their explicit values, if any.
    Enum { name: String, variants: Vec<(String, Option<i64>)>, line: usize, col: usize },
}

#[derive(Debug)]
pub struct Program {
    pub stmts: Vec<Stmt>,
}

/// `Primitive(name)` with `name` as a character sequence.
pub open spec fn is_primitive(t: Type, name: Seq<char>) -> bool {
    t matches Type::Primitive(p) && p@ == name
}

impl Type {
    pub fn string() -> (t: Type)
        ensures
            is_primitive(t, "string"@),
    {
        Type::Primitive(crate::text::owned("string"))
    }

    pub fn number() -> (t: Type)
        ensures
            is_primitive(t, "number"@),
    {
        Type::Primitive(crate::text::owned("number"))
    }

    pub fn boolean() -> (t: Type)
        ensures
            is_primitive(t, "boolean"@),
    {
        Type::Primitive(crate::text::owned("boolean"))
    }

    pub fn void() -> (t: Type)
        ensures
            is_primitive(t, "void"@),
    {
        Type::Primitive(crate::text::owned("void"))
    }

    /// `T?`, without wrapping an already optional type twice.
    pub open spec fn spec_optional(t: Type) -> Type {
        if t is Optional {
            t
        } else {
            Type::Optional(Box::new(t))
        }
    }

    pub fn optional(t: Type) -> (r: Type)
        ensures
            r == Type::spec_optional(t),
    {
        if let Type::Optional(_) = t {
            t
        } else {
            Type::Optional(Box::new(t))
        }
    }

    pub fn array(t: Type) -> (r: Type)
        ensures
            r == Type::Array(Box::new(t)),
    {
        Type::Array(Box::new(t))
    }

    pub fn is_array(&self) -> (r: bool)
        ensures
            r == (*self is Array),
    {
        if let Type::Array(_) = self {
            true
        } else {
            false
        }
    }

    /// The element type of an array type.
    pub open spec fn spec_array_inner(self) -> Option<Type> {
        match self {
            Type::Array(inner) => Some(*inner),
            _ => None,
        }
    }

    pub fn array_inner(&self) -> (r: Option<&Type>)
        ensures
            r == match self.spec_array_inner() {
                Some(t) => Some(&t),
                None => None::<&Type>,
            },
    {
        match self {
            Type::Array(inner) => Some(&**inner),
            _ => None,
        }
    }

    /// The inner type of `T?`; any other type is returned unchanged.
    pub open spec fn spec_unwrap_optional(self) -> Type {
        match self {
            Type::Optional(inner) => *inner,
            _ => self,
        }
    }

    pub fn unwrap_optional(&self) -> (r: &Type)
        ensures
            *r == self.spec_unwrap_optional(),
    {
        match self {
            Type::Optional(inner) => &**inner,
            _ => self,
        }
    }
}


/// A copy of an optional type with the same value.
pub fn clone_opt_type(t: &Option<Type>) -> (r: Option<Type>)
    ensures
        match (r, *t) {
            (Some(a), Some(b)) => a@ == b@,
            (None, None) => true,
            _ => false,
        },
{
    match t {
        Some(x) => Some(clone_type(x)),
        None => None,
    }
}

pub fn clone_param(p: &Param) -> (r: Param)
    ensures
        r.name@ == p.name@,
        r.ty@ == p.ty@,
        r.line == p.line,
        r.col == p.col,
{
    Param { name: p.name.clone(), ty: clone_type(&p.ty), line: p.line, col: p.col }
}

pub fn clone_params(v: &Vec<Param>) -> (r: Vec<Param>)
    ensures
        r@.len() == v@.len(),
        forall|i: int|
            0 <= i < v@.len() ==> (#[trigger] r@[i]).name@ == v@[i].name@ && r@[i].ty@ == v@[i].ty@,
        params_v(r@) == params_v(v@),
{
    let mut out: Vec<Param> = Vec::new();
    let mut i: usize = 0;
    while i < v.len()
        invariant
            i <= v@.len(),
            out@.len() == i,
            forall|j: int|
                0 <= j < i ==> (#[trigger] out@[j]).name@ == v@[j].name@ && out@[j].ty@ == v@[j].ty@
                    && out@[j].line == v@[j].line && out@[j].col == v@[j].col,
        decreases v@.len() - i,
    {
        out.push(clone_param(&v[i]));
        i += 1;
    }
    proof {
        assert(params_v(out@) =~= params_v(v@));
    }
    out
}

pub fn clone_strings(v: &Vec<String>) -> (r: Vec<String>)
    ensures
        r@.len() == v@.len(),
        forall|i: int| 0 <= i < v@.len() ==> (#[trigger] r@[i])@ == v@[i]@,
        strs_v(r@) == strs_v(v@),
{
    let mut out: Vec<String> = Vec::new();
    let mut i: usize = 0;
    while i < v.len()
        invariant
            i <= v@.len(),
            out@.len() == i,
            forall|j: int| 0 <= j < i ==> (#[trigger] out@[j])@ == v@[j]@,
        decreases v@.len() - i,
    {
        out.push(v[i].clone());
        i += 1;
    }
    proof {
        assert(strs_v(out@) =~= strs_v(v@));
    }
    out
}

/// A copy of an expression, with the same value.
#[verifier::loop_isolation(false)]
#[verifier::spinoff_prover]
#[verifier::rlimit(40)]
pub(crate) fn clone_expr(e: &Expr) -> (r: Expr)
    ensures
        r@ == e@,
    decreases e,
{
    match e {
        Expr::Number(s) => Expr::Number(s.clone()),
        Expr::String(s) => Expr::String(s.clone()),
        Expr::Bool(b) => Expr::Bool(*b),
        Expr::Null => Expr::Null,
        Expr::Undefined => Expr::Undefined,
        Expr::Ident(s) => Expr::Ident(s.clone()),
        Expr::Call { callee, args } => {
            let c = clone_expr(callee);
            Expr::Call { callee: Box::new(c), args: clone_exprs(args) }
        },
        Expr::Unary { op, operand } => Expr::Unary { op: *op, operand: Box::new(clone_expr(operand)) },
        Expr::Binary { op, left, right } => {
            let l = clone_expr(left);
            let r = clone_expr(right);
            Expr::Binary { op: *op, left: Box::new(l), right: Box::new(r) }
        },
        Expr::Member { object, property } => Expr::Member {
            object: Box::new(clone_expr(object)),
            property: property.clone(),
        },
        Expr::Index { object, index } => {
            let o = clone_expr(object);
            let i = clone_expr(index);
            Expr::Index { object: Box::new(o), index: Box::new(i) }
        },
        Expr::ArrayLiteral { elements } => {
            let mut out: Vec<ArrayElement> = Vec::new();
            let mut i: usize = 0;
            proof {
                assert(elements@.subrange(0, 0) =~= Seq::<ArrayElement>::empty());
            }
            while i < elements.len()
                invariant
                    i <= elements@.len(),
                    elements_v(out@) == elements_v(elements@.subrange(0, i as int)),
                decreases elements@.len() - i,
            {
                proof {
                    assert(decreases_to!(*elements => elements[i as int]));
                }
                let x = match &elements[i] {
                    ArrayElement::Item(y) => ArrayElement::Item(clone_expr(y)),
                    ArrayElement::Spread(y) => ArrayElement::Spread(clone_expr(y)),
                };
                proof {
                    let p = elements@.subrange(0, i + 1);
                    assert(p.drop_last() =~= elements@.subrange(0, i as int));
                    assert(out@.push(x).drop_last() =~= out@);
                }
                out.push(x);
                i += 1;
            }
            proof {
                assert(elements@.subrange(0, elements@.len() as int) =~= elements@);
            }
            Expr::ArrayLiteral { elements: out }
        },
        Expr::ObjectLiteral { fields } => {
            let mut out: Vec<ObjectField> = Vec::new();
            let mut i: usize = 0;
            proof {
                assert(fields@.subrange(0, 0) =~= Seq::<ObjectField>::empty());
            }
            while i < fields.len()
                invariant
                    i <= fields@.len(),
                    fields_v(out@) == fields_v(fields@.subrange(0, i as int)),
                decreases fields@.len() - i,
            {
                proof {
                    assert(decreases_to!(*fields => fields[i as int]));
                }
                let x = match &fields[i] {
                    ObjectField::KV(k, y) => ObjectField::KV(k.clone(), clone_expr(y)),
                    ObjectField::Spread(y) => ObjectField::Spread(clone_expr(y)),
                };
                proof {
                    let p = fields@.subrange(0, i + 1);
                    assert(p.drop_last() =~= fields@.subrange(0, i as int));
                    assert(out@.push(x).drop_last() =~= out@);
                }
                out.push(x);
                i += 1;
            }
            proof {
                assert(fields@.subrange(0, fields@.len() as int) =~= fields@);
            }
            Expr::ObjectLiteral { fields: out }
        },
        Expr::Path { segments } => Expr::Path { segments: clone_strings(segments) },
        Expr::Arrow { params, return_type, body } => {
            let b = match body {
                ArrowBody::Expr(x) => ArrowBody::Expr(Box::new(clone_expr(x))),
                ArrowBody::Block(stmts) => ArrowBody::Block(clone_stmts(stmts)),
            };
            let rt = clone_opt_type(return_type);
            proof {
                assert(opt_type(rt) == opt_type(*return_type));
            }
            Expr::Arrow { params: clone_params(params), return_type: rt, body: b }
        },
        Expr::TypeOf(x) => Expr::TypeOf(Box::new(clone_expr(x))),
        Expr::AsConst(x) => Expr::AsConst(Box::new(clone_expr(x))),
        Expr::NonNullAssertion(x) => Expr::NonNullAssertion(Box::new(clone_expr(x))),
        Expr::AsAssertion { expr, ty } => {
            let x = clone_expr(expr);
            Expr::AsAssertion { expr: Box::new(x), ty: clone_type(ty) }
        },
    }
}

/// Copies of expressions, with the same values.
#[verifier::loop_isolation(false)]
pub(crate) fn clone_exprs(v: &Vec<Expr>) -> (r: Vec<Expr>)
    ensures
        exprs_v(r@) == exprs_v(v@),
        r@.len() == v@.len(),
    decreases v,
{
    let mut out: Vec<Expr> = Vec::new();
    let mut i: usize = 0;
    proof {
        assert(v@.subrange(0, 0) =~= Seq::<Expr>::empty());
    }
    while i < v.len()
        invariant
            i <= v@.len(),
            out@.len() == i,
            exprs_v(out@) == exprs_v(v@.subrange(0, i as int)),
        decreases v@.len() - i,
    {
        proof {
            assert(decreases_to!(*v => v[i as int]));
        }
        let x = clone_expr(&v[i]);
        proof {
            let p = v@.subrange(0, i + 1);
            assert(p.drop_last() =~= v@.subrange(0, i as int));
            assert(out@.push(x).drop_last() =~= out@);
        }
        out.push(x);
        i += 1;
    }
    proof {
        assert(v@.subrange(0, v@.len() as int) =~= v@);
    }
    out
}

/// Copies of statements, with the same values.
#[verifier::loop_isolation(false)]
pub(crate) fn clone_stmts(v: &Vec<Stmt>) -> (r: Vec<Stmt>)
    ensures
        stmts_v(r@) == stmts_v(v@),
        r@.len() == v@.len(),
    decreases v,
{
    let mut out: Vec<Stmt> = Vec::new();
    let mut i: usize = 0;
    proof {
        assert(v@.subrange(0, 0) =~= Seq::<Stmt>::empty());
    }
    while i < v.len()
        invariant
            i <= v@.len(),
            out@.len() == i,
            stmts_v(out@) == stmts_v(v@.subrange(0, i as int)),
        decreases v@.len() - i,
    {
        proof {
            assert(decreases_to!(*v => v[i as int]));
        }
        let x = clone_stmt(&v[i]);
        proof {
            let p = v@.subrange(0, i + 1);
            assert(p.drop_last() =~= v@.subrange(0, i as int));
            assert(out@.push(x).drop_last() =~= out@);
        }
        out.push(x);
        i += 1;
    }
    proof {
        assert(v@.subrange(0, v@.len() as int) =~= v@);
    }
    out
}

pub fn clone_function(f: &Function) -> (r: Function)
    ensures
        r.name@ == f.name@,
        r.params@.len() == f.params@.len(),
        forall|i: int|
            0 <= i < f.params@.len() ==> (#[trigger] r.params@[i]).name@ == f.params@[i].name@
                && r.params@[i].ty@ == f.params@[i].ty@,
        r.return_type@ == f.return_type@,
        function_v(r) == function_v(*f),
    decreases f,
{
    Function {
        name: f.name.clone(),
        params: clone_params(&f.params),
        return_type: clone_type(&f.return_type),
        body: clone_stmts(&f.body),
        line: f.line,
        col: f.col,
    }
}

/// Copies of imported names, with the same values.
fn clone_names(v: &Vec<ImportNamed>) -> (r: Vec<ImportNamed>)
    ensures
        r@.map_values(|n: ImportNamed| named_v(n)) == v@.map_values(|n: ImportNamed| named_v(n)),
        r@.len() == v@.len(),
{
    let mut out: Vec<ImportNamed> = Vec::new();
    let mut i: usize = 0;
    while i < v.len()
        invariant
            i <= v@.len(),
            out@.len() == i,
            forall|j: int| 0 <= j < i ==> named_v(#[trigger] out@[j]) == named_v(v@[j]),
        decreases v@.len() - i,
    {
        let alias = v[i].alias.clone();
        proof {
            assert(opt_str(alias) == opt_str(v@[i as int].alias));
        }
        out.push(ImportNamed { name: v[i].name.clone(), alias });
        i += 1;
    }
    proof {
        assert(out@.map_values(|n: ImportNamed| named_v(n)) =~= v@.map_values(|n: ImportNamed| named_v(n)));
    }
    out
}

/// Copies of exported names, with the same values.
fn clone_items(v: &Vec<ExportItem>) -> (r: Vec<ExportItem>)
    ensures
        r@.map_values(|n: ExportItem| item_v(n)) == v@.map_values(|n: ExportItem| item_v(n)),
{
    let mut out: Vec<ExportItem> = Vec::new();
    let mut i: usize = 0;
    while i < v.len()
        invariant
            i <= v@.len(),
            out@.len() == i,
            forall|j: int| 0 <= j < i ==> item_v(#[trigger] out@[j]) == item_v(v@[j]),
        decreases v@.len() - i,
    {
        let alias = v[i].alias.clone();
        proof {
            assert(opt_str(alias) == opt_str(v@[i as int].alias));
        }
        out.push(ExportItem { name: v[i].name.clone(), alias });
        i += 1;
    }
    proof {
        assert(out@.map_values(|n: ExportItem| item_v(n)) =~= v@.map_values(|n: ExportItem| item_v(n)));
    }
    out
}

/// Copies of enum variants, with the same values.
fn clone_variants(v: &Vec<(String, Option<i64>)>) -> (r: Vec<(String, Option<i64>)>)
    ensures
        r@.map_values(|x: (String, Option<i64>)| (x.0@, x.1)) == v@.map_values(
            |x: (String, Option<i64>)| (x.0@, x.1),
        ),
{
    let mut out: Vec<(String, Option<i64>)> = Vec::new();
    let mut i: usize = 0;
    while i < v.len()
        invariant
            i <= v@.len(),
            out@.len() == i,
            forall|j: int| 0 <= j < i ==> (#[trigger] out@[j]).0@ == v@[j].0@ && out@[j].1 == v@[j].1,
        decreases v@.len() - i,
    {
        out.push((v[i].0.clone(), v[i].1));
        i += 1;
    }
    proof {
        assert(out@.map_values(|x: (String, Option<i64>)| (x.0@, x.1)) =~= v@.map_values(
            |x: (String, Option<i64>)| (x.0@, x.1),
        ));
    }
    out
}

/// Copies of the cases of a `switch`, with the same values.
#[verifier::loop_isolation(false)]
fn clone_cases(v: &Vec<SwitchCase>) -> (r: Vec<SwitchCase>)
    ensures
        cases_v(r@) == cases_v(v@),
    decreases v,
{
    let mut out: Vec<SwitchCase> = Vec::new();
    let mut i: usize = 0;
    proof {
        assert(v@.subrange(0, 0) =~= Seq::<SwitchCase>::empty());
    }
    while i < v.len()
        invariant
            i <= v@.len(),
            cases_v(out@) == cases_v(v@.subrange(0, i as int)),
        decreases v@.len() - i,
    {
        proof {
            assert(decreases_to!(*v => v[i as int]));
        }
        let c = &v[i];
        let x = SwitchCase { values: clone_exprs(&c.values), body: clone_stmts(&c.body), is_default: c.is_default };
        proof {
            let p = v@.subrange(0, i + 1);
            assert(p.drop_last() =~= v@.subrange(0, i as int));
            assert(out@.push(x).drop_last() =~= out@);
        }
        out.push(x);
        i += 1;
    }
    proof {
        assert(v@.subrange(0, v@.len() as int) =~= v@);
    }
    out
}

/// A copy of a statement, with the same value.
#[verifier::spinoff_prover]
#[verifier::rlimit(60)]
pub(crate) fn clone_stmt(s: &Stmt) -> (r: Stmt)
    ensures
        r@ == s@,
    decreases s,
{
    match s {
        Stmt::Let { name, ty, value, line, col } => {
            let t = clone_opt_type(ty);
            proof {
                assert(opt_type(t) == opt_type(*ty));
            }
            Stmt::Let { name: name.clone(), ty: t, value: clone_expr(value), line: *line, col: *col }
        },
        Stmt::Const { name, ty, value, line, col } => {
            let t = clone_opt_type(ty);
            proof {
                assert(opt_type(t) == opt_type(*ty));
            }
            Stmt::Const { name: name.clone(), ty: t, value: clone_expr(value), line: *line, col: *col }
        },
        Stmt::Assign { name, value, line, col } => Stmt::Assign {
            name: name.clone(),
            value: clone_expr(value),
            line: *line,
            col: *col,
        },
        Stmt::AssignIndex { object, index, value, line, col } => {
            let i = clone_expr(index);
            Stmt::AssignIndex { object: object.clone(), index: i, value: clone_expr(value), line: *line, col: *col }
        },
        Stmt::AssignMember { object, property, value, line, col } => {
            let o = clone_expr(object);
            Stmt::AssignMember {
                object: Box::new(o),
                property: property.clone(),
                value: clone_expr(value),
                line: *line,
                col: *col,
            }
        },
        Stmt::Function(f) => Stmt::Function(clone_function(f)),
        Stmt::Return(e) => match e {
            Some(x) => Stmt::Return(Some(clone_expr(x))),
            None => Stmt::Return(None),
        },
        Stmt::If { condition, then_branch, else_branch } => {
            let c = clone_expr(condition);
            let t = clone_stmts(then_branch);
            let e = match else_branch {
                Some(b) => {
                    let x = clone_stmts(b);
                    proof {
                        assert(opt_stmts_v(Some(x)) == Some(stmts_v(x@)));
                        assert(opt_stmts_v(*else_branch) == Some(stmts_v(b@)));
                    }
                    Some(x)
                },
                None => None,
            };
            let r = Stmt::If { condition: c, then_branch: t, else_branch: e };
            proof {
                assert(opt_stmts_v(e) == opt_stmts_v(*else_branch));
                assert(stmt_v(r) == stmt_v(*s));
            }
            r
        },
        Stmt::While { condition, body } => {
            let c = clone_expr(condition);
            Stmt::While { condition: c, body: clone_stmts(body) }
        },
        Stmt::For { init, condition, update, body } => {
            let i = match init {
                Some(x) => Some(Box::new(clone_stmt(x))),
                None => None,
            };
            let c = match condition {
                Some(x) => Some(clone_expr(x)),
                None => None,
            };
            let u = match update {
                Some(x) => Some(Box::new(clone_stmt(x))),
                None => None,
            };
            Stmt::For { init: i, condition: c, update: u, body: clone_stmts(body) }
        },
        Stmt::ForOf { name, ty, iterable, body } => {
            let it = clone_expr(iterable);
            let t = clone_opt_type(ty);
            proof {
                assert(opt_type(t) == opt_type(*ty));
            }
            Stmt::ForOf { name: name.clone(), ty: t, iterable: Box::new(it), body: clone_stmts(body) }
        },
        Stmt::Break => Stmt::Break,
        Stmt::Continue => Stmt::Continue,
        Stmt::Expr(e) => Stmt::Expr(clone_expr(e)),
        Stmt::Import { module, alias } => {
            let a = alias.clone();
            proof {
                assert(opt_str(a) == opt_str(*alias));
            }
            Stmt::Import { module: clone_strings(module), alias: a }
        },
        Stmt::FromImport { module, names, wildcard } => Stmt::FromImport {
            module: clone_strings(module),
            names: clone_names(names),
            wildcard: *wildcard,
        },
        Stmt::ExportDecl(inner) => Stmt::ExportDecl(Box::new(clone_stmt(inner))),
        Stmt::ExportSpec(items) => Stmt::ExportSpec(clone_items(items)),
        Stmt::ExportDefault(d) => Stmt::ExportDefault(
            match d {
                ExportDefault::Function(f) => ExportDefault::Function(clone_function(f)),
                ExportDefault::Expr(x) => ExportDefault::Expr(clone_expr(x)),
            },
        ),
        Stmt::Switch { discriminant, cases } => {
            let d = clone_expr(discriminant);
            Stmt::Switch { discriminant: d, cases: clone_cases(cases) }
        },
        Stmt::Try { body, catch_name, catch_body } => {
            let b = clone_stmts(body);
            let n = catch_name.clone();
            proof {
                assert(opt_str(n) == opt_str(*catch_name));
            }
            Stmt::Try { body: b, catch_name: n, catch_body: clone_stmts(catch_body) }
        },
        Stmt::Throw(e) => Stmt::Throw(clone_expr(e)),
        Stmt::TypeAlias { name, ty, line, col } => Stmt::TypeAlias {
            name: name.clone(),
            ty: clone_type(ty),
            line: *line,
            col: *col,
        },
        Stmt::Interface { name, extends, fields, line, col } => Stmt::Interface {
            name: name.clone(),
            extends: clone_strings(extends),
            fields: clone_fields(fields),
            line: *line,
            col: *col,
        },
        Stmt::Enum { name, variants, line, col } => Stmt::Enum {
            name: name.clone(),
            variants: clone_variants(variants),
            line: *line,
            col: *col,
        },
    }
}

} // verus!
