//! The values of syntax trees: the same shapes with names and texts as
//! character sequences and vectors as sequences, so that two trees built
//! apart can be compared.

use crate::syntax::ast::{
    ArrayElement, ArrowBody, BinOp, ExportDefault, ExportItem, Expr, Function, ImportNamed, ObjectField, Param,
    Program, Stmt, SwitchCase, Type, TypeV, UnaryOp,
};
use vstd::prelude::*;

verus! {

pub enum ExprV {
    Number(Seq<char>),
    String(Seq<char>),
    Bool(bool),
    Null,
    Undefined,
    Ident(Seq<char>),
    Call { callee: Box<ExprV>, args: Seq<ExprV> },
    Unary { op: UnaryOp, operand: Box<ExprV> },
    Binary { op: BinOp, left: Box<ExprV>, right: Box<ExprV> },
    Member { object: Box<ExprV>, property: Seq<char> },
    Index { object: Box<ExprV>, index: Box<ExprV> },
    ArrayLiteral { elements: Seq<ElementV> },
    ObjectLiteral { fields: Seq<FieldV> },
    Path { segments: Seq<Seq<char>> },
    Arrow { params: Seq<ParamV>, return_type: Option<TypeV>, body: BodyV },
    TypeOf(Box<ExprV>),
    AsConst(Box<ExprV>),
    NonNullAssertion(Box<ExprV>),
    AsAssertion { expr: Box<ExprV>, ty: TypeV },
}

pub enum ElementV {
    Item(ExprV),
    Spread(ExprV),
}

pub enum FieldV {
    KV(Seq<char>, ExprV),
    Spread(ExprV),
}

pub enum BodyV {
    Expr(Box<ExprV>),
    Block(Seq<StmtV>),
}

pub struct ParamV {
    pub name: Seq<char>,
    pub ty: TypeV,
    pub line: usize,
    pub col: usize,
}

pub struct FunctionV {
    pub name: Seq<char>,
    pub params: Seq<ParamV>,
    pub return_type: TypeV,
    pub body: Seq<StmtV>,
    pub line: usize,
    pub col: usize,
}

pub struct CaseV {
    pub values: Seq<ExprV>,
    pub body: Seq<StmtV>,
    pub is_default: bool,
}

pub enum DefaultV {
    Function(FunctionV),
    Expr(ExprV),
}

pub struct NamedV {
    pub name: Seq<char>,
    pub alias: Option<Seq<char>>,
}

pub enum StmtV {
    Let { name: Seq<char>, ty: Option<TypeV>, value: ExprV, line: usize, col: usize },
    Const { name: Seq<char>, ty: Option<TypeV>, value: ExprV, line: usize, col: usize },
    Assign { name: Seq<char>, value: ExprV, line: usize, col: usize },
    AssignIndex { object: Seq<char>, index: ExprV, value: ExprV, line: usize, col: usize },
    AssignMember { object: Box<ExprV>, property: Seq<char>, value: ExprV, line: usize, col: usize },
    Function(FunctionV),
    Return(Option<ExprV>),
    If { condition: ExprV, then_branch: Seq<StmtV>, else_branch: Option<Seq<StmtV>> },
    While { condition: ExprV, body: Seq<StmtV> },
    For { init: Option<Box<StmtV>>, condition: Option<ExprV>, update: Option<Box<StmtV>>, body: Seq<StmtV> },
    ForOf { name: Seq<char>, ty: Option<TypeV>, iterable: Box<ExprV>, body: Seq<StmtV> },
    Break,
    Continue,
    Expr(ExprV),
    Import { module: Seq<Seq<char>>, alias: Option<Seq<char>> },
    FromImport { module: Seq<Seq<char>>, names: Seq<NamedV>, wildcard: bool },
    ExportDecl(Box<StmtV>),
    ExportSpec(Seq<NamedV>),
    ExportDefault(DefaultV),
    Switch { discriminant: ExprV, cases: Seq<CaseV> },
    Try { body: Seq<StmtV>, catch_name: Option<Seq<char>>, catch_body: Seq<StmtV> },
    Throw(ExprV),
    TypeAlias { name: Seq<char>, ty: TypeV, line: usize, col: usize },
    Interface {
        name: Seq<char>,
        extends: Seq<Seq<char>>,
        fields: Seq<(Seq<char>, TypeV, bool)>,
        line: usize,
        col: usize,
    },
    Enum { name: Seq<char>, variants: Seq<(Seq<char>, Option<i64>)>, line: usize, col: usize },
}

pub open spec fn opt_str(s: Option<String>) -> Option<Seq<char>> {
    match s {
        Some(x) => Some(x@),
        None => None,
    }
}

pub open spec fn opt_type(t: Option<Type>) -> Option<TypeV> {
    match t {
        Some(x) => Some(x@),
        None => None,
    }
}

pub open spec fn strs_v(s: Seq<String>) -> Seq<Seq<char>> {
    s.map_values(|x: String| x@)
}

pub open spec fn param_v(p: Param) -> ParamV {
    ParamV { name: p.name@, ty: p.ty@, line: p.line, col: p.col }
}

pub open spec fn params_v(s: Seq<Param>) -> Seq<ParamV> {
    s.map_values(|p: Param| param_v(p))
}

pub open spec fn named_v(n: ImportNamed) -> NamedV {
    NamedV { name: n.name@, alias: opt_str(n.alias) }
}

pub open spec fn item_v(n: ExportItem) -> NamedV {
    NamedV { name: n.name@, alias: opt_str(n.alias) }
}

pub open spec fn expr_v(e: Expr) -> ExprV
    decreases e,
{
    match e {
        Expr::Number(s) => ExprV::Number(s@),
        Expr::String(s) => ExprV::String(s@),
        Expr::Bool(b) => ExprV::Bool(b),
        Expr::Null => ExprV::Null,
        Expr::Undefined => ExprV::Undefined,
        Expr::Ident(s) => ExprV::Ident(s@),
        Expr::Call { callee, args } => ExprV::Call { callee: Box::new(expr_v(*callee)), args: exprs_v(args@) },
        Expr::Unary { op, operand } => ExprV::Unary { op, operand: Box::new(expr_v(*operand)) },
        Expr::Binary { op, left, right } => ExprV::Binary {
            op,
            left: Box::new(expr_v(*left)),
            right: Box::new(expr_v(*right)),
        },
        Expr::Member { object, property } => ExprV::Member { object: Box::new(expr_v(*object)), property: property@ },
        Expr::Index { object, index } => ExprV::Index {
            object: Box::new(expr_v(*object)),
            index: Box::new(expr_v(*index)),
        },
        Expr::ArrayLiteral { elements } => ExprV::ArrayLiteral { elements: elements_v(elements@) },
        Expr::ObjectLiteral { fields } => ExprV::ObjectLiteral { fields: fields_v(fields@) },
        Expr::Path { segments } => ExprV::Path { segments: strs_v(segments@) },
        Expr::Arrow { params, return_type, body } => ExprV::Arrow {
            params: params_v(params@),
            return_type: opt_type(return_type),
            body: match body {
                ArrowBody::Expr(x) => BodyV::Expr(Box::new(expr_v(*x))),
                ArrowBody::Block(ss) => BodyV::Block(stmts_v(ss@)),
            },
        },
        Expr::TypeOf(x) => ExprV::TypeOf(Box::new(expr_v(*x))),
        Expr::AsConst(x) => ExprV::AsConst(Box::new(expr_v(*x))),
        Expr::NonNullAssertion(x) => ExprV::NonNullAssertion(Box::new(expr_v(*x))),
        Expr::AsAssertion { expr, ty } => ExprV::AsAssertion { expr: Box::new(expr_v(*expr)), ty: ty@ },
    }
}

pub open spec fn exprs_v(s: Seq<Expr>) -> Seq<ExprV>
    decreases s,
{
    if s.len() == 0 {
        Seq::empty()
    } else {
        exprs_v(s.drop_last()).push(expr_v(s.last()))
    }
}

pub open spec fn elements_v(s: Seq<ArrayElement>) -> Seq<ElementV>
    decreases s,
{
    if s.len() == 0 {
        Seq::empty()
    } else {
        elements_v(s.drop_last()).push(
            match s.last() {
                ArrayElement::Item(x) => ElementV::Item(expr_v(x)),
                ArrayElement::Spread(x) => ElementV::Spread(expr_v(x)),
            },
        )
    }
}

pub open spec fn fields_v(s: Seq<ObjectField>) -> Seq<FieldV>
    decreases s,
{
    if s.len() == 0 {
        Seq::empty()
    } else {
        fields_v(s.drop_last()).push(
            match s.last() {
                ObjectField::KV(k, x) => FieldV::KV(k@, expr_v(x)),
                ObjectField::Spread(x) => FieldV::Spread(expr_v(x)),
            },
        )
    }
}

pub open spec fn function_v(f: Function) -> FunctionV
    decreases f,
{
    FunctionV {
        name: f.name@,
        params: params_v(f.params@),
        return_type: f.return_type@,
        body: stmts_v(f.body@),
        line: f.line,
        col: f.col,
    }
}

pub open spec fn opt_stmts_v(s: Option<Vec<Stmt>>) -> Option<Seq<StmtV>>
    decreases s,
{
    match s {
        Some(v) => Some(stmts_v(v@)),
        None => None,
    }
}

pub open spec fn stmt_v(s: Stmt) -> StmtV
    decreases s,
{
    match s {
        Stmt::Let { name, ty, value, line, col } => StmtV::Let {
            name: name@,
            ty: opt_type(ty),
            value: expr_v(value),
            line,
            col,
        },
        Stmt::Const { name, ty, value, line, col } => StmtV::Const {
            name: name@,
            ty: opt_type(ty),
            value: expr_v(value),
            line,
            col,
        },
        Stmt::Assign { name, value, line, col } => StmtV::Assign { name: name@, value: expr_v(value), line, col },
        Stmt::AssignIndex { object, index, value, line, col } => StmtV::AssignIndex {
            object: object@,
            index: expr_v(index),
            value: expr_v(value),
            line,
            col,
        },
        Stmt::AssignMember { object, property, value, line, col } => StmtV::AssignMember {
            object: Box::new(expr_v(*object)),
            property: property@,
            value: expr_v(value),
            line,
            col,
        },
        Stmt::Function(f) => StmtV::Function(function_v(f)),
        Stmt::Return(e) => StmtV::Return(
            match e {
                Some(x) => Some(expr_v(x)),
                None => None,
            },
        ),
        Stmt::If { condition, then_branch, else_branch } => StmtV::If {
            condition: expr_v(condition),
            then_branch: stmts_v(then_branch@),
            else_branch: opt_stmts_v(else_branch),
        },
        Stmt::While { condition, body } => StmtV::While { condition: expr_v(condition), body: stmts_v(body@) },
        Stmt::For { init, condition, update, body } => StmtV::For {
            init: match init {
                Some(i) => Some(Box::new(stmt_v(*i))),
                None => None,
            },
            condition: match condition {
                Some(c) => Some(expr_v(c)),
                None => None,
            },
            update: match update {
                Some(u) => Some(Box::new(stmt_v(*u))),
                None => None,
            },
            body: stmts_v(body@),
        },
        Stmt::ForOf { name, ty, iterable, body } => StmtV::ForOf {
            name: name@,
            ty: opt_type(ty),
            iterable: Box::new(expr_v(*iterable)),
            body: stmts_v(body@),
        },
        Stmt::Break => StmtV::Break,
        Stmt::Continue => StmtV::Continue,
        Stmt::Expr(e) => StmtV::Expr(expr_v(e)),
        Stmt::Import { module, alias } => StmtV::Import { module: strs_v(module@), alias: opt_str(alias) },
        Stmt::FromImport { module, names, wildcard } => StmtV::FromImport {
            module: strs_v(module@),
            names: names@.map_values(|n: ImportNamed| named_v(n)),
            wildcard,
        },
        Stmt::ExportDecl(inner) => StmtV::ExportDecl(Box::new(stmt_v(*inner))),
        Stmt::ExportSpec(items) => StmtV::ExportSpec(items@.map_values(|n: ExportItem| item_v(n))),
        Stmt::ExportDefault(d) => StmtV::ExportDefault(
            match d {
                ExportDefault::Function(f) => DefaultV::Function(function_v(f)),
                ExportDefault::Expr(e) => DefaultV::Expr(expr_v(e)),
            },
        ),
        Stmt::Switch { discriminant, cases } => StmtV::Switch {
            discriminant: expr_v(discriminant),
            cases: cases_v(cases@),
        },
        Stmt::Try { body, catch_name, catch_body } => StmtV::Try {
            body: stmts_v(body@),
            catch_name: opt_str(catch_name),
            catch_body: stmts_v(catch_body@),
        },
        Stmt::Throw(e) => StmtV::Throw(expr_v(e)),
        Stmt::TypeAlias { name, ty, line, col } => StmtV::TypeAlias { name: name@, ty: ty@, line, col },
        Stmt::Interface { name, extends, fields, line, col } => StmtV::Interface {
            name: name@,
            extends: strs_v(extends@),
            fields: crate::syntax::ast::fields_view(fields@),
            line,
            col,
        },
        Stmt::Enum { name, variants, line, col } => StmtV::Enum {
            name: name@,
            variants: variants@.map_values(|v: (String, Option<i64>)| (v.0@, v.1)),
            line,
            col,
        },
    }
}

pub open spec fn stmts_v(s: Seq<Stmt>) -> Seq<StmtV>
    decreases s,
{
    if s.len() == 0 {
        Seq::empty()
    } else {
        stmts_v(s.drop_last()).push(stmt_v(s.last()))
    }
}

pub open spec fn cases_v(s: Seq<SwitchCase>) -> Seq<CaseV>
    decreases s,
{
    if s.len() == 0 {
        Seq::empty()
    } else {
        cases_v(s.drop_last()).push(
            CaseV { values: exprs_v(s.last().values@), body: stmts_v(s.last().body@), is_default: s.last().is_default },
        )
    }
}

impl View for Expr {
    type V = ExprV;

    open spec fn view(&self) -> ExprV {
        expr_v(*self)
    }
}

impl View for Stmt {
    type V = StmtV;

    open spec fn view(&self) -> StmtV {
        stmt_v(*self)
    }
}

impl View for Program {
    type V = Seq<StmtV>;

    open spec fn view(&self) -> Seq<StmtV> {
        stmts_v(self.stmts@)
    }
}

pub proof fn lemma_exprs_v(s: Seq<Expr>)
    ensures
        exprs_v(s).len() == s.len(),
        forall|i: int| 0 <= i < s.len() ==> #[trigger] exprs_v(s)[i] == expr_v(s[i]),
    decreases s.len(),
{
    if s.len() > 0 {
        lemma_exprs_v(s.drop_last());
    }
}

pub proof fn lemma_stmts_v(s: Seq<Stmt>)
    ensures
        stmts_v(s).len() == s.len(),
        forall|i: int| 0 <= i < s.len() ==> #[trigger] stmts_v(s)[i] == stmt_v(s[i]),
    decreases s.len(),
{
    if s.len() > 0 {
        lemma_stmts_v(s.drop_last());
    }
}

pub proof fn lemma_elements_v(s: Seq<ArrayElement>)
    ensures
        elements_v(s).len() == s.len(),
        forall|i: int|
            0 <= i < s.len() ==> #[trigger] elements_v(s)[i] == (match s[i] {
                ArrayElement::Item(x) => ElementV::Item(expr_v(x)),
                ArrayElement::Spread(x) => ElementV::Spread(expr_v(x)),
            }),
    decreases s.len(),
{
    if s.len() > 0 {
        lemma_elements_v(s.drop_last());
    }
}

pub proof fn lemma_fields_v(s: Seq<ObjectField>)
    ensures
        fields_v(s).len() == s.len(),
        forall|i: int|
            0 <= i < s.len() ==> #[trigger] fields_v(s)[i] == (match s[i] {
                ObjectField::KV(k, x) => FieldV::KV(k@, expr_v(x)),
                ObjectField::Spread(x) => FieldV::Spread(expr_v(x)),
            }),
    decreases s.len(),
{
    if s.len() > 0 {
        lemma_fields_v(s.drop_last());
    }
}

pub proof fn lemma_cases_v(s: Seq<SwitchCase>)
    ensures
        cases_v(s).len() == s.len(),
        forall|i: int|
            0 <= i < s.len() ==> #[trigger] cases_v(s)[i] == (CaseV {
                values: exprs_v(s[i].values@),
                body: stmts_v(s[i].body@),
                is_default: s[i].is_default,
            }),
    decreases s.len(),
{
    if s.len() > 0 {
        lemma_cases_v(s.drop_last());
    }
}

} // verus!
