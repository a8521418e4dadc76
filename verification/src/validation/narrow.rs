//! Narrowing of optional (`T?`) bindings after a null check, as a rewrite
//! of the tree. Where a guard proves a binding present, a `let` under a
//! fresh name (`x__narrowN`), initialized with `x!`, is inserted, and the
//! uses of `x` in the narrowed region are renamed to it.
//!
//! Two guard shapes are recognized, on a plain identifier only:
//! - `if (x != null) { .. }` narrows the `then` branch (and `if (x == null)
//!   { .. } else { .. }` the `else` branch);
//! - `if (x == null) { ..; return; }` without `else`, whose branch ends in
//!   `return` / `throw` / `break` / `continue`, narrows the rest of the
//!   enclosing block.
//!
//! Runs after type inference (only a binding known to be optional is
//! narrowed). `rn_stmt`, `narrowed_block` and their companions say what
//! the rewrite gives, over the values of the trees.

use crate::syntax::ast::{
    clone_type, ArrayElement, ArrowBody, BinOp, ExportDefault, Expr, Function, ObjectField, Program, Stmt,
    SwitchCase, Type, TypeV,
};
use crate::syntax::view::{
    cases_v, elements_v, exprs_v, fields_v, lemma_cases_v, lemma_stmts_v, opt_stmts_v, params_v, stmt_v,
    stmts_v, BodyV, CaseV, DefaultV, ElementV, ExprV, FieldV, FunctionV, ParamV, StmtV,
};
use crate::text::{nat_digits, str_eq};
use crate::validation::infer::{clone_scope, lookup_type, lookupv, scope_view, Scope};
use vstd::prelude::*;

verus! {

broadcast use vstd::std_specs::vec::group_vec_axioms;

// ── Renaming, as values ──────────────────────────────────────────────────

pub open spec fn rn_name(n: Seq<char>, from: Seq<char>, to: Seq<char>) -> Seq<char> {
    if n == from {
        to
    } else {
        n
    }
}

/// An arrow function with a parameter called `from` hides it.
pub open spec fn hides(params: Seq<ParamV>, from: Seq<char>) -> bool {
    exists|i: int| 0 <= i < params.len() && (#[trigger] params[i]).name == from
}

/// `from` renamed to `to` in every use of a name within `e`.
pub open spec fn rn_expr(e: ExprV, from: Seq<char>, to: Seq<char>) -> ExprV
    decreases e,
{
    match e {
        ExprV::Ident(n) => ExprV::Ident(rn_name(n, from, to)),
        ExprV::Call { callee, args } => ExprV::Call {
            callee: Box::new(rn_expr(*callee, from, to)),
            args: rn_exprs(args, from, to),
        },
        ExprV::Unary { op, operand } => ExprV::Unary { op, operand: Box::new(rn_expr(*operand, from, to)) },
        ExprV::Binary { op, left, right } => ExprV::Binary {
            op,
            left: Box::new(rn_expr(*left, from, to)),
            right: Box::new(rn_expr(*right, from, to)),
        },
        ExprV::Member { object, property } => ExprV::Member { object: Box::new(rn_expr(*object, from, to)), property },
        ExprV::Index { object, index } => ExprV::Index {
            object: Box::new(rn_expr(*object, from, to)),
            index: Box::new(rn_expr(*index, from, to)),
        },
        ExprV::ArrayLiteral { elements } => ExprV::ArrayLiteral { elements: rn_elements(elements, from, to) },
        ExprV::ObjectLiteral { fields } => ExprV::ObjectLiteral { fields: rn_fields(fields, from, to) },
        ExprV::TypeOf(x) => ExprV::TypeOf(Box::new(rn_expr(*x, from, to))),
        ExprV::AsConst(x) => ExprV::AsConst(Box::new(rn_expr(*x, from, to))),
        ExprV::NonNullAssertion(x) => ExprV::NonNullAssertion(Box::new(rn_expr(*x, from, to))),
        ExprV::AsAssertion { expr, ty } => ExprV::AsAssertion { expr: Box::new(rn_expr(*expr, from, to)), ty },
        ExprV::Arrow { params, return_type, body } => if hides(params, from) {
            e
        } else {
            ExprV::Arrow {
                params,
                return_type,
                body: match body {
                    BodyV::Expr(x) => BodyV::Expr(Box::new(rn_expr(*x, from, to))),
                    BodyV::Block(ss) => BodyV::Block(rn_stmts(ss, from, to)),
                },
            }
        },
        _ => e,
    }
}

pub open spec fn rn_exprs(es: Seq<ExprV>, from: Seq<char>, to: Seq<char>) -> Seq<ExprV>
    decreases es,
{
    if es.len() == 0 {
        es
    } else {
        rn_exprs(es.drop_last(), from, to).push(rn_expr(es.last(), from, to))
    }
}

pub open spec fn rn_elements(es: Seq<ElementV>, from: Seq<char>, to: Seq<char>) -> Seq<ElementV>
    decreases es,
{
    if es.len() == 0 {
        es
    } else {
        rn_elements(es.drop_last(), from, to).push(
            match es.last() {
                ElementV::Item(x) => ElementV::Item(rn_expr(x, from, to)),
                ElementV::Spread(x) => ElementV::Spread(rn_expr(x, from, to)),
            },
        )
    }
}

pub open spec fn rn_fields(fs: Seq<FieldV>, from: Seq<char>, to: Seq<char>) -> Seq<FieldV>
    decreases fs,
{
    if fs.len() == 0 {
        fs
    } else {
        rn_fields(fs.drop_last(), from, to).push(
            match fs.last() {
                FieldV::KV(k, x) => FieldV::KV(k, rn_expr(x, from, to)),
                FieldV::Spread(x) => FieldV::Spread(rn_expr(x, from, to)),
            },
        )
    }
}

pub open spec fn rn_stmts(ss: Seq<StmtV>, from: Seq<char>, to: Seq<char>) -> Seq<StmtV>
    decreases ss,
{
    if ss.len() == 0 {
        ss
    } else {
        rn_stmts(ss.drop_last(), from, to).push(rn_stmt(ss.last(), from, to))
    }
}

pub open spec fn rn_cases(cs: Seq<CaseV>, from: Seq<char>, to: Seq<char>) -> Seq<CaseV>
    decreases cs,
{
    if cs.len() == 0 {
        cs
    } else {
        rn_cases(cs.drop_last(), from, to).push(
            CaseV {
                values: rn_exprs(cs.last().values, from, to),
                body: rn_stmts(cs.last().body, from, to),
                is_default: cs.last().is_default,
            },
        )
    }
}

/// `from` renamed to `to` in one statement: in its expressions, in the
/// names it assigns and in its nested blocks; a `for-of` variable called
/// `from` hides it in the loop's body; declarations keep their names and
/// function bodies are left alone.
pub open spec fn rn_stmt(s: StmtV, from: Seq<char>, to: Seq<char>) -> StmtV
    decreases s,
{
    match s {
        StmtV::Let { name, ty, value, line, col } => StmtV::Let { name, ty, value: rn_expr(value, from, to), line, col },
        StmtV::Const { name, ty, value, line, col } => StmtV::Const {
            name,
            ty,
            value: rn_expr(value, from, to),
            line,
            col,
        },
        StmtV::Assign { name, value, line, col } => StmtV::Assign {
            name: rn_name(name, from, to),
            value: rn_expr(value, from, to),
            line,
            col,
        },
        StmtV::AssignIndex { object, index, value, line, col } => StmtV::AssignIndex {
            object: rn_name(object, from, to),
            index: rn_expr(index, from, to),
            value: rn_expr(value, from, to),
            line,
            col,
        },
        StmtV::AssignMember { object, property, value, line, col } => StmtV::AssignMember {
            object: Box::new(rn_expr(*object, from, to)),
            property,
            value: rn_expr(value, from, to),
            line,
            col,
        },
        StmtV::Return(e) => StmtV::Return(
            match e {
                Some(x) => Some(rn_expr(x, from, to)),
                None => None,
            },
        ),
        StmtV::Throw(e) => StmtV::Throw(rn_expr(e, from, to)),
        StmtV::Expr(e) => StmtV::Expr(rn_expr(e, from, to)),
        StmtV::If { condition, then_branch, else_branch } => StmtV::If {
            condition: rn_expr(condition, from, to),
            then_branch: rn_stmts(then_branch, from, to),
            else_branch: match else_branch {
                Some(b) => Some(rn_stmts(b, from, to)),
                None => None,
            },
        },
        StmtV::While { condition, body } => StmtV::While {
            condition: rn_expr(condition, from, to),
            body: rn_stmts(body, from, to),
        },
        StmtV::For { init, condition, update, body } => StmtV::For {
            init: match init {
                Some(x) => Some(Box::new(rn_stmt(*x, from, to))),
                None => None,
            },
            condition: match condition {
                Some(x) => Some(rn_expr(x, from, to)),
                None => None,
            },
            update: match update {
                Some(x) => Some(Box::new(rn_stmt(*x, from, to))),
                None => None,
            },
            body: rn_stmts(body, from, to),
        },
        StmtV::ForOf { name, ty, iterable, body } => StmtV::ForOf {
            name,
            ty,
            iterable: Box::new(rn_expr(*iterable, from, to)),
            body: if name == from {
                body
            } else {
                rn_stmts(body, from, to)
            },
        },
        StmtV::Switch { discriminant, cases } => StmtV::Switch {
            discriminant: rn_expr(discriminant, from, to),
            cases: rn_cases(cases, from, to),
        },
        StmtV::Try { body, catch_name, catch_body } => StmtV::Try {
            body: rn_stmts(body, from, to),
            catch_name,
            catch_body: rn_stmts(catch_body, from, to),
        },
        StmtV::ExportDecl(inner) => StmtV::ExportDecl(Box::new(rn_stmt(*inner, from, to))),
        _ => s,
    }
}

// ── Sizes (for termination) ──────────────────────────────────────────────

/// Number of statements in the nested block structure of `s` (itself
/// included): what narrowing walks.
pub open spec fn sz(s: StmtV) -> nat
    decreases s,
{
    1 + match s {
        StmtV::If { then_branch, else_branch, .. } => szs(then_branch) + match else_branch {
            Some(b) => szs(b),
            None => 0,
        },
        StmtV::While { body, .. } => szs(body),
        StmtV::For { body, .. } => szs(body),
        StmtV::ForOf { body, .. } => szs(body),
        StmtV::Switch { cases, .. } => szc(cases),
        StmtV::Try { body, catch_body, .. } => szs(body) + szs(catch_body),
        StmtV::Function(f) => szs(f.body),
        StmtV::ExportDecl(inner) => sz(*inner),
        StmtV::ExportDefault(DefaultV::Function(f)) => szs(f.body),
        _ => 0,
    }
}

pub open spec fn szs(ss: Seq<StmtV>) -> nat
    decreases ss,
{
    if ss.len() == 0 {
        0
    } else {
        sz(ss[0]) + szs(ss.drop_first())
    }
}

pub open spec fn szc(cs: Seq<CaseV>) -> nat
    decreases cs,
{
    if cs.len() == 0 {
        0
    } else {
        1 + szs(cs[0].body) + szc(cs.drop_first())
    }
}

pub proof fn lemma_szs_push(a: Seq<StmtV>, x: StmtV)
    ensures
        szs(a.push(x)) == szs(a) + sz(x),
    decreases a.len(),
{
    if a.len() > 0 {
        assert(a.push(x).drop_first() =~= a.drop_first().push(x));
        assert(a.push(x)[0] == a[0]);
        lemma_szs_push(a.drop_first(), x);
    } else {
        assert(a.push(x).drop_first() =~= Seq::<StmtV>::empty());
        assert(a.push(x)[0] == x);
        assert(szs(Seq::<StmtV>::empty()) == 0);
    }
}

pub proof fn lemma_szc_push(a: Seq<CaseV>, x: CaseV)
    ensures
        szc(a.push(x)) == szc(a) + 1 + szs(x.body),
    decreases a.len(),
{
    if a.len() > 0 {
        assert(a.push(x).drop_first() =~= a.drop_first().push(x));
        assert(a.push(x)[0] == a[0]);
        lemma_szc_push(a.drop_first(), x);
    } else {
        assert(a.push(x).drop_first() =~= Seq::<CaseV>::empty());
        assert(a.push(x)[0] == x);
        assert(szc(Seq::<CaseV>::empty()) == 0);
    }
}

/// Renaming keeps the block structure, so its size.
pub proof fn lemma_rn_sz(s: StmtV, from: Seq<char>, to: Seq<char>)
    ensures
        sz(rn_stmt(s, from, to)) == sz(s),
    decreases s,
{
    match s {
        StmtV::If { then_branch, else_branch, .. } => {
            lemma_rn_szs(then_branch, from, to);
            match else_branch {
                Some(b) => lemma_rn_szs(b, from, to),
                None => {},
            }
        },
        StmtV::While { body, .. } => lemma_rn_szs(body, from, to),
        StmtV::For { body, .. } => lemma_rn_szs(body, from, to),
        StmtV::ForOf { name, body, .. } => if name != from {
            lemma_rn_szs(body, from, to);
        },
        StmtV::Switch { cases, .. } => lemma_rn_szc(cases, from, to),
        StmtV::Try { body, catch_body, .. } => {
            lemma_rn_szs(body, from, to);
            lemma_rn_szs(catch_body, from, to);
        },
        StmtV::ExportDecl(inner) => lemma_rn_sz(*inner, from, to),
        _ => {},
    }
}

pub proof fn lemma_rn_szs(ss: Seq<StmtV>, from: Seq<char>, to: Seq<char>)
    ensures
        szs(rn_stmts(ss, from, to)) == szs(ss),
    decreases ss,
{
    if ss.len() > 0 {
        lemma_rn_szs(ss.drop_last(), from, to);
        lemma_rn_sz(ss.last(), from, to);
        lemma_szs_push(rn_stmts(ss.drop_last(), from, to), rn_stmt(ss.last(), from, to));
        lemma_szs_push(ss.drop_last(), ss.last());
        assert(ss.drop_last().push(ss.last()) =~= ss);
    }
}

pub proof fn lemma_rn_szc(cs: Seq<CaseV>, from: Seq<char>, to: Seq<char>)
    ensures
        szc(rn_cases(cs, from, to)) == szc(cs),
    decreases cs,
{
    if cs.len() > 0 {
        lemma_rn_szc(cs.drop_last(), from, to);
        lemma_rn_szs(cs.last().body, from, to);
        let x = CaseV {
            values: rn_exprs(cs.last().values, from, to),
            body: rn_stmts(cs.last().body, from, to),
            is_default: cs.last().is_default,
        };
        lemma_szc_push(rn_cases(cs.drop_last(), from, to), x);
        lemma_szc_push(cs.drop_last(), cs.last());
        assert(cs.drop_last().push(cs.last()) =~= cs);
    }
}

/// A case's body is smaller than the cases around it.
proof fn lemma_case_sz(cs: Seq<CaseV>, k: int)
    requires
        0 <= k < cs.len(),
    ensures
        szs(cs[k].body) < szc(cs),
    decreases k,
{
    if k > 0 {
        lemma_case_sz(cs.drop_first(), k - 1);
    }
}

// ── Narrowing, as values ─────────────────────────────────────────────────

pub open spec fn null_lit_v(e: ExprV) -> bool {
    e is Null || e is Undefined
}

/// `(name, is_not_equal)` for a condition `name != null` / `name == null`
/// (either operand order; `undefined` counts as `null`).
pub open spec fn null_check_v(cond: ExprV) -> Option<(Seq<char>, bool)> {
    match cond {
        ExprV::Binary { op, left, right } => if op == BinOp::NotEq || op == BinOp::EqEq {
            let side = if null_lit_v(*right) {
                Some(*left)
            } else if null_lit_v(*left) {
                Some(*right)
            } else {
                None
            };
            match side {
                Some(ExprV::Ident(name)) => Some((name, op == BinOp::NotEq)),
                _ => None,
            }
        } else {
            None
        },
        _ => None,
    }
}

/// The block ends in `return`, `throw`, `break` or `continue`.
pub open spec fn exits_v(ss: Seq<StmtV>) -> bool {
    ss.len() > 0 && (ss.last() is Return || ss.last() is Throw || ss.last() is Break || ss.last() is Continue)
}

/// The `n`-th fresh name narrowing mints for `name`.
pub open spec fn minted(name: Seq<char>, n: u32) -> Seq<char> {
    name + "__narrow"@ + nat_digits(n as nat)
}

/// `let fresh: inner = name!;`
pub open spec fn narrowed_let_v(fresh: Seq<char>, name: Seq<char>, inner: TypeV) -> StmtV {
    StmtV::Let {
        name: fresh,
        ty: Some(inner),
        value: ExprV::NonNullAssertion(Box::new(ExprV::Ident(name))),
        line: 0,
        col: 0,
    }
}

/// The binding a statement declares with a type (a `let` / `const` or
/// `for-of`; inside `export` too), added to `scope`.
pub open spec fn recorded(s: StmtV, scope: Seq<(Seq<char>, TypeV)>) -> Seq<(Seq<char>, TypeV)>
    decreases s,
{
    match s {
        StmtV::Let { name, ty: Some(t), .. } => scope.push((name, t)),
        StmtV::Const { name, ty: Some(t), .. } => scope.push((name, t)),
        StmtV::ForOf { name, ty: Some(t), .. } => scope.push((name, t)),
        StmtV::ExportDecl(inner) => recorded(*inner, scope),
        _ => scope,
    }
}

/// The guard a statement is, if any: the statement with a narrowed
/// branch, the counter, and, for a guard clause, the binding narrowed for
/// the rest of the block (`name`, fresh name, inner type).
pub open spec fn guarded(s: StmtV, scope: Seq<(Seq<char>, TypeV)>, c: u32) -> (
    StmtV,
    u32,
    Option<(Seq<char>, Seq<char>, TypeV)>,
) {
    match s {
        StmtV::If { condition, then_branch, else_branch } => match null_check_v(condition) {
            Some(chk) => match lookupv(scope, chk.0) {
                Some(TypeV::Optional(inner)) => {
                    let n = c.wrapping_add(1);
                    let fresh = minted(chk.0, n);
                    let l = narrowed_let_v(fresh, chk.0, *inner);
                    if chk.1 {
                        (
                            StmtV::If {
                                condition,
                                then_branch: seq![l] + rn_stmts(then_branch, chk.0, fresh),
                                else_branch,
                            },
                            n,
                            None,
                        )
                    } else {
                        match else_branch {
                            Some(eb) => (
                                StmtV::If {
                                    condition,
                                    then_branch,
                                    else_branch: Some(seq![l] + rn_stmts(eb, chk.0, fresh)),
                                },
                                n,
                                None,
                            ),
                            None => if exits_v(then_branch) {
                                (s, n, Some((chk.0, fresh, *inner)))
                            } else {
                                (s, c, None)
                            },
                        }
                    }
                },
                _ => (s, c, None),
            },
            None => (s, c, None),
        },
        _ => (s, c, None),
    }
}

/// A block narrowed statement by statement: each statement's nested
/// blocks first, then the statement as a guard; after a guard clause the
/// narrowed binding follows it and the rest of the block is renamed.
pub open spec fn narrowed_block(ss: Seq<StmtV>, scope: Seq<(Seq<char>, TypeV)>, c: u32) -> (Seq<StmtV>, u32)
    decreases szs(ss), 1int,
{
    if ss.len() == 0 {
        (ss, c)
    } else {
        proof {
            assert(sz(ss[0]) >= 1);
            assert(szs(ss) == sz(ss[0]) + szs(ss.drop_first()));
        }
        let a = narrowed_nested(ss[0], scope, c);
        let g = guarded(a.0, scope, a.1);
        let scope1 = recorded(g.0, scope);
        match g.2 {
            Some(gd) => {
                let l = narrowed_let_v(gd.1, gd.0, gd.2);
                proof {
                    lemma_rn_szs(ss.drop_first(), gd.0, gd.1);
                }
                let rest = narrowed_block(rn_stmts(ss.drop_first(), gd.0, gd.1), recorded(l, scope1), g.1);
                (seq![g.0, l] + rest.0, rest.1)
            },
            None => {
                let rest = narrowed_block(ss.drop_first(), scope1, g.1);
                (seq![g.0] + rest.0, rest.1)
            },
        }
    }
}

/// The blocks nested in one statement narrowed (not the statement's own
/// block): branches and bodies from `scope`, function bodies from their
/// parameters alone.
pub open spec fn narrowed_nested(s: StmtV, scope: Seq<(Seq<char>, TypeV)>, c: u32) -> (StmtV, u32)
    decreases sz(s), 0int,
{
    match s {
        StmtV::If { condition, then_branch, else_branch } => {
            let t = narrowed_block(then_branch, scope, c);
            match else_branch {
                Some(b) => {
                    let e = narrowed_block(b, scope, t.1);
                    (StmtV::If { condition, then_branch: t.0, else_branch: Some(e.0) }, e.1)
                },
                None => (StmtV::If { condition, then_branch: t.0, else_branch: None }, t.1),
            }
        },
        StmtV::While { condition, body } => {
            let b = narrowed_block(body, scope, c);
            (StmtV::While { condition, body: b.0 }, b.1)
        },
        StmtV::For { init, condition, update, body } => {
            let b = narrowed_block(body, scope, c);
            (StmtV::For { init, condition, update, body: b.0 }, b.1)
        },
        StmtV::ForOf { name, ty, iterable, body } => {
            let b = narrowed_block(body, scope, c);
            (StmtV::ForOf { name, ty, iterable, body: b.0 }, b.1)
        },
        StmtV::Switch { discriminant, cases } => {
            let r = narrowed_cases(cases, scope, c);
            (StmtV::Switch { discriminant, cases: r.0 }, r.1)
        },
        StmtV::Try { body, catch_name, catch_body } => {
            let b = narrowed_block(body, scope, c);
            let k = narrowed_block(catch_body, scope, b.1);
            (StmtV::Try { body: b.0, catch_name, catch_body: k.0 }, k.1)
        },
        StmtV::Function(f) => {
            let r = narrowed_function(f, c);
            (StmtV::Function(r.0), r.1)
        },
        StmtV::ExportDecl(inner) => {
            let r = narrowed_nested(*inner, scope, c);
            (StmtV::ExportDecl(Box::new(r.0)), r.1)
        },
        StmtV::ExportDefault(DefaultV::Function(f)) => {
            let r = narrowed_function(f, c);
            (StmtV::ExportDefault(DefaultV::Function(r.0)), r.1)
        },
        _ => (s, c),
    }
}

pub open spec fn narrowed_cases(cs: Seq<CaseV>, scope: Seq<(Seq<char>, TypeV)>, c: u32) -> (Seq<CaseV>, u32)
    decreases szc(cs), 2int,
{
    if cs.len() == 0 {
        (cs, c)
    } else {
        let b = narrowed_block(cs[0].body, scope, c);
        let rest = narrowed_cases(cs.drop_first(), scope, b.1);
        (seq![CaseV { values: cs[0].values, body: b.0, is_default: cs[0].is_default }] + rest.0, rest.1)
    }
}

/// The parameters of a function, as the bindings its body starts from.
pub open spec fn params_scope(ps: Seq<ParamV>) -> Seq<(Seq<char>, TypeV)> {
    ps.map_values(|p: ParamV| (p.name, p.ty))
}

pub open spec fn narrowed_function(f: FunctionV, c: u32) -> (FunctionV, u32)
    decreases szs(f.body), 2int,
{
    let b = narrowed_block(f.body, params_scope(f.params), c);
    (FunctionV { name: f.name, params: f.params, return_type: f.return_type, body: b.0, line: f.line, col: f.col }, b.1)
}


// ── Guards ───────────────────────────────────────────────────────────────

fn is_null_lit(e: &Expr) -> (r: bool)
    ensures
        r == null_lit_v(e@),
{
    match e {
        Expr::Null | Expr::Undefined => true,
        _ => false,
    }
}

/// `(name, is_not_equal)` for a condition `name != null` / `name == null`.
pub fn null_check_ident(cond: &Expr) -> (r: Option<(String, bool)>)
    ensures
        match r {
            Some((n, ne)) => null_check_v(cond@) == Some((n@, ne)),
            None => null_check_v(cond@) is None,
        },
{
    match cond {
        Expr::Binary { op, left, right } => {
            let is_ne = match op {
                BinOp::NotEq => true,
                BinOp::EqEq => false,
                _ => {
                    return None;
                },
            };
            let side: &Expr = if is_null_lit(right) {
                left
            } else if is_null_lit(left) {
                right
            } else {
                return None;
            };
            match side {
                Expr::Ident(name) => Some((name.clone(), is_ne)),
                _ => None,
            }
        },
        _ => None,
    }
}

pub fn definitely_exits(stmts: &Vec<Stmt>) -> (r: bool)
    ensures
        r == exits_v(stmts_v(stmts@)),
{
    proof {
        lemma_stmts_v(stmts@);
    }
    if stmts.len() == 0 {
        return false;
    }
    match &stmts[stmts.len() - 1] {
        Stmt::Return(_) | Stmt::Throw(_) | Stmt::Break | Stmt::Continue => true,
        _ => false,
    }
}

/// `let fresh: inner = name!;`
pub fn narrowed_let(fresh: &String, name: &String, inner: Type) -> (r: Stmt)
    ensures
        r@ == narrowed_let_v(fresh@, name@, inner@),
{
    let id = Expr::Ident(name.clone());
    proof {
        assert(id@ == ExprV::Ident(name@));
    }
    let v = Expr::NonNullAssertion(Box::new(id));
    let ty = Some(inner);
    proof {
        assert(v@ == ExprV::NonNullAssertion(Box::new(ExprV::Ident(name@))));
        assert(crate::syntax::view::opt_type(ty) == Some(inner@));
    }
    Stmt::Let { name: fresh.clone(), ty, value: v, line: 0, col: 0 }
}

/// A fresh name for a narrowed `name`: `name__narrowN`, N counting up.
pub fn mint(counter: &mut u32, name: &String) -> (r: String)
    ensures
        *final(counter) == (*old(counter)).wrapping_add(1),
        r@ == minted(name@, *final(counter)),
{
    *counter = counter.wrapping_add(1);
    let mut s = name.clone();
    s.append("__narrow");
    s.append(crate::text::u64_decimal(*counter as u64).as_str());
    proof {
        reveal_strlit("__narrow");
        assert(s@ =~= minted(name@, *counter));
    }
    s
}

/// The names narrowing mints are fresh: two mints for one binding, at
/// different counter values (one pass counts up from zero, so any two of
/// its first 2^32 mints), give different names.
pub proof fn lemma_minted_names_differ(name: Seq<char>, a: u32, b: u32)
    requires
        a != b,
    ensures
        minted(name, a) != minted(name, b),
{
    crate::text::lemma_numbered_names_differ(name, "__narrow"@, a as nat, b as nat);
}

// ── Renaming ─────────────────────────────────────────────────────────────

/// `name` renamed if it is `from`.
fn rename_name(name: String, from: &String, to: &String) -> (r: String)
    ensures
        r@ == rn_name(name@, from@, to@),
{
    if str_eq(name.as_str(), from.as_str()) {
        to.clone()
    } else {
        name
    }
}

/// Renames `from` to `to` in every statement of a block.
#[verifier::loop_isolation(false)]
pub(crate) fn rename_block(stmts: Vec<Stmt>, from: &String, to: &String) -> (r: Vec<Stmt>)
    ensures
        stmts_v(r@) == rn_stmts(stmts_v(stmts@), from@, to@),
        r@.len() == stmts@.len(),
    decreases stmts, 1int,
{
    let ghost orig = stmts;
    let ghost n = stmts@.len();
    let mut rest = stmts;
    let mut out: Vec<Stmt> = Vec::new();
    let ghost mut k: int = 0;
    proof {
        assert(orig@.subrange(0, 0) =~= Seq::<Stmt>::empty());
    }
    while rest.len() > 0
        invariant
            0 <= k <= n,
            n == orig@.len(),
            out@.len() == k,
            rest@ == orig@.subrange(k, n as int),
            stmts_v(out@) == rn_stmts(stmts_v(orig@.subrange(0, k)), from@, to@),
        decreases rest@.len(),
    {
        let s = rest.remove(0);
        proof {
            assert(s == orig@[k]);
            assert(decreases_to!(orig => orig@[k]));
        }
        let x = rename_in_stmt(s, from, to);
        proof {
            let p = orig@.subrange(0, k + 1);
            assert(p.drop_last() =~= orig@.subrange(0, k));
            assert(stmts_v(p).drop_last() =~= stmts_v(orig@.subrange(0, k)));
            assert(out@.push(x).drop_last() =~= out@);
        }
        out.push(x);
        proof {
            k = k + 1;
        }
    }
    proof {
        assert(orig@.subrange(0, n as int) =~= orig@);
    }
    out
}

#[verifier::loop_isolation(false)]
#[verifier::spinoff_prover]
#[verifier::rlimit(30)]
fn rename_exprs(v: Vec<Expr>, from: &String, to: &String) -> (r: Vec<Expr>)
    ensures
        exprs_v(r@) == rn_exprs(exprs_v(v@), from@, to@),
    decreases v, 1int,
{
    let ghost orig = v;
    let ghost n = v@.len();
    let mut rest = v;
    let mut out: Vec<Expr> = Vec::new();
    let ghost mut k: int = 0;
    proof {
        assert(orig@.subrange(0, 0) =~= Seq::<Expr>::empty());
    }
    while rest.len() > 0
        invariant
            0 <= k <= n,
            n == orig@.len(),
            rest@ == orig@.subrange(k, n as int),
            exprs_v(out@) == rn_exprs(exprs_v(orig@.subrange(0, k)), from@, to@),
        decreases rest@.len(),
    {
        let e = rest.remove(0);
        proof {
            assert(e == orig@[k]);
            assert(decreases_to!(orig => orig@[k]));
        }
        let x = rename_in_expr(e, from, to);
        proof {
            let p = orig@.subrange(0, k + 1);
            assert(p.drop_last() =~= orig@.subrange(0, k));
            assert(exprs_v(p).drop_last() =~= exprs_v(orig@.subrange(0, k)));
            assert(out@.push(x).drop_last() =~= out@);
        }
        out.push(x);
        proof {
            k = k + 1;
        }
    }
    proof {
        assert(orig@.subrange(0, n as int) =~= orig@);
    }
    out
}

#[verifier::loop_isolation(false)]
fn rename_elements(v: Vec<ArrayElement>, from: &String, to: &String) -> (r: Vec<ArrayElement>)
    ensures
        elements_v(r@) == rn_elements(elements_v(v@), from@, to@),
    decreases v, 1int,
{
    let ghost orig = v;
    let ghost n = v@.len();
    let mut rest = v;
    let mut out: Vec<ArrayElement> = Vec::new();
    let ghost mut k: int = 0;
    proof {
        assert(orig@.subrange(0, 0) =~= Seq::<ArrayElement>::empty());
    }
    while rest.len() > 0
        invariant
            0 <= k <= n,
            n == orig@.len(),
            rest@ == orig@.subrange(k, n as int),
            elements_v(out@) == rn_elements(elements_v(orig@.subrange(0, k)), from@, to@),
        decreases rest@.len(),
    {
        let el = rest.remove(0);
        proof {
            assert(el == orig@[k]);
            assert(decreases_to!(orig => orig@[k]));
        }
        let x = match el {
            ArrayElement::Item(y) => ArrayElement::Item(rename_in_expr(y, from, to)),
            ArrayElement::Spread(y) => ArrayElement::Spread(rename_in_expr(y, from, to)),
        };
        proof {
            let p = orig@.subrange(0, k + 1);
            assert(p.drop_last() =~= orig@.subrange(0, k));
            assert(elements_v(p).drop_last() =~= elements_v(orig@.subrange(0, k)));
            assert(out@.push(x).drop_last() =~= out@);
        }
        out.push(x);
        proof {
            k = k + 1;
        }
    }
    proof {
        assert(orig@.subrange(0, n as int) =~= orig@);
    }
    out
}

#[verifier::loop_isolation(false)]
fn rename_fields(v: Vec<ObjectField>, from: &String, to: &String) -> (r: Vec<ObjectField>)
    ensures
        fields_v(r@) == rn_fields(fields_v(v@), from@, to@),
    decreases v, 1int,
{
    let ghost orig = v;
    let ghost n = v@.len();
    let mut rest = v;
    let mut out: Vec<ObjectField> = Vec::new();
    let ghost mut k: int = 0;
    proof {
        assert(orig@.subrange(0, 0) =~= Seq::<ObjectField>::empty());
    }
    while rest.len() > 0
        invariant
            0 <= k <= n,
            n == orig@.len(),
            rest@ == orig@.subrange(k, n as int),
            fields_v(out@) == rn_fields(fields_v(orig@.subrange(0, k)), from@, to@),
        decreases rest@.len(),
    {
        let f = rest.remove(0);
        proof {
            assert(f == orig@[k]);
            assert(decreases_to!(orig => orig@[k]));
        }
        let x = match f {
            ObjectField::KV(key, y) => ObjectField::KV(key, rename_in_expr(y, from, to)),
            ObjectField::Spread(y) => ObjectField::Spread(rename_in_expr(y, from, to)),
        };
        proof {
            let p = orig@.subrange(0, k + 1);
            assert(p.drop_last() =~= orig@.subrange(0, k));
            assert(fields_v(p).drop_last() =~= fields_v(orig@.subrange(0, k)));
            assert(out@.push(x).drop_last() =~= out@);
        }
        out.push(x);
        proof {
            k = k + 1;
        }
    }
    proof {
        assert(orig@.subrange(0, n as int) =~= orig@);
    }
    out
}

#[verifier::loop_isolation(false)]
#[verifier::spinoff_prover]
#[verifier::rlimit(40)]
fn rename_cases(v: Vec<SwitchCase>, from: &String, to: &String) -> (r: Vec<SwitchCase>)
    ensures
        cases_v(r@) == rn_cases(cases_v(v@), from@, to@),
    decreases v, 1int,
{
    let ghost orig = v;
    let ghost n = v@.len();
    let mut rest = v;
    let mut out: Vec<SwitchCase> = Vec::new();
    let ghost mut k: int = 0;
    proof {
        assert(orig@.subrange(0, 0) =~= Seq::<SwitchCase>::empty());
    }
    while rest.len() > 0
        invariant
            0 <= k <= n,
            n == orig@.len(),
            rest@ == orig@.subrange(k, n as int),
            cases_v(out@) == rn_cases(cases_v(orig@.subrange(0, k)), from@, to@),
        decreases rest@.len(),
    {
        let c = rest.remove(0);
        proof {
            assert(c == orig@[k]);
            assert(decreases_to!(orig => orig@[k]));
        }
        let SwitchCase { values, body, is_default } = c;
        let values = rename_exprs(values, from, to);
        let body = rename_block(body, from, to);
        let x = SwitchCase { values, body, is_default };
        proof {
            let p = orig@.subrange(0, k + 1);
            let cv = CaseV { values: exprs_v(x.values@), body: stmts_v(x.body@), is_default: x.is_default };
            assert(p.drop_last() =~= orig@.subrange(0, k));
            assert(p.last() == orig@[k]);
            assert(cases_v(p) == cases_v(orig@.subrange(0, k)).push(
                CaseV { values: exprs_v(orig@[k].values@), body: stmts_v(orig@[k].body@), is_default: orig@[k].is_default },
            ));
            assert(cases_v(p).drop_last() =~= cases_v(orig@.subrange(0, k)));
            assert(out@.push(x).drop_last() =~= out@);
            assert(cases_v(out@.push(x)) == cases_v(out@).push(cv));
        }
        out.push(x);
        proof {
            k = k + 1;
        }
    }
    proof {
        assert(orig@.subrange(0, n as int) =~= orig@);
    }
    out
}

/// Renames `from` in one statement, as `rn_stmt` says.
#[verifier::spinoff_prover]
pub(crate) fn rename_in_stmt(stmt: Stmt, from: &String, to: &String) -> (r: Stmt)
    ensures
        r@ == rn_stmt(stmt@, from@, to@),
    decreases stmt, 1int,
{
    match stmt {
        Stmt::Let { name, ty, value, line, col } => Stmt::Let { name, ty, value: rename_in_expr(value, from, to), line, col },
        Stmt::Const { name, ty, value, line, col } => Stmt::Const {
            name,
            ty,
            value: rename_in_expr(value, from, to),
            line,
            col,
        },
        Stmt::Assign { name, value, line, col } => {
            let v = rename_in_expr(value, from, to);
            Stmt::Assign { name: rename_name(name, from, to), value: v, line, col }
        },
        Stmt::AssignIndex { object, index, value, line, col } => {
            let i = rename_in_expr(index, from, to);
            let v = rename_in_expr(value, from, to);
            Stmt::AssignIndex { object: rename_name(object, from, to), index: i, value: v, line, col }
        },
        Stmt::AssignMember { object, property, value, line, col } => {
            let o = rename_in_expr(*object, from, to);
            let v = rename_in_expr(value, from, to);
            Stmt::AssignMember { object: Box::new(o), property, value: v, line, col }
        },
        Stmt::Return(e) => match e {
            Some(x) => Stmt::Return(Some(rename_in_expr(x, from, to))),
            None => Stmt::Return(None),
        },
        Stmt::Throw(e) => Stmt::Throw(rename_in_expr(e, from, to)),
        Stmt::Expr(e) => Stmt::Expr(rename_in_expr(e, from, to)),
        Stmt::ExportDecl(inner) => Stmt::ExportDecl(Box::new(rename_in_stmt(*inner, from, to))),
        Stmt::If { .. } | Stmt::While { .. } | Stmt::Switch { .. } | Stmt::Try { .. } => rename_in_branches(
            stmt,
            from,
            to,
        ),
        Stmt::For { .. } | Stmt::ForOf { .. } => rename_in_loop(stmt, from, to),
        other => other,
    }
}

/// Renames `from` in an `if`, `while`, `switch` or `try`.
#[verifier::spinoff_prover]
fn rename_in_branches(stmt: Stmt, from: &String, to: &String) -> (r: Stmt)
    requires
        stmt is If || stmt is While || stmt is Switch || stmt is Try,
    ensures
        r@ == rn_stmt(stmt@, from@, to@),
    decreases stmt, 0int,
{
    match stmt {
        Stmt::If { condition, then_branch, else_branch } => {
            let ghost ev = opt_stmts_v(else_branch);
            let c = rename_in_expr(condition, from, to);
            let t = rename_block(then_branch, from, to);
            let e = match else_branch {
                Some(b) => {
                    let x = rename_block(b, from, to);
                    proof {
                        assert(opt_stmts_v(Some(x)) == Some(stmts_v(x@)));
                    }
                    Some(x)
                },
                None => None,
            };
            let r = Stmt::If { condition: c, then_branch: t, else_branch: e };
            proof {
                assert(stmt_v(r) == StmtV::If { condition: c@, then_branch: stmts_v(t@), else_branch: opt_stmts_v(e) });
                match ev {
                    Some(bv) => {
                        assert(opt_stmts_v(e) == Some(rn_stmts(bv, from@, to@)));
                    },
                    None => {
                        assert(opt_stmts_v(e) == None::<Seq<StmtV>>);
                    },
                }
            }
            r
        },
        Stmt::While { condition, body } => {
            let c = rename_in_expr(condition, from, to);
            Stmt::While { condition: c, body: rename_block(body, from, to) }
        },
        Stmt::Switch { discriminant, cases } => {
            let d = rename_in_expr(discriminant, from, to);
            Stmt::Switch { discriminant: d, cases: rename_cases(cases, from, to) }
        },
        Stmt::Try { body, catch_name, catch_body } => {
            let b = rename_block(body, from, to);
            Stmt::Try { body: b, catch_name, catch_body: rename_block(catch_body, from, to) }
        },
        other => other,
    }
}

/// Renames `from` in a `for` or `for-of` loop.
#[verifier::spinoff_prover]
fn rename_in_loop(stmt: Stmt, from: &String, to: &String) -> (r: Stmt)
    requires
        stmt is For || stmt is ForOf,
    ensures
        r@ == rn_stmt(stmt@, from@, to@),
    decreases stmt, 0int,
{
    match stmt {
        Stmt::For { init, condition, update, body } => {
            let i = match init {
                Some(x) => Some(Box::new(rename_in_stmt(*x, from, to))),
                None => None,
            };
            let c = match condition {
                Some(x) => Some(rename_in_expr(x, from, to)),
                None => None,
            };
            let u = match update {
                Some(x) => Some(Box::new(rename_in_stmt(*x, from, to))),
                None => None,
            };
            Stmt::For { init: i, condition: c, update: u, body: rename_block(body, from, to) }
        },
        Stmt::ForOf { name, ty, iterable, body } => {
            let it = rename_in_expr(*iterable, from, to);
            let body = if str_eq(name.as_str(), from.as_str()) {
                body
            } else {
                rename_block(body, from, to)
            };
            Stmt::ForOf { name, ty, iterable: Box::new(it), body }
        },
        other => other,
    }
}

/// Renames `from` in one expression, as `rn_expr` says.
#[verifier::spinoff_prover]
pub(crate) fn rename_in_expr(e: Expr, from: &String, to: &String) -> (r: Expr)
    ensures
        r@ == rn_expr(e@, from@, to@),
    decreases e, 0int,
{
    match e {
        Expr::Ident(name) => Expr::Ident(rename_name(name, from, to)),
        Expr::Call { callee, args } => {
            let c = rename_in_expr(*callee, from, to);
            Expr::Call { callee: Box::new(c), args: rename_exprs(args, from, to) }
        },
        Expr::Unary { op, operand } => Expr::Unary { op, operand: Box::new(rename_in_expr(*operand, from, to)) },
        Expr::Binary { op, left, right } => {
            let l = rename_in_expr(*left, from, to);
            let r = rename_in_expr(*right, from, to);
            Expr::Binary { op, left: Box::new(l), right: Box::new(r) }
        },
        Expr::Member { object, property } => Expr::Member {
            object: Box::new(rename_in_expr(*object, from, to)),
            property,
        },
        Expr::Index { object, index } => {
            let o = rename_in_expr(*object, from, to);
            let i = rename_in_expr(*index, from, to);
            Expr::Index { object: Box::new(o), index: Box::new(i) }
        },
        Expr::ArrayLiteral { elements } => Expr::ArrayLiteral { elements: rename_elements(elements, from, to) },
        Expr::ObjectLiteral { fields } => Expr::ObjectLiteral { fields: rename_fields(fields, from, to) },
        Expr::TypeOf(inner) => Expr::TypeOf(Box::new(rename_in_expr(*inner, from, to))),
        Expr::AsConst(inner) => Expr::AsConst(Box::new(rename_in_expr(*inner, from, to))),
        Expr::NonNullAssertion(inner) => Expr::NonNullAssertion(Box::new(rename_in_expr(*inner, from, to))),
        Expr::AsAssertion { expr, ty } => Expr::AsAssertion { expr: Box::new(rename_in_expr(*expr, from, to)), ty },
        Expr::Arrow { params, return_type, body } => {
            let ghost pv = params_v(params@);
            let mut shadowed = false;
            let mut i: usize = 0;
            while i < params.len()
                invariant
                    i <= params@.len(),
                    pv == params_v(params@),
                    shadowed <==> exists|j: int| 0 <= j < i && (#[trigger] pv[j]).name == from@,
                decreases params@.len() - i,
            {
                proof {
                    assert(pv[i as int].name == params@[i as int].name@);
                }
                if str_eq(params[i].name.as_str(), from.as_str()) {
                    shadowed = true;
                }
                i += 1;
            }
            if shadowed {
                Expr::Arrow { params, return_type, body }
            } else {
                let body = match body {
                    ArrowBody::Expr(x) => ArrowBody::Expr(Box::new(rename_in_expr(*x, from, to))),
                    ArrowBody::Block(ss) => ArrowBody::Block(rename_block(ss, from, to)),
                };
                Expr::Arrow { params, return_type, body }
            }
        },
        other => other,
    }
}


// ── The narrowing walk ───────────────────────────────────────────────────

/// Records the annotated binding a statement declares (a `let` / `const`
/// or `for-of` with a type; inside `export` too).
fn record_decl(stmt: &Stmt, scope: &mut Scope)
    ensures
        scope_view(final(scope)@) == recorded(stmt@, scope_view(old(scope)@)),
    decreases stmt,
{
    let ghost before = scope_view(scope@);
    match stmt {
        Stmt::Let { name, ty: Some(t), .. } | Stmt::Const { name, ty: Some(t), .. } | Stmt::ForOf {
            name,
            ty: Some(t),
            ..
        } => {
            scope.push((name.clone(), clone_type(t)));
            proof {
                assert(crate::syntax::view::opt_type(Some(*t)) == Some(t@));
                assert(scope_view(scope@) =~= before.push((name@, t@)));
            }
        },
        Stmt::ExportDecl(inner) => record_decl(inner, scope),
        _ => {},
    }
}

/// `[first]` followed by `rest`, as values.
proof fn lemma_stmts_v_prepend(first: Stmt, rest: Seq<Stmt>)
    ensures
        stmts_v(seq![first] + rest) == seq![stmt_v(first)] + stmts_v(rest),
{
    let all = seq![first] + rest;
    lemma_stmts_v(all);
    lemma_stmts_v(rest);
    assert(stmts_v(all) =~= seq![stmt_v(first)] + stmts_v(rest)) by {
        assert forall|i: int| 0 <= i < all.len() implies #[trigger] stmts_v(all)[i] == (seq![stmt_v(first)]
            + stmts_v(rest))[i] by {
            if i > 0 {
                assert(all[i] == rest[i - 1]);
            }
        }
    }
}

/// `v` prefixed with `first`.
fn prepend(first: Stmt, v: Vec<Stmt>) -> (r: Vec<Stmt>)
    ensures
        r@ == seq![first] + v@,
{
    let mut out: Vec<Stmt> = Vec::new();
    out.push(first);
    let ghost vv = v@;
    let mut v = v;
    out.append(&mut v);
    proof {
        assert(out@ =~= seq![first] + vv);
    }
    out
}

/// Narrows one statement as a guard, as `guarded` says: a narrowed
/// branch, or, for a guard clause, the binding to narrow in the rest of
/// the block.
#[verifier::spinoff_prover]
fn narrow_guard(s: Stmt, scope: &Scope, counter: &mut u32) -> (r: (Stmt, Option<(String, String, Type)>))
    ensures
        r.0@ == guarded(s@, scope_view(scope@), *old(counter)).0,
        *final(counter) == guarded(s@, scope_view(scope@), *old(counter)).1,
        match r.1 {
            Some(g) => guarded(s@, scope_view(scope@), *old(counter)).2 == Some((g.0@, g.1@, g.2@)),
            None => guarded(s@, scope_view(scope@), *old(counter)).2 is None,
        },
{
    let ghost sv = s@;
    let ghost sc = scope_view(scope@);
    let ghost c0 = *counter;
    match s {
        Stmt::If { condition, then_branch, else_branch } => {
            let ghost tv = stmts_v(then_branch@);
            let ghost ev = opt_stmts_v(else_branch);
            proof {
                assert(sv == StmtV::If { condition: condition@, then_branch: tv, else_branch: ev });
            }
            let chk = null_check_ident(&condition);
            match chk {
                Some((name, is_ne)) => {
                    let ty = lookup_type(scope, name.as_str());
                    match ty {
                        Some(Type::Optional(inner)) => {
                            let inner = *inner;
                            proof {
                                assert(lookupv(sc, name@) == Some(TypeV::Optional(Box::new(inner@))));
                            }
                            if is_ne {
                                let fresh = mint(counter, &name);
                                let l = narrowed_let(&fresh, &name, inner);
                                let renamed = rename_block(then_branch, &name, &fresh);
                                proof {
                                    lemma_stmts_v_prepend(l, renamed@);
                                }
                                let v = prepend(l, renamed);
                                let r = Stmt::If { condition, then_branch: v, else_branch };
                                proof {
                                    assert(r@ == StmtV::If {
                                        condition: condition@,
                                        then_branch: seq![l@] + rn_stmts(tv, name@, fresh@),
                                        else_branch: ev,
                                    });
                                }
                                (r, None)
                            } else {
                                match else_branch {
                                    Some(eb) => {
                                        let fresh = mint(counter, &name);
                                        let l = narrowed_let(&fresh, &name, inner);
                                        let ghost ebv = stmts_v(eb@);
                                        let renamed = rename_block(eb, &name, &fresh);
                                        proof {
                                            lemma_stmts_v_prepend(l, renamed@);
                                        }
                                        let v = prepend(l, renamed);
                                        let r = Stmt::If { condition, then_branch, else_branch: Some(v) };
                                        proof {
                                            assert(ev == Some(ebv));
                                            assert(opt_stmts_v(Some(v)) == Some(stmts_v(v@)));
                                            assert(r@ == StmtV::If {
                                                condition: condition@,
                                                then_branch: tv,
                                                else_branch: Some(seq![l@] + rn_stmts(ebv, name@, fresh@)),
                                            });
                                        }
                                        (r, None)
                                    },
                                    None => {
                                        let exits = definitely_exits(&then_branch);
                                        let r = Stmt::If { condition, then_branch, else_branch: None };
                                        proof {
                                            assert(ev == None::<Seq<StmtV>>);
                                            assert(r@ == sv);
                                        }
                                        if exits {
                                            let fresh = mint(counter, &name);
                                            (r, Some((name, fresh, inner)))
                                        } else {
                                            (r, None)
                                        }
                                    },
                                }
                            }
                        },
                        _ => {
                            proof {
                                match ty {
                                    Some(t) => {
                                        assert(!(t is Optional));
                                        assert(lookupv(sc, name@) == Some(t@));
                                        assert(!(t@ is Optional));
                                    },
                                    None => {},
                                }
                            }
                            (Stmt::If { condition, then_branch, else_branch }, None)
                        },
                    }
                },
                None => (Stmt::If { condition, then_branch, else_branch }, None),
            }
        },
        other => (other, None),
    }
}

/// Rewrites every narrowing guard in `program`, as `narrowed_block` says
/// from no known bindings and a counter at zero.
pub fn narrow_program(program: &mut Program)
    ensures
        final(program)@ == narrowed_block(old(program)@, Seq::empty(), 0).0,
{
    let mut counter: u32 = 0;
    let mut stmts: Vec<Stmt> = Vec::new();
    std::mem::swap(&mut stmts, &mut program.stmts);
    let scope: Scope = Vec::new();
    proof {
        assert(scope_view(scope@) =~= Seq::<(Seq<char>, TypeV)>::empty());
    }
    program.stmts = narrow_block(stmts, scope, &mut counter);
}

/// Narrows one block, statement by statement, with `scope` holding the
/// annotated bindings known so far (from enclosing blocks, then from this
/// one).
#[verifier::loop_isolation(false)]
#[verifier::spinoff_prover]
#[verifier::rlimit(40)]
fn narrow_block(stmts: Vec<Stmt>, scope: Scope, counter: &mut u32) -> (r: Vec<Stmt>)
    ensures
        (stmts_v(r@), *final(counter)) == narrowed_block(stmts_v(stmts@), scope_view(scope@), *old(counter)),
    decreases szs(stmts_v(stmts@)), 1int,
{
    let ghost total = narrowed_block(stmts_v(stmts@), scope_view(scope@), *counter);
    let ghost size0 = szs(stmts_v(stmts@));
    let mut scope = scope;
    let mut rest = stmts;
    let mut out: Vec<Stmt> = Vec::new();
    proof {
        assert(stmts_v(out@) + total.0 =~= total.0);
    }
    while rest.len() > 0
        invariant
            szs(stmts_v(rest@)) <= size0,
            total.0 == stmts_v(out@) + narrowed_block(stmts_v(rest@), scope_view(scope@), *counter).0,
            total.1 == narrowed_block(stmts_v(rest@), scope_view(scope@), *counter).1,
        decreases rest@.len(),
    {
        let ghost rv = stmts_v(rest@);
        let ghost before = rest@;
        let s0 = rest.remove(0);
        proof {
            lemma_stmts_v(before);
            lemma_stmts_v(rest@);
            assert(rv[0] == stmt_v(s0));
            assert(rv.drop_first() =~= stmts_v(rest@));
            assert(szs(rv) == sz(rv[0]) + szs(rv.drop_first()));
        }
        let ghost out0 = out@;
        let s = narrow_stmt_nested(s0, &scope, counter);
        let (s, guard) = narrow_guard(s, &scope, counter);
        record_decl(&s, &mut scope);
        out.push(s);
        proof {
            assert(out@.drop_last() =~= out0);
            assert(stmts_v(out@) == stmts_v(out0).push(stmt_v(s)));
        }
        match guard {
            Some((name, fresh, inner)) => {
                let l = narrowed_let(&fresh, &name, inner);
                let ghost tail = stmts_v(rest@);
                rest = rename_block(rest, &name, &fresh);
                proof {
                    lemma_rn_szs(tail, name@, fresh@);
                }
                record_decl(&l, &mut scope);
                let ghost out1 = out@;
                out.push(l);
                proof {
                    assert(out@.drop_last() =~= out1);
                    assert(stmts_v(out@) == stmts_v(out1).push(stmt_v(l)));
                    let r2 = narrowed_block(stmts_v(rest@), scope_view(scope@), *counter);
                    assert(stmts_v(out0) + (seq![stmt_v(s), stmt_v(l)] + r2.0) =~= stmts_v(out@) + r2.0);
                }
            },
            None => {
                proof {
                    let r2 = narrowed_block(stmts_v(rest@), scope_view(scope@), *counter);
                    assert(stmts_v(out0) + (seq![stmt_v(s)] + r2.0) =~= stmts_v(out@) + r2.0);
                }
            },
        }
    }
    proof {
        assert(stmts_v(out@) + stmts_v(rest@) =~= stmts_v(out@));
    }
    out
}

/// Narrows the blocks nested in one statement (not the statement's own
/// block, which its caller walks): branches and bodies from a copy of
/// `outer`, function bodies from their parameters alone.
#[verifier::spinoff_prover]
#[verifier::rlimit(40)]
fn narrow_stmt_nested(stmt: Stmt, outer: &Scope, counter: &mut u32) -> (r: Stmt)
    ensures
        (r@, *final(counter)) == narrowed_nested(stmt@, scope_view(outer@), *old(counter)),
    decreases sz(stmt@), 0int,
{
    match stmt {
        Stmt::If { condition, then_branch, else_branch } => {
            let ghost ev = opt_stmts_v(else_branch);
            let t = narrow_block(then_branch, clone_scope(outer), counter);
            let e = match else_branch {
                Some(b) => {
                    let x = narrow_block(b, clone_scope(outer), counter);
                    proof {
                        assert(opt_stmts_v(Some(x)) == Some(stmts_v(x@)));
                    }
                    Some(x)
                },
                None => None,
            };
            let r = Stmt::If { condition, then_branch: t, else_branch: e };
            proof {
                assert(stmt_v(r) == StmtV::If {
                    condition: condition@,
                    then_branch: stmts_v(t@),
                    else_branch: opt_stmts_v(e),
                });
            }
            r
        },
        Stmt::While { condition, body } => Stmt::While { condition, body: narrow_block(body, clone_scope(outer), counter) },
        Stmt::For { init, condition, update, body } => Stmt::For {
            init,
            condition,
            update,
            body: narrow_block(body, clone_scope(outer), counter),
        },
        Stmt::ForOf { name, ty, iterable, body } => Stmt::ForOf {
            name,
            ty,
            iterable,
            body: narrow_block(body, clone_scope(outer), counter),
        },
        Stmt::Switch { discriminant, cases } => Stmt::Switch { discriminant, cases: narrow_cases(cases, outer, counter) },
        Stmt::Try { body, catch_name, catch_body } => {
            let b = narrow_block(body, clone_scope(outer), counter);
            Stmt::Try { body: b, catch_name, catch_body: narrow_block(catch_body, clone_scope(outer), counter) }
        },
        Stmt::Function(f) => {
            proof {
                assert(sz(StmtV::Function(crate::syntax::view::function_v(f))) == 1 + szs(stmts_v(f.body@)));
            }
            Stmt::Function(narrow_function(f, counter))
        },
        Stmt::ExportDecl(inner) => Stmt::ExportDecl(Box::new(narrow_stmt_nested(*inner, outer, counter))),
        Stmt::ExportDefault(ExportDefault::Function(f)) => {
            proof {
                assert(sz(StmtV::ExportDefault(DefaultV::Function(crate::syntax::view::function_v(f)))) == 1 + szs(
                    stmts_v(f.body@),
                ));
            }
            Stmt::ExportDefault(ExportDefault::Function(narrow_function(f, counter)))
        },
        other => other,
    }
}

#[verifier::loop_isolation(false)]
fn narrow_cases(cases: Vec<SwitchCase>, outer: &Scope, counter: &mut u32) -> (r: Vec<SwitchCase>)
    ensures
        (cases_v(r@), *final(counter)) == narrowed_cases(cases_v(cases@), scope_view(outer@), *old(counter)),
    decreases szc(cases_v(cases@)), 2int,
{
    let ghost orig = cases@;
    let ghost n = cases@.len();
    let ghost ov = cases_v(cases@);
    let ghost sc = scope_view(outer@);
    let ghost total = narrowed_cases(ov, sc, *counter);
    let mut rest = cases;
    let mut out: Vec<SwitchCase> = Vec::new();
    let ghost mut k: int = 0;
    proof {
        lemma_cases_v(orig);
        assert(ov.subrange(0, n as int) =~= ov);
        assert(cases_v(out@) + total.0 =~= total.0);
    }
    while rest.len() > 0
        invariant
            0 <= k <= n,
            n == orig.len(),
            out@.len() == k,
            rest@ == orig.subrange(k, n as int),
            total.0 == cases_v(out@) + narrowed_cases(ov.subrange(k, n as int), sc, *counter).0,
            total.1 == narrowed_cases(ov.subrange(k, n as int), sc, *counter).1,
        decreases rest@.len(),
    {
        let c = rest.remove(0);
        proof {
            assert(c == orig[k]);
            lemma_case_sz(ov, k);
            let sub = ov.subrange(k, n as int);
            assert(sub[0] == ov[k]);
            assert(sub.drop_first() =~= ov.subrange(k + 1, n as int));
        }
        let ghost c0 = *counter;
        let SwitchCase { values, body, is_default } = c;
        let body = narrow_block(body, clone_scope(outer), counter);
        let x = SwitchCase { values, body, is_default };
        proof {
            let b = narrowed_block(ov[k].body, sc, c0);
            let rest2 = narrowed_cases(ov.subrange(k + 1, n as int), sc, *counter);
            let cv = CaseV { values: ov[k].values, body: b.0, is_default: ov[k].is_default };
            assert(out@.push(x).drop_last() =~= out@);
            assert(cases_v(out@.push(x)) == cases_v(out@).push(cv));
            assert(cases_v(out@) + (seq![cv] + rest2.0) =~= cases_v(out@).push(cv) + rest2.0);
        }
        out.push(x);
        proof {
            k = k + 1;
        }
    }
    proof {
        assert(cases_v(out@) + ov.subrange(n as int, n as int) =~= cases_v(out@));
    }
    out
}

fn narrow_function(f: Function, counter: &mut u32) -> (r: Function)
    ensures
        (crate::syntax::view::function_v(r), *final(counter)) == narrowed_function(
            crate::syntax::view::function_v(f),
            *old(counter),
        ),
    decreases szs(stmts_v(f.body@)), 2int,
{
    let ghost ps = params_scope(params_v(f.params@));
    let mut scope: Scope = Vec::new();
    let mut k: usize = 0;
    while k < f.params.len()
        invariant
            k <= f.params@.len(),
            ps == params_scope(params_v(f.params@)),
            scope_view(scope@) == ps.subrange(0, k as int),
        decreases f.params@.len() - k,
    {
        let ghost before = scope_view(scope@);
        let ghost old_scope = scope@;
        let entry = (f.params[k].name.clone(), clone_type(&f.params[k].ty));
        scope.push(entry);
        proof {
            assert(scope@ == old_scope.push(entry));
            assert(scope_view(scope@) =~= before.push((f.params@[k as int].name@, f.params@[k as int].ty@)));
            let pv = params_v(f.params@);
            assert(pv[k as int] == crate::syntax::view::param_v(f.params@[k as int]));
            assert(ps[k as int] == (pv[k as int].name, pv[k as int].ty));
            assert(scope_view(scope@) =~= ps.subrange(0, k + 1));
        }
        k += 1;
    }
    proof {
        assert(ps.subrange(0, f.params@.len() as int) =~= ps);
    }
    let Function { name, params, return_type, body, line, col } = f;
    let body = narrow_block(body, scope, counter);
    Function { name, params, return_type, body, line, col }
}

} // verus!
