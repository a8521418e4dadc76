//! Null safety: a value of type `T?` never reaches a place that needs a
//! `T` without being resolved first, by a definite fallback (`x ??
//! fallback`), a guard (narrowed away before this pass), or an assertion
//! (`x!`).
//!
//! Places that need a `T` (sinks): the value of a `let` / `const` with a
//! non-optional annotation, an assignment to such a binding, a `return` in
//! a function with a non-optional, non-`void` return type, an argument of
//! a known function, the fallback of `??`, the operands of an operator
//! (other than a `== null` / `!= null` test), the receiver of `.field` /
//! `[index]` or of a field assignment, the argument of `print` / `str`.
//!
//! Runs after inference and narrowing; only reports. A value whose type
//! cannot be told counts as present.

use crate::syntax::ast::{ArrayElement, ArrowBody, BinOp, ExportDefault, Expr, Function, ObjectField, Param, Program, Stmt, SwitchCase, Type, TypeV};
use crate::text::{nat_digits, owned, str_eq, usize_decimal};
use crate::validation::infer::{
    clone_scope, expr_type, is_void, known_type, latest_function, lookup_type, lookupv, params_scope, scope_view,
    spec_expr_type, spec_is_void, Scope, TypeEnv,
};
use vstd::prelude::*;

verus! {

broadcast use vstd::std_specs::vec::group_vec_axioms;

/// One null-safety violation, at the nearest position known (`(0, 0)`
/// when none is).
#[derive(Debug)]
pub struct NullSafetyIssue {
    pub message: String,
    pub line: usize,
    pub col: usize,
}

/// `b` is `a` with issues appended.
pub open spec fn appended<T>(a: Seq<T>, b: Seq<T>) -> bool {
    b.len() >= a.len() && forall|i: int| 0 <= i < a.len() ==> b[i] == a[i]
}

fn issue(message: String, line: usize, col: usize) -> (r: NullSafetyIssue)
    ensures
        r.message@ == message@,
        r.line == line,
        r.col == col,
{
    NullSafetyIssue { message, line, col }
}

fn push_issue(out: &mut Vec<NullSafetyIssue>, message: String, line: usize, col: usize)
    ensures
        appended(old(out)@, final(out)@),
        final(out)@.len() == old(out)@.len() + 1,
        final(out)@.last().line == line,
        final(out)@.last().col == col,
        issues_view(final(out)@) == issues_view(old(out)@) + seq![(message@, line, col)],
{
    let ghost m = message@;
    out.push(issue(message, line, col));
    assert(issues_view(out@) =~= issues_view(old(out)@) + seq![(m, line, col)]);
}

/// The values of the issues: message, line, column.
pub open spec fn issues_view(v: Seq<NullSafetyIssue>) -> Seq<(Seq<char>, usize, usize)> {
    v.map_values(|i: NullSafetyIssue| (i.message@, i.line, i.col))
}

pub open spec fn spec_is_null_literal(e: Expr) -> bool {
    e is Null || e is Undefined
}

fn is_null_literal(e: &Expr) -> (r: bool)
    ensures
        r == spec_is_null_literal(*e),
{
    match e {
        Expr::Null | Expr::Undefined => true,
        _ => false,
    }
}

/// The value of `e` is surely present: `x!`, `a ?? b`, or a type that is
/// not optional (or not known at all).
pub open spec fn definite(e: Expr, sv: Seq<(Seq<char>, TypeV)>, env: TypeEnv) -> bool {
    match e {
        Expr::NonNullAssertion(_) => true,
        Expr::Binary { op, .. } => if op == BinOp::NullishCoalesce {
            true
        } else {
            !(spec_expr_type(e, sv, env) matches Some(TypeV::Optional(_)))
        },
        _ => !(spec_expr_type(e, sv, env) matches Some(TypeV::Optional(_))),
    }
}

pub open spec fn null_into_message(what: Seq<char>) -> Seq<char> {
    "`null` "@ + what + ", but the target type isn't optional — make it `T?`, or provide `?? fallback`."@
}

pub open spec fn missing_into_message(what: Seq<char>) -> Seq<char> {
    "a possibly-missing value is "@ + what
        + " without being resolved — add `?? fallback`, guard it first with `if (x != null) { ... }`, or assert it with `!` if you're certain it's present."@
}

pub open spec fn fallback_message() -> Seq<char> {
    "the fallback on the right of `??` must be a guaranteed (non-optional) value — a possibly-missing fallback defeats the guarantee `??` is supposed to give. Chain another `?? realDefault`, or use a plain literal/definite value."@
}

pub open spec fn lhs_message() -> Seq<char> {
    "the left-hand side of this operator is a possibly-missing value — resolve it with `?? fallback` or a null check first."@
}

pub open spec fn rhs_message() -> Seq<char> {
    "the right-hand side of this operator is a possibly-missing value — resolve it with `?? fallback` or a null check first."@
}

pub open spec fn member_message(property: Seq<char>) -> Seq<char> {
    "`."@ + property
        + "` is accessed on a possibly-missing value — resolve it with `?? fallback`, a null check (`if (x != null) { ... }`), or `!` first."@
}

pub open spec fn index_message() -> Seq<char> {
    "an index is taken on a possibly-missing value — resolve it with `?? fallback`, a null check, or `!` first."@
}

pub open spec fn print_message(name: Seq<char>) -> Seq<char> {
    "`"@ + name + "(...)` is given a possibly-missing value — resolve it with `?? fallback`, a null check, or `!` first."@
}

pub open spec fn field_assign_message() -> Seq<char> {
    "a field is assigned on a possibly-missing value — resolve it with `?? fallback`, a null check, or `!` first."@
}

pub open spec fn one_issue(cond: bool, message: Seq<char>, line: usize, col: usize) -> Seq<(Seq<char>, usize, usize)> {
    if cond {
        seq![(message, line, col)]
    } else {
        Seq::empty()
    }
}

/// The issue of feeding `e` to a sink of type `expected` (described by
/// `what`): none when `expected` is optional or `e` surely present.
pub open spec fn sink_issues(
    e: Expr,
    expected: TypeV,
    what: Seq<char>,
    sv: Seq<(Seq<char>, TypeV)>,
    env: TypeEnv,
    line: usize,
    col: usize,
) -> Seq<(Seq<char>, usize, usize)> {
    if expected is Optional {
        Seq::empty()
    } else if spec_is_null_literal(e) {
        seq![(null_into_message(what), line, col)]
    } else if !definite(e, sv, env) {
        seq![(missing_into_message(what), line, col)]
    } else {
        Seq::empty()
    }
}

pub open spec fn argument_what(k: nat, name: Seq<char>) -> Seq<char> {
    "passed as argument "@ + nat_digits(k + 1) + " to `"@ + name + "`"@
}

/// The arguments from the `k`-th on, each against its parameter's type.
pub open spec fn argument_issues(
    args: Seq<Expr>,
    ptys: Seq<TypeV>,
    name: Seq<char>,
    k: nat,
    sv: Seq<(Seq<char>, TypeV)>,
    env: TypeEnv,
    line: usize,
    col: usize,
) -> Seq<(Seq<char>, usize, usize)>
    decreases args.len() - k,
{
    if k < args.len() && k < ptys.len() {
        sink_issues(args[k as int], ptys[k as int], argument_what(k, name), sv, env, line, col) + argument_issues(
            args,
            ptys,
            name,
            k + 1,
            sv,
            env,
            line,
            col,
        )
    } else {
        Seq::empty()
    }
}

/// The sinks of a call itself: the argument of `print` / `str`, and the
/// arguments of a declared function against its parameters.
pub open spec fn call_sink_issues(
    callee: Expr,
    args: Seq<Expr>,
    sv: Seq<(Seq<char>, TypeV)>,
    env: TypeEnv,
    line: usize,
    col: usize,
) -> Seq<(Seq<char>, usize, usize)> {
    match callee {
        Expr::Ident(name) => if name@ == "print"@ || name@ == "str"@ {
            one_issue(
                args.len() > 0 && (spec_is_null_literal(args[0]) || !definite(args[0], sv, env)),
                print_message(name@),
                line,
                col,
            )
        } else {
            match latest_function(env.functions@, name@) {
                Some(f) => argument_issues(args, f.params@.map_values(|p: Param| p.ty@), name@, 0, sv, env, line, col),
                None => Seq::empty(),
            }
        },
        _ => Seq::empty(),
    }
}

/// A possibly-missing value cannot be looked into, and `??` must give a
/// definite value: a field read or an index on an object whose type is
/// optional is reported, and so is a `??` whose fallback has an optional
/// type (or is `null`).
pub proof fn law_optional_values_are_resolved_before_use(
    object: Expr,
    index: Expr,
    right: Expr,
    left: Expr,
    sv: Seq<(Seq<char>, TypeV)>,
    env: TypeEnv,
    line: usize,
    col: usize,
)
    requires
        !(object is NonNullAssertion),
        !(object matches Expr::Binary { op: o, .. } && o == BinOp::NullishCoalesce),
    ensures
        (spec_expr_type(object, sv, env) matches Some(TypeV::Optional(_))) ==> expr_issues(
            Expr::Index { object: Box::new(object), index: Box::new(index) },
            sv,
            env,
            line,
            col,
        ).contains((index_message(), line, col)),
        (spec_is_null_literal(right) || ((spec_expr_type(right, sv, env) matches Some(TypeV::Optional(_)))
            && !(right is NonNullAssertion) && !(right matches Expr::Binary { op: o, .. } && o
            == BinOp::NullishCoalesce))) ==> expr_issues(
            Expr::Binary { op: BinOp::NullishCoalesce, left: Box::new(left), right: Box::new(right) },
            sv,
            env,
            line,
            col,
        ).contains((fallback_message(), line, col)),
{
    let ie = expr_issues(Expr::Index { object: Box::new(object), index: Box::new(index) }, sv, env, line, col);
    if spec_expr_type(object, sv, env) matches Some(TypeV::Optional(_)) {
        assert(ie[ie.len() - 1] == (index_message(), line, col));
    }
    let ne = expr_issues(
        Expr::Binary { op: BinOp::NullishCoalesce, left: Box::new(left), right: Box::new(right) },
        sv,
        env,
        line,
        col,
    );
    if spec_is_null_literal(right) || ((spec_expr_type(right, sv, env) matches Some(TypeV::Optional(_)))
        && !(right is NonNullAssertion) && !(right matches Expr::Binary { op: o, .. } && o
        == BinOp::NullishCoalesce)) {
        assert(ne[ne.len() - 1] == (fallback_message(), line, col));
    }
}

/// An operator needs both operands present: outside `??` and a `== null`
/// / `!= null` test, an operand whose type is optional (`T?`), unless
/// asserted with `!` or resolved by `??`, is reported at the
/// statement's position, the right one as the left one.
pub proof fn law_operator_operands_must_be_present(
    op: BinOp,
    left: Expr,
    right: Expr,
    sv: Seq<(Seq<char>, TypeV)>,
    env: TypeEnv,
    line: usize,
    col: usize,
)
    requires
        op != BinOp::NullishCoalesce,
        !((op == BinOp::EqEq || op == BinOp::NotEq) && (spec_is_null_literal(left) || spec_is_null_literal(right))),
    ensures
        ({
            let is = expr_issues(Expr::Binary { op, left: Box::new(left), right: Box::new(right) }, sv, env, line, col);
            &&& (spec_expr_type(right, sv, env) matches Some(TypeV::Optional(_))) && !(right is NonNullAssertion)
                && !(right matches Expr::Binary { op: o, .. } && o == BinOp::NullishCoalesce)
                ==> is.contains((rhs_message(), line, col))
            &&& (spec_expr_type(left, sv, env) matches Some(TypeV::Optional(_))) && !(left is NonNullAssertion)
                && !(left matches Expr::Binary { op: o, .. } && o == BinOp::NullishCoalesce)
                ==> is.contains((lhs_message(), line, col))
        }),
{
    let e = Expr::Binary { op, left: Box::new(left), right: Box::new(right) };
    let is = expr_issues(e, sv, env, line, col);
    let inner = expr_issues(left, sv, env, line, col) + expr_issues(right, sv, env, line, col);
    let li = one_issue(!spec_is_null_literal(left) && !definite(left, sv, env), lhs_message(), line, col);
    let ri = one_issue(!spec_is_null_literal(right) && !definite(right, sv, env), rhs_message(), line, col);
    assert(is == inner + li + ri);
    if (spec_expr_type(right, sv, env) matches Some(TypeV::Optional(_))) && !(right is NonNullAssertion) && !(
    right matches Expr::Binary { op: o, .. } && o == BinOp::NullishCoalesce) {
        assert(!spec_is_null_literal(right));
        assert(is[is.len() - 1] == (rhs_message(), line, col));
    }
    if (spec_expr_type(left, sv, env) matches Some(TypeV::Optional(_))) && !(left is NonNullAssertion) && !(
    left matches Expr::Binary { op: o, .. } && o == BinOp::NullishCoalesce) {
        assert(!spec_is_null_literal(left));
        assert((inner + li)[(inner + li).len() - 1] == (lhs_message(), line, col));
        assert(is[(inner + li).len() - 1] == (lhs_message(), line, col));
    }
}

/// The issues of the sinks nested in `e` (a `??` fallback, receivers,
/// operator operands, call arguments), reported at `(line, col)`.
pub open spec fn expr_issues(e: Expr, sv: Seq<(Seq<char>, TypeV)>, env: TypeEnv, line: usize, col: usize) -> Seq<
    (Seq<char>, usize, usize),
>
    decreases e, 0int,
{
    match e {
        Expr::Binary { op, left, right } => {
            let inner = expr_issues(*left, sv, env, line, col) + expr_issues(*right, sv, env, line, col);
            if op == BinOp::NullishCoalesce {
                inner + one_issue(
                    spec_is_null_literal(*right) || !definite(*right, sv, env),
                    fallback_message(),
                    line,
                    col,
                )
            } else {
                let null_test = (op == BinOp::EqEq || op == BinOp::NotEq) && (spec_is_null_literal(*left)
                    || spec_is_null_literal(*right));
                inner + one_issue(
                    !null_test && !spec_is_null_literal(*left) && !definite(*left, sv, env),
                    lhs_message(),
                    line,
                    col,
                ) + one_issue(
                    !null_test && !spec_is_null_literal(*right) && !definite(*right, sv, env),
                    rhs_message(),
                    line,
                    col,
                )
            }
        },
        Expr::Unary { operand, .. } => expr_issues(*operand, sv, env, line, col),
        Expr::Member { object, property } => expr_issues(*object, sv, env, line, col) + one_issue(
            !definite(*object, sv, env),
            member_message(property@),
            line,
            col,
        ),
        Expr::Index { object, index } => expr_issues(*object, sv, env, line, col) + expr_issues(
            *index,
            sv,
            env,
            line,
            col,
        ) + one_issue(!definite(*object, sv, env), index_message(), line, col),
        Expr::Call { callee, args } => expr_issues(*callee, sv, env, line, col) + exprs_issues(
            args@,
            sv,
            env,
            line,
            col,
        ) + call_sink_issues(*callee, args@, sv, env, line, col),
        Expr::ArrayLiteral { elements } => elements_issues(elements@, sv, env, line, col),
        Expr::ObjectLiteral { fields } => fields_issues(fields@, sv, env, line, col),
        Expr::NonNullAssertion(inner) => expr_issues(*inner, sv, env, line, col),
        Expr::AsConst(inner) => expr_issues(*inner, sv, env, line, col),
        Expr::AsAssertion { expr, .. } => expr_issues(*expr, sv, env, line, col),
        Expr::TypeOf(inner) => expr_issues(*inner, sv, env, line, col),
        Expr::Arrow { params, body, .. } => match body {
            ArrowBody::Expr(x) => expr_issues(*x, params_scope(sv, params@), env, line, col),
            ArrowBody::Block(ss) => block_issues(ss@, params_scope(sv, params@), env, None).0,
        },
        _ => Seq::empty(),
    }
}

pub open spec fn exprs_issues(es: Seq<Expr>, sv: Seq<(Seq<char>, TypeV)>, env: TypeEnv, line: usize, col: usize) -> Seq<
    (Seq<char>, usize, usize),
>
    decreases es, 0int,
{
    if es.len() == 0 {
        Seq::empty()
    } else {
        exprs_issues(es.drop_last(), sv, env, line, col) + expr_issues(es.last(), sv, env, line, col)
    }
}

pub open spec fn elements_issues(
    es: Seq<ArrayElement>,
    sv: Seq<(Seq<char>, TypeV)>,
    env: TypeEnv,
    line: usize,
    col: usize,
) -> Seq<(Seq<char>, usize, usize)>
    decreases es, 0int,
{
    if es.len() == 0 {
        Seq::empty()
    } else {
        elements_issues(es.drop_last(), sv, env, line, col) + match es.last() {
            ArrayElement::Item(x) => expr_issues(x, sv, env, line, col),
            ArrayElement::Spread(x) => expr_issues(x, sv, env, line, col),
        }
    }
}

pub open spec fn fields_issues(
    fs: Seq<ObjectField>,
    sv: Seq<(Seq<char>, TypeV)>,
    env: TypeEnv,
    line: usize,
    col: usize,
) -> Seq<(Seq<char>, usize, usize)>
    decreases fs, 0int,
{
    if fs.len() == 0 {
        Seq::empty()
    } else {
        fields_issues(fs.drop_last(), sv, env, line, col) + match fs.last() {
            ObjectField::KV(_, v) => expr_issues(v, sv, env, line, col),
            ObjectField::Spread(v) => expr_issues(v, sv, env, line, col),
        }
    }
}

pub open spec fn assigned_what(name: Seq<char>) -> Seq<char> {
    "assigned to `"@ + name + "`"@
}

/// The issues of one statement in the scope `sv`, with `ret` the
/// enclosing function's non-`void` return type, and the scope after it
/// (an annotated `let` / `const` binds its annotation; nested blocks
/// check in copies of the scope).
pub open spec fn stmt_issues(s: Stmt, sv: Seq<(Seq<char>, TypeV)>, env: TypeEnv, ret: Option<TypeV>) -> (
    Seq<(Seq<char>, usize, usize)>,
    Seq<(Seq<char>, TypeV)>,
)
    decreases s, 0int,
{
    match s {
        Stmt::Let { name, ty, value, line, col } => match ty {
            Some(t) => (
                expr_issues(value, sv, env, line, col) + sink_issues(
                    value,
                    t@,
                    assigned_what(name@),
                    sv,
                    env,
                    line,
                    col,
                ),
                sv.push((name@, t@)),
            ),
            None => (expr_issues(value, sv, env, line, col), sv),
        },
        Stmt::Const { name, ty, value, line, col } => match ty {
            Some(t) => (
                expr_issues(value, sv, env, line, col) + sink_issues(
                    value,
                    t@,
                    assigned_what(name@),
                    sv,
                    env,
                    line,
                    col,
                ),
                sv.push((name@, t@)),
            ),
            None => (expr_issues(value, sv, env, line, col), sv),
        },
        Stmt::Assign { name, value, line, col } => (
            expr_issues(value, sv, env, line, col) + match lookupv(sv, name@) {
                Some(t) => sink_issues(value, t, assigned_what(name@), sv, env, line, col),
                None => Seq::empty(),
            },
            sv,
        ),
        Stmt::AssignIndex { index, value, line, col, .. } => (
            expr_issues(index, sv, env, line, col) + expr_issues(value, sv, env, line, col),
            sv,
        ),
        Stmt::AssignMember { object, value, line, col, .. } => (
            expr_issues(*object, sv, env, line, col) + expr_issues(value, sv, env, line, col) + one_issue(
                !definite(*object, sv, env),
                field_assign_message(),
                line,
                col,
            ),
            sv,
        ),
        Stmt::Function(f) => (function_issues(f, sv, env), sv),
        Stmt::Return(Some(e)) => (
            expr_issues(e, sv, env, 0, 0) + match ret {
                Some(rt) => sink_issues(e, rt, "returned"@, sv, env, 0, 0),
                None => Seq::empty(),
            },
            sv,
        ),
        Stmt::If { condition, then_branch, else_branch } => (
            expr_issues(condition, sv, env, 0, 0) + block_issues(then_branch@, sv, env, ret).0 + match else_branch {
                Some(b) => block_issues(b@, sv, env, ret).0,
                None => Seq::empty(),
            },
            sv,
        ),
        Stmt::While { condition, body } => (
            expr_issues(condition, sv, env, 0, 0) + block_issues(body@, sv, env, ret).0,
            sv,
        ),
        Stmt::For { init, condition, update, body } => {
            let a = match init {
                Some(i) => stmt_issues(*i, sv, env, ret),
                None => (Seq::empty(), sv),
            };
            let c = match condition {
                Some(c) => expr_issues(c, a.1, env, 0, 0),
                None => Seq::empty(),
            };
            let b = match update {
                Some(u) => stmt_issues(*u, a.1, env, ret),
                None => (Seq::empty(), a.1),
            };
            (a.0 + c + b.0 + block_issues(body@, b.1, env, ret).0, sv)
        },
        Stmt::ForOf { name, ty, iterable, body } => (
            expr_issues(*iterable, sv, env, 0, 0) + block_issues(
                body@,
                match ty {
                    Some(t) => sv.push((name@, t@)),
                    None => sv,
                },
                env,
                ret,
            ).0,
            sv,
        ),
        Stmt::Switch { discriminant, cases } => (
            expr_issues(discriminant, sv, env, 0, 0) + cases_issues(cases@, sv, env, ret),
            sv,
        ),
        Stmt::Try { body, catch_body, .. } => (
            block_issues(body@, sv, env, ret).0 + block_issues(catch_body@, sv, env, ret).0,
            sv,
        ),
        Stmt::Throw(e) => (expr_issues(e, sv, env, 0, 0), sv),
        Stmt::Expr(e) => (expr_issues(e, sv, env, 0, 0), sv),
        Stmt::ExportDecl(inner) => stmt_issues(*inner, sv, env, ret),
        Stmt::ExportDefault(ExportDefault::Function(f)) => (function_issues(f, sv, env), sv),
        Stmt::ExportDefault(ExportDefault::Expr(e)) => (expr_issues(e, sv, env, 0, 0), sv),
        _ => (Seq::empty(), sv),
    }
}

/// The issues of a block, statement after statement, and the scope after
/// it.
pub open spec fn block_issues(ss: Seq<Stmt>, sv: Seq<(Seq<char>, TypeV)>, env: TypeEnv, ret: Option<TypeV>) -> (
    Seq<(Seq<char>, usize, usize)>,
    Seq<(Seq<char>, TypeV)>,
)
    decreases ss, 1int,
{
    if ss.len() == 0 {
        (Seq::empty(), sv)
    } else {
        let a = stmt_issues(ss[0], sv, env, ret);
        let b = block_issues(ss.drop_first(), a.1, env, ret);
        (a.0 + b.0, b.1)
    }
}

/// The issues of a `switch`'s cases: each case's values, then its body,
/// in a copy of `sv`.
pub open spec fn cases_issues(cs: Seq<SwitchCase>, sv: Seq<(Seq<char>, TypeV)>, env: TypeEnv, ret: Option<TypeV>) -> Seq<
    (Seq<char>, usize, usize),
>
    decreases cs, 0int,
{
    if cs.len() == 0 {
        Seq::empty()
    } else {
        cases_issues(cs.drop_last(), sv, env, ret) + exprs_issues(cs.last().values@, sv, env, 0, 0) + block_issues(
            cs.last().body@,
            sv,
            env,
            ret,
        ).0
    }
}

/// The issues of a function's body with its parameters bound, its return
/// type a sink unless `void`.
pub open spec fn function_issues(f: Function, sv: Seq<(Seq<char>, TypeV)>, env: TypeEnv) -> Seq<
    (Seq<char>, usize, usize),
>
    decreases f, 0int,
{
    block_issues(
        f.body@,
        params_scope(sv, f.params@),
        env,
        if spec_is_void(f.return_type) {
            None
        } else {
            Some(f.return_type@)
        },
    ).0
}

pub open spec fn ret_view(ret: Option<&Type>) -> Option<TypeV> {
    match ret {
        Some(t) => Some(t@),
        None => None,
    }
}

/// The value of `e` is surely present: `x!`, `a ?? b`, or a type that
/// is known and not optional, or not known at all.
pub fn is_definite(e: &Expr, scope: &Scope, env: &TypeEnv) -> (r: bool)
    ensures
        e is NonNullAssertion ==> r,
        (e matches Expr::Binary { op, .. } && op == BinOp::NullishCoalesce) ==> r,
        !(e is NonNullAssertion) && !(e matches Expr::Binary { op, .. } && op == BinOp::NullishCoalesce) ==> (
        known_type(*e, scope@, env.consts@) matches Some(v) ==> r == !(v matches Some(TypeV::Optional(_)))),
        r == definite(*e, scope_view(scope@), *env),
{
    match e {
        Expr::NonNullAssertion(_) => true,
        Expr::Binary { op: BinOp::NullishCoalesce, .. } => true,
        _ => match expr_type(e, scope, env) {
            Some(Type::Optional(_)) => false,
            _ => true,
        },
    }
}

/// Reports `e` fed to a sink of type `expected` (described by `what`)
/// unless `expected` is optional or `e` is surely present.
fn check_sink(
    e: &Expr,
    expected: &Type,
    what: &str,
    scope: &Scope,
    env: &TypeEnv,
    out: &mut Vec<NullSafetyIssue>,
    line: usize,
    col: usize,
)
    ensures
        issues_view(final(out)@) == issues_view(old(out)@) + sink_issues(
            *e,
            expected@,
            what@,
            scope_view(scope@),
            *env,
            line,
            col,
        ),
{
    if let Type::Optional(_) = expected {
        assert(issues_view(out@) =~= issues_view(old(out)@) + Seq::<(Seq<char>, usize, usize)>::empty());
        return;
    }
    if is_null_literal(e) {
        let mut m = owned("`null` ");
        m.append(what);
        m.append(", but the target type isn't optional — make it `T?`, or provide `?? fallback`.");
        push_issue(out, m, line, col);
        return;
    }
    if !is_definite(e, scope, env) {
        let mut m = owned("a possibly-missing value is ");
        m.append(what);
        m.append(
            " without being resolved — add `?? fallback`, guard it first with `if (x != null) { ... }`, or assert it with `!` if you're certain it's present.",
        );
        push_issue(out, m, line, col);
    } else {
        assert(issues_view(out@) =~= issues_view(old(out)@) + Seq::<(Seq<char>, usize, usize)>::empty());
    }
}

/// Appends one issue when `cond` holds.
fn push_if(out: &mut Vec<NullSafetyIssue>, cond: bool, message: &str, line: usize, col: usize)
    ensures
        issues_view(final(out)@) == issues_view(old(out)@) + one_issue(cond, message@, line, col),
{
    if cond {
        push_issue(out, owned(message), line, col);
    } else {
        assert(issues_view(out@) =~= issues_view(old(out)@) + Seq::<(Seq<char>, usize, usize)>::empty());
    }
}

/// Checks the arguments of a call of a declared function against its
/// parameter types.
#[verifier::loop_isolation(false)]
fn check_arguments(
    args: &Vec<Expr>,
    params: &Vec<Type>,
    name: &String,
    scope: &Scope,
    env: &TypeEnv,
    out: &mut Vec<NullSafetyIssue>,
    line: usize,
    col: usize,
)
    ensures
        issues_view(final(out)@) == issues_view(old(out)@) + argument_issues(
            args@,
            crate::syntax::ast::types_view(params@),
            name@,
            0,
            scope_view(scope@),
            *env,
            line,
            col,
        ),
{
    let ghost ptys = crate::syntax::ast::types_view(params@);
    let ghost sv = scope_view(scope@);
    let ghost start = issues_view(out@);
    proof {
        crate::syntax::ast::lemma_types_view(params@);
    }
    let mut k: usize = 0;
    while k < args.len() && k < params.len()
        invariant
            k <= args@.len(),
            ptys.len() == params@.len(),
            forall|q: int| 0 <= q < params@.len() ==> #[trigger] ptys[q] == params@[q]@,
            issues_view(out@) + argument_issues(args@, ptys, name@, k as nat, sv, *env, line, col) == start
                + argument_issues(args@, ptys, name@, 0, sv, *env, line, col),
        decreases args@.len() - k,
    {
        let ghost before = issues_view(out@);
        let mut what = owned("passed as argument ");
        what.append(usize_decimal(k + 1).as_str());
        what.append(" to `");
        what.append(name.as_str());
        what.append("`");
        assert(what@ == argument_what(k as nat, name@));
        assert(ptys[k as int] == params@[k as int]@);
        check_sink(&args[k], &params[k], what.as_str(), scope, env, out, line, col);
        proof {
            let rest = argument_issues(args@, ptys, name@, (k + 1) as nat, sv, *env, line, col);
            let here = sink_issues(args@[k as int], ptys[k as int], argument_what(k as nat, name@), sv, *env, line, col);
            assert(issues_view(out@) + rest =~= before + (here + rest));
        }
        k += 1;
    }
    assert(issues_view(out@) + Seq::<(Seq<char>, usize, usize)>::empty() =~= issues_view(out@));
}

/// Checks the sinks nested in `e` (a `??` fallback, receivers, operator
/// operands, call arguments), whatever sink `e` itself feeds.
#[verifier::loop_isolation(false)]
#[verifier::spinoff_prover]
#[verifier::rlimit(40)]
fn check_expr(e: &Expr, scope: &Scope, env: &TypeEnv, out: &mut Vec<NullSafetyIssue>, line: usize, col: usize)
    ensures
        issues_view(final(out)@) == issues_view(old(out)@) + expr_issues(*e, scope_view(scope@), *env, line, col),
    decreases e, 0int,
{
    let ghost start = issues_view(out@);
    let ghost sv = scope_view(scope@);
    match e {
        Expr::Binary { op, left, right } => {
            check_expr(left, scope, env, out, line, col);
            check_expr(right, scope, env, out, line, col);
            if *op == BinOp::NullishCoalesce {
                let c = is_null_literal(right) || !is_definite(right, scope, env);
                push_if(
                    out,
                    c,
                    "the fallback on the right of `??` must be a guaranteed (non-optional) value — a possibly-missing fallback defeats the guarantee `??` is supposed to give. Chain another `?? realDefault`, or use a plain literal/definite value.",
                    line,
                    col,
                );
            } else {
                let is_null_test = (*op == BinOp::EqEq || *op == BinOp::NotEq) && (is_null_literal(left)
                    || is_null_literal(right));
                let cl = !is_null_test && !is_null_literal(left) && !is_definite(left, scope, env);
                push_if(
                    out,
                    cl,
                    "the left-hand side of this operator is a possibly-missing value — resolve it with `?? fallback` or a null check first.",
                    line,
                    col,
                );
                let cr = !is_null_test && !is_null_literal(right) && !is_definite(right, scope, env);
                push_if(
                    out,
                    cr,
                    "the right-hand side of this operator is a possibly-missing value — resolve it with `?? fallback` or a null check first.",
                    line,
                    col,
                );
            }
        },
        Expr::Unary { operand, .. } => check_expr(operand, scope, env, out, line, col),
        Expr::Member { object, property } => {
            check_expr(object, scope, env, out, line, col);
            if !is_definite(object, scope, env) {
                let mut m = owned("`.");
                m.append(property.as_str());
                m.append(
                    "` is accessed on a possibly-missing value — resolve it with `?? fallback`, a null check (`if (x != null) { ... }`), or `!` first.",
                );
                push_issue(out, m, line, col);
            } else {
                assert(issues_view(out@) =~= issues_view(out@) + Seq::<(Seq<char>, usize, usize)>::empty());
            }
        },
        Expr::Index { object, index } => {
            check_expr(object, scope, env, out, line, col);
            check_expr(index, scope, env, out, line, col);
            let c = !is_definite(object, scope, env);
            push_if(
                out,
                c,
                "an index is taken on a possibly-missing value — resolve it with `?? fallback`, a null check, or `!` first.",
                line,
                col,
            );
        },
        Expr::Call { callee, args } => {
            check_expr(callee, scope, env, out, line, col);
            check_exprs(args, scope, env, out, line, col);
            let ghost mid = issues_view(out@);
            if let Expr::Ident(name) = &**callee {
                if str_eq(name.as_str(), "print") || str_eq(name.as_str(), "str") {
                    let c = args.len() > 0 && (is_null_literal(&args[0]) || !is_definite(&args[0], scope, env));
                    let mut m = owned("`");
                    m.append(name.as_str());
                    m.append(
                        "(...)` is given a possibly-missing value — resolve it with `?? fallback`, a null check, or `!` first.",
                    );
                    push_if(out, c, m.as_str(), line, col);
                } else if let Some(params) = env.function_param_types(name.as_str()) {
                    check_arguments(args, &params, name, scope, env, out, line, col);
                } else {
                    assert(issues_view(out@) =~= mid + Seq::<(Seq<char>, usize, usize)>::empty());
                }
            } else {
                assert(issues_view(out@) =~= mid + Seq::<(Seq<char>, usize, usize)>::empty());
            }
        },
        Expr::ArrayLiteral { elements } => {
            let mut i: usize = 0;
            assert(elements@.take(0) =~= Seq::<ArrayElement>::empty());
            while i < elements.len()
                invariant
                    i <= elements@.len(),
                    issues_view(out@) == start + elements_issues(elements@.take(i as int), sv, *env, line, col),
                decreases elements@.len() - i,
            {
                proof {
                    assert(decreases_to!(*elements => elements[i as int]));
                    assert(elements@.take(i + 1).drop_last() =~= elements@.take(i as int));
                }
                match &elements[i] {
                    ArrayElement::Item(x) => check_expr(x, scope, env, out, line, col),
                    ArrayElement::Spread(x) => check_expr(x, scope, env, out, line, col),
                }
                proof {
                    assert(issues_view(out@) =~= start + elements_issues(elements@.take(i + 1), sv, *env, line, col));
                }
                i += 1;
            }
            assert(elements@.take(elements@.len() as int) =~= elements@);
        },
        Expr::ObjectLiteral { fields } => {
            let mut i: usize = 0;
            assert(fields@.take(0) =~= Seq::<ObjectField>::empty());
            while i < fields.len()
                invariant
                    i <= fields@.len(),
                    issues_view(out@) == start + fields_issues(fields@.take(i as int), sv, *env, line, col),
                decreases fields@.len() - i,
            {
                proof {
                    assert(decreases_to!(*fields => fields[i as int]));
                    assert(fields@.take(i + 1).drop_last() =~= fields@.take(i as int));
                }
                match &fields[i] {
                    ObjectField::KV(_, v) => check_expr(v, scope, env, out, line, col),
                    ObjectField::Spread(v) => check_expr(v, scope, env, out, line, col),
                }
                proof {
                    assert(issues_view(out@) =~= start + fields_issues(fields@.take(i + 1), sv, *env, line, col));
                }
                i += 1;
            }
            assert(fields@.take(fields@.len() as int) =~= fields@);
        },
        Expr::NonNullAssertion(inner) => check_expr(inner, scope, env, out, line, col),
        Expr::AsConst(inner) => check_expr(inner, scope, env, out, line, col),
        Expr::AsAssertion { expr, .. } => check_expr(expr, scope, env, out, line, col),
        Expr::TypeOf(inner) => check_expr(inner, scope, env, out, line, col),
        Expr::Arrow { params, body, .. } => {
            let mut inner = with_params(scope, params);
            match body {
                ArrowBody::Expr(x) => check_expr(x, &inner, env, out, line, col),
                ArrowBody::Block(stmts) => check_block(stmts, &mut inner, env, out, None),
            }
        },
        _ => {
            assert(issues_view(out@) =~= start + Seq::<(Seq<char>, usize, usize)>::empty());
        },
    }
    assert(issues_view(out@) =~= start + expr_issues(*e, sv, *env, line, col));
}

/// Checks the sinks nested in each expression, in order.
#[verifier::loop_isolation(false)]
fn check_exprs(es: &Vec<Expr>, scope: &Scope, env: &TypeEnv, out: &mut Vec<NullSafetyIssue>, line: usize, col: usize)
    ensures
        issues_view(final(out)@) == issues_view(old(out)@) + exprs_issues(es@, scope_view(scope@), *env, line, col),
    decreases es, 0int,
{
    let ghost start = issues_view(out@);
    let ghost sv = scope_view(scope@);
    let mut i: usize = 0;
    assert(es@.take(0) =~= Seq::<Expr>::empty());
    while i < es.len()
        invariant
            i <= es@.len(),
            issues_view(out@) == start + exprs_issues(es@.take(i as int), sv, *env, line, col),
        decreases es@.len() - i,
    {
        proof {
            assert(decreases_to!(*es => es[i as int]));
            assert(es@.take(i + 1).drop_last() =~= es@.take(i as int));
        }
        check_expr(&es[i], scope, env, out, line, col);
        proof {
            assert(issues_view(out@) =~= start + exprs_issues(es@.take(i + 1), sv, *env, line, col));
        }
        i += 1;
    }
    assert(es@.take(es@.len() as int) =~= es@);
}

/// A copy of `scope` with parameters bound after its own names.
fn with_params(scope: &Scope, params: &Vec<Param>) -> (r: Scope)
    ensures
        scope_view(r@) == params_scope(scope_view(scope@), params@),
{
    let mut inner = clone_scope(scope);
    let mut k: usize = 0;
    assert(params_scope(scope_view(scope@), params@.take(0)) =~= scope_view(scope@));
    while k < params.len()
        invariant
            k <= params@.len(),
            scope_view(inner@) == params_scope(scope_view(scope@), params@.take(k as int)),
        decreases params@.len() - k,
    {
        let ghost before = inner@;
        inner.push((params[k].name.clone(), crate::syntax::ast::clone_type(&params[k].ty)));
        proof {
            assert(scope_view(inner@) =~= scope_view(before).push((params@[k as int].name@, params@[k as int].ty@)));
            assert(params_scope(scope_view(scope@), params@.take(k + 1)) =~= params_scope(
                scope_view(scope@),
                params@.take(k as int),
            ).push((params@[k as int].name@, params@[k as int].ty@)));
        }
        k += 1;
    }
    assert(params@.take(params@.len() as int) =~= params@);
    inner
}

/// Checks each statement of a block in `scope`.
#[verifier::loop_isolation(false)]
fn check_block(
    stmts: &Vec<Stmt>,
    scope: &mut Scope,
    env: &TypeEnv,
    out: &mut Vec<NullSafetyIssue>,
    ret: Option<&Type>,
)
    ensures
        issues_view(final(out)@) == issues_view(old(out)@) + block_issues(
            stmts@,
            scope_view(old(scope)@),
            *env,
            ret_view(ret),
        ).0,
        scope_view(final(scope)@) == block_issues(stmts@, scope_view(old(scope)@), *env, ret_view(ret)).1,
    decreases stmts, 1int,
{
    let ghost goal = block_issues(stmts@, scope_view(scope@), *env, ret_view(ret));
    let ghost start = issues_view(out@);
    let mut i: usize = 0;
    assert(stmts@.skip(0) =~= stmts@);
    while i < stmts.len()
        invariant
            i <= stmts@.len(),
            issues_view(out@) + block_issues(stmts@.skip(i as int), scope_view(scope@), *env, ret_view(ret)).0 == start
                + goal.0,
            block_issues(stmts@.skip(i as int), scope_view(scope@), *env, ret_view(ret)).1 == goal.1,
        decreases stmts@.len() - i,
    {
        proof {
            assert(decreases_to!(*stmts => stmts[i as int]));
            assert(stmts@.skip(i as int)[0] == stmts@[i as int]);
            assert(stmts@.skip(i as int).drop_first() =~= stmts@.skip(i + 1));
        }
        let ghost before = issues_view(out@);
        let ghost sv = scope_view(scope@);
        check_stmt(&stmts[i], scope, env, out, ret);
        proof {
            let a = stmt_issues(stmts@[i as int], sv, *env, ret_view(ret));
            let b = block_issues(stmts@.skip(i + 1), a.1, *env, ret_view(ret));
            assert(issues_view(out@) + b.0 =~= before + (a.0 + b.0));
        }
        i += 1;
    }
    assert(stmts@.skip(i as int) =~= Seq::<Stmt>::empty());
    assert(issues_view(out@) + Seq::<(Seq<char>, usize, usize)>::empty() =~= issues_view(out@));
}

/// A `let` / `const` annotated with a type that is not optional whose
/// value is `null` or `undefined`.
pub open spec fn stores_null(s: Stmt) -> bool {
    match s {
        Stmt::Let { ty, value, .. } => ty matches Some(t) && (!(t is Optional) && spec_is_null_literal(value)),
        Stmt::Const { ty, value, .. } => ty matches Some(t) && (!(t is Optional) && spec_is_null_literal(value)),
        _ => false,
    }
}

/// The position of a `let` / `const`.
pub open spec fn binding_pos(s: Stmt) -> (usize, usize) {
    match s {
        Stmt::Let { line, col, .. } => (line, col),
        Stmt::Const { line, col, .. } => (line, col),
        _ => (0, 0),
    }
}

/// `null` stored into a non-optional binding is reported first, at the
/// binding.
pub proof fn lemma_stored_null_issue(s: Stmt, sv: Seq<(Seq<char>, TypeV)>, env: TypeEnv)
    requires
        stores_null(s),
    ensures
        stmt_issues(s, sv, env, None).0.len() > 0,
        stmt_issues(s, sv, env, None).0[0].1 == binding_pos(s).0,
        stmt_issues(s, sv, env, None).0[0].2 == binding_pos(s).1,
{
    match s {
        Stmt::Let { ty, value, line, col, .. } => {
            assert(expr_issues(value, sv, env, line, col) =~= Seq::<(Seq<char>, usize, usize)>::empty());
        },
        Stmt::Const { ty, value, line, col, .. } => {
            assert(expr_issues(value, sv, env, line, col) =~= Seq::<(Seq<char>, usize, usize)>::empty());
        },
        _ => {},
    }
}

#[verifier::loop_isolation(false)]
#[verifier::spinoff_prover]
#[verifier::rlimit(40)]
fn check_stmt(stmt: &Stmt, scope: &mut Scope, env: &TypeEnv, out: &mut Vec<NullSafetyIssue>, ret: Option<&Type>)
    ensures
        issues_view(final(out)@) == issues_view(old(out)@) + stmt_issues(
            *stmt,
            scope_view(old(scope)@),
            *env,
            ret_view(ret),
        ).0,
        scope_view(final(scope)@) == stmt_issues(*stmt, scope_view(old(scope)@), *env, ret_view(ret)).1,
    decreases stmt, 0int,
{
    let ghost start = issues_view(out@);
    let ghost sv = scope_view(scope@);
    let ghost rv = ret_view(ret);
    match stmt {
        Stmt::Let { name, ty, value, line, col } | Stmt::Const { name, ty, value, line, col } => {
            check_expr(value, scope, env, out, *line, *col);
            if let Some(t) = ty {
                let mut what = owned("assigned to `");
                what.append(name.as_str());
                what.append("`");
                check_sink(value, t, what.as_str(), scope, env, out, *line, *col);
                let ghost before = scope@;
                scope.push((name.clone(), crate::syntax::ast::clone_type(t)));
                assert(scope_view(scope@) =~= scope_view(before).push((name@, t@)));
            }
        },
        Stmt::Assign { name, value, line, col } => {
            check_expr(value, scope, env, out, *line, *col);
            let ghost mid = issues_view(out@);
            if let Some(t) = lookup_type(scope, name.as_str()) {
                let mut what = owned("assigned to `");
                what.append(name.as_str());
                what.append("`");
                check_sink(value, &t, what.as_str(), scope, env, out, *line, *col);
            } else {
                assert(issues_view(out@) =~= mid + Seq::<(Seq<char>, usize, usize)>::empty());
            }
        },
        Stmt::AssignIndex { index, value, line, col, .. } => {
            check_expr(index, scope, env, out, *line, *col);
            check_expr(value, scope, env, out, *line, *col);
        },
        Stmt::AssignMember { object, value, line, col, .. } => {
            check_expr(object, scope, env, out, *line, *col);
            check_expr(value, scope, env, out, *line, *col);
            let c = !is_definite(object, scope, env);
            push_if(
                out,
                c,
                "a field is assigned on a possibly-missing value — resolve it with `?? fallback`, a null check, or `!` first.",
                *line,
                *col,
            );
        },
        Stmt::Function(f) => check_function(f, scope, env, out),
        Stmt::Return(Some(e)) => {
            check_expr(e, scope, env, out, 0, 0);
            let ghost mid = issues_view(out@);
            if let Some(rt) = ret {
                check_sink(e, rt, "returned", scope, env, out, 0, 0);
            } else {
                assert(issues_view(out@) =~= mid + Seq::<(Seq<char>, usize, usize)>::empty());
            }
        },
        Stmt::If { condition, then_branch, else_branch } => {
            check_expr(condition, scope, env, out, 0, 0);
            let mut then_scope = clone_scope(scope);
            check_block(then_branch, &mut then_scope, env, out, ret);
            let ghost mid = issues_view(out@);
            if let Some(eb) = else_branch {
                let mut else_scope = clone_scope(scope);
                check_block(eb, &mut else_scope, env, out, ret);
            } else {
                assert(issues_view(out@) =~= mid + Seq::<(Seq<char>, usize, usize)>::empty());
            }
        },
        Stmt::While { condition, body } => {
            check_expr(condition, scope, env, out, 0, 0);
            let mut inner = clone_scope(scope);
            check_block(body, &mut inner, env, out, ret);
        },
        Stmt::For { init, condition, update, body } => {
            let mut inner = clone_scope(scope);
            let ghost p0 = issues_view(out@);
            if let Some(i) = init {
                check_stmt(i, &mut inner, env, out, ret);
            } else {
                assert(issues_view(out@) =~= p0 + Seq::<(Seq<char>, usize, usize)>::empty());
            }
            let ghost p1 = issues_view(out@);
            if let Some(c) = condition {
                check_expr(c, &inner, env, out, 0, 0);
            } else {
                assert(issues_view(out@) =~= p1 + Seq::<(Seq<char>, usize, usize)>::empty());
            }
            let ghost p2 = issues_view(out@);
            if let Some(u) = update {
                check_stmt(u, &mut inner, env, out, ret);
            } else {
                assert(issues_view(out@) =~= p2 + Seq::<(Seq<char>, usize, usize)>::empty());
            }
            check_block(body, &mut inner, env, out, ret);
        },
        Stmt::ForOf { name, ty, iterable, body } => {
            check_expr(iterable, scope, env, out, 0, 0);
            let mut inner = clone_scope(scope);
            if let Some(t) = ty {
                let ghost before = inner@;
                inner.push((name.clone(), crate::syntax::ast::clone_type(t)));
                assert(scope_view(inner@) =~= scope_view(before).push((name@, t@)));
            }
            check_block(body, &mut inner, env, out, ret);
        },
        Stmt::Switch { discriminant, cases } => {
            check_expr(discriminant, scope, env, out, 0, 0);
            let ghost p = issues_view(out@);
            let mut k: usize = 0;
            assert(cases@.take(0) =~= Seq::<SwitchCase>::empty());
            while k < cases.len()
                invariant
                    k <= cases@.len(),
                    scope_view(scope@) == sv,
                    issues_view(out@) == p + cases_issues(cases@.take(k as int), sv, *env, rv),
                decreases cases@.len() - k,
            {
                proof {
                    assert(decreases_to!(*cases => cases[k as int]));
                    assert(cases@.take(k + 1).drop_last() =~= cases@.take(k as int));
                }
                let mut inner = clone_scope(scope);
                check_exprs(&cases[k].values, &inner, env, out, 0, 0);
                check_block(&cases[k].body, &mut inner, env, out, ret);
                proof {
                    assert(issues_view(out@) =~= p + cases_issues(cases@.take(k + 1), sv, *env, rv));
                }
                k += 1;
            }
            assert(cases@.take(cases@.len() as int) =~= cases@);
        },
        Stmt::Try { body, catch_body, .. } => {
            let mut b = clone_scope(scope);
            check_block(body, &mut b, env, out, ret);
            let mut c = clone_scope(scope);
            check_block(catch_body, &mut c, env, out, ret);
        },
        Stmt::Throw(e) => check_expr(e, scope, env, out, 0, 0),
        Stmt::Expr(e) => check_expr(e, scope, env, out, 0, 0),
        Stmt::ExportDecl(inner) => check_stmt(inner, scope, env, out, ret),
        Stmt::ExportDefault(ExportDefault::Function(f)) => check_function(f, scope, env, out),
        Stmt::ExportDefault(ExportDefault::Expr(e)) => check_expr(e, scope, env, out, 0, 0),
        _ => {
            assert(issues_view(out@) =~= start + Seq::<(Seq<char>, usize, usize)>::empty());
        },
    }
    assert(issues_view(out@) =~= start + stmt_issues(*stmt, sv, *env, rv).0);
}

/// Checks a function body in a copy of `outer` with its parameters; its
/// return type is a sink unless `void`.
fn check_function(f: &Function, outer: &Scope, env: &TypeEnv, out: &mut Vec<NullSafetyIssue>)
    ensures
        issues_view(final(out)@) == issues_view(old(out)@) + function_issues(*f, scope_view(outer@), *env),
    decreases f, 0int,
{
    let mut scope = with_params(outer, &f.params);
    let ret = if is_void(&f.return_type) {
        None
    } else {
        Some(&f.return_type)
    };
    check_block(&f.body, &mut scope, env, out, ret);
}

/// Every null-safety violation of `program`, in order (none for a sound
/// program). `env` should cover every linked module, so that calls across
/// modules are checked too.
pub fn check_null_safety(program: &Program, env: &TypeEnv) -> (r: Vec<NullSafetyIssue>)
    ensures
        issues_view(r@) == block_issues(program.stmts@, Seq::empty(), *env, None).0,
        program.stmts@.len() == 0 ==> r@.len() == 0,
        forall|i: int|
            0 <= i < program.stmts@.len() && stores_null(#[trigger] program.stmts@[i]) ==> exists|k: int|
                0 <= k < r@.len() && (#[trigger] r@[k]).line == binding_pos(program.stmts@[i]).0 && r@[k].col
                    == binding_pos(program.stmts@[i]).1,
{
    let ss = &program.stmts;
    let ghost goal = block_issues(ss@, Seq::empty(), *env, None);
    let mut out: Vec<NullSafetyIssue> = Vec::new();
    let mut scope: Scope = Vec::new();
    assert(scope_view(scope@) =~= Seq::<(Seq<char>, TypeV)>::empty());
    assert(issues_view(out@) =~= Seq::<(Seq<char>, usize, usize)>::empty());
    let mut i: usize = 0;
    assert(ss@.skip(0) =~= ss@);
    while i < ss.len()
        invariant
            i <= ss@.len(),
            issues_view(out@) + block_issues(ss@.skip(i as int), scope_view(scope@), *env, None).0 == goal.0,
            forall|j: int|
                0 <= j < i && stores_null(#[trigger] ss@[j]) ==> exists|k: int|
                    0 <= k < out@.len() && (#[trigger] out@[k]).line == binding_pos(ss@[j]).0 && out@[k].col
                        == binding_pos(ss@[j]).1,
        decreases ss@.len() - i,
    {
        proof {
            assert(ss@.skip(i as int)[0] == ss@[i as int]);
            assert(ss@.skip(i as int).drop_first() =~= ss@.skip(i + 1));
        }
        let ghost before = out@;
        let ghost sv = scope_view(scope@);
        check_stmt(&ss[i], &mut scope, env, &mut out, None);
        proof {
            let a = stmt_issues(ss@[i as int], sv, *env, None);
            let b = block_issues(ss@.skip(i + 1), a.1, *env, None);
            assert(issues_view(out@) + b.0 =~= issues_view(before) + (a.0 + b.0));
            assert(out@.len() == before.len() + a.0.len());
            assert forall|j: int|
                0 <= j < i + 1 && stores_null(#[trigger] ss@[j]) implies exists|k: int|
                    0 <= k < out@.len() && (#[trigger] out@[k]).line == binding_pos(ss@[j]).0 && out@[k].col
                        == binding_pos(ss@[j]).1 by {
                if j < i {
                    let k = choose|k: int|
                        0 <= k < before.len() && (#[trigger] before[k]).line == binding_pos(ss@[j]).0
                            && before[k].col == binding_pos(ss@[j]).1;
                    assert(issues_view(out@)[k] == issues_view(before)[k]);
                    assert(out@[k].line == before[k].line && out@[k].col == before[k].col);
                } else {
                    lemma_stored_null_issue(ss@[j], sv, *env);
                    let k = before.len() as int;
                    assert(issues_view(out@)[k] == a.0[0]);
                    assert(out@[k].line == binding_pos(ss@[j]).0);
                }
            }
        }
        i += 1;
    }
    assert(ss@.skip(i as int) =~= Seq::<Stmt>::empty());
    assert(issues_view(out@) + Seq::<(Seq<char>, usize, usize)>::empty() =~= issues_view(out@));
    out
}

} // verus!
