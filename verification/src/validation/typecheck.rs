//! Type mismatches: once a binding's type is set (by its annotation or by
//! inference from its value), storing, assigning or returning a value of
//! an incompatible type is an error.
//!
//! Conservative on purpose: only `number` / `string` / `boolean` (with
//! `bigint` as `number`), literal types and arrays of those are compared;
//! anything else, `any`, and `null` / `undefined` (null safety's concern)
//! pass.
//!
//! Sinks: an annotated `let` / `const` against its value, `x = v` against
//! `x`'s type, `a[i] = v` against `a`'s element type, `o.f = v` against the
//! field's type, `return v` against the function's return type.

use crate::syntax::ast::{clone_expr, clone_type, ExportDefault, Expr, Function, LiteralValue, LiteralV, Program, Stmt, Type, TypeV};
use crate::text::{owned, str_eq};
use crate::validation::infer::{
    clone_scope, expr_type, is_void, is_voidv, known_type, lookup_type, lookupv, member_ty, member_type, params_scope,
    scope_view, spec_expr_type, spec_literal_type, Scope, TypeEnv,
};
use crate::validation::nullsafety::appended;
use vstd::prelude::*;

verus! {

broadcast use vstd::std_specs::vec::group_vec_axioms;

/// One type mismatch, at the sink's position (`(0, 0)` for a `return`).
#[derive(Debug)]
pub struct TypeMismatchIssue {
    pub message: String,
    pub line: usize,
    pub col: usize,
}

pub open spec fn spec_is_any(t: TypeV) -> bool {
    t == TypeV::Primitive("any"@)
}

/// The primitive kind of a primitive or literal type (`bigint` counts as
/// `number`); none for any other type.
pub open spec fn spec_primitive_kind(t: TypeV) -> Option<Seq<char>> {
    match t {
        TypeV::Primitive(p) => if p == "bigint"@ {
            Some("number"@)
        } else {
            Some(p)
        },
        TypeV::Literal(LiteralV::String(_)) => Some("string"@),
        TypeV::Literal(LiteralV::Number(_)) => Some("number"@),
        TypeV::Literal(LiteralV::Bool(_)) => Some("boolean"@),
        _ => None,
    }
}

pub fn primitive_kind(t: &Type) -> (r: Option<String>)
    ensures
        match r {
            Some(s) => spec_primitive_kind(t@) == Some(s@),
            None => spec_primitive_kind(t@) is None,
        },
{
    match t {
        Type::Primitive(p) => if str_eq(p.as_str(), "bigint") {
            Some(owned("number"))
        } else {
            Some(p.clone())
        },
        Type::Literal(LiteralValue::String(_)) => Some(owned("string")),
        Type::Literal(LiteralValue::Number(_)) => Some(owned("number")),
        Type::Literal(LiteralValue::Bool(_)) => Some(owned("boolean")),
        _ => None,
    }
}

/// The inner type of `T?`; any other type unchanged.
pub open spec fn unwrap_opt(t: TypeV) -> TypeV {
    match t {
        TypeV::Optional(inner) => *inner,
        _ => t,
    }
}

/// A value of type `actual` may be stored where `expected` is required.
pub open spec fn spec_types_compatible(expected: TypeV, actual: TypeV) -> bool
    decreases expected,
{
    let e = unwrap_opt(expected);
    let a = unwrap_opt(actual);
    if spec_is_any(e) || spec_is_any(a) {
        true
    } else if a is Null || a is Undefined {
        true
    } else {
        match (e, a) {
            (TypeV::Array(ei), TypeV::Array(ai)) => {
                proof {
                    lemma_unwrap_decreases(expected);
                }
                spec_types_compatible(*ei, *ai)
            },
            (TypeV::Array(_), _) => false,
            (_, TypeV::Array(_)) => false,
            _ => match (spec_primitive_kind(e), spec_primitive_kind(a)) {
                (Some(x), Some(y)) => x == y,
                _ => true,
            },
        }
    }
}

/// Primitive types fit only themselves: among `number`, `string` and
/// `boolean`, a type is compatible with another exactly when they are the
/// same, and a literal fits exactly the primitive of its kind.
pub proof fn law_primitives_fit_only_themselves(a: Seq<char>, b: Seq<char>, s: Seq<char>, n: Seq<char>, x: bool)
    requires
        a == "number"@ || a == "string"@ || a == "boolean"@,
        b == "number"@ || b == "string"@ || b == "boolean"@,
    ensures
        spec_types_compatible(TypeV::Primitive(a), TypeV::Primitive(b)) == (a == b),
        spec_types_compatible(TypeV::Primitive(a), TypeV::Literal(LiteralV::String(s))) == (a == "string"@),
        spec_types_compatible(TypeV::Primitive(a), TypeV::Literal(LiteralV::Number(n))) == (a == "number"@),
        spec_types_compatible(TypeV::Primitive(a), TypeV::Literal(LiteralV::Bool(x))) == (a == "boolean"@),
{
    reveal_strlit("number");
    reveal_strlit("string");
    reveal_strlit("boolean");
    reveal_strlit("any");
    reveal_strlit("bigint");
    assert("number"@ != "string"@ && "number"@ != "boolean"@ && "string"@ != "boolean"@) by {
        assert("number"@[0] != "string"@[0]);
        assert("number"@[0] != "boolean"@[0]);
        assert("string"@[0] != "boolean"@[0]);
    }
    assert(a != "any"@ && b != "any"@ && a != "bigint"@ && b != "bigint"@) by {
        assert("number"@.len() != "any"@.len() && "string"@.len() != "any"@.len());
        assert("boolean"@.len() != "any"@.len());
        assert("number"@[0] != "bigint"@[0] && "string"@[0] != "bigint"@[0]);
        assert("boolean"@.len() != "bigint"@.len());
    }
}

/// An array holds only arrays, and only an array fits where an array is
/// expected: apart from `any`, `null` and `undefined`, a non-array type
/// (a primitive, a literal, an object, ...) and an array type are never
/// compatible, either way round.
pub proof fn law_arrays_and_non_arrays_do_not_mix(elem: TypeV, other: TypeV)
    requires
        !(unwrap_opt(other) is Array),
        !spec_is_any(unwrap_opt(other)),
        !(unwrap_opt(other) is Null),
        !(unwrap_opt(other) is Undefined),
    ensures
        !spec_types_compatible(TypeV::Array(Box::new(elem)), other),
        !spec_types_compatible(TypeV::Optional(Box::new(TypeV::Array(Box::new(elem)))), other),
        !spec_types_compatible(other, TypeV::Array(Box::new(elem))),
{
}

/// A value of a binding's own established type is never a mismatch: every
/// type is compatible with itself.
pub proof fn lemma_types_compatible_reflexive(t: TypeV)
    ensures
        spec_types_compatible(t, t),
    decreases t,
{
    let e = unwrap_opt(t);
    if let TypeV::Array(inner) = e {
        lemma_unwrap_decreases(t);
        if !(spec_is_any(e) || e is Null || e is Undefined) {
            lemma_types_compatible_reflexive(*inner);
        }
    }
}

/// The element type of an array, or of an optional array, is smaller.
pub proof fn lemma_unwrap_decreases(t: TypeV)
    ensures
        unwrap_opt(t) matches TypeV::Array(inner) ==> decreases_to!(t => *inner),
{
    match t {
        TypeV::Optional(b) => {
            if let TypeV::Array(inner) = *b {
                assert(decreases_to!(t => *b));
                assert(decreases_to!(*b => *inner));
            }
        },
        _ => {},
    }
}

fn is_any(t: &Type) -> (r: bool)
    ensures
        r == spec_is_any(t@),
{
    match t {
        Type::Primitive(p) => str_eq(p.as_str(), "any"),
        _ => false,
    }
}

pub fn types_compatible(expected: &Type, actual: &Type) -> (r: bool)
    ensures
        r == spec_types_compatible(expected@, actual@),
    decreases expected,
{
    let e = expected.unwrap_optional();
    let a = actual.unwrap_optional();
    assert(e@ == unwrap_opt(expected@));
    assert(a@ == unwrap_opt(actual@));
    if is_any(e) || is_any(a) {
        return true;
    }
    match a {
        Type::Null | Type::Undefined => {
            return true;
        },
        _ => {},
    }
    match (e, a) {
        (Type::Array(ei), Type::Array(ai)) => {
            proof {
                match expected {
                    Type::Optional(b) => {
                        assert(decreases_to!(*expected => **b));
                        assert(decreases_to!(**b => **ei));
                    },
                    _ => {},
                }
            }
            types_compatible(ei, ai)
        },
        (Type::Array(_), _) => false,
        (_, Type::Array(_)) => false,
        _ => match (primitive_kind(e), primitive_kind(a)) {
            (Some(x), Some(y)) => str_eq(x.as_str(), y.as_str()),
            _ => true,
        },
    }
}

/// Short label of a type for a mismatch message (an object type by its
/// name; unions, intersections and functions by their kind).
/// The label of a type in a mismatch message.
pub open spec fn label_of(t: TypeV) -> Seq<char>
    decreases t,
{
    match t {
        TypeV::Optional(inner) => label_of(*inner) + "?"@,
        TypeV::Array(inner) => label_of(*inner) + "[]"@,
        TypeV::Primitive(p) => p,
        TypeV::Named(n) => n,
        TypeV::Object { name, .. } => name,
        TypeV::Null => "null"@,
        TypeV::Undefined => "undefined"@,
        TypeV::Literal(LiteralV::String(s)) => "\""@ + s + "\""@,
        TypeV::Literal(LiteralV::Number(n)) => n,
        TypeV::Literal(LiteralV::Bool(b)) => if b {
            "true"@
        } else {
            "false"@
        },
        TypeV::Union(_) => "union"@,
        TypeV::Intersection(_) => "intersection"@,
        TypeV::Function { .. } => "function"@,
    }
}

#[verifier::loop_isolation(false)]
fn type_label(t: &Type) -> (r: String)
    ensures
        r@ == label_of(t@),
    decreases t,
{
    match t {
        Type::Optional(inner) => {
            let mut s = type_label(inner);
            s.append("?");
            s
        },
        Type::Array(inner) => {
            let mut s = type_label(inner);
            s.append("[]");
            s
        },
        Type::Primitive(p) => p.clone(),
        Type::Named(n) => n.clone(),
        Type::Object { name, .. } => name.clone(),
        Type::Null => owned("null"),
        Type::Undefined => owned("undefined"),
        Type::Literal(LiteralValue::String(s)) => {
            let mut r = owned("\"");
            r.append(s.as_str());
            r.append("\"");
            r
        },
        Type::Literal(LiteralValue::Number(n)) => n.clone(),
        Type::Literal(LiteralValue::Bool(b)) => if *b {
            owned("true")
        } else {
            owned("false")
        },
        Type::Union(_) => owned("union"),
        Type::Intersection(_) => owned("intersection"),
        Type::Function { .. } => owned("function"),
    }
}

/// The values of the issues: message, line, column.
pub open spec fn issues_view(v: Seq<TypeMismatchIssue>) -> Seq<(Seq<char>, usize, usize)> {
    v.map_values(|i: TypeMismatchIssue| (i.message@, i.line, i.col))
}

pub open spec fn mismatch_message(what: Seq<char>, expected: TypeV, actual: TypeV) -> Seq<char> {
    "type mismatch: "@ + what + " expects `"@ + label_of(expected) + "`, found `"@ + label_of(actual) + "`"@
}

/// The issue of storing `e` where `expected` (named by `what`) is
/// required: one when `e`'s type is known and incompatible.
pub open spec fn sink_issue(
    e: Expr,
    expected: TypeV,
    what: Seq<char>,
    sv: Seq<(Seq<char>, TypeV)>,
    env: TypeEnv,
    line: usize,
    col: usize,
) -> Seq<(Seq<char>, usize, usize)> {
    match spec_expr_type(e, sv, env) {
        Some(a) => if spec_types_compatible(expected, a) {
            Seq::empty()
        } else {
            seq![(mismatch_message(what, expected, a), line, col)]
        },
        None => Seq::empty(),
    }
}

pub open spec fn quoted_name(n: Seq<char>) -> Seq<char> {
    "`"@ + n + "`"@
}

/// The issues of one statement in the scope `sv`, with `ret` the
/// enclosing function's non-`void` return type, and the scope after it (a
/// `let` / `const` binds its annotation, or else its value's type; nested
/// blocks check in copies of the scope).
pub open spec fn stmt_check(s: Stmt, sv: Seq<(Seq<char>, TypeV)>, env: TypeEnv, ret: Option<TypeV>) -> (
    Seq<(Seq<char>, usize, usize)>,
    Seq<(Seq<char>, TypeV)>,
)
    decreases s, 1int,
{
    match s {
        Stmt::Let { name, ty, value, line, col } => match ty {
            Some(t) => (sink_issue(value, t@, quoted_name(name@), sv, env, line, col), sv.push((name@, t@))),
            None => (
                Seq::empty(),
                match spec_expr_type(value, sv, env) {
                    Some(t) => sv.push((name@, t)),
                    None => sv,
                },
            ),
        },
        Stmt::Const { name, ty, value, line, col } => match ty {
            Some(t) => (sink_issue(value, t@, quoted_name(name@), sv, env, line, col), sv.push((name@, t@))),
            None => (
                Seq::empty(),
                match spec_expr_type(value, sv, env) {
                    Some(t) => sv.push((name@, t)),
                    None => sv,
                },
            ),
        },
        Stmt::Assign { name, value, line, col } => (
            match lookupv(sv, name@) {
                Some(t) => sink_issue(value, t, quoted_name(name@), sv, env, line, col),
                None => Seq::empty(),
            },
            sv,
        ),
        Stmt::AssignIndex { object, value, line, col, .. } => (
            match lookupv(sv, object@) {
                Some(TypeV::Array(elem)) => sink_issue(
                    value,
                    *elem,
                    "an element of `"@ + object@ + "`"@,
                    sv,
                    env,
                    line,
                    col,
                ),
                _ => Seq::empty(),
            },
            sv,
        ),
        Stmt::AssignMember { object, property, value, line, col } => (
            match member_ty(*object, property@, sv, env, Seq::empty(), env.functions@.len() as nat) {
                Some(ft) => sink_issue(value, ft, "field `."@ + property@ + "`"@, sv, env, line, col),
                None => Seq::empty(),
            },
            sv,
        ),
        Stmt::Function(f) => (function_check(f, sv, env), sv),
        Stmt::Return(Some(e)) => (
            match ret {
                Some(rt) => if !is_voidv(rt) {
                    sink_issue(e, rt, "the function's return type"@, sv, env, 0, 0)
                } else {
                    Seq::empty()
                },
                None => Seq::empty(),
            },
            sv,
        ),
        Stmt::If { then_branch, else_branch, .. } => (
            block_check(then_branch@, sv, env, ret).0 + match else_branch {
                Some(b) => block_check(b@, sv, env, ret).0,
                None => Seq::empty(),
            },
            sv,
        ),
        Stmt::While { body, .. } => (block_check(body@, sv, env, ret).0, sv),
        Stmt::For { init, update, body, .. } => {
            let a = match init {
                Some(i) => stmt_check(*i, sv, env, ret),
                None => (Seq::empty(), sv),
            };
            let b = match update {
                Some(u) => stmt_check(*u, a.1, env, ret),
                None => (Seq::empty(), a.1),
            };
            (a.0 + b.0 + block_check(body@, b.1, env, ret).0, sv)
        },
        Stmt::ForOf { name, ty, body, .. } => (
            block_check(
                body@,
                match ty {
                    Some(t) => sv.push((name@, t@)),
                    None => sv,
                },
                env,
                ret,
            ).0,
            sv,
        ),
        Stmt::Switch { cases, .. } => (cases_check(cases@, sv, env, ret), sv),
        Stmt::Try { body, catch_name, catch_body } => (
            block_check(body@, sv, env, ret).0 + block_check(
                catch_body@,
                match catch_name {
                    Some(n) => sv.push((n@, TypeV::Primitive("string"@))),
                    None => sv,
                },
                env,
                ret,
            ).0,
            sv,
        ),
        Stmt::ExportDecl(inner) => stmt_check(*inner, sv, env, ret),
        Stmt::ExportDefault(ExportDefault::Function(f)) => (function_check(f, sv, env), sv),
        _ => (Seq::empty(), sv),
    }
}

/// The issues of a block, statement after statement, and the scope after
/// it.
pub open spec fn block_check(ss: Seq<Stmt>, sv: Seq<(Seq<char>, TypeV)>, env: TypeEnv, ret: Option<TypeV>) -> (
    Seq<(Seq<char>, usize, usize)>,
    Seq<(Seq<char>, TypeV)>,
)
    decreases ss, 0int,
{
    if ss.len() == 0 {
        (Seq::empty(), sv)
    } else {
        let a = stmt_check(ss[0], sv, env, ret);
        let b = block_check(ss.drop_first(), a.1, env, ret);
        (a.0 + b.0, b.1)
    }
}

/// The issues of the cases of a `switch`, each in its own copy of `sv`.
pub open spec fn cases_check(
    cs: Seq<crate::syntax::ast::SwitchCase>,
    sv: Seq<(Seq<char>, TypeV)>,
    env: TypeEnv,
    ret: Option<TypeV>,
) -> Seq<(Seq<char>, usize, usize)>
    decreases cs, 0int,
{
    if cs.len() == 0 {
        Seq::empty()
    } else {
        block_check(cs[0].body@, sv, env, ret).0 + cases_check(cs.drop_first(), sv, env, ret)
    }
}

/// The issues of a function's body, its parameters added to `sv`, checked
/// against its return type unless that is `void`.
pub open spec fn function_check(f: Function, sv: Seq<(Seq<char>, TypeV)>, env: TypeEnv) -> Seq<
    (Seq<char>, usize, usize),
>
    decreases f, 0int,
{
    block_check(
        f.body@,
        params_scope(sv, f.params@),
        env,
        if spec_is_voidt(f.return_type) {
            None
        } else {
            Some(f.return_type@)
        },
    ).0
}

pub open spec fn spec_is_voidt(t: Type) -> bool {
    crate::validation::infer::spec_is_void(t)
}

pub open spec fn ret_view(ret: Option<&Type>) -> Option<TypeV> {
    match ret {
        Some(t) => Some(t@),
        None => None,
    }
}

/// Reports `e` stored into a sink of type `expected` (named by `what`)
/// when its type is known and incompatible.
fn check_sink(
    e: &Expr,
    expected: &Type,
    what: &str,
    scope: &Scope,
    env: &TypeEnv,
    out: &mut Vec<TypeMismatchIssue>,
    line: usize,
    col: usize,
)
    ensures
        issues_view(final(out)@) == issues_view(old(out)@) + sink_issue(
            *e,
            expected@,
            what@,
            scope_view(scope@),
            *env,
            line,
            col,
        ),
{
    let actual = match expr_type(e, scope, env) {
        Some(t) => t,
        None => {
            assert(issues_view(out@) =~= issues_view(old(out)@) + Seq::<(Seq<char>, usize, usize)>::empty());
            return;
        },
    };
    if !types_compatible(expected, &actual) {
        let mut m = owned("type mismatch: ");
        m.append(what);
        m.append(" expects `");
        m.append(type_label(expected).as_str());
        m.append("`, found `");
        m.append(type_label(&actual).as_str());
        m.append("`");
        let ghost mv = m@;
        out.push(TypeMismatchIssue { message: m, line, col });
        assert(mv == mismatch_message(what@, expected@, actual@));
        assert(issues_view(out@) =~= issues_view(old(out)@) + seq![(mv, line, col)]);
    } else {
        assert(issues_view(out@) =~= issues_view(old(out)@) + Seq::<(Seq<char>, usize, usize)>::empty());
    }
}

fn quoted(name: &String) -> (r: String)
    ensures
        r@ == quoted_name(name@),
{
    let mut s = owned("`");
    s.append(name.as_str());
    s.append("`");
    s
}

#[verifier::loop_isolation(false)]
fn check_block(stmts: &Vec<Stmt>, scope: &mut Scope, env: &TypeEnv, out: &mut Vec<TypeMismatchIssue>, ret: Option<&Type>)
    ensures
        issues_view(final(out)@) == issues_view(old(out)@) + block_check(
            stmts@,
            scope_view(old(scope)@),
            *env,
            ret_view(ret),
        ).0,
        scope_view(final(scope)@) == block_check(stmts@, scope_view(old(scope)@), *env, ret_view(ret)).1,
    decreases stmts, 1int,
{
    let ghost goal = block_check(stmts@, scope_view(scope@), *env, ret_view(ret));
    let ghost start = issues_view(out@);
    let mut i: usize = 0;
    assert(stmts@.skip(0) =~= stmts@);
    assert(issues_view(out@) + goal.0 =~= start + goal.0);
    while i < stmts.len()
        invariant
            i <= stmts@.len(),
            issues_view(out@) + block_check(stmts@.skip(i as int), scope_view(scope@), *env, ret_view(ret)).0 == start
                + goal.0,
            block_check(stmts@.skip(i as int), scope_view(scope@), *env, ret_view(ret)).1 == goal.1,
        decreases stmts@.len() - i,
    {
        proof {
            assert(decreases_to!(*stmts => stmts[i as int]));
            assert(stmts@.skip(i as int)[0] == stmts@[i as int]);
            assert(stmts@.skip(i as int).drop_first() =~= stmts@.skip(i + 1));
        }
        let ghost before = issues_view(out@);
        let ghost sv = scope_view(scope@);
        check_stmt(&stmts[i], scope, env, out, ret);
        proof {
            let a = stmt_check(stmts@[i as int], sv, *env, ret_view(ret));
            let b = block_check(stmts@.skip(i + 1), a.1, *env, ret_view(ret));
            assert(issues_view(out@) + b.0 =~= before + (a.0 + b.0));
        }
        i += 1;
    }
    assert(stmts@.skip(i as int) =~= Seq::<Stmt>::empty());
    assert(issues_view(out@) + Seq::<(Seq<char>, usize, usize)>::empty() =~= issues_view(out@));
}

/// A `let` / `const` annotated `T` whose value is a literal of a type
/// that `T` does not accept (`let n: number = "a";`).
pub open spec fn reports_literal_mismatch(s: Stmt) -> bool {
    match s {
        Stmt::Let { ty, value, .. } => ty matches Some(t) && (spec_literal_type(value) matches Some(v)
            && !spec_types_compatible(t@, v)),
        Stmt::Const { ty, value, .. } => ty matches Some(t) && (spec_literal_type(value) matches Some(v)
            && !spec_types_compatible(t@, v)),
        _ => false,
    }
}

/// The position of a `let` / `const`.
pub open spec fn decl_pos(s: Stmt) -> (usize, usize) {
    match s {
        Stmt::Let { line, col, .. } => (line, col),
        Stmt::Const { line, col, .. } => (line, col),
        _ => (0, 0),
    }
}

/// An annotated declaration whose literal value does not fit its
/// annotation is reported first, at the declaration.
pub proof fn lemma_literal_mismatch_issue(s: Stmt, sv: Seq<(Seq<char>, TypeV)>, env: TypeEnv)
    requires
        reports_literal_mismatch(s),
    ensures
        stmt_check(s, sv, env, None).0.len() > 0,
        stmt_check(s, sv, env, None).0[0].1 == decl_pos(s).0,
        stmt_check(s, sv, env, None).0[0].2 == decl_pos(s).1,
{
}

/// Checks one statement; `ret` is the enclosing function's return type
/// when it is not `void`. A binding's type (annotated, or inferred from its
/// value) enters `scope`.
#[verifier::loop_isolation(false)]
fn check_stmt(stmt: &Stmt, scope: &mut Scope, env: &TypeEnv, out: &mut Vec<TypeMismatchIssue>, ret: Option<&Type>)
    ensures
        issues_view(final(out)@) == issues_view(old(out)@) + stmt_check(
            *stmt,
            scope_view(old(scope)@),
            *env,
            ret_view(ret),
        ).0,
        scope_view(final(scope)@) == stmt_check(*stmt, scope_view(old(scope)@), *env, ret_view(ret)).1,
    decreases stmt, 0int,
{
    let ghost start = issues_view(out@);
    let ghost sv = scope_view(scope@);
    let ghost rv = ret_view(ret);
    match stmt {
        Stmt::Let { name, ty, value, line, col } | Stmt::Const { name, ty, value, line, col } => {
            match ty {
                Some(t) => {
                    check_sink(value, t, quoted(name).as_str(), scope, env, out, *line, *col);
                    let ghost before = scope@;
                    scope.push((name.clone(), clone_type(t)));
                    assert(scope_view(scope@) =~= scope_view(before).push((name@, t@)));
                },
                None => {
                    if let Some(t) = expr_type(value, scope, env) {
                        let ghost before = scope@;
                        scope.push((name.clone(), t));
                        assert(scope_view(scope@) =~= scope_view(before).push((name@, t@)));
                    }
                    assert(issues_view(out@) =~= start + Seq::<(Seq<char>, usize, usize)>::empty());
                },
            }
        },
        Stmt::Assign { name, value, line, col } => {
            if let Some(t) = lookup_type(scope, name.as_str()) {
                check_sink(value, &t, quoted(name).as_str(), scope, env, out, *line, *col);
            } else {
                assert(issues_view(out@) =~= start + Seq::<(Seq<char>, usize, usize)>::empty());
            }
        },
        Stmt::AssignIndex { object, value, line, col, .. } => {
            if let Some(Type::Array(elem)) = lookup_type(scope, object.as_str()) {
                let mut what = owned("an element of `");
                what.append(object.as_str());
                what.append("`");
                check_sink(value, &elem, what.as_str(), scope, env, out, *line, *col);
            } else {
                assert(issues_view(out@) =~= start + Seq::<(Seq<char>, usize, usize)>::empty());
            }
        },
        Stmt::AssignMember { object, property, value, line, col } => {
            let resolving: Vec<String> = Vec::new();
            assert(crate::text::strings_view(resolving@) =~= Seq::<Seq<char>>::empty());
            if let Some(field_ty) = member_type(object, property.as_str(), scope, env, &resolving, env.functions.len()) {
                let mut what = owned("field `.");
                what.append(property.as_str());
                what.append("`");
                check_sink(value, &field_ty, what.as_str(), scope, env, out, *line, *col);
            } else {
                assert(issues_view(out@) =~= start + Seq::<(Seq<char>, usize, usize)>::empty());
            }
        },
        Stmt::Function(f) => check_function(f, scope, env, out),
        Stmt::Return(Some(e)) => {
            let mut done = false;
            if let Some(rt) = ret {
                if !is_void(rt) {
                    check_sink(e, rt, "the function's return type", scope, env, out, 0, 0);
                    done = true;
                }
            }
            if !done {
                assert(issues_view(out@) =~= start + Seq::<(Seq<char>, usize, usize)>::empty());
            }
        },
        Stmt::If { then_branch, else_branch, .. } => {
            let mut then_scope = clone_scope(scope);
            check_block(then_branch, &mut then_scope, env, out, ret);
            if let Some(eb) = else_branch {
                let mut else_scope = clone_scope(scope);
                check_block(eb, &mut else_scope, env, out, ret);
            }
        },
        Stmt::While { body, .. } => {
            let mut inner = clone_scope(scope);
            check_block(body, &mut inner, env, out, ret);
        },
        Stmt::For { init, update, body, .. } => {
            let mut inner = clone_scope(scope);
            if let Some(i) = init {
                check_stmt(i, &mut inner, env, out, ret);
            }
            if let Some(u) = update {
                check_stmt(u, &mut inner, env, out, ret);
            }
            check_block(body, &mut inner, env, out, ret);
        },
        Stmt::ForOf { name, ty, body, .. } => {
            let mut inner = clone_scope(scope);
            if let Some(t) = ty {
                let ghost before = inner@;
                inner.push((name.clone(), clone_type(t)));
                assert(scope_view(inner@) =~= scope_view(before).push((name@, t@)));
            }
            check_block(body, &mut inner, env, out, ret);
        },
        Stmt::Switch { cases, .. } => {
            let ghost total = cases_check(cases@, sv, *env, rv);
            let mut k: usize = 0;
            assert(cases@.skip(0) =~= cases@);
            while k < cases.len()
                invariant
                    k <= cases@.len(),
                    scope_view(scope@) == sv,
                    issues_view(out@) + cases_check(cases@.skip(k as int), sv, *env, rv) == start + total,
                decreases cases@.len() - k,
            {
                proof {
                    assert(decreases_to!(*cases => cases[k as int]));
                    assert(cases@.skip(k as int)[0] == cases@[k as int]);
                    assert(cases@.skip(k as int).drop_first() =~= cases@.skip(k + 1));
                }
                let ghost before = issues_view(out@);
                let mut inner = clone_scope(scope);
                check_block(&cases[k].body, &mut inner, env, out, ret);
                proof {
                    let a = block_check(cases@[k as int].body@, sv, *env, rv).0;
                    let rest = cases_check(cases@.skip(k + 1), sv, *env, rv);
                    assert(issues_view(out@) + rest =~= before + (a + rest));
                }
                k += 1;
            }
            assert(cases@.skip(k as int) =~= Seq::<crate::syntax::ast::SwitchCase>::empty());
            assert(issues_view(out@) + Seq::<(Seq<char>, usize, usize)>::empty() =~= issues_view(out@));
        },
        Stmt::Try { body, catch_name, catch_body } => {
            let mut b = clone_scope(scope);
            check_block(body, &mut b, env, out, ret);
            let mut c = clone_scope(scope);
            if let Some(n) = catch_name {
                let ghost before = c@;
                c.push((n.clone(), Type::string()));
                assert(scope_view(c@) =~= scope_view(before).push((n@, TypeV::Primitive("string"@))));
            }
            check_block(catch_body, &mut c, env, out, ret);
        },
        Stmt::ExportDecl(inner) => check_stmt(inner, scope, env, out, ret),
        Stmt::ExportDefault(ExportDefault::Function(f)) => check_function(f, scope, env, out),
        _ => {
            assert(issues_view(out@) =~= start + Seq::<(Seq<char>, usize, usize)>::empty());
        },
    }
    assert(issues_view(out@) =~= start + stmt_check(*stmt, sv, *env, rv).0);
}

#[verifier::loop_isolation(false)]
fn check_function(f: &Function, outer: &Scope, env: &TypeEnv, out: &mut Vec<TypeMismatchIssue>)
    ensures
        issues_view(final(out)@) == issues_view(old(out)@) + function_check(*f, scope_view(outer@), *env),
    decreases f, 0int,
{
    let mut scope = clone_scope(outer);
    let mut k: usize = 0;
    assert(params_scope(scope_view(outer@), f.params@.take(0)) =~= scope_view(outer@));
    while k < f.params.len()
        invariant
            k <= f.params@.len(),
            scope_view(scope@) == params_scope(scope_view(outer@), f.params@.take(k as int)),
        decreases f.params@.len() - k,
    {
        let ghost before = scope@;
        scope.push((f.params[k].name.clone(), clone_type(&f.params[k].ty)));
        proof {
            assert(scope_view(scope@) =~= scope_view(before).push((f.params@[k as int].name@, f.params@[k as int].ty@)));
            assert(params_scope(scope_view(outer@), f.params@.take(k + 1)) =~= params_scope(
                scope_view(outer@),
                f.params@.take(k as int),
            ).push((f.params@[k as int].name@, f.params@[k as int].ty@)));
        }
        k += 1;
    }
    assert(f.params@.take(f.params@.len() as int) =~= f.params@);
    let ret = if is_void(&f.return_type) {
        None
    } else {
        Some(&f.return_type)
    };
    check_block(&f.body, &mut scope, env, out, ret);
}

/// Every type mismatch of `program`, in order (none for a sound program).
pub fn check_types(program: &Program, env: &TypeEnv) -> (r: Vec<TypeMismatchIssue>)
    ensures
        issues_view(r@) == block_check(program.stmts@, Seq::empty(), *env, None).0,
        program.stmts@.len() == 0 ==> r@.len() == 0,
        forall|i: int|
            0 <= i < program.stmts@.len() && reports_literal_mismatch(#[trigger] program.stmts@[i]) ==> exists|k: int|
                0 <= k < r@.len() && (#[trigger] r@[k]).line == decl_pos(program.stmts@[i]).0 && r@[k].col == decl_pos(
                    program.stmts@[i],
                ).1,
{
    let ss = &program.stmts;
    let ghost goal = block_check(ss@, Seq::empty(), *env, None);
    let mut out: Vec<TypeMismatchIssue> = Vec::new();
    let mut scope: Scope = Vec::new();
    assert(scope_view(scope@) =~= Seq::<(Seq<char>, TypeV)>::empty());
    assert(issues_view(out@) =~= Seq::<(Seq<char>, usize, usize)>::empty());
    let mut i: usize = 0;
    assert(ss@.skip(0) =~= ss@);
    while i < ss.len()
        invariant
            i <= ss@.len(),
            issues_view(out@) + block_check(ss@.skip(i as int), scope_view(scope@), *env, None).0 == goal.0,
            forall|j: int|
                0 <= j < i && reports_literal_mismatch(#[trigger] ss@[j]) ==> exists|k: int|
                    0 <= k < out@.len() && (#[trigger] out@[k]).line == decl_pos(ss@[j]).0 && out@[k].col
                        == decl_pos(ss@[j]).1,
        decreases ss@.len() - i,
    {
        proof {
            assert(ss@.skip(i as int)[0] == ss@[i as int]);
            assert(ss@.skip(i as int).drop_first() =~= ss@.skip(i + 1));
        }
        let ghost before = out@;
        let ghost sv = scope_view(scope@);
        check_stmt(&ss[i], &mut scope, env, &mut out, None);
        proof {
            let a = stmt_check(ss@[i as int], sv, *env, None);
            let b = block_check(ss@.skip(i + 1), a.1, *env, None);
            assert(issues_view(out@) + b.0 =~= issues_view(before) + (a.0 + b.0));
            assert(out@.len() == before.len() + a.0.len());
            assert forall|j: int|
                0 <= j < i + 1 && reports_literal_mismatch(#[trigger] ss@[j]) implies exists|k: int|
                    0 <= k < out@.len() && (#[trigger] out@[k]).line == decl_pos(ss@[j]).0 && out@[k].col
                        == decl_pos(ss@[j]).1 by {
                if j < i {
                    let k = choose|k: int|
                        0 <= k < before.len() && (#[trigger] before[k]).line == decl_pos(ss@[j]).0
                            && before[k].col == decl_pos(ss@[j]).1;
                    assert(issues_view(out@)[k] == issues_view(before)[k]);
                    assert(out@[k].line == before[k].line && out@[k].col == before[k].col);
                } else {
                    lemma_literal_mismatch_issue(ss@[j], sv, *env);
                    let k = before.len() as int;
                    assert(issues_view(out@)[k] == a.0[0]);
                    assert(out@[k].line == decl_pos(ss@[j]).0);
                }
            }
        }
        i += 1;
    }
    assert(ss@.skip(i as int) =~= Seq::<Stmt>::empty());
    assert(issues_view(out@) + Seq::<(Seq<char>, usize, usize)>::empty() =~= issues_view(out@));
    out
}

} // verus!
