//! The compiler's semantic checks, scope by scope: the top level is one
//! scope and each function (its parameters and body) another. A
//! declaration is unused when nothing in its scope names it (an
//! identifier, an assignment target, a path segment); a second
//! declaration of a name in the same scope is a duplicate; `break` and
//! `continue` must stand inside a loop. `if`, `while` and `for` bodies
//! share their scope's declarations.
//!
//! The names a scope has seen are kept in declaration order; the first
//! declaration of a name is the one a duplicate is reported against.

use crate::compiler::ast::{Expr, Function, Param, Program, Stmt};
use crate::text::{nat_digits, str_eq, strings_view, usize_decimal};
use vstd::prelude::*;

verus! {

broadcast use vstd::std_specs::vec::group_vec_axioms;

#[derive(Debug, Clone, Copy, PartialEq, Eq, Structural)]
pub enum DeclKind {
    Variable,
    Parameter,
}

/// A declaration: what it declares, its name and where.
#[derive(Debug)]
pub struct UnusedDecl {
    pub kind: DeclKind,
    pub name: String,
    pub line: usize,
    pub col: usize,
}

/// A name declared twice in one scope: where first, and where again.
#[derive(Debug)]
pub struct DuplicateDecl {
    pub kind: DeclKind,
    pub name: String,
    pub first_line: usize,
    pub first_col: usize,
    pub second_line: usize,
    pub second_col: usize,
}

#[derive(Debug)]
pub enum ValidationIssue {
    Unused(UnusedDecl),
    Duplicate(DuplicateDecl),
    BreakOutsideLoop { keyword: &'static str, line: usize, col: usize },
}

/// A declaration as a value: kind, name, line, column.
pub type DeclV = (DeclKind, Seq<char>, usize, usize);

/// An issue as a value.
pub enum IssueV {
    Unused(DeclV),
    Duplicate(DeclKind, Seq<char>, usize, usize, usize, usize),
    Outside(Seq<char>, usize, usize),
}

pub open spec fn decl_v(d: UnusedDecl) -> DeclV {
    (d.kind, d.name@, d.line, d.col)
}

pub open spec fn decls_v(ds: Seq<UnusedDecl>) -> Seq<DeclV> {
    ds.map_values(|d: UnusedDecl| decl_v(d))
}

pub open spec fn issue_v(i: ValidationIssue) -> IssueV {
    match i {
        ValidationIssue::Unused(d) => IssueV::Unused(decl_v(d)),
        ValidationIssue::Duplicate(d) => IssueV::Duplicate(
            d.kind,
            d.name@,
            d.first_line,
            d.first_col,
            d.second_line,
            d.second_col,
        ),
        ValidationIssue::BreakOutsideLoop { keyword, line, col } => IssueV::Outside(keyword@, line, col),
    }
}

pub open spec fn issues_v(is: Seq<ValidationIssue>) -> Seq<IssueV> {
    is.map_values(|i: ValidationIssue| issue_v(i))
}

// ---------------------------------------------------------------------
// Uses.

/// The names an expression uses, in walk order: identifiers and the
/// segments of a path.
pub open spec fn uses_expr(e: Expr) -> Seq<Seq<char>>
    decreases e, 1int,
{
    match e {
        Expr::Ident(n) => seq![n@],
        Expr::Call { callee, args } => uses_expr(*callee) + uses_exprs(args@),
        Expr::Binary { left, right, .. } => uses_expr(*left) + uses_expr(*right),
        Expr::Unary { operand, .. } => uses_expr(*operand),
        Expr::Member { object, .. } => uses_expr(*object),
        Expr::Index { object, index } => uses_expr(*object) + uses_expr(*index),
        Expr::ArrayLiteral { elements } => uses_exprs(elements@),
        Expr::ObjectLiteral { fields } => uses_fields(fields@),
        Expr::Path { segments } => strings_view(segments@),
        _ => Seq::empty(),
    }
}

pub open spec fn uses_exprs(es: Seq<Expr>) -> Seq<Seq<char>>
    decreases es, 0int,
{
    if es.len() == 0 {
        Seq::empty()
    } else {
        uses_exprs(es.drop_last()) + uses_expr(es.last())
    }
}

pub open spec fn uses_fields(fs: Seq<(String, Expr)>) -> Seq<Seq<char>>
    decreases fs, 0int,
{
    if fs.len() == 0 {
        Seq::empty()
    } else {
        uses_fields(fs.drop_last()) + uses_expr(fs.last().1)
    }
}

/// The names a statement uses, in walk order: those of its expressions,
/// assignment targets, and nested bodies (a function's body too; nothing
/// under `import` or `export`).
pub open spec fn uses_stmt(s: Stmt) -> Seq<Seq<char>>
    decreases s, 1int,
{
    match s {
        Stmt::Let { value, .. } => uses_expr(value),
        Stmt::Const { value, .. } => uses_expr(value),
        Stmt::Assign { name, value } => seq![name@] + uses_expr(value),
        Stmt::AssignIndex { object, index, value } => seq![object@] + uses_expr(index) + uses_expr(value),
        Stmt::AssignMember { object, value, .. } => uses_expr(*object) + uses_expr(value),
        Stmt::Function(f) => uses_block(f.body@),
        Stmt::Return(Some(e)) => uses_expr(e),
        Stmt::If { condition, then_branch, else_branch } => uses_expr(condition) + uses_block(then_branch@)
            + match else_branch {
            Some(b) => uses_block(b@),
            None => Seq::empty(),
        },
        Stmt::While { condition, body } => uses_expr(condition) + uses_block(body@),
        Stmt::For { init, condition, update, body } => (match init {
            Some(i) => uses_stmt(*i),
            None => Seq::empty(),
        }) + (match condition {
            Some(c) => uses_expr(c),
            None => Seq::empty(),
        }) + (match update {
            Some(u) => uses_stmt(*u),
            None => Seq::empty(),
        }) + uses_block(body@),
        Stmt::ForOf { iterable, body, .. } => uses_expr(*iterable) + uses_block(body@),
        Stmt::Expr(e) => uses_expr(e),
        _ => Seq::empty(),
    }
}

pub open spec fn uses_block(ss: Seq<Stmt>) -> Seq<Seq<char>>
    decreases ss, 0int,
{
    if ss.len() == 0 {
        Seq::empty()
    } else {
        uses_block(ss.drop_last()) + uses_stmt(ss.last())
    }
}

fn push_name(used: &mut Vec<String>, n: &String)
    ensures
        strings_view(final(used)@) == strings_view(old(used)@).push(n@),
{
    used.push(n.clone());
    assert(strings_view(used@) =~= strings_view(old(used)@).push(n@));
}

#[verifier::loop_isolation(false)]
fn collect_uses_expr(e: &Expr, used: &mut Vec<String>)
    ensures
        strings_view(final(used)@) == strings_view(old(used)@) + uses_expr(*e),
    decreases e, 1int,
{
    let ghost start = strings_view(used@);
    match e {
        Expr::Ident(n) => push_name(used, n),
        Expr::Call { callee, args } => {
            collect_uses_expr(callee, used);
            collect_uses_exprs(args, used);
        },
        Expr::Binary { left, right, .. } => {
            collect_uses_expr(left, used);
            collect_uses_expr(right, used);
        },
        Expr::Unary { operand, .. } => collect_uses_expr(operand, used),
        Expr::Member { object, .. } => collect_uses_expr(object, used),
        Expr::Index { object, index } => {
            collect_uses_expr(object, used);
            collect_uses_expr(index, used);
        },
        Expr::ArrayLiteral { elements } => collect_uses_exprs(elements, used),
        Expr::ObjectLiteral { fields } => {
            let ghost mid = strings_view(used@);
            let mut i: usize = 0;
            assert(fields@.take(0) =~= Seq::<(String, Expr)>::empty());
            while i < fields.len()
                invariant
                    i <= fields@.len(),
                    strings_view(used@) == mid + uses_fields(fields@.take(i as int)),
                decreases fields@.len() - i,
            {
                proof {
                    assert(decreases_to!(*fields => fields[i as int]));
                    assert(decreases_to!(fields[i as int] => fields[i as int].1));
                    assert(fields@.take(i + 1).drop_last() =~= fields@.take(i as int));
                }
                collect_uses_expr(&fields[i].1, used);
                proof {
                    assert(strings_view(used@) =~= mid + uses_fields(fields@.take(i + 1)));
                }
                i += 1;
            }
            assert(fields@.take(fields@.len() as int) =~= fields@);
        },
        Expr::Path { segments } => {
            let ghost mid = strings_view(used@);
            let mut i: usize = 0;
            while i < segments.len()
                invariant
                    i <= segments@.len(),
                    strings_view(used@) == mid + strings_view(segments@.take(i as int)),
                decreases segments@.len() - i,
            {
                push_name(used, &segments[i]);
                proof {
                    assert(strings_view(segments@.take(i + 1)) =~= strings_view(segments@.take(i as int)).push(
                        segments@[i as int]@,
                    ));
                    assert(strings_view(used@) =~= mid + strings_view(segments@.take(i + 1)));
                }
                i += 1;
            }
            assert(segments@.take(segments@.len() as int) =~= segments@);
        },
        _ => {},
    }
    assert(strings_view(used@) =~= start + uses_expr(*e));
}

#[verifier::loop_isolation(false)]
fn collect_uses_exprs(es: &Vec<Expr>, used: &mut Vec<String>)
    ensures
        strings_view(final(used)@) == strings_view(old(used)@) + uses_exprs(es@),
    decreases es, 0int,
{
    let ghost start = strings_view(used@);
    let mut i: usize = 0;
    assert(es@.take(0) =~= Seq::<Expr>::empty());
    while i < es.len()
        invariant
            i <= es@.len(),
            strings_view(used@) == start + uses_exprs(es@.take(i as int)),
        decreases es@.len() - i,
    {
        proof {
            assert(decreases_to!(*es => es[i as int]));
            assert(es@.take(i + 1).drop_last() =~= es@.take(i as int));
        }
        collect_uses_expr(&es[i], used);
        proof {
            assert(strings_view(used@) =~= start + uses_exprs(es@.take(i + 1)));
        }
        i += 1;
    }
    assert(es@.take(es@.len() as int) =~= es@);
}

#[verifier::loop_isolation(false)]
fn collect_uses(s: &Stmt, used: &mut Vec<String>)
    ensures
        strings_view(final(used)@) == strings_view(old(used)@) + uses_stmt(*s),
    decreases s, 1int,
{
    let ghost start = strings_view(used@);
    match s {
        Stmt::Let { value, .. } | Stmt::Const { value, .. } => collect_uses_expr(value, used),
        Stmt::Assign { name, value } => {
            push_name(used, name);
            collect_uses_expr(value, used);
        },
        Stmt::AssignIndex { object, index, value } => {
            push_name(used, object);
            collect_uses_expr(index, used);
            collect_uses_expr(value, used);
        },
        Stmt::AssignMember { object, value, .. } => {
            collect_uses_expr(object, used);
            collect_uses_expr(value, used);
        },
        Stmt::Function(f) => collect_uses_block(&f.body, used),
        Stmt::Return(Some(e)) => collect_uses_expr(e, used),
        Stmt::If { condition, then_branch, else_branch } => {
            collect_uses_expr(condition, used);
            collect_uses_block(then_branch, used);
            if let Some(b) = else_branch {
                collect_uses_block(b, used);
            }
        },
        Stmt::While { condition, body } => {
            collect_uses_expr(condition, used);
            collect_uses_block(body, used);
        },
        Stmt::For { init, condition, update, body } => {
            if let Some(i) = init {
                collect_uses(i, used);
            }
            if let Some(c) = condition {
                collect_uses_expr(c, used);
            }
            if let Some(u) = update {
                collect_uses(u, used);
            }
            collect_uses_block(body, used);
        },
        Stmt::ForOf { iterable, body, .. } => {
            collect_uses_expr(iterable, used);
            collect_uses_block(body, used);
        },
        Stmt::Expr(e) => collect_uses_expr(e, used),
        _ => {},
    }
    assert(strings_view(used@) =~= start + uses_stmt(*s));
}

#[verifier::loop_isolation(false)]
fn collect_uses_block(ss: &Vec<Stmt>, used: &mut Vec<String>)
    ensures
        strings_view(final(used)@) == strings_view(old(used)@) + uses_block(ss@),
    decreases ss, 0int,
{
    let ghost start = strings_view(used@);
    let mut i: usize = 0;
    assert(ss@.take(0) =~= Seq::<Stmt>::empty());
    while i < ss.len()
        invariant
            i <= ss@.len(),
            strings_view(used@) == start + uses_block(ss@.take(i as int)),
        decreases ss@.len() - i,
    {
        proof {
            assert(decreases_to!(*ss => ss[i as int]));
            assert(ss@.take(i + 1).drop_last() =~= ss@.take(i as int));
        }
        collect_uses(&ss[i], used);
        proof {
            assert(strings_view(used@) =~= start + uses_block(ss@.take(i + 1)));
        }
        i += 1;
    }
    assert(ss@.take(ss@.len() as int) =~= ss@);
}

// ---------------------------------------------------------------------
// Declarations.

/// The first declaration of `name` among `ds`.
pub open spec fn first_decl(ds: Seq<DeclV>, name: Seq<char>) -> Option<DeclV>
    decreases ds.len(),
{
    if ds.len() == 0 {
        None
    } else if ds[0].1 == name {
        Some(ds[0])
    } else {
        first_decl(ds.drop_first(), name)
    }
}

/// A scope's state after declaration `d`: a new name joins the scope's
/// declarations; a name it has already seen is a duplicate of its first
/// declaration.
pub open spec fn declare(st: (Seq<DeclV>, Seq<IssueV>), d: DeclV) -> (Seq<DeclV>, Seq<IssueV>) {
    match first_decl(st.0, d.1) {
        Some(p) => (st.0, st.1.push(IssueV::Duplicate(d.0, d.1, p.2, p.3, d.2, d.3))),
        None => (st.0.push(d), st.1),
    }
}

/// A scope's state after the declarations of a statement: a `let` or
/// `const`, and those in the bodies of `if`, `while` and `for` (not in a
/// `for ... of`, a function or an export).
pub open spec fn decl_stmt(s: Stmt, st: (Seq<DeclV>, Seq<IssueV>)) -> (Seq<DeclV>, Seq<IssueV>)
    decreases s, 1int,
{
    match s {
        Stmt::Let { name, line, col, .. } => declare(st, (DeclKind::Variable, name@, line, col)),
        Stmt::Const { name, line, col, .. } => declare(st, (DeclKind::Variable, name@, line, col)),
        Stmt::If { then_branch, else_branch, .. } => {
            let t = decl_block(then_branch@, st);
            match else_branch {
                Some(b) => decl_block(b@, t),
                None => t,
            }
        },
        Stmt::While { body, .. } => decl_block(body@, st),
        Stmt::For { body, .. } => decl_block(body@, st),
        _ => st,
    }
}

pub open spec fn decl_block(ss: Seq<Stmt>, st: (Seq<DeclV>, Seq<IssueV>)) -> (Seq<DeclV>, Seq<IssueV>)
    decreases ss, 0int,
{
    if ss.len() == 0 {
        st
    } else {
        decl_stmt(ss.last(), decl_block(ss.drop_last(), st))
    }
}

fn find_decl(ds: &Vec<UnusedDecl>, name: &String) -> (r: Option<usize>)
    ensures
        match first_decl(decls_v(ds@), name@) {
            Some(p) => r matches Some(k) && k < ds@.len() && decl_v(ds@[k as int]) == p,
            None => r is None,
        },
{
    let ghost all = decls_v(ds@);
    let mut i: usize = 0;
    assert(all.skip(0) =~= all);
    while i < ds.len()
        invariant
            i <= ds@.len(),
            all == decls_v(ds@),
            first_decl(all, name@) == first_decl(all.skip(i as int), name@),
        decreases ds@.len() - i,
    {
        proof {
            assert(all.skip(i as int)[0] == decl_v(ds@[i as int]));
            assert(all.skip(i as int).drop_first() =~= all.skip(i + 1));
        }
        if str_eq(ds[i].name.as_str(), name.as_str()) {
            return Some(i);
        }
        i += 1;
    }
    proof {
        assert(all.skip(i as int).len() == 0);
    }
    None
}

fn declare_one(kind: DeclKind, name: &String, line: usize, col: usize, out: &mut Vec<UnusedDecl>, issues: &mut Vec<ValidationIssue>)
    ensures
        (decls_v(final(out)@), issues_v(final(issues)@)) == declare(
            (decls_v(old(out)@), issues_v(old(issues)@)),
            (kind, name@, line, col),
        ),
{
    match find_decl(out, name) {
        Some(k) => {
            let d = DuplicateDecl {
                kind,
                name: name.clone(),
                first_line: out[k].line,
                first_col: out[k].col,
                second_line: line,
                second_col: col,
            };
            issues.push(ValidationIssue::Duplicate(d));
            assert(issues_v(issues@) =~= issues_v(old(issues)@).push(issue_v(issues@.last())));
        },
        None => {
            out.push(UnusedDecl { kind, name: name.clone(), line, col });
            assert(decls_v(out@) =~= decls_v(old(out)@).push(decl_v(out@.last())));
        },
    }
}

#[verifier::loop_isolation(false)]
fn collect_decl(s: &Stmt, out: &mut Vec<UnusedDecl>, issues: &mut Vec<ValidationIssue>)
    ensures
        (decls_v(final(out)@), issues_v(final(issues)@)) == decl_stmt(
            *s,
            (decls_v(old(out)@), issues_v(old(issues)@)),
        ),
    decreases s, 1int,
{
    match s {
        Stmt::Let { name, line, col, .. } | Stmt::Const { name, line, col, .. } => {
            declare_one(DeclKind::Variable, name, *line, *col, out, issues)
        },
        Stmt::If { then_branch, else_branch, .. } => {
            collect_decl_block(then_branch, out, issues);
            if let Some(b) = else_branch {
                collect_decl_block(b, out, issues);
            }
        },
        Stmt::While { body, .. } | Stmt::For { body, .. } => collect_decl_block(body, out, issues),
        _ => {},
    }
}

#[verifier::loop_isolation(false)]
fn collect_decl_block(ss: &Vec<Stmt>, out: &mut Vec<UnusedDecl>, issues: &mut Vec<ValidationIssue>)
    ensures
        (decls_v(final(out)@), issues_v(final(issues)@)) == decl_block(
            ss@,
            (decls_v(old(out)@), issues_v(old(issues)@)),
        ),
    decreases ss, 0int,
{
    let ghost start = (decls_v(out@), issues_v(issues@));
    let mut i: usize = 0;
    assert(ss@.take(0) =~= Seq::<Stmt>::empty());
    while i < ss.len()
        invariant
            i <= ss@.len(),
            (decls_v(out@), issues_v(issues@)) == decl_block(ss@.take(i as int), start),
        decreases ss@.len() - i,
    {
        proof {
            assert(decreases_to!(*ss => ss[i as int]));
            assert(ss@.take(i + 1).drop_last() =~= ss@.take(i as int));
        }
        collect_decl(&ss[i], out, issues);
        i += 1;
    }
    assert(ss@.take(ss@.len() as int) =~= ss@);
}

// ---------------------------------------------------------------------
// `break` and `continue`.

/// The issues of `break` and `continue` outside a loop, in walk order;
/// `in_loop` when the statement stands inside a loop of its function.
/// A function's body starts outside any loop.
pub open spec fn loop_issues(s: Stmt, in_loop: bool) -> Seq<IssueV>
    decreases s, 1int,
{
    match s {
        Stmt::Break => if in_loop {
            Seq::empty()
        } else {
            seq![IssueV::Outside("break"@, 0, 0)]
        },
        Stmt::Continue => if in_loop {
            Seq::empty()
        } else {
            seq![IssueV::Outside("continue"@, 0, 0)]
        },
        Stmt::While { body, .. } => loop_issues_block(body@, true),
        Stmt::For { body, .. } => loop_issues_block(body@, true),
        Stmt::ForOf { body, .. } => loop_issues_block(body@, true),
        Stmt::If { then_branch, else_branch, .. } => loop_issues_block(then_branch@, in_loop) + match else_branch {
            Some(b) => loop_issues_block(b@, in_loop),
            None => Seq::empty(),
        },
        Stmt::Function(f) => loop_issues_block(f.body@, false),
        _ => Seq::empty(),
    }
}

pub open spec fn loop_issues_block(ss: Seq<Stmt>, in_loop: bool) -> Seq<IssueV>
    decreases ss, 0int,
{
    if ss.len() == 0 {
        Seq::empty()
    } else {
        loop_issues_block(ss.drop_last(), in_loop) + loop_issues(ss.last(), in_loop)
    }
}

fn push_outside(keyword: &'static str, issues: &mut Vec<ValidationIssue>)
    ensures
        issues_v(final(issues)@) == issues_v(old(issues)@).push(IssueV::Outside(keyword@, 0, 0)),
{
    issues.push(ValidationIssue::BreakOutsideLoop { keyword, line: 0, col: 0 });
    assert(issues_v(issues@) =~= issues_v(old(issues)@).push(IssueV::Outside(keyword@, 0, 0)));
}

#[verifier::loop_isolation(false)]
fn check_loop_context(s: &Stmt, in_loop: bool, issues: &mut Vec<ValidationIssue>)
    ensures
        issues_v(final(issues)@) == issues_v(old(issues)@) + loop_issues(*s, in_loop),
    decreases s, 1int,
{
    let ghost start = issues_v(issues@);
    match s {
        Stmt::Break => {
            if !in_loop {
                push_outside("break", issues);
            }
        },
        Stmt::Continue => {
            if !in_loop {
                push_outside("continue", issues);
            }
        },
        Stmt::While { body, .. } | Stmt::For { body, .. } | Stmt::ForOf { body, .. } => {
            check_loop_block(body, true, issues)
        },
        Stmt::If { then_branch, else_branch, .. } => {
            check_loop_block(then_branch, in_loop, issues);
            if let Some(b) = else_branch {
                check_loop_block(b, in_loop, issues);
            }
        },
        Stmt::Function(f) => check_loop_block(&f.body, false, issues),
        _ => {},
    }
    assert(issues_v(issues@) =~= start + loop_issues(*s, in_loop));
}

#[verifier::loop_isolation(false)]
fn check_loop_block(ss: &Vec<Stmt>, in_loop: bool, issues: &mut Vec<ValidationIssue>)
    ensures
        issues_v(final(issues)@) == issues_v(old(issues)@) + loop_issues_block(ss@, in_loop),
    decreases ss, 0int,
{
    let ghost start = issues_v(issues@);
    let mut i: usize = 0;
    assert(ss@.take(0) =~= Seq::<Stmt>::empty());
    while i < ss.len()
        invariant
            i <= ss@.len(),
            issues_v(issues@) == start + loop_issues_block(ss@.take(i as int), in_loop),
        decreases ss@.len() - i,
    {
        proof {
            assert(decreases_to!(*ss => ss[i as int]));
            assert(ss@.take(i + 1).drop_last() =~= ss@.take(i as int));
        }
        check_loop_context(&ss[i], in_loop, issues);
        proof {
            assert(issues_v(issues@) =~= start + loop_issues_block(ss@.take(i + 1), in_loop));
        }
        i += 1;
    }
    assert(ss@.take(ss@.len() as int) =~= ss@);
}

// ---------------------------------------------------------------------
// The program.

/// A scope's declarations, issues so far and used names.
pub type ScopeV = (Seq<DeclV>, Seq<IssueV>, Seq<Seq<char>>);

/// A scope after one more statement: its declarations, then its `break`
/// / `continue` issues, and its uses.
pub open spec fn scope_step(st: ScopeV, s: Stmt) -> ScopeV {
    let d = decl_stmt(s, (st.0, st.1));
    (d.0, d.1 + loop_issues(s, false), st.2 + uses_stmt(s))
}

/// The top-level scope after `ss` (functions are scopes of their own).
pub open spec fn top_scope(ss: Seq<Stmt>) -> ScopeV
    decreases ss.len(),
{
    if ss.len() == 0 {
        (Seq::empty(), Seq::empty(), Seq::empty())
    } else if ss.last() is Function {
        top_scope(ss.drop_last())
    } else {
        scope_step(top_scope(ss.drop_last()), ss.last())
    }
}

/// A function's scope after its body statements `ss`, from `st`.
pub open spec fn body_scope(ss: Seq<Stmt>, st: ScopeV) -> ScopeV
    decreases ss.len(),
{
    if ss.len() == 0 {
        st
    } else {
        scope_step(body_scope(ss.drop_last(), st), ss.last())
    }
}

/// A function's scope after its parameters.
pub open spec fn params_scope(ps: Seq<Param>) -> (Seq<DeclV>, Seq<IssueV>)
    decreases ps.len(),
{
    if ps.len() == 0 {
        (Seq::empty(), Seq::empty())
    } else {
        declare(params_scope(ps.drop_last()), (DeclKind::Parameter, ps.last().name@, ps.last().line, ps.last().col))
    }
}

/// The declarations of `ds` that `used` never names, in order.
pub open spec fn unused_issues(ds: Seq<DeclV>, used: Seq<Seq<char>>) -> Seq<IssueV>
    decreases ds.len(),
{
    if ds.len() == 0 {
        Seq::empty()
    } else {
        unused_issues(ds.drop_last(), used) + if used.contains(ds.last().1) {
            Seq::<IssueV>::empty()
        } else {
            seq![IssueV::Unused(ds.last())]
        }
    }
}

/// A function's issues: its scope's, then its unused declarations.
pub open spec fn function_issues(f: Function) -> Seq<IssueV> {
    let p = params_scope(f.params@);
    let b = body_scope(f.body@, (p.0, p.1, Seq::empty()));
    b.1 + unused_issues(b.0, b.2)
}

/// The issues of the top-level functions, in order.
pub open spec fn functions_issues(ss: Seq<Stmt>) -> Seq<IssueV>
    decreases ss.len(),
{
    if ss.len() == 0 {
        Seq::empty()
    } else {
        functions_issues(ss.drop_last()) + match ss.last() {
            Stmt::Function(f) => function_issues(f),
            _ => Seq::empty(),
        }
    }
}

/// A program's issues: the top-level scope's (its unused declarations
/// last), then each function's.
pub open spec fn program_issues(ss: Seq<Stmt>) -> Seq<IssueV> {
    let m = top_scope(ss);
    m.1 + unused_issues(m.0, m.2) + functions_issues(ss)
}

fn step(s: &Stmt, out: &mut Vec<UnusedDecl>, issues: &mut Vec<ValidationIssue>, used: &mut Vec<String>)
    ensures
        (decls_v(final(out)@), issues_v(final(issues)@), strings_view(final(used)@)) == scope_step(
            (decls_v(old(out)@), issues_v(old(issues)@), strings_view(old(used)@)),
            *s,
        ),
{
    collect_decl(s, out, issues);
    collect_uses(s, used);
    check_loop_context(s, false, issues);
}

fn holds(used: &Vec<String>, name: &String) -> (r: bool)
    ensures
        r == strings_view(used@).contains(name@),
{
    let mut i: usize = 0;
    while i < used.len()
        invariant
            i <= used@.len(),
            forall|j: int| 0 <= j < i ==> used@[j]@ != name@,
        decreases used@.len() - i,
    {
        if str_eq(used[i].as_str(), name.as_str()) {
            assert(strings_view(used@)[i as int] == name@);
            return true;
        }
        i += 1;
    }
    proof {
        if strings_view(used@).contains(name@) {
            let k = choose|k: int| 0 <= k < strings_view(used@).len() && strings_view(used@)[k] == name@;
            assert(used@[k]@ == name@);
        }
    }
    false
}

fn push_unused(declared: &Vec<UnusedDecl>, used: &Vec<String>, issues: &mut Vec<ValidationIssue>)
    ensures
        issues_v(final(issues)@) == issues_v(old(issues)@) + unused_issues(decls_v(declared@), strings_view(used@)),
{
    let ghost start = issues_v(issues@);
    let mut i: usize = 0;
    assert(decls_v(declared@).take(0) =~= Seq::<DeclV>::empty());
    while i < declared.len()
        invariant
            i <= declared@.len(),
            issues_v(issues@) == start + unused_issues(decls_v(declared@).take(i as int), strings_view(used@)),
        decreases declared@.len() - i,
    {
        let ghost before = issues_v(issues@);
        proof {
            assert(decls_v(declared@).take(i + 1).drop_last() =~= decls_v(declared@).take(i as int));
            assert(decls_v(declared@).take(i + 1).last() == decl_v(declared@[i as int]));
        }
        if !holds(used, &declared[i].name) {
            let d = &declared[i];
            issues.push(ValidationIssue::Unused(UnusedDecl { kind: d.kind, name: d.name.clone(), line: d.line, col: d.col }));
            assert(issues_v(issues@) =~= before.push(IssueV::Unused(decl_v(declared@[i as int]))));
        }
        proof {
            assert(issues_v(issues@) =~= start + unused_issues(decls_v(declared@).take(i + 1), strings_view(used@)));
        }
        i += 1;
    }
    assert(decls_v(declared@).take(declared@.len() as int) =~= decls_v(declared@));
}

fn function_scope(f: &Function, issues: &mut Vec<ValidationIssue>)
    ensures
        issues_v(final(issues)@) == issues_v(old(issues)@) + function_issues(*f),
{
    let mut decl: Vec<UnusedDecl> = Vec::new();
    let mut own: Vec<ValidationIssue> = Vec::new();
    let mut i: usize = 0;
    assert(decls_v(decl@) =~= Seq::<DeclV>::empty());
    assert(issues_v(own@) =~= Seq::<IssueV>::empty());
    while i < f.params.len()
        invariant
            i <= f.params@.len(),
            (decls_v(decl@), issues_v(own@)) == params_scope(f.params@.take(i as int)),
        decreases f.params@.len() - i,
    {
        proof {
            assert(f.params@.take(i + 1).drop_last() =~= f.params@.take(i as int));
        }
        let p = &f.params[i];
        declare_one(DeclKind::Parameter, &p.name, p.line, p.col, &mut decl, &mut own);
        i += 1;
    }
    assert(f.params@.take(f.params@.len() as int) =~= f.params@);
    let mut used: Vec<String> = Vec::new();
    let ghost p0 = (decls_v(decl@), issues_v(own@), strings_view(used@));
    assert(p0 == (params_scope(f.params@).0, params_scope(f.params@).1, Seq::<Seq<char>>::empty()));
    let mut j: usize = 0;
    while j < f.body.len()
        invariant
            j <= f.body@.len(),
            (decls_v(decl@), issues_v(own@), strings_view(used@)) == body_scope(f.body@.take(j as int), p0),
        decreases f.body@.len() - j,
    {
        proof {
            assert(f.body@.take(j + 1).drop_last() =~= f.body@.take(j as int));
        }
        step(&f.body[j], &mut decl, &mut own, &mut used);
        j += 1;
    }
    assert(f.body@.take(f.body@.len() as int) =~= f.body@);
    push_unused(&decl, &used, &mut own);
    let ghost before = issues_v(issues@);
    let ghost mine = issues_v(own@);
    let mut k: usize = 0;
    while k < own.len()
        invariant
            k <= own@.len(),
            mine == issues_v(own@),
            issues_v(issues@) == before + mine.take(k as int),
        decreases own@.len() - k,
    {
        let it = match &own[k] {
            ValidationIssue::Unused(d) => ValidationIssue::Unused(
                UnusedDecl { kind: d.kind, name: d.name.clone(), line: d.line, col: d.col },
            ),
            ValidationIssue::Duplicate(d) => ValidationIssue::Duplicate(
                DuplicateDecl {
                    kind: d.kind,
                    name: d.name.clone(),
                    first_line: d.first_line,
                    first_col: d.first_col,
                    second_line: d.second_line,
                    second_col: d.second_col,
                },
            ),
            ValidationIssue::BreakOutsideLoop { keyword, line, col } => ValidationIssue::BreakOutsideLoop {
                keyword: *keyword,
                line: *line,
                col: *col,
            },
        };
        assert(issue_v(it) == mine[k as int]);
        let ghost prev = issues@;
        issues.push(it);
        proof {
            assert(issues_v(issues@) =~= issues_v(prev).push(mine[k as int]));
            assert(mine.take(k + 1) =~= mine.take(k as int).push(mine[k as int]));
            assert(issues_v(issues@) =~= before + mine.take(k + 1));
        }
        k += 1;
    }
    assert(mine.take(own@.len() as int) =~= mine);
}

/// The program's issues, exactly [`program_issues`]: per scope, each
/// duplicate and each `break` / `continue` outside a loop as its
/// statement is met, then the scope's unused declarations; the top level
/// first, then each function in order.
pub fn validate(program: &Program) -> (r: Vec<ValidationIssue>)
    ensures
        issues_v(r@) == program_issues(program.stmts@),
{
    let ss = &program.stmts;
    let mut issues: Vec<ValidationIssue> = Vec::new();
    let mut decl: Vec<UnusedDecl> = Vec::new();
    let mut used: Vec<String> = Vec::new();
    let mut i: usize = 0;
    assert(decls_v(decl@) =~= Seq::<DeclV>::empty());
    assert(issues_v(issues@) =~= Seq::<IssueV>::empty());
    assert(strings_view(used@) =~= Seq::<Seq<char>>::empty());
    while i < ss.len()
        invariant
            i <= ss@.len(),
            (decls_v(decl@), issues_v(issues@), strings_view(used@)) == top_scope(ss@.take(i as int)),
        decreases ss@.len() - i,
    {
        proof {
            assert(ss@.take(i + 1).drop_last() =~= ss@.take(i as int));
        }
        if !matches!(ss[i], Stmt::Function(_)) {
            step(&ss[i], &mut decl, &mut issues, &mut used);
        }
        i += 1;
    }
    assert(ss@.take(ss@.len() as int) =~= ss@);
    push_unused(&decl, &used, &mut issues);
    let ghost top = issues_v(issues@);
    let mut j: usize = 0;
    assert(functions_issues(ss@.take(0)) =~= Seq::<IssueV>::empty());
    assert(top + functions_issues(ss@.take(0)) =~= top);
    while j < ss.len()
        invariant
            j <= ss@.len(),
            issues_v(issues@) == top + functions_issues(ss@.take(j as int)),
        decreases ss@.len() - j,
    {
        proof {
            assert(ss@.take(j + 1).drop_last() =~= ss@.take(j as int));
        }
        if let Stmt::Function(f) = &ss[j] {
            function_scope(f, &mut issues);
        }
        proof {
            assert(issues_v(issues@) =~= top + functions_issues(ss@.take(j + 1)));
        }
        j += 1;
    }
    assert(ss@.take(ss@.len() as int) =~= ss@);
    issues
}

// ---------------------------------------------------------------------
// The report.

pub open spec fn kind_label(k: DeclKind) -> Seq<char> {
    match k {
        DeclKind::Variable => "variable"@,
        DeclKind::Parameter => "parámetro"@,
    }
}

impl DeclKind {
    /// `variable` or `parámetro`.
    pub fn label(&self) -> (r: &'static str)
        ensures
            r@ == kind_label(*self),
    {
        match self {
            DeclKind::Variable => "variable",
            DeclKind::Parameter => "parámetro",
        }
    }
}

/// `path:line:col`
pub open spec fn place(path: Seq<char>, line: usize, col: usize) -> Seq<char> {
    path + ":"@ + nat_digits(line as nat) + ":"@ + nat_digits(col as nat)
}

/// The lines that report one issue of the file at `path`.
pub open spec fn issue_text(i: IssueV, path: Seq<char>) -> Seq<char> {
    match i {
        IssueV::Unused(d) => "error: "@ + kind_label(d.0) + " `"@ + d.1 + "` declarado pero no usado\n --> "@ + place(
            path,
            d.2,
            d.3,
        ) + "\n"@,
        IssueV::Duplicate(k, n, fl, fc, sl, sc) => "error: "@ + kind_label(k) + " `"@ + n + "` ya fue declarado en "@
            + place(path, fl, fc) + "\n --> "@ + place(path, sl, sc) + "\n"@,
        IssueV::Outside(kw, _, _) => "error: `"@ + kw + "` usado fuera de un loop (while/for)\n"@,
    }
}

pub open spec fn issues_text(is: Seq<IssueV>, path: Seq<char>) -> Seq<char>
    decreases is.len(),
{
    if is.len() == 0 {
        Seq::empty()
    } else {
        issues_text(is.drop_last(), path) + issue_text(is.last(), path)
    }
}

/// How many issues of each class: unused, duplicate, outside a loop.
pub open spec fn issue_counts(is: Seq<IssueV>) -> (nat, nat, nat)
    decreases is.len(),
{
    if is.len() == 0 {
        (0, 0, 0)
    } else {
        let c = issue_counts(is.drop_last());
        match is.last() {
            IssueV::Unused(_) => ((c.0 + 1) as nat, c.1, c.2),
            IssueV::Duplicate(..) => (c.0, (c.1 + 1) as nat, c.2),
            IssueV::Outside(..) => (c.0, c.1, (c.2 + 1) as nat),
        }
    }
}

/// The closing summary: a blank line, then the count of each class
/// present.
pub open spec fn summary_text(c: (nat, nat, nat)) -> Seq<char> {
    "\n"@ + (if c.0 > 0 {
        nat_digits(c.0) + " declaración(es) sin uso.\n"@
    } else {
        Seq::empty()
    }) + (if c.1 > 0 {
        nat_digits(c.1) + " declaración(es) duplicada(s).\n"@
    } else {
        Seq::empty()
    }) + (if c.2 > 0 {
        nat_digits(c.2) + " uso(s) de break/continue fuera de loop.\n"@
    } else {
        Seq::empty()
    })
}

/// The report of `is` for the file at `path`: each issue, then the
/// summary when there is any.
pub open spec fn report_text(is: Seq<IssueV>, path: Seq<char>) -> Seq<char> {
    issues_text(is, path) + if is.len() > 0 {
        summary_text(issue_counts(is))
    } else {
        Seq::empty()
    }
}

fn append_place(out: &mut String, path: &str, line: usize, col: usize)
    ensures
        final(out)@ == old(out)@ + place(path@, line, col),
{
    out.append(path);
    out.append(":");
    out.append(usize_decimal(line).as_str());
    out.append(":");
    out.append(usize_decimal(col).as_str());
}

fn append_issue(out: &mut String, i: &ValidationIssue, path: &str)
    ensures
        final(out)@ == old(out)@ + issue_text(issue_v(*i), path@),
{
    match i {
        ValidationIssue::Unused(u) => {
            out.append("error: ");
            out.append(u.kind.label());
            out.append(" `");
            out.append(u.name.as_str());
            out.append("` declarado pero no usado\n --> ");
            append_place(out, path, u.line, u.col);
            out.append("\n");
        },
        ValidationIssue::Duplicate(d) => {
            out.append("error: ");
            out.append(d.kind.label());
            out.append(" `");
            out.append(d.name.as_str());
            out.append("` ya fue declarado en ");
            append_place(out, path, d.first_line, d.first_col);
            out.append("\n --> ");
            append_place(out, path, d.second_line, d.second_col);
            out.append("\n");
        },
        ValidationIssue::BreakOutsideLoop { keyword, .. } => {
            out.append("error: `");
            out.append(keyword);
            out.append("` usado fuera de un loop (while/for)\n");
        },
    }
}

/// The report of `issues` for the file at `source_path`, exactly
/// [`report_text`].
pub fn format_issues(issues: &Vec<ValidationIssue>, source_path: &str) -> (r: String)
    ensures
        r@ == report_text(issues_v(issues@), source_path@),
{
    let mut out = String::new();
    let ghost all = issues_v(issues@);
    let mut unused: usize = 0;
    let mut dup: usize = 0;
    let mut outside: usize = 0;
    let mut i: usize = 0;
    assert(all.take(0) =~= Seq::<IssueV>::empty());
    while i < issues.len()
        invariant
            i <= issues@.len(),
            all == issues_v(issues@),
            out@ == issues_text(all.take(i as int), source_path@),
            (unused as nat, dup as nat, outside as nat) == issue_counts(all.take(i as int)),
            unused + dup + outside == i,
        decreases issues@.len() - i,
    {
        proof {
            assert(all.take(i + 1).drop_last() =~= all.take(i as int));
            assert(all.take(i + 1).last() == issue_v(issues@[i as int]));
        }
        append_issue(&mut out, &issues[i], source_path);
        match &issues[i] {
            ValidationIssue::Unused(_) => unused += 1,
            ValidationIssue::Duplicate(_) => dup += 1,
            ValidationIssue::BreakOutsideLoop { .. } => outside += 1,
        }
        i += 1;
    }
    assert(all.take(all.len() as int) =~= all);
    if issues.len() > 0 {
        out.append("\n");
        if unused > 0 {
            out.append(usize_decimal(unused).as_str());
            out.append(" declaración(es) sin uso.\n");
        }
        if dup > 0 {
            out.append(usize_decimal(dup).as_str());
            out.append(" declaración(es) duplicada(s).\n");
        }
        if outside > 0 {
            out.append(usize_decimal(outside).as_str());
            out.append(" uso(s) de break/continue fuera de loop.\n");
        }
    }
    out
}

} // verus!
