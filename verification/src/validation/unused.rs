//! Unused declarations: every name in a use position (an identifier, the
//! target of an assignment, a path segment) is collected; a declaration
//! whose name never appears is reported.

use crate::syntax::ast::{ArrayElement, ArrowBody, Expr, ObjectField, Stmt, SwitchCase};
use crate::text::{str_eq, strings_view};
use crate::validation::issues::{UnusedDecl, ValidationIssue};
use vstd::prelude::*;

verus! {

broadcast use vstd::std_specs::vec::group_vec_axioms;

/// Names used by a statement, in walk order.
pub open spec fn stmt_uses(s: Stmt) -> Seq<Seq<char>>
    decreases s,
{
    match s {
        Stmt::Let { value, .. } => expr_uses(value),
        Stmt::Const { value, .. } => expr_uses(value),
        Stmt::Assign { name, value, .. } => seq![name@] + expr_uses(value),
        Stmt::AssignIndex { object, index, value, .. } => seq![object@] + expr_uses(index) + expr_uses(value),
        Stmt::AssignMember { object, value, .. } => expr_uses(*object) + expr_uses(value),
        Stmt::Function(f) => stmts_uses(f.body@),
        Stmt::Return(e) => match e {
            Some(x) => expr_uses(x),
            None => Seq::empty(),
        },
        Stmt::If { condition, then_branch, else_branch } => expr_uses(condition) + stmts_uses(then_branch@)
            + match else_branch {
            Some(b) => stmts_uses(b@),
            None => Seq::empty(),
        },
        Stmt::While { condition, body } => expr_uses(condition) + stmts_uses(body@),
        Stmt::For { init, condition, update, body } => (match init {
            Some(i) => stmt_uses(*i),
            None => Seq::empty(),
        }) + (match condition {
            Some(c) => expr_uses(c),
            None => Seq::empty(),
        }) + (match update {
            Some(u) => stmt_uses(*u),
            None => Seq::empty(),
        }) + stmts_uses(body@),
        Stmt::ForOf { iterable, body, .. } => expr_uses(*iterable) + stmts_uses(body@),
        Stmt::Expr(e) => expr_uses(e),
        Stmt::Throw(e) => expr_uses(e),
        Stmt::Switch { discriminant, cases } => expr_uses(discriminant) + cases_uses(cases@),
        Stmt::Try { body, catch_body, .. } => stmts_uses(body@) + stmts_uses(catch_body@),
        _ => Seq::empty(),
    }
}

pub open spec fn stmts_uses(ss: Seq<Stmt>) -> Seq<Seq<char>>
    decreases ss,
{
    if ss.len() == 0 {
        Seq::empty()
    } else {
        stmts_uses(ss.drop_last()) + stmt_uses(ss.last())
    }
}

pub open spec fn cases_uses(cs: Seq<SwitchCase>) -> Seq<Seq<char>>
    decreases cs,
{
    if cs.len() == 0 {
        Seq::empty()
    } else {
        cases_uses(cs.drop_last()) + exprs_uses(cs.last().values@) + stmts_uses(cs.last().body@)
    }
}

/// Names used by an expression, in walk order.
pub open spec fn expr_uses(e: Expr) -> Seq<Seq<char>>
    decreases e,
{
    match e {
        Expr::Ident(name) => seq![name@],
        Expr::Call { callee, args } => expr_uses(*callee) + exprs_uses(args@),
        Expr::Binary { left, right, .. } => expr_uses(*left) + expr_uses(*right),
        Expr::Unary { operand, .. } => expr_uses(*operand),
        Expr::Member { object, .. } => expr_uses(*object),
        Expr::Index { object, index } => expr_uses(*object) + expr_uses(*index),
        Expr::ArrayLiteral { elements } => elements_uses(elements@),
        Expr::ObjectLiteral { fields } => fields_uses(fields@),
        Expr::Path { segments } => strings_view(segments@),
        Expr::TypeOf(inner) => expr_uses(*inner),
        Expr::AsConst(inner) => expr_uses(*inner),
        Expr::NonNullAssertion(inner) => expr_uses(*inner),
        Expr::AsAssertion { expr, .. } => expr_uses(*expr),
        Expr::Arrow { body, .. } => match body {
            ArrowBody::Expr(b) => expr_uses(*b),
            ArrowBody::Block(ss) => stmts_uses(ss@),
        },
        _ => Seq::empty(),
    }
}

pub open spec fn exprs_uses(es: Seq<Expr>) -> Seq<Seq<char>>
    decreases es,
{
    if es.len() == 0 {
        Seq::empty()
    } else {
        exprs_uses(es.drop_last()) + expr_uses(es.last())
    }
}

pub open spec fn elements_uses(es: Seq<ArrayElement>) -> Seq<Seq<char>>
    decreases es,
{
    if es.len() == 0 {
        Seq::empty()
    } else {
        elements_uses(es.drop_last()) + (match es.last() {
            ArrayElement::Item(e) => expr_uses(e),
            ArrayElement::Spread(e) => expr_uses(e),
        })
    }
}

pub open spec fn fields_uses(fs: Seq<ObjectField>) -> Seq<Seq<char>>
    decreases fs,
{
    if fs.len() == 0 {
        Seq::empty()
    } else {
        fields_uses(fs.drop_last()) + (match fs.last() {
            ObjectField::KV(_, e) => expr_uses(e),
            ObjectField::Spread(e) => expr_uses(e),
        })
    }
}

fn push_name(used: &mut Vec<String>, name: &String)
    ensures
        strings_view(final(used)@) == strings_view(old(used)@).push(name@),
{
    used.push(name.clone());
    assert(strings_view(used@) =~= strings_view(old(used)@).push(name@));
}

/// Adds the names `stmt` uses to `used`.
#[verifier::loop_isolation(false)]
pub fn collect_uses(stmt: &Stmt, used: &mut Vec<String>)
    ensures
        strings_view(final(used)@) == strings_view(old(used)@) + stmt_uses(*stmt),
    decreases stmt,
{
    let ghost start = strings_view(used@);
    match stmt {
        Stmt::Let { value, .. } | Stmt::Const { value, .. } => collect_uses_expr(value, used),
        Stmt::Assign { name, value, .. } => {
            push_name(used, name);
            collect_uses_expr(value, used);
        },
        Stmt::AssignIndex { object, index, value, .. } => {
            push_name(used, object);
            collect_uses_expr(index, used);
            collect_uses_expr(value, used);
        },
        Stmt::AssignMember { object, value, .. } => {
            collect_uses_expr(object, used);
            collect_uses_expr(value, used);
        },
        Stmt::Function(f) => collect_uses_block(&f.body, used),
        Stmt::Return(e) => {
            if let Some(x) = e {
                collect_uses_expr(x, used);
            }
        },
        Stmt::If { condition, then_branch, else_branch } => {
            collect_uses_expr(condition, used);
            collect_uses_block(then_branch, used);
            if let Some(b) = else_branch {
                collect_uses_block(b, used);
            }
        },
        Stmt::While { condition, body } => {
            collect_uses_expr(condition, used);
            collect_uses_block(body, used);
        },
        Stmt::For { init, condition, update, body } => {
            if let Some(i) = init {
                collect_uses(i, used);
            }
            if let Some(c) = condition {
                collect_uses_expr(c, used);
            }
            if let Some(u) = update {
                collect_uses(u, used);
            }
            collect_uses_block(body, used);
        },
        Stmt::ForOf { iterable, body, .. } => {
            collect_uses_expr(iterable, used);
            collect_uses_block(body, used);
        },
        Stmt::Expr(e) => collect_uses_expr(e, used),
        Stmt::Throw(e) => collect_uses_expr(e, used),
        Stmt::Switch { discriminant, cases } => {
            collect_uses_expr(discriminant, used);
            let mut i: usize = 0;
            let ghost mid = strings_view(used@);
            assert(cases@.take(0) =~= Seq::<SwitchCase>::empty());
            while i < cases.len()
                invariant
                    i <= cases@.len(),
                    strings_view(used@) == mid + cases_uses(cases@.take(i as int)),
                decreases cases@.len() - i,
            {
                proof {
                    assert(decreases_to!(*cases => cases[i as int]));
                    assert(cases@.take(i + 1).drop_last() =~= cases@.take(i as int));
                }
                collect_uses_exprs(&cases[i].values, used);
                collect_uses_block(&cases[i].body, used);
                i += 1;
            }
            assert(cases@.take(cases@.len() as int) =~= cases@);
        },
        Stmt::Try { body, catch_body, .. } => {
            collect_uses_block(body, used);
            collect_uses_block(catch_body, used);
        },
        _ => {},
    }
    assert(strings_view(used@) =~= start + stmt_uses(*stmt));
}

#[verifier::loop_isolation(false)]
fn collect_uses_block(ss: &Vec<Stmt>, used: &mut Vec<String>)
    ensures
        strings_view(final(used)@) == strings_view(old(used)@) + stmts_uses(ss@),
    decreases ss,
{
    let ghost start = strings_view(used@);
    let mut i: usize = 0;
    assert(ss@.take(0) =~= Seq::<Stmt>::empty());
    while i < ss.len()
        invariant
            i <= ss@.len(),
            strings_view(used@) == start + stmts_uses(ss@.take(i as int)),
        decreases ss@.len() - i,
    {
        proof {
            assert(decreases_to!(*ss => ss[i as int]));
            assert(ss@.take(i + 1).drop_last() =~= ss@.take(i as int));
        }
        collect_uses(&ss[i], used);
        i += 1;
    }
    assert(ss@.take(ss@.len() as int) =~= ss@);
}

#[verifier::loop_isolation(false)]
fn collect_uses_exprs(es: &Vec<Expr>, used: &mut Vec<String>)
    ensures
        strings_view(final(used)@) == strings_view(old(used)@) + exprs_uses(es@),
    decreases es,
{
    let ghost start = strings_view(used@);
    let mut i: usize = 0;
    assert(es@.take(0) =~= Seq::<Expr>::empty());
    while i < es.len()
        invariant
            i <= es@.len(),
            strings_view(used@) == start + exprs_uses(es@.take(i as int)),
        decreases es@.len() - i,
    {
        proof {
            assert(decreases_to!(*es => es[i as int]));
            assert(es@.take(i + 1).drop_last() =~= es@.take(i as int));
        }
        collect_uses_expr(&es[i], used);
        i += 1;
    }
    assert(es@.take(es@.len() as int) =~= es@);
}

/// Adds the names `expr` uses to `used`.
#[verifier::loop_isolation(false)]
pub fn collect_uses_expr(expr: &Expr, used: &mut Vec<String>)
    ensures
        strings_view(final(used)@) == strings_view(old(used)@) + expr_uses(*expr),
    decreases expr,
{
    let ghost start = strings_view(used@);
    match expr {
        Expr::Ident(name) => push_name(used, name),
        Expr::Call { callee, args } => {
            collect_uses_expr(callee, used);
            collect_uses_exprs(args, used);
        },
        Expr::Binary { left, right, .. } => {
            collect_uses_expr(left, used);
            collect_uses_expr(right, used);
        },
        Expr::Unary { operand, .. } => collect_uses_expr(operand, used),
        Expr::Member { object, .. } => collect_uses_expr(object, used),
        Expr::Index { object, index } => {
            collect_uses_expr(object, used);
            collect_uses_expr(index, used);
        },
        Expr::ArrayLiteral { elements } => {
            let mut i: usize = 0;
            assert(elements@.take(0) =~= Seq::<ArrayElement>::empty());
            while i < elements.len()
                invariant
                    i <= elements@.len(),
                    strings_view(used@) == start + elements_uses(elements@.take(i as int)),
                decreases elements@.len() - i,
            {
                proof {
                    assert(decreases_to!(*elements => elements[i as int]));
                    assert(elements@.take(i + 1).drop_last() =~= elements@.take(i as int));
                }
                match &elements[i] {
                    ArrayElement::Item(e) => collect_uses_expr(e, used),
                    ArrayElement::Spread(e) => collect_uses_expr(e, used),
                }
                i += 1;
            }
            assert(elements@.take(elements@.len() as int) =~= elements@);
        },
        Expr::ObjectLiteral { fields } => {
            let mut i: usize = 0;
            assert(fields@.take(0) =~= Seq::<ObjectField>::empty());
            while i < fields.len()
                invariant
                    i <= fields@.len(),
                    strings_view(used@) == start + fields_uses(fields@.take(i as int)),
                decreases fields@.len() - i,
            {
                proof {
                    assert(decreases_to!(*fields => fields[i as int]));
                    assert(fields@.take(i + 1).drop_last() =~= fields@.take(i as int));
                }
                match &fields[i] {
                    ObjectField::KV(_, e) => collect_uses_expr(e, used),
                    ObjectField::Spread(e) => collect_uses_expr(e, used),
                }
                i += 1;
            }
            assert(fields@.take(fields@.len() as int) =~= fields@);
        },
        Expr::Path { segments } => {
            let mut i: usize = 0;
            while i < segments.len()
                invariant
                    i <= segments@.len(),
                    strings_view(used@) == start + strings_view(segments@.take(i as int)),
                decreases segments@.len() - i,
            {
                push_name(used, &segments[i]);
                proof {
                    assert(strings_view(segments@.take(i + 1)) =~= strings_view(segments@.take(i as int)).push(
                        segments@[i as int]@,
                    ));
                }
                i += 1;
            }
            assert(segments@.take(segments@.len() as int) =~= segments@);
        },
        Expr::TypeOf(inner) => collect_uses_expr(inner, used),
        Expr::AsConst(inner) => collect_uses_expr(inner, used),
        Expr::NonNullAssertion(inner) => collect_uses_expr(inner, used),
        Expr::AsAssertion { expr: inner, .. } => collect_uses_expr(inner, used),
        Expr::Arrow { body, .. } => match body {
            ArrowBody::Expr(b) => collect_uses_expr(b, used),
            ArrowBody::Block(ss) => collect_uses_block(ss, used),
        },
        _ => {},
    }
    assert(strings_view(used@) =~= start + expr_uses(*expr));
}

/// The `Unused` issues for the declarations whose names are not among
/// `used`, in declaration order.
pub open spec fn unused_issues(declared: Seq<UnusedDecl>, used: Seq<Seq<char>>) -> Seq<(Seq<char>, usize, usize)>
    decreases declared.len(),
{
    if declared.len() == 0 {
        Seq::empty()
    } else {
        let d = declared.last();
        unused_issues(declared.drop_last(), used) + if used.contains(d.name@) {
            Seq::empty()
        } else {
            seq![(d.name@, d.line, d.col)]
        }
    }
}

/// The `Unused` issues for the declarations whose names are not among
/// `used`, in declaration order.
pub open spec fn unused_values(declared: Seq<UnusedDecl>, used: Seq<Seq<char>>) -> Seq<ValidationIssue>
    decreases declared.len(),
{
    if declared.len() == 0 {
        Seq::empty()
    } else {
        let d = declared.last();
        unused_values(declared.drop_last(), used) + if used.contains(d.name@) {
            Seq::empty()
        } else {
            seq![ValidationIssue::Unused(d)]
        }
    }
}

/// Name and position of each `Unused` issue.
pub open spec fn unused_view(s: Seq<ValidationIssue>) -> Seq<(Seq<char>, usize, usize)>
    decreases s.len(),
{
    if s.len() == 0 {
        Seq::empty()
    } else {
        unused_view(s.drop_last()) + match s.last() {
            ValidationIssue::Unused(u) => seq![(u.name@, u.line, u.col)],
            _ => Seq::empty(),
        }
    }
}

fn contains_str(v: &Vec<String>, name: &String) -> (r: bool)
    ensures
        r == strings_view(v@).contains(name@),
{
    let mut i: usize = 0;
    while i < v.len()
        invariant
            i <= v@.len(),
            forall|j: int| 0 <= j < i ==> (#[trigger] v@[j])@ != name@,
        decreases v@.len() - i,
    {
        if str_eq(v[i].as_str(), name.as_str()) {
            assert(strings_view(v@)[i as int] == name@);
            return true;
        }
        i += 1;
    }
    assert forall|j: int| 0 <= j < strings_view(v@).len() implies strings_view(v@)[j] != name@ by {
        assert(strings_view(v@)[j] == v@[j]@);
    }
    false
}

/// Reports (as `Unused`, appended to `issues`) every declaration whose
/// name `used` does not hold.
pub fn push_unused(declared: &Vec<UnusedDecl>, used: &Vec<String>, issues: &mut Vec<ValidationIssue>)
    ensures
        final(issues)@ == old(issues)@ + unused_values(declared@, strings_view(used@)),
        unused_view(final(issues)@) == unused_view(old(issues)@) + unused_issues(declared@, strings_view(used@)),
        forall|i: int| 0 <= i < old(issues)@.len() ==> final(issues)@[i] == old(issues)@[i],
        final(issues)@.len() >= old(issues)@.len(),
        forall|i: int|
            old(issues)@.len() <= i < final(issues)@.len() ==> #[trigger] final(issues)@[i] is Unused,
{
    let ghost start = unused_view(issues@);
    let ghost orig = issues@;
    let mut i: usize = 0;
    assert(declared@.take(0) =~= Seq::<UnusedDecl>::empty());
    while i < declared.len()
        invariant
            i <= declared@.len(),
            unused_view(issues@) == start + unused_issues(declared@.take(i as int), strings_view(used@)),
            issues@ == orig + unused_values(declared@.take(i as int), strings_view(used@)),
            issues@.len() >= orig.len(),
            forall|k: int| 0 <= k < orig.len() ==> issues@[k] == orig[k],
            forall|k: int| orig.len() <= k < issues@.len() ==> #[trigger] issues@[k] is Unused,
        decreases declared@.len() - i,
    {
        proof {
            assert(declared@.take(i + 1).drop_last() =~= declared@.take(i as int));
        }
        if !contains_str(used, &declared[i].name) {
            let d = declared[i].clone();
            let ghost before = issues@;
            issues.push(ValidationIssue::Unused(d));
            proof {
                assert(issues@.drop_last() =~= before);
                assert(issues@ =~= orig + unused_values(declared@.take(i + 1), strings_view(used@)));
            }
        } else {
            proof {
                assert(issues@ =~= orig + unused_values(declared@.take(i + 1), strings_view(used@)));
            }
        }
        i += 1;
    }
    assert(declared@.take(declared@.len() as int) =~= declared@);
}

} // verus!
