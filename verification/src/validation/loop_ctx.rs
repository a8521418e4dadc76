//! `break` / `continue` outside of a loop. Loop bodies (`while`, `for`,
//! `for-of`) allow them; an `if` keeps the surrounding context; a function
//! body starts outside of any loop.

use crate::syntax::ast::Stmt;
use crate::validation::issues::ValidationIssue;
use vstd::prelude::*;

verus! {

broadcast use vstd::std_specs::vec::group_vec_axioms;

/// The keywords of the misplaced `break` / `continue` in `s`, in order;
/// `in_loop` tells whether `s` sits in a loop body.
pub open spec fn loop_misuses(s: Stmt, in_loop: bool) -> Seq<&'static str>
    decreases s,
{
    match s {
        Stmt::Break => if in_loop {
            Seq::empty()
        } else {
            seq!["break"]
        },
        Stmt::Continue => if in_loop {
            Seq::empty()
        } else {
            seq!["continue"]
        },
        Stmt::While { body, .. } => stmts_misuses(body@, true),
        Stmt::For { body, .. } => stmts_misuses(body@, true),
        Stmt::ForOf { body, .. } => stmts_misuses(body@, true),
        Stmt::If { then_branch, else_branch, .. } => stmts_misuses(then_branch@, in_loop) + match else_branch {
            Some(b) => stmts_misuses(b@, in_loop),
            None => Seq::empty(),
        },
        Stmt::Function(f) => stmts_misuses(f.body@, false),
        _ => Seq::empty(),
    }
}

pub open spec fn stmts_misuses(ss: Seq<Stmt>, in_loop: bool) -> Seq<&'static str>
    decreases ss,
{
    if ss.len() == 0 {
        Seq::empty()
    } else {
        stmts_misuses(ss.drop_last(), in_loop) + loop_misuses(ss.last(), in_loop)
    }
}

/// The issue for a misplaced keyword (the tree keeps no position for it).
pub open spec fn misuse_issue(k: &'static str) -> ValidationIssue {
    ValidationIssue::BreakOutsideLoop { keyword: k, line: 0, col: 0 }
}

pub open spec fn misuse_issues(ks: Seq<&'static str>) -> Seq<ValidationIssue> {
    ks.map_values(|k: &'static str| misuse_issue(k))
}

/// Appends an issue for each `break` / `continue` of `stmt` that is not
/// inside a loop.
#[verifier::loop_isolation(false)]
pub fn check_loop_context(stmt: &Stmt, in_loop: bool, issues: &mut Vec<ValidationIssue>)
    ensures
        final(issues)@ == old(issues)@ + misuse_issues(loop_misuses(*stmt, in_loop)),
    decreases stmt,
{
    let ghost start = issues@;
    match stmt {
        Stmt::Break => {
            if !in_loop {
                issues.push(ValidationIssue::BreakOutsideLoop { keyword: "break", line: 0, col: 0 });
            }
        },
        Stmt::Continue => {
            if !in_loop {
                issues.push(ValidationIssue::BreakOutsideLoop { keyword: "continue", line: 0, col: 0 });
            }
        },
        Stmt::While { body, .. } => check_block(body, true, issues),
        Stmt::For { body, .. } => check_block(body, true, issues),
        Stmt::ForOf { body, .. } => check_block(body, true, issues),
        Stmt::If { then_branch, else_branch, .. } => {
            check_block(then_branch, in_loop, issues);
            if let Some(b) = else_branch {
                check_block(b, in_loop, issues);
            }
        },
        Stmt::Function(f) => check_block(&f.body, false, issues),
        _ => {},
    }
    assert(issues@ =~= start + misuse_issues(loop_misuses(*stmt, in_loop)));
}

#[verifier::loop_isolation(false)]
fn check_block(ss: &Vec<Stmt>, in_loop: bool, issues: &mut Vec<ValidationIssue>)
    ensures
        final(issues)@ == old(issues)@ + misuse_issues(stmts_misuses(ss@, in_loop)),
    decreases ss,
{
    let ghost start = issues@;
    let mut i: usize = 0;
    assert(ss@.take(0) =~= Seq::<Stmt>::empty());
    assert(start + misuse_issues(stmts_misuses(ss@.take(0), in_loop)) =~= start);
    while i < ss.len()
        invariant
            i <= ss@.len(),
            issues@ == start + misuse_issues(stmts_misuses(ss@.take(i as int), in_loop)),
        decreases ss@.len() - i,
    {
        proof {
            assert(decreases_to!(*ss => ss[i as int]));
            assert(ss@.take(i + 1).drop_last() =~= ss@.take(i as int));
        }
        let ghost before = issues@;
        check_loop_context(&ss[i], in_loop, issues);
        proof {
            let a = stmts_misuses(ss@.take(i as int), in_loop);
            let b = loop_misuses(ss@[i as int], in_loop);
            assert(misuse_issues(a + b) =~= misuse_issues(a) + misuse_issues(b));
        }
        i += 1;
    }
    assert(ss@.take(ss@.len() as int) =~= ss@);
}

} // verus!
