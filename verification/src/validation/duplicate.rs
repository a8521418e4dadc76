//! Duplicate declarations. Declarations are recorded in a flat list (for
//! the unused check, which ignores nesting) and in a stack of block scopes:
//! a second declaration of a name is a duplicate only within the same
//! innermost block (and is still recorded in the flat list).
//! `if` / `while` / `for` / `switch` case / `try` bodies
//! each open a block; sibling blocks never see each other's names.

use crate::syntax::ast::{Stmt, SwitchCase};
use crate::text::str_eq;
use crate::validation::issues::{DeclKind, DuplicateDecl, UnusedDecl, ValidationIssue};
use vstd::prelude::*;

verus! {

broadcast use vstd::std_specs::vec::group_vec_axioms;

proof fn lemma_first_named(top: Seq<UnusedDecl>, name: Seq<char>, i: int)
    requires
        0 <= i < top.len(),
        top[i].name@ == name,
        forall|j: int| 0 <= j < i ==> (#[trigger] top[j]).name@ != name,
    ensures
        first_named(top, name) == Some(i),
    decreases top.len(),
{
    if i < top.len() - 1 {
        lemma_first_named(top.drop_last(), name, i);
    } else {
        lemma_first_named_none(top.drop_last(), name);
    }
}

proof fn lemma_first_named_none(top: Seq<UnusedDecl>, name: Seq<char>)
    requires
        forall|j: int| 0 <= j < top.len() ==> (#[trigger] top[j]).name@ != name,
    ensures
        first_named(top, name) is None,
    decreases top.len(),
{
    if top.len() > 0 {
        lemma_first_named_none(top.drop_last(), name);
    }
}

/// The declaration of `name` in one block, if any.
pub(crate) fn find_decl(scope: &Vec<UnusedDecl>, name: &String) -> (r: Option<usize>)
    ensures
        match r {
            Some(i) => i < scope@.len() && scope@[i as int].name@ == name@ && first_named(scope@, name@) == Some(
                i as int,
            ),
            None => forall|i: int| 0 <= i < scope@.len() ==> (#[trigger] scope@[i]).name@ != name@,
        },
        r is None <==> first_named(scope@, name@) is None,
{
    let mut i: usize = 0;
    while i < scope.len()
        invariant
            i <= scope@.len(),
            forall|j: int| 0 <= j < i ==> (#[trigger] scope@[j]).name@ != name@,
        decreases scope@.len() - i,
    {
        if str_eq(scope[i].name.as_str(), name.as_str()) {
            proof {
                lemma_first_named(scope@, name@, i as int);
            }
            return Some(i);
        }
        i += 1;
    }
    proof {
        lemma_first_named_none(scope@, name@);
    }
    None
}

/// The first declaration of `name` in a block, if any.
pub open spec fn first_named(top: Seq<UnusedDecl>, name: Seq<char>) -> Option<int>
    decreases top.len(),
{
    if top.len() == 0 {
        None
    } else {
        match first_named(top.drop_last(), name) {
            Some(k) => Some(k),
            None => if top.last().name@ == name {
                Some(top.len() - 1)
            } else {
                None
            },
        }
    }
}

/// A `let` / `const` of `name` at `(line, col)` in a block whose
/// declarations are `top`: a duplicate of the block's first declaration of
/// the name, or a new declaration. Either way it is recorded for the
/// unused check (so two never-read declarations of a name are each
/// reported unused).
pub open spec fn decl_one(name: String, line: usize, col: usize, top: Seq<UnusedDecl>) -> (
    Seq<UnusedDecl>,
    Seq<UnusedDecl>,
    Seq<ValidationIssue>,
) {
    match first_named(top, name@) {
        Some(k) => (
            seq![UnusedDecl { kind: DeclKind::Variable, name, line, col }],
            top,
            seq![
                ValidationIssue::Duplicate(
                    DuplicateDecl {
                        kind: DeclKind::Variable,
                        name,
                        first_line: top[k].line,
                        first_col: top[k].col,
                        second_line: line,
                        second_col: col,
                    },
                ),
            ],
        ),
        None => {
            let d = UnusedDecl { kind: DeclKind::Variable, name, line, col };
            (seq![d], top.push(d), Seq::empty())
        },
    }
}

/// What declaring the names of `s` does, in a block whose declarations are
/// `top`: the declarations recorded, the block's declarations after, and
/// the duplicates reported. Nested bodies are blocks of their own.
pub open spec fn stmt_decl(s: Stmt, top: Seq<UnusedDecl>) -> (
    Seq<UnusedDecl>,
    Seq<UnusedDecl>,
    Seq<ValidationIssue>,
)
    decreases s,
{
    match s {
        Stmt::Let { name, line, col, .. } => decl_one(name, line, col, top),
        Stmt::Const { name, line, col, .. } => decl_one(name, line, col, top),
        Stmt::If { then_branch, else_branch, .. } => {
            let a = stmts_decl(then_branch@, Seq::empty());
            let b = match else_branch {
                Some(e) => stmts_decl(e@, Seq::empty()),
                None => (Seq::empty(), Seq::empty(), Seq::empty()),
            };
            (a.0 + b.0, top, a.2 + b.2)
        },
        Stmt::While { body, .. } => {
            let a = stmts_decl(body@, Seq::empty());
            (a.0, top, a.2)
        },
        Stmt::For { body, .. } => {
            let a = stmts_decl(body@, Seq::empty());
            (a.0, top, a.2)
        },
        Stmt::Switch { cases, .. } => {
            let a = cases_decl(cases@);
            (a.0, top, a.1)
        },
        Stmt::Try { body, catch_body, .. } => {
            let a = stmts_decl(body@, Seq::empty());
            let b = stmts_decl(catch_body@, Seq::empty());
            (a.0 + b.0, top, a.2 + b.2)
        },
        _ => (Seq::empty(), top, Seq::empty()),
    }
}

/// [`stmt_decl`] over statements in order, the block's declarations
/// threaded through.
pub open spec fn stmts_decl(ss: Seq<Stmt>, top: Seq<UnusedDecl>) -> (
    Seq<UnusedDecl>,
    Seq<UnusedDecl>,
    Seq<ValidationIssue>,
)
    decreases ss,
{
    if ss.len() == 0 {
        (Seq::empty(), top, Seq::empty())
    } else {
        let w = stmts_decl(ss.drop_last(), top);
        let d = stmt_decl(ss.last(), w.1);
        (w.0 + d.0, d.1, w.2 + d.2)
    }
}

/// The `switch` case bodies, each a block of its own.
pub open spec fn cases_decl(cs: Seq<SwitchCase>) -> (Seq<UnusedDecl>, Seq<ValidationIssue>)
    decreases cs,
{
    if cs.len() == 0 {
        (Seq::empty(), Seq::empty())
    } else {
        let w = cases_decl(cs.drop_last());
        let b = stmts_decl(cs.last().body@, Seq::empty());
        (w.0 + b.0, w.1 + b.2)
    }
}

/// What the declaration walk may add: declarations (variables) to the
/// flat list and `Duplicate` issues, never anything else; earlier entries
/// stay; the block stack keeps its depth.
pub open spec fn decl_step(
    out0: Seq<UnusedDecl>,
    out1: Seq<UnusedDecl>,
    scopes0: Seq<Vec<UnusedDecl>>,
    scopes1: Seq<Vec<UnusedDecl>>,
    issues0: Seq<ValidationIssue>,
    issues1: Seq<ValidationIssue>,
) -> bool {
    &&& out1.len() >= out0.len()
    &&& forall|i: int| 0 <= i < out0.len() ==> out1[i] == out0[i]
    &&& forall|i: int| out0.len() <= i < out1.len() ==> (#[trigger] out1[i]).kind == DeclKind::Variable
    &&& issues1.len() >= issues0.len()
    &&& forall|i: int| 0 <= i < issues0.len() ==> issues1[i] == issues0[i]
    &&& forall|i: int| issues0.len() <= i < issues1.len() ==> #[trigger] issues1[i] is Duplicate
    &&& scopes1.len() == scopes0.len()
}

/// Records the declarations of `stmt` (functions are handled by the
/// caller), reporting a second declaration of a name in the innermost
/// block as a duplicate.
#[verifier::loop_isolation(false)]
pub fn collect_decl(
    stmt: &Stmt,
    out: &mut Vec<UnusedDecl>,
    scopes: &mut Vec<Vec<UnusedDecl>>,
    issues: &mut Vec<ValidationIssue>,
)
    requires
        old(scopes)@.len() > 0,
    ensures
        decl_step(old(out)@, final(out)@, old(scopes)@, final(scopes)@, old(issues)@, final(issues)@),
        final(out)@ == old(out)@ + stmt_decl(*stmt, old(scopes)@.last()@).0,
        final(scopes)@.drop_last() == old(scopes)@.drop_last(),
        final(scopes)@.last()@ == stmt_decl(*stmt, old(scopes)@.last()@).1,
        final(issues)@ == old(issues)@ + stmt_decl(*stmt, old(scopes)@.last()@).2,
    decreases stmt,
{
    let ghost top = old(scopes)@.last()@;
    let ghost out0 = out@;
    let ghost issues0 = issues@;
    let ghost scopes0 = scopes@;
    match stmt {
        Stmt::Let { name, line, col, .. } | Stmt::Const { name, line, col, .. } => {
            let top_i = scopes.len() - 1;
            match find_decl(&scopes[top_i], name) {
                Some(k) => {
                    let prev_line = scopes[top_i][k].line;
                    let prev_col = scopes[top_i][k].col;
                    issues.push(
                        ValidationIssue::Duplicate(
                            DuplicateDecl {
                                kind: DeclKind::Variable,
                                name: name.clone(),
                                first_line: prev_line,
                                first_col: prev_col,
                                second_line: *line,
                                second_col: *col,
                            },
                        ),
                    );
                    out.push(UnusedDecl { kind: DeclKind::Variable, name: name.clone(), line: *line, col: *col });
                    proof {
                        assert(out@ =~= out0 + stmt_decl(*stmt, top).0);
                        assert(issues@ =~= issues0 + stmt_decl(*stmt, top).2);
                    }
                },
                None => {
                    let decl = UnusedDecl { kind: DeclKind::Variable, name: name.clone(), line: *line, col: *col };
                    let mut current = scopes.pop().unwrap();
                    current.push(decl.clone());
                    scopes.push(current);
                    out.push(decl);
                    proof {
                        assert(scopes@.drop_last() =~= scopes0.drop_last());
                        assert(out@ =~= out0 + stmt_decl(*stmt, top).0);
                        assert(issues@ =~= issues0 + stmt_decl(*stmt, top).2);
                    }
                },
            }
        },
        Stmt::If { then_branch, else_branch, .. } => {
            collect_decl_block(then_branch, out, scopes, issues);
            if let Some(b) = else_branch {
                collect_decl_block(b, out, scopes, issues);
            }
            proof {
                assert(out@ =~= out0 + stmt_decl(*stmt, top).0);
                assert(issues@ =~= issues0 + stmt_decl(*stmt, top).2);
            }
        },
        Stmt::While { body, .. } => collect_decl_block(body, out, scopes, issues),
        Stmt::For { body, .. } => collect_decl_block(body, out, scopes, issues),
        Stmt::Switch { cases, .. } => {
            let mut i: usize = 0;
            assert(cases@.take(0) =~= Seq::<SwitchCase>::empty());
            assert(out@ =~= out0 + cases_decl(cases@.take(0)).0);
            assert(issues@ =~= issues0 + cases_decl(cases@.take(0)).1);
            while i < cases.len()
                invariant
                    i <= cases@.len(),
                    scopes@ == scopes0,
                    scopes@.len() > 0,
                    decl_step(old(out)@, out@, old(scopes)@, scopes@, old(issues)@, issues@),
                    out@ == out0 + cases_decl(cases@.take(i as int)).0,
                    issues@ == issues0 + cases_decl(cases@.take(i as int)).1,
                decreases cases@.len() - i,
            {
                proof {
                    assert(decreases_to!(*cases => cases[i as int]));
                    assert(cases@.take(i + 1).drop_last() =~= cases@.take(i as int));
                    assert(cases@.take(i + 1).last() == cases@[i as int]);
                }
                collect_decl_block(&cases[i].body, out, scopes, issues);
                proof {
                    assert(out@ =~= out0 + cases_decl(cases@.take(i + 1)).0);
                    assert(issues@ =~= issues0 + cases_decl(cases@.take(i + 1)).1);
                }
                i += 1;
            }
            assert(cases@.take(cases@.len() as int) =~= cases@);
        },
        Stmt::Try { body, catch_body, .. } => {
            collect_decl_block(body, out, scopes, issues);
            collect_decl_block(catch_body, out, scopes, issues);
            proof {
                assert(out@ =~= out0 + stmt_decl(*stmt, top).0);
                assert(issues@ =~= issues0 + stmt_decl(*stmt, top).2);
            }
        },
        _ => {
            proof {
                assert(out@ =~= out0 + stmt_decl(*stmt, top).0);
                assert(issues@ =~= issues0 + stmt_decl(*stmt, top).2);
            }
        },
    }
}

/// Walks `stmts` in a fresh block of their own.
#[verifier::loop_isolation(false)]
fn collect_decl_block(
    stmts: &Vec<Stmt>,
    out: &mut Vec<UnusedDecl>,
    scopes: &mut Vec<Vec<UnusedDecl>>,
    issues: &mut Vec<ValidationIssue>,
)
    requires
        old(scopes)@.len() > 0,
    ensures
        decl_step(old(out)@, final(out)@, old(scopes)@, final(scopes)@, old(issues)@, final(issues)@),
        final(scopes)@ == old(scopes)@,
        final(out)@ == old(out)@ + stmts_decl(stmts@, Seq::empty()).0,
        final(issues)@ == old(issues)@ + stmts_decl(stmts@, Seq::empty()).2,
    decreases stmts,
{
    let ghost out0 = out@;
    let ghost issues0 = issues@;
    scopes.push(Vec::new());
    let ghost pushed = scopes@;
    let mut i: usize = 0;
    assert(stmts@.take(0) =~= Seq::<Stmt>::empty());
    assert(out@ =~= out0 + stmts_decl(stmts@.take(0), Seq::empty()).0);
    assert(issues@ =~= issues0 + stmts_decl(stmts@.take(0), Seq::empty()).2);
    while i < stmts.len()
        invariant
            i <= stmts@.len(),
            scopes@.len() == old(scopes)@.len() + 1,
            pushed.len() == old(scopes)@.len() + 1,
            scopes@.drop_last() == old(scopes)@,
            decl_step(old(out)@, out@, pushed, scopes@, old(issues)@, issues@),
            out@ == out0 + stmts_decl(stmts@.take(i as int), Seq::empty()).0,
            issues@ == issues0 + stmts_decl(stmts@.take(i as int), Seq::empty()).2,
            scopes@.last()@ == stmts_decl(stmts@.take(i as int), Seq::empty()).1,
        decreases stmts@.len() - i,
    {
        proof {
            assert(decreases_to!(*stmts => stmts[i as int]));
            assert(stmts@.take(i + 1).drop_last() =~= stmts@.take(i as int));
            assert(stmts@.take(i + 1).last() == stmts@[i as int]);
        }
        collect_decl(&stmts[i], out, scopes, issues);
        proof {
            assert(out@ =~= out0 + stmts_decl(stmts@.take(i + 1), Seq::empty()).0);
            assert(issues@ =~= issues0 + stmts_decl(stmts@.take(i + 1), Seq::empty()).2);
        }
        i += 1;
    }
    assert(stmts@.take(stmts@.len() as int) =~= stmts@);
    scopes.pop();
}

} // verus!
