//! Whole-program validation: the top-level statements form one scope,
//! each function (its parameters and body) another.

use crate::syntax::ast::{Function, Param, Program, Stmt};
use crate::validation::duplicate::{collect_decl, find_decl, first_named, stmt_decl};
use crate::validation::issues::{DeclKind, DuplicateDecl, UnusedDecl, ValidationIssue};
use crate::validation::loop_ctx::{check_loop_context, loop_misuses, misuse_issue, misuse_issues, stmts_misuses};
use crate::validation::unused::{collect_uses, push_unused, stmt_uses, unused_values};
use crate::text::strings_view;
use crate::text::str_eq;
use vstd::prelude::*;

verus! {

broadcast use vstd::std_specs::vec::group_vec_axioms;

/// The keywords of the `BreakOutsideLoop` issues, in order.
pub open spec fn breaks_view(s: Seq<ValidationIssue>) -> Seq<&'static str>
    decreases s.len(),
{
    if s.len() == 0 {
        Seq::empty()
    } else {
        breaks_view(s.drop_last()) + match s.last() {
            ValidationIssue::BreakOutsideLoop { keyword, .. } => seq![keyword],
            _ => Seq::empty(),
        }
    }
}

/// The misplaced `break` / `continue` of the top-level statements other
/// than functions.
pub open spec fn main_misuses(ss: Seq<Stmt>) -> Seq<&'static str>
    decreases ss.len(),
{
    if ss.len() == 0 {
        Seq::empty()
    } else if ss.last() is Function {
        main_misuses(ss.drop_last())
    } else {
        main_misuses(ss.drop_last()) + loop_misuses(ss.last(), false)
    }
}

/// The misplaced `break` / `continue` of the top-level functions' bodies.
pub open spec fn function_misuses(ss: Seq<Stmt>) -> Seq<&'static str>
    decreases ss.len(),
{
    if ss.len() == 0 {
        Seq::empty()
    } else {
        function_misuses(ss.drop_last()) + match ss.last() {
            Stmt::Function(f) => stmts_misuses(f.body@, false),
            _ => Seq::empty(),
        }
    }
}

proof fn lemma_breaks_misuses(a: Seq<ValidationIssue>, ks: Seq<&'static str>)
    ensures
        breaks_view(a + misuse_issues(ks)) == breaks_view(a) + ks,
    decreases ks.len(),
{
    if ks.len() == 0 {
        assert(a + misuse_issues(ks) =~= a);
    } else {
        lemma_breaks_misuses(a, ks.drop_last());
        assert((a + misuse_issues(ks)).drop_last() =~= a + misuse_issues(ks.drop_last()));
        assert((a + misuse_issues(ks)).last() == misuse_issue(ks.last()));
        assert(breaks_view(a) + ks =~= breaks_view(a) + ks.drop_last() + seq![ks.last()]);
    }
}

/// Issues other than `BreakOutsideLoop` appended to `a` leave its keywords.
proof fn lemma_breaks_unchanged(a: Seq<ValidationIssue>, b: Seq<ValidationIssue>)
    requires
        b.len() >= a.len(),
        forall|i: int| 0 <= i < a.len() ==> b[i] == a[i],
        forall|i: int| a.len() <= i < b.len() ==> !(#[trigger] b[i] is BreakOutsideLoop),
    ensures
        breaks_view(b) == breaks_view(a),
    decreases b.len() - a.len(),
{
    if b.len() == a.len() {
        assert(b =~= a);
    } else {
        lemma_breaks_unchanged(a, b.drop_last());
    }
}

/// One scope's walk over `ss` (its block declarations starting as `top`):
/// the declarations recorded, the block's declarations after, the issues
/// (each statement's duplicates, then its misplaced `break` / `continue`)
/// and the names used. `skip_functions`: functions are scopes of their
/// own, left to the caller.
pub open spec fn scope_walk(ss: Seq<Stmt>, top: Seq<UnusedDecl>, skip_functions: bool) -> (
    Seq<UnusedDecl>,
    Seq<UnusedDecl>,
    Seq<ValidationIssue>,
    Seq<Seq<char>>,
)
    decreases ss.len(),
{
    if ss.len() == 0 {
        (Seq::empty(), top, Seq::empty(), Seq::empty())
    } else {
        let w = scope_walk(ss.drop_last(), top, skip_functions);
        let s = ss.last();
        if skip_functions && s is Function {
            w
        } else {
            let d = stmt_decl(s, w.1);
            (w.0 + d.0, d.1, w.2 + d.2 + misuse_issues(loop_misuses(s, false)), w.3 + stmt_uses(s))
        }
    }
}

/// A function's parameters: those declared (the first of each name) and
/// a duplicate issue for each repeated one.
pub open spec fn params_walk(ps: Seq<Param>) -> (Seq<UnusedDecl>, Seq<ValidationIssue>)
    decreases ps.len(),
{
    if ps.len() == 0 {
        (Seq::empty(), Seq::empty())
    } else {
        let w = params_walk(ps.drop_last());
        let p = ps.last();
        match first_named(w.0, p.name@) {
            Some(k) => (
                w.0,
                w.1.push(
                    ValidationIssue::Duplicate(
                        DuplicateDecl {
                            kind: DeclKind::Parameter,
                            name: p.name,
                            first_line: w.0[k].line,
                            first_col: w.0[k].col,
                            second_line: p.line,
                            second_col: p.col,
                        },
                    ),
                ),
            ),
            None => (w.0.push(UnusedDecl { kind: DeclKind::Parameter, name: p.name, line: p.line, col: p.col }), w.1),
        }
    }
}

/// The issues of one function, a scope of its own: its parameters, then
/// its body (its parameters as the body's first declarations), then its
/// unused parameters and declarations.
pub open spec fn function_issues(f: Function) -> Seq<ValidationIssue> {
    let p = params_walk(f.params@);
    let w = scope_walk(f.body@, p.0, false);
    p.1 + w.2 + unused_values(p.0 + w.0, w.3)
}

pub open spec fn functions_issues(ss: Seq<Stmt>) -> Seq<ValidationIssue>
    decreases ss.len(),
{
    if ss.len() == 0 {
        Seq::empty()
    } else {
        functions_issues(ss.drop_last()) + match ss.last() {
            Stmt::Function(f) => function_issues(f),
            _ => Seq::empty(),
        }
    }
}

/// The issues of a program: those of the top-level statements other than
/// functions (one scope), then its unused declarations, then each
/// function's.
pub open spec fn spec_validate(ss: Seq<Stmt>) -> Seq<ValidationIssue> {
    let w = scope_walk(ss, Seq::empty(), true);
    w.2 + unused_values(w.0, w.3) + functions_issues(ss)
}

/// Validates a program: unused declarations, duplicate declarations (a
/// parameter repeated, or a name declared twice in one block) and `break`
/// / `continue` outside of a loop. An empty program has no issues. The
/// misplaced `break` / `continue` are reported in order: those of the
/// top-level statements, then those of each function.
pub fn validate(program: &Program) -> (r: Vec<ValidationIssue>)
    ensures
        r@ == spec_validate(program.stmts@),
        program.stmts@.len() == 0 ==> r@.len() == 0,
        breaks_view(r@) == main_misuses(program.stmts@) + function_misuses(program.stmts@),
{
    let mut issues: Vec<ValidationIssue> = Vec::new();
    let mut main_decl: Vec<UnusedDecl> = Vec::new();
    let mut main_used: Vec<String> = Vec::new();
    let mut main_scopes: Vec<Vec<UnusedDecl>> = Vec::new();
    main_scopes.push(Vec::new());
    let mut i: usize = 0;
    let ghost ss = program.stmts@;
    assert(ss.take(0) =~= Seq::<Stmt>::empty());
    assert(strings_view(main_used@) =~= Seq::empty());
    assert(main_scopes@.last()@ =~= Seq::<UnusedDecl>::empty());
    while i < program.stmts.len()
        invariant
            i <= program.stmts@.len(),
            ss == program.stmts@,
            main_scopes@.len() == 1,
            program.stmts@.len() == 0 ==> issues@.len() == 0 && main_decl@.len() == 0,
            breaks_view(issues@) == main_misuses(ss.take(i as int)),
            main_decl@ == scope_walk(ss.take(i as int), Seq::empty(), true).0,
            main_scopes@.last()@ == scope_walk(ss.take(i as int), Seq::empty(), true).1,
            issues@ == scope_walk(ss.take(i as int), Seq::empty(), true).2,
            strings_view(main_used@) == scope_walk(ss.take(i as int), Seq::empty(), true).3,
        decreases program.stmts@.len() - i,
    {
        proof {
            assert(ss.take(i + 1).drop_last() =~= ss.take(i as int));
            assert(ss.take(i + 1).last() == ss[i as int]);
        }
        let stmt = &program.stmts[i];
        if let Stmt::Function(_) = stmt {
        } else {
            let ghost i0 = issues@;
            collect_decl(stmt, &mut main_decl, &mut main_scopes, &mut issues);
            proof {
                lemma_breaks_unchanged(i0, issues@);
            }
            collect_uses(stmt, &mut main_used);
            let ghost i1 = issues@;
            check_loop_context(stmt, false, &mut issues);
            proof {
                lemma_breaks_misuses(i1, loop_misuses(*stmt, false));
                assert(issues@ =~= scope_walk(ss.take(i + 1), Seq::empty(), true).2);
            }
        }
        i += 1;
    }
    assert(ss.take(ss.len() as int) =~= ss);
    let ghost i2 = issues@;
    push_unused(&main_decl, &main_used, &mut issues);
    proof {
        lemma_breaks_unchanged(i2, issues@);
        assert(ss.take(0) =~= Seq::<Stmt>::empty());
        assert(main_misuses(ss) + function_misuses(ss.take(0)) =~= main_misuses(ss));
    }
    let ghost main_part = issues@;
    assert(main_part + functions_issues(ss.take(0)) =~= main_part);
    let mut i: usize = 0;
    while i < program.stmts.len()
        invariant
            i <= program.stmts@.len(),
            ss == program.stmts@,
            program.stmts@.len() == 0 ==> issues@.len() == 0,
            breaks_view(issues@) == main_misuses(ss) + function_misuses(ss.take(i as int)),
            issues@ == main_part + functions_issues(ss.take(i as int)),
        decreases program.stmts@.len() - i,
    {
        proof {
            assert(ss.take(i + 1).drop_last() =~= ss.take(i as int));
            assert(ss.take(i + 1).last() == ss[i as int]);
        }
        let ghost before_fn = issues@;
        if let Stmt::Function(f) = &program.stmts[i] {
            let mut func_decl: Vec<UnusedDecl> = Vec::new();
            let mut func_used: Vec<String> = Vec::new();
            let mut seen: Vec<UnusedDecl> = Vec::new();
            let mut k: usize = 0;
            let ghost ps = f.params@;
            assert(ps.take(0) =~= Seq::<Param>::empty());
            assert(issues@ =~= before_fn + params_walk(ps.take(0)).1);
            while k < f.params.len()
                invariant
                    k <= f.params@.len(),
                    ps == f.params@,
                    breaks_view(issues@) == breaks_view(before_fn),
                    seen@ == params_walk(ps.take(k as int)).0,
                    func_decl@ == params_walk(ps.take(k as int)).0,
                    issues@ == before_fn + params_walk(ps.take(k as int)).1,
                decreases f.params@.len() - k,
            {
                proof {
                    assert(ps.take(k + 1).drop_last() =~= ps.take(k as int));
                    assert(ps.take(k + 1).last() == ps[k as int]);
                }
                let p = &f.params[k];
                let ghost ip = issues@;
                match find_decl(&seen, &p.name) {
                    Some(x) => {
                        issues.push(
                            ValidationIssue::Duplicate(
                                DuplicateDecl {
                                    kind: DeclKind::Parameter,
                                    name: p.name.clone(),
                                    first_line: seen[x].line,
                                    first_col: seen[x].col,
                                    second_line: p.line,
                                    second_col: p.col,
                                },
                            ),
                        );
                    },
                    None => {
                        let decl = UnusedDecl { kind: DeclKind::Parameter, name: p.name.clone(), line: p.line, col: p.col };
                        seen.push(decl.clone());
                        func_decl.push(decl);
                    },
                }
                proof {
                    lemma_breaks_unchanged(ip, issues@);
                    assert(issues@ =~= before_fn + params_walk(ps.take(k + 1)).1);
                }
                k += 1;
            }
            assert(ps.take(ps.len() as int) =~= ps);
            let ghost pw = params_walk(ps);
            let mut func_scopes: Vec<Vec<UnusedDecl>> = Vec::new();
            func_scopes.push(seen);
            let mut k: usize = 0;
            let ghost body = f.body@;
            assert(body.take(0) =~= Seq::<Stmt>::empty());
            assert(breaks_view(issues@) + stmts_misuses(body.take(0), false) =~= breaks_view(issues@));
            assert(func_decl@ =~= pw.0 + scope_walk(body.take(0), pw.0, false).0);
            assert(issues@ =~= before_fn + pw.1 + scope_walk(body.take(0), pw.0, false).2);
            assert(strings_view(func_used@) =~= scope_walk(body.take(0), pw.0, false).3);
            while k < f.body.len()
                invariant
                    k <= f.body@.len(),
                    func_scopes@.len() == 1,
                    body == f.body@,
                    breaks_view(issues@) == breaks_view(before_fn) + stmts_misuses(body.take(k as int), false),
                    func_decl@ == pw.0 + scope_walk(body.take(k as int), pw.0, false).0,
                    func_scopes@.last()@ == scope_walk(body.take(k as int), pw.0, false).1,
                    issues@ == before_fn + pw.1 + scope_walk(body.take(k as int), pw.0, false).2,
                    strings_view(func_used@) == scope_walk(body.take(k as int), pw.0, false).3,
                decreases f.body@.len() - k,
            {
                proof {
                    assert(body.take(k + 1).drop_last() =~= body.take(k as int));
                    assert(body.take(k + 1).last() == body[k as int]);
                }
                let ghost i0 = issues@;
                collect_decl(&f.body[k], &mut func_decl, &mut func_scopes, &mut issues);
                proof {
                    lemma_breaks_unchanged(i0, issues@);
                }
                collect_uses(&f.body[k], &mut func_used);
                let ghost i1 = issues@;
                check_loop_context(&f.body[k], false, &mut issues);
                proof {
                    lemma_breaks_misuses(i1, loop_misuses(body[k as int], false));
                    assert(func_decl@ =~= pw.0 + scope_walk(body.take(k + 1), pw.0, false).0);
                    assert(issues@ =~= before_fn + pw.1 + scope_walk(body.take(k + 1), pw.0, false).2);
                }
                k += 1;
            }
            assert(body.take(body.len() as int) =~= body);
            let ghost i2 = issues@;
            push_unused(&func_decl, &func_used, &mut issues);
            proof {
                lemma_breaks_unchanged(i2, issues@);
                assert(function_misuses(ss.take(i + 1)) == function_misuses(ss.take(i as int)) + stmts_misuses(
                    f.body@,
                    false,
                ));
                assert(breaks_view(before_fn) == main_misuses(ss) + function_misuses(ss.take(i as int)));
                assert(breaks_view(issues@) == breaks_view(before_fn) + stmts_misuses(f.body@, false));
                assert(breaks_view(issues@) =~= main_misuses(ss) + function_misuses(ss.take(i + 1)));
                assert(issues@ =~= before_fn + function_issues(*f));
                assert(issues@ =~= main_part + functions_issues(ss.take(i + 1)));
            }
        } else {
            proof {
                assert(function_misuses(ss.take(i + 1)) =~= function_misuses(ss.take(i as int)));
                assert(functions_issues(ss.take(i + 1)) =~= functions_issues(ss.take(i as int)));
            }
        }
        i += 1;
    }
    assert(ss.take(ss.len() as int) =~= ss);
    issues
}

} // verus!
