//! What the generator gathers from a program before writing it: the names
//! assigned after their declaration (they become `let mut`), the declared
//! type of each name, and the object types whose structs it must define.

use crate::compiler::ast::{ExportDefault, Expr, Param, Program, Stmt};
use crate::compiler::emit::pairs_view;
use crate::compiler::types::{clone_type, Type, TypeV};
use crate::text::{str_eq, strings_view};
use vstd::prelude::*;

verus! {

broadcast use vstd::std_specs::vec::group_vec_axioms;

// ---------------------------------------------------------------------
// Reassigned names.

/// `pop`, `unshift` and `push` change the array they are called on.
pub open spec fn is_mutating_method(m: Seq<char>) -> bool {
    m == "pop"@ || m == "unshift"@ || m == "push"@
}

/// The variable at the root of an assignment target (`a` in `a[i].x`).
pub open spec fn root_name(e: Expr) -> Seq<Seq<char>>
    decreases e,
{
    match e {
        Expr::Ident(n) => seq![n@],
        Expr::Index { object, .. } => root_name(*object),
        Expr::Member { object, .. } => root_name(*object),
        _ => Seq::empty(),
    }
}

/// The array that a call of `callee` changes, if it is `name.pop`,
/// `name.unshift` or `name.push`.
pub open spec fn callee_mutation(callee: Expr) -> Seq<Seq<char>> {
    match callee {
        Expr::Member { object, property } => if is_mutating_method(property@) {
            match *object {
                Expr::Ident(n) => seq![n@],
                _ => Seq::empty(),
            }
        } else {
            Seq::empty()
        },
        _ => Seq::empty(),
    }
}

/// The arrays a call expression changes, in walk order (only calls and
/// their arguments are looked into).
pub open spec fn expr_mutations(e: Expr) -> Seq<Seq<char>>
    decreases e, 1int,
{
    match e {
        Expr::Call { callee, args } => callee_mutation(*callee) + exprs_mutations(args@),
        _ => Seq::empty(),
    }
}

pub open spec fn exprs_mutations(es: Seq<Expr>) -> Seq<Seq<char>>
    decreases es, 0int,
{
    if es.len() == 0 {
        Seq::empty()
    } else {
        exprs_mutations(es.drop_last()) + expr_mutations(es.last())
    }
}

/// The names a statement assigns or changes, in walk order.
pub open spec fn stmt_mutations(s: Stmt) -> Seq<Seq<char>>
    decreases s, 1int,
{
    match s {
        Stmt::Assign { name, .. } => seq![name@],
        Stmt::AssignIndex { object, .. } => seq![object@],
        Stmt::AssignMember { object, .. } => root_name(*object),
        Stmt::Function(f) => stmts_mutations(f.body@),
        Stmt::If { then_branch, else_branch, .. } => stmts_mutations(then_branch@) + match else_branch {
            Some(b) => stmts_mutations(b@),
            None => Seq::empty(),
        },
        Stmt::While { body, .. } => stmts_mutations(body@),
        Stmt::For { init, update, body, .. } => (match init {
            Some(i) => stmt_mutations(*i),
            None => Seq::empty(),
        }) + (match update {
            Some(u) => stmt_mutations(*u),
            None => Seq::empty(),
        }) + stmts_mutations(body@),
        Stmt::ForOf { iterable, body, .. } => expr_mutations(*iterable) + stmts_mutations(body@),
        Stmt::ExportDecl(inner) => stmt_mutations(*inner),
        Stmt::ExportDefault(ExportDefault::Function(f)) => stmts_mutations(f.body@),
        Stmt::ExportDefault(ExportDefault::Expr(e)) => expr_mutations(e),
        Stmt::Expr(e) => expr_mutations(e),
        _ => Seq::empty(),
    }
}

pub open spec fn stmts_mutations(ss: Seq<Stmt>) -> Seq<Seq<char>>
    decreases ss, 0int,
{
    if ss.len() == 0 {
        Seq::empty()
    } else {
        stmts_mutations(ss.drop_last()) + stmt_mutations(ss.last())
    }
}

fn push_name(set: &mut Vec<String>, n: &String)
    ensures
        strings_view(final(set)@) == strings_view(old(set)@).push(n@),
{
    set.push(n.clone());
    assert(strings_view(set@) =~= strings_view(old(set)@).push(n@));
}

fn mark_root(e: &Expr, set: &mut Vec<String>)
    ensures
        strings_view(final(set)@) == strings_view(old(set)@) + root_name(*e),
    decreases e,
{
    match e {
        Expr::Ident(n) => push_name(set, n),
        Expr::Index { object, .. } | Expr::Member { object, .. } => mark_root(object, set),
        _ => {},
    }
    assert(strings_view(set@) =~= strings_view(old(set)@) + root_name(*e));
}

#[verifier::loop_isolation(false)]
fn collect_mutation_in_expr(e: &Expr, set: &mut Vec<String>)
    ensures
        strings_view(final(set)@) == strings_view(old(set)@) + expr_mutations(*e),
    decreases e,
{
    let ghost start = strings_view(set@);
    if let Expr::Call { callee, args } = e {
        if let Expr::Member { object, property } = &**callee {
            let p = property.as_str();
            if str_eq(p, "pop") || str_eq(p, "unshift") || str_eq(p, "push") {
                if let Expr::Ident(n) = &**object {
                    push_name(set, n);
                }
            }
        }
        assert(strings_view(set@) =~= start + callee_mutation(**callee));
        let ghost mid = strings_view(set@);
        let mut i: usize = 0;
        assert(args@.take(0) =~= Seq::<Expr>::empty());
        while i < args.len()
            invariant
                i <= args@.len(),
                strings_view(set@) == mid + exprs_mutations(args@.take(i as int)),
            decreases args@.len() - i,
        {
            proof {
                assert(decreases_to!(*args => args[i as int]));
                assert(args@.take(i + 1).drop_last() =~= args@.take(i as int));
            }
            collect_mutation_in_expr(&args[i], set);
            proof {
                assert(strings_view(set@) =~= mid + exprs_mutations(args@.take(i + 1)));
            }
            i += 1;
        }
        assert(args@.take(args@.len() as int) =~= args@);
    }
    assert(strings_view(set@) =~= start + expr_mutations(*e));
}

#[verifier::loop_isolation(false)]
fn collect_in_stmt(s: &Stmt, set: &mut Vec<String>)
    ensures
        strings_view(final(set)@) == strings_view(old(set)@) + stmt_mutations(*s),
    decreases s, 1int,
{
    let ghost start = strings_view(set@);
    match s {
        Stmt::Assign { name, .. } | Stmt::AssignIndex { object: name, .. } => push_name(set, name),
        Stmt::AssignMember { object, .. } => mark_root(object, set),
        Stmt::Function(f) => collect_in_block(&f.body, set),
        Stmt::If { then_branch, else_branch, .. } => {
            collect_in_block(then_branch, set);
            if let Some(b) = else_branch {
                collect_in_block(b, set);
            }
        },
        Stmt::While { body, .. } => collect_in_block(body, set),
        Stmt::For { init, update, body, .. } => {
            if let Some(i) = init {
                collect_in_stmt(i, set);
            }
            if let Some(u) = update {
                collect_in_stmt(u, set);
            }
            collect_in_block(body, set);
        },
        Stmt::ForOf { iterable, body, .. } => {
            collect_mutation_in_expr(iterable, set);
            collect_in_block(body, set);
        },
        Stmt::ExportDecl(inner) => collect_in_stmt(inner, set),
        Stmt::ExportDefault(ExportDefault::Function(f)) => collect_in_block(&f.body, set),
        Stmt::ExportDefault(ExportDefault::Expr(e)) => collect_mutation_in_expr(e, set),
        Stmt::Expr(e) => collect_mutation_in_expr(e, set),
        _ => {},
    }
    assert(strings_view(set@) =~= start + stmt_mutations(*s));
}

#[verifier::loop_isolation(false)]
fn collect_in_block(ss: &Vec<Stmt>, set: &mut Vec<String>)
    ensures
        strings_view(final(set)@) == strings_view(old(set)@) + stmts_mutations(ss@),
    decreases ss, 0int,
{
    let ghost start = strings_view(set@);
    let mut i: usize = 0;
    assert(ss@.take(0) =~= Seq::<Stmt>::empty());
    while i < ss.len()
        invariant
            i <= ss@.len(),
            strings_view(set@) == start + stmts_mutations(ss@.take(i as int)),
        decreases ss@.len() - i,
    {
        proof {
            assert(decreases_to!(*ss => ss[i as int]));
            assert(ss@.take(i + 1).drop_last() =~= ss@.take(i as int));
        }
        collect_in_stmt(&ss[i], set);
        proof {
            assert(strings_view(set@) =~= start + stmts_mutations(ss@.take(i + 1)));
        }
        i += 1;
    }
    assert(ss@.take(ss@.len() as int) =~= ss@);
}

/// The names the program assigns after declaring them (directly, through
/// an index or a field, or by `pop` / `unshift` / `push` on them), in
/// walk order.
pub fn collect_reassigned(program: &Program) -> (r: Vec<String>)
    ensures
        strings_view(r@) == stmts_mutations(program.stmts@),
{
    let mut set: Vec<String> = Vec::new();
    assert(strings_view(set@) =~= Seq::<Seq<char>>::empty());
    collect_in_block(&program.stmts, &mut set);
    assert(strings_view(set@) =~= stmts_mutations(program.stmts@));
    set
}

// ---------------------------------------------------------------------
// Declared types.

/// A declared type as `.length` needs it: the name, with `[]` for an
/// array.
pub open spec fn typed_name(t: TypeV) -> Seq<char> {
    if t.is_array {
        t.name + "[]"@
    } else {
        t.name
    }
}

pub open spec fn params_types(ps: Seq<Param>) -> Seq<(Seq<char>, Seq<char>)> {
    ps.map_values(|p: Param| (p.name@, typed_name(p.ty@)))
}

/// The `(name, declared type)` pairs of a statement, in walk order: typed
/// `let` / `const` and the parameters of functions (the bodies of `if`,
/// `while` and C-style `for` are looked into, not those of `for ... of`).
pub open spec fn stmt_types(s: Stmt) -> Seq<(Seq<char>, Seq<char>)>
    decreases s, 1int,
{
    match s {
        Stmt::Let { name, ty, .. } => match ty {
            Some(t) => seq![(name@, typed_name(t@))],
            None => Seq::empty(),
        },
        Stmt::Const { name, ty, .. } => match ty {
            Some(t) => seq![(name@, typed_name(t@))],
            None => Seq::empty(),
        },
        Stmt::Function(f) => params_types(f.params@) + stmts_types(f.body@),
        Stmt::If { then_branch, else_branch, .. } => stmts_types(then_branch@) + match else_branch {
            Some(b) => stmts_types(b@),
            None => Seq::empty(),
        },
        Stmt::While { body, .. } => stmts_types(body@),
        Stmt::For { body, .. } => stmts_types(body@),
        Stmt::ExportDecl(inner) => stmt_types(*inner),
        Stmt::ExportDefault(ExportDefault::Function(f)) => params_types(f.params@) + stmts_types(f.body@),
        _ => Seq::empty(),
    }
}

pub open spec fn stmts_types(ss: Seq<Stmt>) -> Seq<(Seq<char>, Seq<char>)>
    decreases ss, 0int,
{
    if ss.len() == 0 {
        Seq::empty()
    } else {
        stmts_types(ss.drop_last()) + stmt_types(ss.last())
    }
}

fn typed_name_of(t: &Type) -> (r: String)
    ensures
        r@ == typed_name(t@),
{
    let mut s = t.name.clone();
    if t.is_array {
        s.append("[]");
    }
    s
}

fn push_pair(map: &mut Vec<(String, String)>, name: &String, t: &Type)
    ensures
        pairs_view(final(map)@) == pairs_view(old(map)@).push((name@, typed_name(t@))),
{
    let tn = typed_name_of(t);
    map.push((name.clone(), tn));
    assert(pairs_view(map@) =~= pairs_view(old(map)@).push((name@, typed_name(t@))));
}

fn push_params(map: &mut Vec<(String, String)>, ps: &Vec<Param>)
    ensures
        pairs_view(final(map)@) == pairs_view(old(map)@) + params_types(ps@),
{
    let ghost start = pairs_view(map@);
    let mut i: usize = 0;
    while i < ps.len()
        invariant
            i <= ps@.len(),
            pairs_view(map@) == start + params_types(ps@.take(i as int)),
        decreases ps@.len() - i,
    {
        push_pair(map, &ps[i].name, &ps[i].ty);
        proof {
            assert(params_types(ps@.take(i + 1)) =~= params_types(ps@.take(i as int)).push(
                (ps@[i as int].name@, typed_name(ps@[i as int].ty@)),
            ));
            assert(pairs_view(map@) =~= start + params_types(ps@.take(i + 1)));
        }
        i += 1;
    }
    assert(ps@.take(ps@.len() as int) =~= ps@);
}

#[verifier::loop_isolation(false)]
fn collect_types_stmt(s: &Stmt, map: &mut Vec<(String, String)>)
    ensures
        pairs_view(final(map)@) == pairs_view(old(map)@) + stmt_types(*s),
    decreases s, 1int,
{
    let ghost start = pairs_view(map@);
    match s {
        Stmt::Let { name, ty, .. } | Stmt::Const { name, ty, .. } => {
            if let Some(t) = ty {
                push_pair(map, name, t);
            }
        },
        Stmt::Function(f) => {
            push_params(map, &f.params);
            collect_types_block(&f.body, map);
        },
        Stmt::If { then_branch, else_branch, .. } => {
            collect_types_block(then_branch, map);
            if let Some(b) = else_branch {
                collect_types_block(b, map);
            }
        },
        Stmt::While { body, .. } | Stmt::For { body, .. } => collect_types_block(body, map),
        Stmt::ExportDecl(inner) => collect_types_stmt(inner, map),
        Stmt::ExportDefault(ExportDefault::Function(f)) => {
            push_params(map, &f.params);
            collect_types_block(&f.body, map);
        },
        _ => {},
    }
    assert(pairs_view(map@) =~= start + stmt_types(*s));
}

#[verifier::loop_isolation(false)]
fn collect_types_block(ss: &Vec<Stmt>, map: &mut Vec<(String, String)>)
    ensures
        pairs_view(final(map)@) == pairs_view(old(map)@) + stmts_types(ss@),
    decreases ss, 0int,
{
    let ghost start = pairs_view(map@);
    let mut i: usize = 0;
    assert(ss@.take(0) =~= Seq::<Stmt>::empty());
    while i < ss.len()
        invariant
            i <= ss@.len(),
            pairs_view(map@) == start + stmts_types(ss@.take(i as int)),
        decreases ss@.len() - i,
    {
        proof {
            assert(decreases_to!(*ss => ss[i as int]));
            assert(ss@.take(i + 1).drop_last() =~= ss@.take(i as int));
        }
        collect_types_stmt(&ss[i], map);
        proof {
            assert(pairs_view(map@) =~= start + stmts_types(ss@.take(i + 1)));
        }
        i += 1;
    }
    assert(ss@.take(ss@.len() as int) =~= ss@);
}

/// The declared type of each typed name of the program, in walk order
/// (so the last pair of a name is its last declaration).
pub fn collect_types(program: &Program) -> (r: Vec<(String, String)>)
    ensures
        pairs_view(r@) == stmts_types(program.stmts@),
{
    let mut map: Vec<(String, String)> = Vec::new();
    assert(pairs_view(map@) =~= Seq::<(Seq<char>, Seq<char>)>::empty());
    collect_types_block(&program.stmts, &mut map);
    assert(pairs_view(map@) =~= stmts_types(program.stmts@));
    map
}

// ---------------------------------------------------------------------
// Object types.

/// The values of a sequence of types.
pub open spec fn types_view(s: Seq<Type>) -> Seq<TypeV> {
    s.map_values(|t: Type| t@)
}

/// The object types among the parameters' types.
pub open spec fn params_object_types(ps: Seq<Param>) -> Seq<TypeV>
    decreases ps.len(),
{
    if ps.len() == 0 {
        Seq::empty()
    } else {
        params_object_types(ps.drop_last()) + if ps.last().ty.fields@.len() > 0 {
            seq![ps.last().ty@]
        } else {
            Seq::empty()
        }
    }
}

/// The object types a statement declares (on a `let` / `const` or a
/// function parameter), in walk order.
pub open spec fn stmt_object_types(s: Stmt) -> Seq<TypeV>
    decreases s, 1int,
{
    match s {
        Stmt::Let { ty, .. } => match ty {
            Some(t) => if t.fields@.len() > 0 {
                seq![t@]
            } else {
                Seq::empty()
            },
            None => Seq::empty(),
        },
        Stmt::Const { ty, .. } => match ty {
            Some(t) => if t.fields@.len() > 0 {
                seq![t@]
            } else {
                Seq::empty()
            },
            None => Seq::empty(),
        },
        Stmt::Function(f) => params_object_types(f.params@) + stmts_object_types(f.body@),
        Stmt::If { then_branch, else_branch, .. } => stmts_object_types(then_branch@) + match else_branch {
            Some(b) => stmts_object_types(b@),
            None => Seq::empty(),
        },
        Stmt::While { body, .. } => stmts_object_types(body@),
        Stmt::For { body, .. } => stmts_object_types(body@),
        Stmt::ForOf { body, .. } => stmts_object_types(body@),
        Stmt::ExportDecl(inner) => stmt_object_types(*inner),
        Stmt::ExportDefault(ExportDefault::Function(f)) => params_object_types(f.params@) + stmts_object_types(
            f.body@,
        ),
        _ => Seq::empty(),
    }
}

pub open spec fn stmts_object_types(ss: Seq<Stmt>) -> Seq<TypeV>
    decreases ss, 0int,
{
    if ss.len() == 0 {
        Seq::empty()
    } else {
        stmts_object_types(ss.drop_last()) + stmt_object_types(ss.last())
    }
}

/// `acc` with `t` added unless a type of the same name is in it.
pub open spec fn add_by_name(acc: Seq<TypeV>, t: TypeV) -> Seq<TypeV> {
    if exists|i: int| 0 <= i < acc.len() && (#[trigger] acc[i]).name == t.name {
        acc
    } else {
        acc.push(t)
    }
}

/// `acc` with the types of `xs` added in order, each name once (the
/// first type of a name wins).
pub open spec fn unique_by_name(acc: Seq<TypeV>, xs: Seq<TypeV>) -> Seq<TypeV>
    decreases xs.len(),
{
    if xs.len() == 0 {
        acc
    } else {
        add_by_name(unique_by_name(acc, xs.drop_last()), xs.last())
    }
}

pub proof fn lemma_unique_by_name_concat(acc: Seq<TypeV>, xs: Seq<TypeV>, ys: Seq<TypeV>)
    ensures
        unique_by_name(unique_by_name(acc, xs), ys) == unique_by_name(acc, xs + ys),
    decreases ys.len(),
{
    if ys.len() == 0 {
        assert(xs + ys =~= xs);
    } else {
        lemma_unique_by_name_concat(acc, xs, ys.drop_last());
        assert((xs + ys).drop_last() =~= xs + ys.drop_last());
        assert((xs + ys).last() == ys.last());
    }
}

/// Adds `t` unless a type of the same name is already there.
fn add_object_type(out: &mut Vec<Type>, t: &Type)
    ensures
        types_view(final(out)@) == add_by_name(types_view(old(out)@), t@),
{
    let mut i: usize = 0;
    while i < out.len()
        invariant
            i <= out@.len(),
            out@ == old(out)@,
            forall|j: int| 0 <= j < i ==> (#[trigger] out@[j]).name@ != t.name@,
        decreases out@.len() - i,
    {
        if str_eq(out[i].name.as_str(), t.name.as_str()) {
            assert(types_view(out@)[i as int].name == t@.name);
            return;
        }
        i += 1;
    }
    let ghost before = types_view(out@);
    assert(!exists|j: int| 0 <= j < before.len() && (#[trigger] before[j]).name == t@.name) by {
        assert forall|j: int| 0 <= j < before.len() implies (#[trigger] before[j]).name != t@.name by {
            assert(before[j] == out@[j]@);
        }
    }
    let c = clone_type(t);
    out.push(c);
    assert(types_view(out@) =~= before.push(t@));
}

fn add_param_types(out: &mut Vec<Type>, ps: &Vec<Param>)
    ensures
        types_view(final(out)@) == unique_by_name(types_view(old(out)@), params_object_types(ps@)),
{
    let ghost start = types_view(out@);
    let mut i: usize = 0;
    assert(ps@.take(0) =~= Seq::<Param>::empty());
    while i < ps.len()
        invariant
            i <= ps@.len(),
            types_view(out@) == unique_by_name(start, params_object_types(ps@.take(i as int))),
        decreases ps@.len() - i,
    {
        proof {
            assert(ps@.take(i + 1).drop_last() =~= ps@.take(i as int));
        }
        let ghost before = params_object_types(ps@.take(i as int));
        if ps[i].ty.fields.len() > 0 {
            add_object_type(out, &ps[i].ty);
            proof {
                assert(params_object_types(ps@.take(i + 1)) =~= before.push(ps@[i as int].ty@));
                assert(before.push(ps@[i as int].ty@).drop_last() =~= before);
            }
        } else {
            assert(params_object_types(ps@.take(i + 1)) =~= before);
        }
        i += 1;
    }
    assert(ps@.take(ps@.len() as int) =~= ps@);
}

#[verifier::loop_isolation(false)]
fn collect_object_types_stmt(s: &Stmt, out: &mut Vec<Type>)
    ensures
        types_view(final(out)@) == unique_by_name(types_view(old(out)@), stmt_object_types(*s)),
    decreases s, 1int,
{
    let ghost start = types_view(out@);
    match s {
        Stmt::Let { ty, .. } | Stmt::Const { ty, .. } => {
            assert(unique_by_name(start, Seq::<TypeV>::empty()) == start);
            if let Some(t) = ty {
                if t.fields.len() > 0 {
                    add_object_type(out, t);
                    assert(seq![t@].drop_last() =~= Seq::<TypeV>::empty());
                    assert(unique_by_name(start, seq![t@]) == add_by_name(start, t@));
                }
            }
        },
        Stmt::Function(f) => {
            add_param_types(out, &f.params);
            collect_object_types_block(&f.body, out);
            proof {
                lemma_unique_by_name_concat(start, params_object_types(f.params@), stmts_object_types(f.body@));
            }
        },
        Stmt::If { then_branch, else_branch, .. } => {
            collect_object_types_block(then_branch, out);
            if let Some(b) = else_branch {
                collect_object_types_block(b, out);
                proof {
                    lemma_unique_by_name_concat(start, stmts_object_types(then_branch@), stmts_object_types(b@));
                }
            } else {
                assert(stmts_object_types(then_branch@) + Seq::<TypeV>::empty() =~= stmts_object_types(
                    then_branch@,
                ));
            }
        },
        Stmt::While { body, .. } | Stmt::For { body, .. } | Stmt::ForOf { body, .. } => collect_object_types_block(
            body,
            out,
        ),
        Stmt::ExportDecl(inner) => collect_object_types_stmt(inner, out),
        Stmt::ExportDefault(ExportDefault::Function(f)) => {
            add_param_types(out, &f.params);
            collect_object_types_block(&f.body, out);
            proof {
                lemma_unique_by_name_concat(start, params_object_types(f.params@), stmts_object_types(f.body@));
            }
        },
        _ => {
            assert(unique_by_name(start, Seq::<TypeV>::empty()) == start);
        },
    }
}

#[verifier::loop_isolation(false)]
fn collect_object_types_block(ss: &Vec<Stmt>, out: &mut Vec<Type>)
    ensures
        types_view(final(out)@) == unique_by_name(types_view(old(out)@), stmts_object_types(ss@)),
    decreases ss, 0int,
{
    let ghost start = types_view(out@);
    let mut i: usize = 0;
    assert(ss@.take(0) =~= Seq::<Stmt>::empty());
    while i < ss.len()
        invariant
            i <= ss@.len(),
            types_view(out@) == unique_by_name(start, stmts_object_types(ss@.take(i as int))),
        decreases ss@.len() - i,
    {
        proof {
            assert(decreases_to!(*ss => ss[i as int]));
            assert(ss@.take(i + 1).drop_last() =~= ss@.take(i as int));
            lemma_unique_by_name_concat(start, stmts_object_types(ss@.take(i as int)), stmt_object_types(ss@[i as int]));
        }
        collect_object_types_stmt(&ss[i], out);
        i += 1;
    }
    assert(ss@.take(ss@.len() as int) =~= ss@);
}

/// Adds the object types of a block of statements to `out`, each name
/// once.
pub fn add_object_types(ss: &Vec<Stmt>, out: &mut Vec<Type>)
    ensures
        types_view(final(out)@) == unique_by_name(types_view(old(out)@), stmts_object_types(ss@)),
{
    collect_object_types_block(ss, out);
}

} // verus!
