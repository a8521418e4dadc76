//! Renaming of shadowed bindings. A declaration in a nested block that
//! reuses the name of a binding visible from an enclosing block gets a
//! fresh name (`x__shadowN`), and the references within its scope follow;
//! afterwards no two bindings visible at once share a name. A second
//! declaration in the same block is left alone (a duplicate for the
//! validator to report).
//!
//! The top-level statements form one scope tree; each function (its
//! parameters and body) another, independent one.
//!
//! `rw_expr`, `rw_stmt` and their companions say what the rewrite gives,
//! over the values of the trees; the executable functions below follow
//! them step by step.

use crate::syntax::ast::{
    clone_type, ArrayElement, ArrowBody, ExportDefault, Expr, Function, ObjectField, Param, Program, Stmt,
    SwitchCase,
};
use crate::syntax::view::{
    cases_v, elements_v, expr_v, exprs_v, fields_v, function_v, lemma_cases_v, lemma_stmts_v, opt_stmts_v, param_v, params_v,
    stmt_v, stmts_v, BodyV, CaseV, DefaultV, ElementV, ExprV, FieldV, FunctionV, ParamV, StmtV,
};
use crate::text::{nat_digits, str_eq, u64_decimal};
use vstd::prelude::*;

verus! {

broadcast use vstd::std_specs::vec::group_vec_axioms;

/// One block: source name to the name its references use.
pub type ScopeMap = Vec<(String, String)>;

/// The value of one block.
pub type BlockV = Seq<(Seq<char>, Seq<char>)>;

/// The value of the stack of blocks, outermost first.
pub type ScopesV = Seq<BlockV>;

/// How many times each name has been renamed (its first entry counts).
pub type CountsV = Seq<(Seq<char>, u32)>;

pub open spec fn block_v(m: ScopeMap) -> BlockV {
    m@.map_values(|p: (String, String)| (p.0@, p.1@))
}

pub open spec fn scopes_v(s: Seq<ScopeMap>) -> ScopesV {
    s.map_values(|m: ScopeMap| block_v(m))
}

pub open spec fn counts_v(c: Seq<(String, u32)>) -> CountsV {
    c.map_values(|p: (String, u32)| (p.0@, p.1))
}

/// The name that `name` maps to in one block (its first entry), if any.
pub open spec fn block_mapping(scope: BlockV, name: Seq<char>) -> Option<Seq<char>>
    decreases scope.len(),
{
    if scope.len() == 0 {
        None
    } else if scope[0].0 == name {
        Some(scope[0].1)
    } else {
        block_mapping(scope.drop_first(), name)
    }
}

/// The mapping of `name` in the innermost block of `scopes` that has one.
pub open spec fn stack_mapping(scopes: ScopesV, name: Seq<char>) -> Option<Seq<char>>
    decreases scopes.len(),
{
    if scopes.len() == 0 {
        None
    } else {
        match block_mapping(scopes.last(), name) {
            Some(m) => Some(m),
            None => stack_mapping(scopes.drop_last(), name),
        }
    }
}

/// What a reference to `name` becomes: its mapping, or itself when no
/// block declares it (a function, a builtin, ...).
pub open spec fn resolved(scopes: ScopesV, name: Seq<char>) -> Seq<char> {
    match stack_mapping(scopes, name) {
        Some(m) => m,
        None => name,
    }
}

/// How many times `name` has been renamed so far (its first entry).
pub open spec fn count_of(counts: CountsV, name: Seq<char>) -> u32
    decreases counts.len(),
{
    if counts.len() == 0 {
        0
    } else if counts[0].0 == name {
        counts[0].1
    } else {
        count_of(counts.drop_first(), name)
    }
}

/// `counts` with the count of `name` set to `n`: its first entry
/// changed, or a new entry at the end.
pub open spec fn bumped(counts: CountsV, name: Seq<char>, n: u32) -> CountsV
    decreases counts.len(),
{
    if counts.len() == 0 {
        seq![(name, n)]
    } else if counts[0].0 == name {
        counts.update(0, (name, n))
    } else {
        seq![counts[0]] + bumped(counts.drop_first(), name, n)
    }
}

/// Whether a block below the innermost one declares `name`.
pub open spec fn shadows_outer(scopes: ScopesV, name: Seq<char>) -> bool {
    exists|i: int| 0 <= i < scopes.len() - 1 && (#[trigger] block_mapping(scopes[i], name)) is Some
}

/// The `n`-th fresh name for a shadowing `name`.
pub open spec fn shadow_name(name: Seq<char>, n: u32) -> Seq<char> {
    name + "__shadow"@ + nat_digits(n as nat)
}

/// Declaring `name` in the innermost block: the blocks, the counts and
/// the name to use afterwards. A second declaration in the same block
/// changes nothing; one that shadows an enclosing block gets the next
/// fresh name; any other keeps its name.
pub open spec fn declared(scopes: ScopesV, counts: CountsV, name: Seq<char>) -> (ScopesV, CountsV, Seq<char>) {
    if block_mapping(scopes.last(), name) is Some {
        (scopes, counts, name)
    } else if shadows_outer(scopes, name) {
        let n = count_of(counts, name).wrapping_add(1);
        let r = shadow_name(name, n);
        (scopes.drop_last().push(scopes.last().push((name, r))), bumped(counts, name, n), r)
    } else {
        (scopes.drop_last().push(scopes.last().push((name, name))), counts, name)
    }
}

/// Declaring parameters one after another.
pub open spec fn declared_params(ps: Seq<ParamV>, scopes: ScopesV, counts: CountsV) -> (
    Seq<ParamV>,
    ScopesV,
    CountsV,
)
    decreases ps.len(),
{
    if ps.len() == 0 {
        (ps, scopes, counts)
    } else {
        let d = declared(scopes, counts, ps[0].name);
        let rest = declared_params(ps.drop_first(), d.0, d.1);
        (seq![ParamV { name: d.2, ty: ps[0].ty, line: ps[0].line, col: ps[0].col }] + rest.0, rest.1, rest.2)
    }
}

/// An expression with its references resolved; an arrow function
/// declares its parameters in a block of its own on top of the
/// enclosing ones, with counts of its own.
pub open spec fn rw_expr(e: ExprV, s: ScopesV) -> ExprV
    decreases e, 0int,
{
    match e {
        ExprV::Ident(n) => ExprV::Ident(resolved(s, n)),
        ExprV::Call { callee, args } => ExprV::Call { callee: Box::new(rw_expr(*callee, s)), args: rw_exprs(args, s) },
        ExprV::Unary { op, operand } => ExprV::Unary { op, operand: Box::new(rw_expr(*operand, s)) },
        ExprV::Binary { op, left, right } => ExprV::Binary {
            op,
            left: Box::new(rw_expr(*left, s)),
            right: Box::new(rw_expr(*right, s)),
        },
        ExprV::Member { object, property } => ExprV::Member { object: Box::new(rw_expr(*object, s)), property },
        ExprV::Index { object, index } => ExprV::Index {
            object: Box::new(rw_expr(*object, s)),
            index: Box::new(rw_expr(*index, s)),
        },
        ExprV::ArrayLiteral { elements } => ExprV::ArrayLiteral { elements: rw_elements(elements, s) },
        ExprV::ObjectLiteral { fields } => ExprV::ObjectLiteral { fields: rw_fields(fields, s) },
        ExprV::Arrow { params, return_type, body } => {
            let d = declared_params(params, s.push(Seq::empty()), Seq::empty());
            ExprV::Arrow {
                params: d.0,
                return_type,
                body: match body {
                    BodyV::Expr(x) => BodyV::Expr(Box::new(rw_expr(*x, d.1))),
                    BodyV::Block(ss) => BodyV::Block(rw_stmts(ss, d.1, d.2).0),
                },
            }
        },
        ExprV::TypeOf(x) => ExprV::TypeOf(Box::new(rw_expr(*x, s))),
        ExprV::AsConst(x) => ExprV::AsConst(Box::new(rw_expr(*x, s))),
        ExprV::NonNullAssertion(x) => ExprV::NonNullAssertion(Box::new(rw_expr(*x, s))),
        ExprV::AsAssertion { expr, ty } => ExprV::AsAssertion { expr: Box::new(rw_expr(*expr, s)), ty },
        _ => e,
    }
}

pub open spec fn rw_exprs(es: Seq<ExprV>, s: ScopesV) -> Seq<ExprV>
    decreases es, 0int,
{
    if es.len() == 0 {
        es
    } else {
        rw_exprs(es.drop_last(), s).push(rw_expr(es.last(), s))
    }
}

pub open spec fn rw_elements(es: Seq<ElementV>, s: ScopesV) -> Seq<ElementV>
    decreases es, 0int,
{
    if es.len() == 0 {
        es
    } else {
        rw_elements(es.drop_last(), s).push(
            match es.last() {
                ElementV::Item(x) => ElementV::Item(rw_expr(x, s)),
                ElementV::Spread(x) => ElementV::Spread(rw_expr(x, s)),
            },
        )
    }
}

pub open spec fn rw_fields(fs: Seq<FieldV>, s: ScopesV) -> Seq<FieldV>
    decreases fs, 0int,
{
    if fs.len() == 0 {
        fs
    } else {
        rw_fields(fs.drop_last(), s).push(
            match fs.last() {
                FieldV::KV(k, x) => FieldV::KV(k, rw_expr(x, s)),
                FieldV::Spread(x) => FieldV::Spread(rw_expr(x, s)),
            },
        )
    }
}

/// Statements rewritten one after another in the current block.
pub open spec fn rw_stmts(ss: Seq<StmtV>, s: ScopesV, c: CountsV) -> (Seq<StmtV>, ScopesV, CountsV)
    decreases ss, 0int,
{
    if ss.len() == 0 {
        (ss, s, c)
    } else {
        let a = rw_stmt(ss[0], s, c);
        let b = rw_stmts(ss.drop_first(), a.1, a.2);
        (seq![a.0] + b.0, b.1, b.2)
    }
}

/// Statements rewritten in a fresh child block, which is then left.
pub open spec fn rw_block(ss: Seq<StmtV>, s: ScopesV, c: CountsV) -> (Seq<StmtV>, ScopesV, CountsV)
    decreases ss, 1int,
{
    let a = rw_stmts(ss, s.push(Seq::empty()), c);
    (a.0, a.1.drop_last(), a.2)
}

/// The cases of a `switch`: values resolved, each body a block.
pub open spec fn rw_cases(cs: Seq<CaseV>, s: ScopesV, c: CountsV) -> (Seq<CaseV>, ScopesV, CountsV)
    decreases cs, 0int,
{
    if cs.len() == 0 {
        (cs, s, c)
    } else {
        let b = rw_block(cs[0].body, s, c);
        let rest = rw_cases(cs.drop_first(), b.1, b.2);
        (
            seq![CaseV { values: rw_exprs(cs[0].values, s), body: b.0, is_default: cs[0].is_default }] + rest.0,
            rest.1,
            rest.2,
        )
    }
}

/// A function: its parameters and body share one scope tree of their own.
pub open spec fn rw_function(f: FunctionV) -> FunctionV
    decreases f, 0int,
{
    let d = declared_params(f.params, seq![Seq::empty()], Seq::empty());
    FunctionV {
        name: f.name,
        params: d.0,
        return_type: f.return_type,
        body: rw_stmts(f.body, d.1, d.2).0,
        line: f.line,
        col: f.col,
    }
}

/// One statement: a declaration resolves its value before the name is
/// declared (`let x = x + 1` reads the outer `x`); `for` has a block for
/// its header with the body nested in it, and its update rewritten after
/// the body; a loop variable and a caught error are declared in a block
/// of their own.
pub open spec fn rw_stmt(st: StmtV, s: ScopesV, c: CountsV) -> (StmtV, ScopesV, CountsV)
    decreases st, 0int,
{
    match st {
        StmtV::Let { name, ty, value, line, col } => {
            let d = declared(s, c, name);
            (StmtV::Let { name: d.2, ty, value: rw_expr(value, s), line, col }, d.0, d.1)
        },
        StmtV::Const { name, ty, value, line, col } => {
            let d = declared(s, c, name);
            (StmtV::Const { name: d.2, ty, value: rw_expr(value, s), line, col }, d.0, d.1)
        },
        StmtV::Assign { name, value, line, col } => (
            StmtV::Assign { name: resolved(s, name), value: rw_expr(value, s), line, col },
            s,
            c,
        ),
        StmtV::AssignIndex { object, index, value, line, col } => (
            StmtV::AssignIndex {
                object: resolved(s, object),
                index: rw_expr(index, s),
                value: rw_expr(value, s),
                line,
                col,
            },
            s,
            c,
        ),
        StmtV::AssignMember { object, property, value, line, col } => (
            StmtV::AssignMember {
                object: Box::new(rw_expr(*object, s)),
                property,
                value: rw_expr(value, s),
                line,
                col,
            },
            s,
            c,
        ),
        StmtV::Function(f) => (StmtV::Function(rw_function(f)), s, c),
        StmtV::Return(e) => (
            StmtV::Return(
                match e {
                    Some(x) => Some(rw_expr(x, s)),
                    None => None,
                },
            ),
            s,
            c,
        ),
        StmtV::If { condition, then_branch, else_branch } => {
            let t = rw_block(then_branch, s, c);
            match else_branch {
                Some(b) => {
                    let e = rw_block(b, t.1, t.2);
                    (StmtV::If { condition: rw_expr(condition, s), then_branch: t.0, else_branch: Some(e.0) }, e.1, e.2)
                },
                None => (StmtV::If { condition: rw_expr(condition, s), then_branch: t.0, else_branch: None }, t.1, t.2),
            }
        },
        StmtV::While { condition, body } => {
            let b = rw_block(body, s, c);
            (StmtV::While { condition: rw_expr(condition, s), body: b.0 }, b.1, b.2)
        },
        StmtV::For { init, condition, update, body } => {
            let s0 = s.push(Seq::empty());
            let i = match init {
                Some(x) => {
                    let r = rw_stmt(*x, s0, c);
                    (Some(Box::new(r.0)), r.1, r.2)
                },
                None => (None, s0, c),
            };
            let cond = match condition {
                Some(x) => Some(rw_expr(x, i.1)),
                None => None,
            };
            let b = rw_block(body, i.1, i.2);
            let u = match update {
                Some(x) => {
                    let r = rw_stmt(*x, b.1, b.2);
                    (Some(Box::new(r.0)), r.1, r.2)
                },
                None => (None, b.1, b.2),
            };
            (StmtV::For { init: i.0, condition: cond, update: u.0, body: b.0 }, u.1.drop_last(), u.2)
        },
        StmtV::ForOf { name, ty, iterable, body } => {
            let d = declared(s.push(Seq::empty()), c, name);
            let b = rw_block(body, d.0, d.1);
            (
                StmtV::ForOf { name: d.2, ty, iterable: Box::new(rw_expr(*iterable, s)), body: b.0 },
                b.1.drop_last(),
                b.2,
            )
        },
        StmtV::Switch { discriminant, cases } => {
            let r = rw_cases(cases, s, c);
            (StmtV::Switch { discriminant: rw_expr(discriminant, s), cases: r.0 }, r.1, r.2)
        },
        StmtV::Try { body, catch_name, catch_body } => {
            let b = rw_block(body, s, c);
            let s1 = b.1.push(Seq::empty());
            let n = match catch_name {
                Some(x) => {
                    let d = declared(s1, b.2, x);
                    (Some(d.2), d.0, d.1)
                },
                None => (None, s1, b.2),
            };
            let k = rw_stmts(catch_body, n.1, n.2);
            (StmtV::Try { body: b.0, catch_name: n.0, catch_body: k.0 }, k.1.drop_last(), k.2)
        },
        StmtV::Throw(e) => (StmtV::Throw(rw_expr(e, s)), s, c),
        StmtV::Expr(e) => (StmtV::Expr(rw_expr(e, s)), s, c),
        StmtV::ExportDecl(inner) => {
            let r = rw_stmt(*inner, s, c);
            (StmtV::ExportDecl(Box::new(r.0)), r.1, r.2)
        },
        StmtV::ExportDefault(DefaultV::Function(f)) => (StmtV::ExportDefault(DefaultV::Function(rw_function(f))), s, c),
        StmtV::ExportDefault(DefaultV::Expr(e)) => (StmtV::ExportDefault(DefaultV::Expr(rw_expr(e, s))), s, c),
        _ => (st, s, c),
    }
}

/// A top-level `let` / `const` keeps its kind and name.
pub open spec fn keeps_top_name(a: StmtV, b: StmtV) -> bool {
    match a {
        StmtV::Let { name, .. } => b matches StmtV::Let { name: n, .. } && n == name,
        StmtV::Const { name, .. } => b matches StmtV::Const { name: n, .. } && n == name,
        _ => true,
    }
}


proof fn lemma_block_mapping_step(scope: BlockV, i: int, name: Seq<char>)
    requires
        0 <= i < scope.len(),
    ensures
        block_mapping(scope.subrange(i, scope.len() as int), name) == (if scope[i].0 == name {
            Some(scope[i].1)
        } else {
            block_mapping(scope.subrange(i + 1, scope.len() as int), name)
        }),
{
    assert(scope.subrange(i, scope.len() as int).drop_first() =~= scope.subrange(i + 1, scope.len() as int));
}

/// The mapping of `name` in one block, if any.
fn lookup_in(scope: &ScopeMap, name: &String) -> (r: Option<String>)
    ensures
        match r {
            Some(m) => block_mapping(block_v(*scope), name@) == Some(m@),
            None => block_mapping(block_v(*scope), name@) is None,
        },
{
    let ghost b = block_v(*scope);
    let mut i: usize = 0;
    proof {
        assert(b.subrange(0, b.len() as int) =~= b);
    }
    while i < scope.len()
        invariant
            b == block_v(*scope),
            b.len() == scope@.len(),
            i <= scope@.len(),
            block_mapping(b, name@) == block_mapping(b.subrange(i as int, b.len() as int), name@),
        decreases scope@.len() - i,
    {
        proof {
            lemma_block_mapping_step(b, i as int, name@);
        }
        if str_eq(scope[i].0.as_str(), name.as_str()) {
            return Some(scope[i].1.clone());
        }
        i += 1;
    }
    None
}

/// The mapping of `name`, innermost block first; `None` for a name no
/// block declares.
pub fn resolve(scopes: &Vec<ScopeMap>, name: &String) -> (r: Option<String>)
    ensures
        match r {
            Some(m) => stack_mapping(scopes_v(scopes@), name@) == Some(m@),
            None => stack_mapping(scopes_v(scopes@), name@) is None,
        },
{
    let ghost sv = scopes_v(scopes@);
    let mut i = scopes.len();
    proof {
        assert(sv.subrange(0, sv.len() as int) =~= sv);
    }
    while i > 0
        invariant
            sv == scopes_v(scopes@),
            sv.len() == scopes@.len(),
            i <= scopes@.len(),
            stack_mapping(sv, name@) == stack_mapping(sv.subrange(0, i as int), name@),
        decreases i,
    {
        proof {
            let sub = sv.subrange(0, i as int);
            assert(sub.last() == block_v(scopes@[i - 1]));
            assert(sub.drop_last() =~= sv.subrange(0, i - 1));
        }
        if let Some(m) = lookup_in(&scopes[i - 1], name) {
            return Some(m);
        }
        i -= 1;
    }
    None
}

/// With no earlier entry for `name`, the entry at `i` is the one that
/// counts and the one that changes.
proof fn lemma_first_entry(c: CountsV, name: Seq<char>, i: int, n: u32)
    requires
        0 <= i < c.len(),
        c[i].0 == name,
        forall|j: int| 0 <= j < i ==> (#[trigger] c[j]).0 != name,
    ensures
        count_of(c, name) == c[i].1,
        bumped(c, name, n) == c.update(i, (name, n)),
    decreases i,
{
    if i > 0 {
        let t = c.drop_first();
        assert forall|j: int| 0 <= j < i - 1 implies (#[trigger] t[j]).0 != name by {
            assert(t[j] == c[j + 1]);
        }
        lemma_first_entry(t, name, i - 1, n);
        assert(c[0].0 != name);
        assert(bumped(c, name, n) =~= c.update(i, (name, n)));
    }
}

/// With no entry for `name`, its count is zero and a new entry goes last.
proof fn lemma_no_entry(c: CountsV, name: Seq<char>, n: u32)
    requires
        forall|j: int| 0 <= j < c.len() ==> (#[trigger] c[j]).0 != name,
    ensures
        count_of(c, name) == 0,
        bumped(c, name, n) == c.push((name, n)),
    decreases c.len(),
{
    if c.len() > 0 {
        let t = c.drop_first();
        assert forall|j: int| 0 <= j < t.len() implies (#[trigger] t[j]).0 != name by {
            assert(t[j] == c[j + 1]);
        }
        lemma_no_entry(t, name, n);
        assert(c[0].0 != name);
        assert(bumped(c, name, n) =~= c.push((name, n)));
    }
}

/// Next number for a shadowed `name`: its count goes up by one (wrapping).
fn next_count(counters: &mut Vec<(String, u32)>, name: &String) -> (r: u32)
    ensures
        r == count_of(counts_v(old(counters)@), name@).wrapping_add(1),
        counts_v(final(counters)@) == bumped(counts_v(old(counters)@), name@, r),
{
    let ghost c0 = counts_v(counters@);
    let mut i: usize = 0;
    while i < counters.len()
        invariant
            i <= counters@.len(),
            counters@ == old(counters)@,
            c0 == counts_v(old(counters)@),
            c0.len() == counters@.len(),
            forall|j: int| 0 <= j < i ==> (#[trigger] c0[j]).0 != name@,
        decreases counters@.len() - i,
    {
        proof {
            assert(c0[i as int] == (counters@[i as int].0@, counters@[i as int].1));
        }
        if str_eq(counters[i].0.as_str(), name.as_str()) {
            let n = counters[i].1.wrapping_add(1);
            proof {
                lemma_first_entry(c0, name@, i as int, n);
            }
            counters.set(i, (name.clone(), n));
            proof {
                assert(counts_v(counters@) =~= c0.update(i as int, (name@, n)));
            }
            return n;
        }
        i += 1;
    }
    proof {
        lemma_no_entry(c0, name@, 1);
    }
    counters.push((name.clone(), 1));
    proof {
        assert(counts_v(counters@) =~= c0.push((name@, 1u32)));
    }
    1
}

/// Declares `name` in the innermost block and returns the name to use.
pub fn declare(scopes: &mut Vec<ScopeMap>, counters: &mut Vec<(String, u32)>, name: &String) -> (r: String)
    requires
        old(scopes)@.len() > 0,
    ensures
        (scopes_v(final(scopes)@), counts_v(final(counters)@), r@) == declared(
            scopes_v(old(scopes)@),
            counts_v(old(counters)@),
            name@,
        ),
        final(scopes)@.len() == old(scopes)@.len(),
{
    let ghost sv = scopes_v(scopes@);
    let top = scopes.len() - 1;
    proof {
        assert(sv.last() == block_v(scopes@[top as int]));
    }
    if lookup_in(&scopes[top], name).is_some() {
        return name.clone();
    }
    let mut shadows = false;
    let mut i: usize = 0;
    while i < top
        invariant
            top + 1 == scopes@.len(),
            i <= top,
            sv == scopes_v(scopes@),
            shadows <==> exists|j: int| 0 <= j < i && (#[trigger] block_mapping(sv[j], name@)) is Some,
        decreases top - i,
    {
        proof {
            assert(sv[i as int] == block_v(scopes@[i as int]));
        }
        if lookup_in(&scopes[i], name).is_some() {
            shadows = true;
        }
        i += 1;
    }
    let final_name = if shadows {
        let n = next_count(counters, name);
        let mut s = name.clone();
        s.append("__shadow");
        let digits = u64_decimal(n as u64);
        s.append(digits.as_str());
        proof {
            reveal_strlit("__shadow");
            assert(s@ =~= shadow_name(name@, n));
        }
        s
    } else {
        name.clone()
    };
    let mut current = scopes.pop().unwrap();
    current.push((name.clone(), final_name.clone()));
    proof {
        assert(block_v(current) =~= sv.last().push((name@, final_name@)));
    }
    scopes.push(current);
    proof {
        assert(scopes_v(scopes@) =~= sv.drop_last().push(sv.last().push((name@, final_name@))));
    }
    final_name
}

/// Declares parameters one after another, each renamed as `declare` says.
fn declare_params(params: Vec<Param>, scopes: &mut Vec<ScopeMap>, counters: &mut Vec<(String, u32)>) -> (r: Vec<
    Param,
>)
    requires
        old(scopes)@.len() > 0,
    ensures
        declared_params(params_v(params@), scopes_v(old(scopes)@), counts_v(old(counters)@)) == (
            params_v(r@),
            scopes_v(final(scopes)@),
            counts_v(final(counters)@),
        ),
        final(scopes)@.len() == old(scopes)@.len(),
{
    let ghost orig = params@;
    let ghost pv = params_v(params@);
    let ghost n = params@.len();
    let ghost total = declared_params(pv, scopes_v(scopes@), counts_v(counters@));
    let mut params = params;
    let mut k: usize = 0;
    proof {
        assert(pv.subrange(0, n as int) =~= pv);
        assert(params_v(params@.subrange(0, 0)) + total.0 =~= total.0);
    }
    while k < params.len()
        invariant
            params@.len() == n,
            pv.len() == n,
            pv == params_v(orig),
            orig.len() == n,
            k <= n,
            old(scopes)@.len() > 0,
            scopes@.len() == old(scopes)@.len(),
            forall|j: int| k <= j < n ==> params@[j] == orig[j],
            total.0 == params_v(params@.subrange(0, k as int)) + declared_params(
                pv.subrange(k as int, n as int),
                scopes_v(scopes@),
                counts_v(counters@),
            ).0,
            total.1 == declared_params(pv.subrange(k as int, n as int), scopes_v(scopes@), counts_v(counters@)).1,
            total.2 == declared_params(pv.subrange(k as int, n as int), scopes_v(scopes@), counts_v(counters@)).2,
        decreases n - k,
    {
        let ghost s_before = scopes_v(scopes@);
        let ghost c_before = counts_v(counters@);
        let ghost before = params@;
        let fresh = declare(scopes, counters, &params[k].name);
        let p = Param { name: fresh, ty: clone_type(&params[k].ty), line: params[k].line, col: params[k].col };
        proof {
            let rest = pv.subrange(k as int, n as int);
            assert(rest[0] == pv[k as int]);
            assert(pv[k as int] == param_v(orig[k as int]));
            assert(rest.drop_first() =~= pv.subrange(k + 1, n as int));
        }
        params.set(k, p);
        proof {
            let d = declared(s_before, c_before, pv[k as int].name);
            let tail = declared_params(pv.subrange(k + 1, n as int), scopes_v(scopes@), counts_v(counters@));
            assert(param_v(p) == ParamV {
                name: d.2,
                ty: pv[k as int].ty,
                line: pv[k as int].line,
                col: pv[k as int].col,
            });
            assert(params_v(params@.subrange(0, k + 1)) =~= params_v(before.subrange(0, k as int)).push(param_v(p)));
            assert(params_v(before.subrange(0, k as int)) + (seq![param_v(p)] + tail.0) =~= params_v(
                params@.subrange(0, k + 1),
            ) + tail.0);
        }
        k += 1;
    }
    proof {
        assert(params@.subrange(0, n as int) =~= params@);
        assert(params_v(params@) + pv.subrange(n as int, n as int) =~= params_v(params@));
    }
    params
}

/// A copy of the stack of blocks.
fn copy_scopes(scopes: &Vec<ScopeMap>) -> (r: Vec<ScopeMap>)
    ensures
        scopes_v(r@) == scopes_v(scopes@),
        r@.len() == scopes@.len(),
{
    let mut out: Vec<ScopeMap> = Vec::new();
    let mut i: usize = 0;
    while i < scopes.len()
        invariant
            i <= scopes@.len(),
            out@.len() == i,
            forall|j: int| 0 <= j < i ==> (#[trigger] out@[j])@ == scopes@[j]@,
        decreases scopes@.len() - i,
    {
        let mut copy: ScopeMap = Vec::new();
        let mut j: usize = 0;
        while j < scopes[i].len()
            invariant
                i < scopes@.len(),
                j <= scopes@[i as int]@.len(),
                copy@.len() == j,
                forall|t: int| 0 <= t < j ==> #[trigger] copy@[t] == scopes@[i as int]@[t],
            decreases scopes@[i as int]@.len() - j,
        {
            copy.push((scopes[i][j].0.clone(), scopes[i][j].1.clone()));
            j += 1;
        }
        proof {
            assert(copy@ =~= scopes@[i as int]@);
        }
        out.push(copy);
        i += 1;
    }
    proof {
        assert forall|j: int| 0 <= j < out@.len() implies #[trigger] scopes_v(out@)[j] == scopes_v(scopes@)[j] by {
            assert(out@[j]@ == scopes@[j]@);
        }
        assert(scopes_v(out@) =~= scopes_v(scopes@));
    }
    out
}

/// An empty block, as a value.
proof fn lemma_empty_block(e: ScopeMap)
    requires
        e@.len() == 0,
    ensures
        block_v(e) == Seq::<(Seq<char>, Seq<char>)>::empty(),
{
    assert(block_v(e) =~= Seq::<(Seq<char>, Seq<char>)>::empty());
}

/// Renames the shadowing bindings of `program` and the references to
/// them, as `rw_stmts` says from one empty block; the top-level
/// statements stay where they are, and a top-level `let` / `const`
/// keeps its name.
pub fn resolve_shadowing(program: &mut Program)
    ensures
        final(program)@ == rw_stmts(old(program)@, seq![Seq::empty()], Seq::empty()).0,
        final(program).stmts@.len() == old(program).stmts@.len(),
        forall|i: int|
            0 <= i < old(program).stmts@.len() ==> keeps_top_name(
                #[trigger] stmt_v(old(program).stmts@[i]),
                stmt_v(final(program).stmts@[i]),
            ),
{
    let mut scopes: Vec<ScopeMap> = Vec::new();
    let e: ScopeMap = Vec::new();
    proof {
        lemma_empty_block(e);
    }
    scopes.push(e);
    let mut counters: Vec<(String, u32)> = Vec::new();
    proof {
        assert(scopes_v(scopes@) =~= seq![Seq::<(Seq<char>, Seq<char>)>::empty()]);
        assert(counts_v(counters@) =~= Seq::<(Seq<char>, u32)>::empty());
    }
    let mut stmts: Vec<Stmt> = Vec::new();
    std::mem::swap(&mut stmts, &mut program.stmts);
    let out = rewrite_in_scope(stmts, &mut scopes, &mut counters);
    program.stmts = out;
}

/// Rewrites a block in a fresh child scope, which is left afterwards.
fn rewrite_block(stmts: Vec<Stmt>, scopes: &mut Vec<ScopeMap>, counters: &mut Vec<(String, u32)>) -> (r: Vec<
    Stmt,
>)
    requires
        old(scopes)@.len() > 0,
    ensures
        rw_block(stmts_v(stmts@), scopes_v(old(scopes)@), counts_v(old(counters)@)) == (
            stmts_v(r@),
            scopes_v(final(scopes)@),
            counts_v(final(counters)@),
        ),
        final(scopes)@.len() == old(scopes)@.len(),
    decreases stmts, 1int,
{
    let ghost s0 = scopes_v(scopes@);
    let e: ScopeMap = Vec::new();
    proof {
        lemma_empty_block(e);
    }
    scopes.push(e);
    proof {
        assert(scopes_v(scopes@) =~= s0.push(Seq::empty()));
    }
    let out = rewrite_in_scope(stmts, scopes, counters);
    let ghost mid = scopes_v(scopes@);
    scopes.pop();
    proof {
        assert(scopes_v(scopes@) =~= mid.drop_last());
    }
    out
}

/// Rewrites statements one after another in the current scope.
#[verifier::loop_isolation(false)]
fn rewrite_in_scope(stmts: Vec<Stmt>, scopes: &mut Vec<ScopeMap>, counters: &mut Vec<(String, u32)>) -> (r: Vec<
    Stmt,
>)
    requires
        old(scopes)@.len() > 0,
    ensures
        rw_stmts(stmts_v(stmts@), scopes_v(old(scopes)@), counts_v(old(counters)@)) == (
            stmts_v(r@),
            scopes_v(final(scopes)@),
            counts_v(final(counters)@),
        ),
        final(scopes)@.len() == old(scopes)@.len(),
        r@.len() == stmts@.len(),
        old(scopes)@.len() == 1 ==> forall|i: int|
            0 <= i < stmts@.len() ==> keeps_top_name(#[trigger] stmt_v(stmts@[i]), stmt_v(r@[i])),
    decreases stmts, 0int,
{
    let ghost orig = stmts;
    let ghost n = stmts@.len();
    let ghost ov = stmts_v(stmts@);
    let ghost total = rw_stmts(ov, scopes_v(scopes@), counts_v(counters@));
    let mut rest = stmts;
    let mut out: Vec<Stmt> = Vec::new();
    let ghost mut k: int = 0;
    proof {
        lemma_stmts_v(orig@);
        assert(ov.subrange(0, n as int) =~= ov);
        assert(stmts_v(out@) + total.0 =~= total.0);
    }
    while rest.len() > 0
        invariant
            0 <= k <= n,
            n == orig@.len(),
            out@.len() == k,
            rest@ == orig@.subrange(k, n as int),
            scopes@.len() == old(scopes)@.len(),
            total.0 == stmts_v(out@) + rw_stmts(ov.subrange(k, n as int), scopes_v(scopes@), counts_v(counters@)).0,
            total.1 == rw_stmts(ov.subrange(k, n as int), scopes_v(scopes@), counts_v(counters@)).1,
            total.2 == rw_stmts(ov.subrange(k, n as int), scopes_v(scopes@), counts_v(counters@)).2,
            old(scopes)@.len() == 1 ==> forall|i: int|
                0 <= i < k ==> keeps_top_name(#[trigger] stmt_v(orig@[i]), stmt_v(out@[i])),
        decreases rest@.len(),
    {
        let s = rest.remove(0);
        proof {
            assert(s == orig@[k]);
            assert(decreases_to!(orig => orig@[k]));
            let sub = ov.subrange(k, n as int);
            assert(sub[0] == stmt_v(s));
            assert(sub.drop_first() =~= ov.subrange(k + 1, n as int));
        }
        let ghost sv0 = scopes_v(scopes@);
        let ghost cv0 = counts_v(counters@);
        let x = rewrite_stmt(s, scopes, counters);
        proof {
            let a = rw_stmt(stmt_v(s), sv0, cv0);
            let b = rw_stmts(ov.subrange(k + 1, n as int), scopes_v(scopes@), counts_v(counters@));
            assert(out@.push(x).drop_last() =~= out@);
            assert(stmts_v(out@.push(x)) == stmts_v(out@).push(stmt_v(x)));
            assert(stmts_v(out@) + (seq![a.0] + b.0) =~= stmts_v(out@).push(a.0) + b.0);
        }
        out.push(x);
        proof {
            k = k + 1;
        }
    }
    proof {
        assert(stmts_v(out@) + ov.subrange(n as int, n as int) =~= stmts_v(out@));
    }
    out
}

/// Rewrites the cases of a `switch`, each body a block of its own.
#[verifier::loop_isolation(false)]
fn rewrite_cases(cases: Vec<SwitchCase>, scopes: &mut Vec<ScopeMap>, counters: &mut Vec<(String, u32)>) -> (r: Vec<
    SwitchCase,
>)
    requires
        old(scopes)@.len() > 0,
    ensures
        rw_cases(cases_v(cases@), scopes_v(old(scopes)@), counts_v(old(counters)@)) == (
            cases_v(r@),
            scopes_v(final(scopes)@),
            counts_v(final(counters)@),
        ),
        final(scopes)@.len() == old(scopes)@.len(),
    decreases cases, 0int,
{
    let ghost orig = cases;
    let ghost n = cases@.len();
    let ghost ov = cases_v(cases@);
    let ghost total = rw_cases(ov, scopes_v(scopes@), counts_v(counters@));
    let mut rest = cases;
    let mut out: Vec<SwitchCase> = Vec::new();
    let ghost mut k: int = 0;
    proof {
        lemma_cases_v(orig@);
        assert(ov.subrange(0, n as int) =~= ov);
        assert(cases_v(out@) + total.0 =~= total.0);
    }
    while rest.len() > 0
        invariant
            0 <= k <= n,
            n == orig@.len(),
            out@.len() == k,
            rest@ == orig@.subrange(k, n as int),
            scopes@.len() == old(scopes)@.len(),
            total.0 == cases_v(out@) + rw_cases(ov.subrange(k, n as int), scopes_v(scopes@), counts_v(counters@)).0,
            total.1 == rw_cases(ov.subrange(k, n as int), scopes_v(scopes@), counts_v(counters@)).1,
            total.2 == rw_cases(ov.subrange(k, n as int), scopes_v(scopes@), counts_v(counters@)).2,
        decreases rest@.len(),
    {
        let c = rest.remove(0);
        proof {
            assert(c == orig@[k]);
            assert(decreases_to!(orig => orig@[k]));
            let sub = ov.subrange(k, n as int);
            assert(sub[0] == ov[k]);
            assert(sub.drop_first() =~= ov.subrange(k + 1, n as int));
        }
        let ghost sv0 = scopes_v(scopes@);
        let ghost cv0 = counts_v(counters@);
        let SwitchCase { values, body, is_default } = c;
        let values = rewrite_exprs(values, scopes);
        let body = rewrite_block(body, scopes, counters);
        let x = SwitchCase { values, body, is_default };
        proof {
            let bl = rw_block(ov[k].body, sv0, cv0);
            let b = rw_cases(ov.subrange(k + 1, n as int), scopes_v(scopes@), counts_v(counters@));
            let cv = CaseV { values: rw_exprs(ov[k].values, sv0), body: bl.0, is_default: ov[k].is_default };
            assert(out@.push(x).drop_last() =~= out@);
            assert(cases_v(out@.push(x)) == cases_v(out@).push(cv));
            assert(cases_v(out@) + (seq![cv] + b.0) =~= cases_v(out@).push(cv) + b.0);
        }
        out.push(x);
        proof {
            k = k + 1;
        }
    }
    proof {
        assert(cases_v(out@) + ov.subrange(n as int, n as int) =~= cases_v(out@));
    }
    out
}

/// Rewrites one statement, as `rw_stmt` says.
#[verifier::spinoff_prover]
#[verifier::rlimit(50)]
pub(crate) fn rewrite_stmt(stmt: Stmt, scopes: &mut Vec<ScopeMap>, counters: &mut Vec<(String, u32)>) -> (r: Stmt)
    requires
        old(scopes)@.len() > 0,
    ensures
        rw_stmt(stmt@, scopes_v(old(scopes)@), counts_v(old(counters)@)) == (
            r@,
            scopes_v(final(scopes)@),
            counts_v(final(counters)@),
        ),
        final(scopes)@.len() == old(scopes)@.len(),
        old(scopes)@.len() == 1 ==> keeps_top_name(stmt@, r@),
    decreases stmt, 0int,
{
    let ghost s0 = scopes_v(scopes@);
    match stmt {
        Stmt::Let { name, ty, value, line, col } => {
            let value = rewrite_expr(value, scopes);
            let name = declare(scopes, counters, &name);
            Stmt::Let { name, ty, value, line, col }
        },
        Stmt::Const { name, ty, value, line, col } => {
            let value = rewrite_expr(value, scopes);
            let name = declare(scopes, counters, &name);
            Stmt::Const { name, ty, value, line, col }
        },
        Stmt::Assign { name, value, line, col } => {
            let value = rewrite_expr(value, scopes);
            let name = match resolve(scopes, &name) {
                Some(m) => m,
                None => name,
            };
            Stmt::Assign { name, value, line, col }
        },
        Stmt::AssignIndex { object, index, value, line, col } => {
            let index = rewrite_expr(index, scopes);
            let value = rewrite_expr(value, scopes);
            let object = match resolve(scopes, &object) {
                Some(m) => m,
                None => object,
            };
            Stmt::AssignIndex { object, index, value, line, col }
        },
        Stmt::AssignMember { object, property, value, line, col } => {
            let o = rewrite_expr(*object, scopes);
            let v = rewrite_expr(value, scopes);
            Stmt::AssignMember { object: Box::new(o), property, value: v, line, col }
        },
        Stmt::Function(f) => Stmt::Function(rewrite_function(f)),
        Stmt::Return(e) => match e {
            Some(x) => Stmt::Return(Some(rewrite_expr(x, scopes))),
            None => Stmt::Return(None),
        },
        Stmt::If { condition, then_branch, else_branch } => {
            let ghost c0 = counts_v(counters@);
            let ghost tv = stmts_v(then_branch@);
            let ghost ev = opt_stmts_v(else_branch);
            let c = rewrite_expr(condition, scopes);
            let t = rewrite_block(then_branch, scopes, counters);
            let ghost tb = rw_block(tv, s0, c0);
            let e = match else_branch {
                Some(b) => {
                    let x = rewrite_block(b, scopes, counters);
                    proof {
                        assert(opt_stmts_v(Some(x)) == Some(stmts_v(x@)));
                    }
                    Some(x)
                },
                None => None,
            };
            let r = Stmt::If { condition: c, then_branch: t, else_branch: e };
            proof {
                assert(stmt_v(r) == StmtV::If { condition: c@, then_branch: stmts_v(t@), else_branch: opt_stmts_v(e) });
                match ev {
                    Some(bv) => {
                        let eb = rw_block(bv, tb.1, tb.2);
                        assert(opt_stmts_v(e) == Some(eb.0));
                    },
                    None => {
                        assert(opt_stmts_v(e) == None::<Seq<StmtV>>);
                    },
                }
            }
            r
        },
        Stmt::While { condition, body } => {
            let c = rewrite_expr(condition, scopes);
            Stmt::While { condition: c, body: rewrite_block(body, scopes, counters) }
        },
        Stmt::For { init, condition, update, body } => {
            let e: ScopeMap = Vec::new();
            proof {
                lemma_empty_block(e);
            }
            scopes.push(e);
            proof {
                assert(scopes_v(scopes@) =~= s0.push(Seq::empty()));
            }
            let init = match init {
                Some(i) => Some(Box::new(rewrite_stmt(*i, scopes, counters))),
                None => None,
            };
            let condition = match condition {
                Some(c) => Some(rewrite_expr(c, scopes)),
                None => None,
            };
            let body = rewrite_block(body, scopes, counters);
            let update = match update {
                Some(u) => Some(Box::new(rewrite_stmt(*u, scopes, counters))),
                None => None,
            };
            let ghost mid = scopes_v(scopes@);
            scopes.pop();
            proof {
                assert(scopes_v(scopes@) =~= mid.drop_last());
            }
            Stmt::For { init, condition, update, body }
        },
        Stmt::ForOf { name, ty, iterable, body } => {
            let it = rewrite_expr(*iterable, scopes);
            let e: ScopeMap = Vec::new();
            proof {
                lemma_empty_block(e);
            }
            scopes.push(e);
            proof {
                assert(scopes_v(scopes@) =~= s0.push(Seq::empty()));
            }
            let name = declare(scopes, counters, &name);
            let body = rewrite_block(body, scopes, counters);
            let ghost mid = scopes_v(scopes@);
            scopes.pop();
            proof {
                assert(scopes_v(scopes@) =~= mid.drop_last());
            }
            Stmt::ForOf { name, ty, iterable: Box::new(it), body }
        },
        Stmt::Switch { discriminant, cases } => {
            let d = rewrite_expr(discriminant, scopes);
            let cases = rewrite_cases(cases, scopes, counters);
            Stmt::Switch { discriminant: d, cases }
        },
        Stmt::Try { body, catch_name, catch_body } => {
            let body = rewrite_block(body, scopes, counters);
            let ghost s1 = scopes_v(scopes@);
            let e: ScopeMap = Vec::new();
            proof {
                lemma_empty_block(e);
            }
            scopes.push(e);
            proof {
                assert(scopes_v(scopes@) =~= s1.push(Seq::empty()));
            }
            let catch_name = match catch_name {
                Some(n) => Some(declare(scopes, counters, &n)),
                None => None,
            };
            let catch_body = rewrite_in_scope(catch_body, scopes, counters);
            let ghost mid = scopes_v(scopes@);
            scopes.pop();
            proof {
                assert(scopes_v(scopes@) =~= mid.drop_last());
            }
            Stmt::Try { body, catch_name, catch_body }
        },
        Stmt::Throw(e) => Stmt::Throw(rewrite_expr(e, scopes)),
        Stmt::Expr(e) => Stmt::Expr(rewrite_expr(e, scopes)),
        Stmt::ExportDecl(inner) => Stmt::ExportDecl(Box::new(rewrite_stmt(*inner, scopes, counters))),
        Stmt::ExportDefault(ExportDefault::Function(f)) => Stmt::ExportDefault(
            ExportDefault::Function(rewrite_function(f)),
        ),
        Stmt::ExportDefault(ExportDefault::Expr(e)) => Stmt::ExportDefault(ExportDefault::Expr(rewrite_expr(e, scopes))),
        other => other,
    }
}

/// A function's parameters and body share one scope tree of their own.
fn rewrite_function(f: Function) -> (r: Function)
    ensures
        function_v(r) == rw_function(function_v(f)),
    decreases f, 0int,
{
    let mut scopes: Vec<ScopeMap> = Vec::new();
    let e: ScopeMap = Vec::new();
    proof {
        lemma_empty_block(e);
    }
    scopes.push(e);
    let mut counters: Vec<(String, u32)> = Vec::new();
    proof {
        assert(scopes_v(scopes@) =~= seq![Seq::<(Seq<char>, Seq<char>)>::empty()]);
        assert(counts_v(counters@) =~= Seq::<(Seq<char>, u32)>::empty());
    }
    let Function { name, params, return_type, body, line, col } = f;
    let params = declare_params(params, &mut scopes, &mut counters);
    let body = rewrite_in_scope(body, &mut scopes, &mut counters);
    Function { name, params, return_type, body, line, col }
}

#[verifier::loop_isolation(false)]
fn rewrite_exprs(v: Vec<Expr>, scopes: &Vec<ScopeMap>) -> (r: Vec<Expr>)
    ensures
        exprs_v(r@) == rw_exprs(exprs_v(v@), scopes_v(scopes@)),
    decreases v, 1int,
{
    let ghost orig = v;
    let ghost sv = scopes_v(scopes@);
    let ghost n = v@.len();
    let mut rest = v;
    let mut out: Vec<Expr> = Vec::new();
    let ghost mut k: int = 0;
    proof {
        assert(orig@.subrange(0, 0) =~= Seq::<Expr>::empty());
    }
    while rest.len() > 0
        invariant
            0 <= k <= n,
            n == orig@.len(),
            rest@ == orig@.subrange(k, n as int),
            exprs_v(out@) == rw_exprs(exprs_v(orig@.subrange(0, k)), sv),
        decreases rest@.len(),
    {
        let e = rest.remove(0);
        proof {
            assert(e == orig@[k]);
            assert(decreases_to!(orig => orig@[k]));
        }
        let x = rewrite_expr(e, scopes);
        proof {
            let p = orig@.subrange(0, k + 1);
            assert(p.drop_last() =~= orig@.subrange(0, k));
            assert(exprs_v(p).drop_last() =~= exprs_v(orig@.subrange(0, k)));
            assert(out@.push(x).drop_last() =~= out@);
        }
        out.push(x);
        proof {
            k = k + 1;
        }
    }
    proof {
        assert(orig@.subrange(0, n as int) =~= orig@);
    }
    out
}

#[verifier::loop_isolation(false)]
fn rewrite_elements(v: Vec<ArrayElement>, scopes: &Vec<ScopeMap>) -> (r: Vec<ArrayElement>)
    ensures
        elements_v(r@) == rw_elements(elements_v(v@), scopes_v(scopes@)),
    decreases v, 1int,
{
    let ghost orig = v;
    let ghost sv = scopes_v(scopes@);
    let ghost n = v@.len();
    let mut rest = v;
    let mut out: Vec<ArrayElement> = Vec::new();
    let ghost mut k: int = 0;
    proof {
        assert(orig@.subrange(0, 0) =~= Seq::<ArrayElement>::empty());
    }
    while rest.len() > 0
        invariant
            0 <= k <= n,
            n == orig@.len(),
            rest@ == orig@.subrange(k, n as int),
            elements_v(out@) == rw_elements(elements_v(orig@.subrange(0, k)), sv),
        decreases rest@.len(),
    {
        let el = rest.remove(0);
        proof {
            assert(el == orig@[k]);
            assert(decreases_to!(orig => orig@[k]));
        }
        let x = match el {
            ArrayElement::Item(y) => ArrayElement::Item(rewrite_expr(y, scopes)),
            ArrayElement::Spread(y) => ArrayElement::Spread(rewrite_expr(y, scopes)),
        };
        proof {
            let p = orig@.subrange(0, k + 1);
            assert(p.drop_last() =~= orig@.subrange(0, k));
            assert(elements_v(p).drop_last() =~= elements_v(orig@.subrange(0, k)));
            assert(out@.push(x).drop_last() =~= out@);
        }
        out.push(x);
        proof {
            k = k + 1;
        }
    }
    proof {
        assert(orig@.subrange(0, n as int) =~= orig@);
    }
    out
}

#[verifier::loop_isolation(false)]
fn rewrite_fields(v: Vec<ObjectField>, scopes: &Vec<ScopeMap>) -> (r: Vec<ObjectField>)
    ensures
        fields_v(r@) == rw_fields(fields_v(v@), scopes_v(scopes@)),
    decreases v, 1int,
{
    let ghost orig = v;
    let ghost sv = scopes_v(scopes@);
    let ghost n = v@.len();
    let mut rest = v;
    let mut out: Vec<ObjectField> = Vec::new();
    let ghost mut k: int = 0;
    proof {
        assert(orig@.subrange(0, 0) =~= Seq::<ObjectField>::empty());
    }
    while rest.len() > 0
        invariant
            0 <= k <= n,
            n == orig@.len(),
            rest@ == orig@.subrange(k, n as int),
            fields_v(out@) == rw_fields(fields_v(orig@.subrange(0, k)), sv),
        decreases rest@.len(),
    {
        let f = rest.remove(0);
        proof {
            assert(f == orig@[k]);
            assert(decreases_to!(orig => orig@[k]));
        }
        let x = match f {
            ObjectField::KV(key, y) => ObjectField::KV(key, rewrite_expr(y, scopes)),
            ObjectField::Spread(y) => ObjectField::Spread(rewrite_expr(y, scopes)),
        };
        proof {
            let p = orig@.subrange(0, k + 1);
            assert(p.drop_last() =~= orig@.subrange(0, k));
            assert(fields_v(p).drop_last() =~= fields_v(orig@.subrange(0, k)));
            assert(out@.push(x).drop_last() =~= out@);
        }
        out.push(x);
        proof {
            k = k + 1;
        }
    }
    proof {
        assert(orig@.subrange(0, n as int) =~= orig@);
    }
    out
}

/// Rewrites the references in an expression, as `rw_expr` says.
#[verifier::spinoff_prover]
pub(crate) fn rewrite_expr(e: Expr, scopes: &Vec<ScopeMap>) -> (r: Expr)
    ensures
        r@ == rw_expr(e@, scopes_v(scopes@)),
    decreases e, 0int,
{
    match e {
        Expr::Ident(name) => match resolve(scopes, &name) {
            Some(m) => Expr::Ident(m),
            None => Expr::Ident(name),
        },
        Expr::Call { callee, args } => {
            let c = rewrite_expr(*callee, scopes);
            Expr::Call { callee: Box::new(c), args: rewrite_exprs(args, scopes) }
        },
        Expr::Unary { op, operand } => Expr::Unary { op, operand: Box::new(rewrite_expr(*operand, scopes)) },
        Expr::Binary { op, left, right } => {
            let l = rewrite_expr(*left, scopes);
            let r = rewrite_expr(*right, scopes);
            Expr::Binary { op, left: Box::new(l), right: Box::new(r) }
        },
        Expr::Member { object, property } => Expr::Member { object: Box::new(rewrite_expr(*object, scopes)), property },
        Expr::Index { object, index } => {
            let o = rewrite_expr(*object, scopes);
            let i = rewrite_expr(*index, scopes);
            Expr::Index { object: Box::new(o), index: Box::new(i) }
        },
        Expr::ArrayLiteral { elements } => Expr::ArrayLiteral { elements: rewrite_elements(elements, scopes) },
        Expr::ObjectLiteral { fields } => Expr::ObjectLiteral { fields: rewrite_fields(fields, scopes) },
        Expr::TypeOf(inner) => Expr::TypeOf(Box::new(rewrite_expr(*inner, scopes))),
        Expr::AsConst(inner) => Expr::AsConst(Box::new(rewrite_expr(*inner, scopes))),
        Expr::NonNullAssertion(inner) => Expr::NonNullAssertion(Box::new(rewrite_expr(*inner, scopes))),
        Expr::AsAssertion { expr, ty } => Expr::AsAssertion { expr: Box::new(rewrite_expr(*expr, scopes)), ty },
        Expr::Arrow { params, return_type, body } => {
            let mut extended = copy_scopes(scopes);
            let e: ScopeMap = Vec::new();
            proof {
                lemma_empty_block(e);
            }
            extended.push(e);
            let mut local_counters: Vec<(String, u32)> = Vec::new();
            proof {
                assert(scopes_v(extended@) =~= scopes_v(scopes@).push(Seq::empty()));
                assert(counts_v(local_counters@) =~= Seq::<(Seq<char>, u32)>::empty());
            }
            let params = declare_params(params, &mut extended, &mut local_counters);
            let body = match body {
                ArrowBody::Expr(x) => ArrowBody::Expr(Box::new(rewrite_expr(*x, &extended))),
                ArrowBody::Block(ss) => ArrowBody::Block(rewrite_in_scope(ss, &mut extended, &mut local_counters)),
            };
            Expr::Arrow { params, return_type, body }
        },
        other => other,
    }
}

proof fn lemma_block_mapping_push(scope: BlockV, k: Seq<char>, v: Seq<char>)
    requires
        block_mapping(scope, k) is None,
    ensures
        block_mapping(scope.push((k, v)), k) == Some(v),
    decreases scope.len(),
{
    if scope.len() > 0 {
        assert(scope.push((k, v)).drop_first() =~= scope.drop_first().push((k, v)));
        lemma_block_mapping_push(scope.drop_first(), k, v);
    }
}

/// A name declared in the innermost block (and not declared there
/// before) resolves, from then on, to the name the declaration gave it.
pub proof fn lemma_declared_name_resolves(scopes: ScopesV, counts: CountsV, name: Seq<char>)
    requires
        scopes.len() > 0,
        block_mapping(scopes.last(), name) is None,
    ensures
        stack_mapping(declared(scopes, counts, name).0, name) == Some(declared(scopes, counts, name).2),
{
    let d = declared(scopes, counts, name);
    lemma_block_mapping_push(scopes.last(), name, d.2);
    assert(d.0.last() == scopes.last().push((name, d.2)));
}

/// A second declaration in the same block changes nothing: the name, the
/// blocks and the counts stay as they were.
pub proof fn lemma_same_block_duplicate_kept(scopes: ScopesV, counts: CountsV, name: Seq<char>)
    requires
        scopes.len() > 0,
        block_mapping(scopes.last(), name) is Some,
    ensures
        declared(scopes, counts, name) == (scopes, counts, name),
{
}

/// Shadowing names are fresh: two renamings of one name, at different
/// counts, give different names.
pub proof fn lemma_shadow_names_differ(name: Seq<char>, a: u32, b: u32)
    requires
        a != b,
    ensures
        shadow_name(name, a) != shadow_name(name, b),
{
    crate::text::lemma_numbered_names_differ(name, "__shadow"@, a as nat, b as nat);
}

/// Each renaming of a name takes the next number: after a shadowing
/// declaration, the count of that name is the number in its new name.
pub proof fn lemma_shadow_count_advances(scopes: ScopesV, counts: CountsV, name: Seq<char>)
    requires
        scopes.len() > 0,
        block_mapping(scopes.last(), name) is None,
        shadows_outer(scopes, name),
    ensures
        declared(scopes, counts, name).2 == shadow_name(name, count_of(declared(scopes, counts, name).1, name)),
        count_of(declared(scopes, counts, name).1, name) == count_of(counts, name).wrapping_add(1),
{
    let n = count_of(counts, name).wrapping_add(1);
    lemma_count_bumped(counts, name, n);
}

proof fn lemma_count_bumped(c: CountsV, name: Seq<char>, n: u32)
    ensures
        count_of(bumped(c, name, n), name) == n,
    decreases c.len(),
{
    if c.len() > 0 && c[0].0 != name {
        lemma_count_bumped(c.drop_first(), name, n);
        assert((seq![c[0]] + bumped(c.drop_first(), name, n)).drop_first() =~= bumped(c.drop_first(), name, n));
    }
}

} // verus!
