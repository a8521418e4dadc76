//! Lowering of a parsed program to the compiler's tree: the part of the
//! language the compiler translates to Rust. Primitive, named, object and
//! one-level array types; literals, names, paths, calls, operators,
//! members, indexing and array / object literals; bindings, assignments,
//! functions, control flow, named imports and exports. Anything else
//! (`null`, arrow functions, spreads, `??`, `switch`, `try`, type
//! declarations, namespace and wildcard imports, ...) is refused.

use crate::compiler::ast as cst;
use crate::compiler::types as cty;
use crate::syntax::ast as sst;
use crate::syntax::view::{
    function_v, opt_str, params_v, stmt_v, stmts_v, DefaultV, ElementV, ExprV, FieldV, FunctionV, NamedV, ParamV, StmtV,
};
use vstd::prelude::*;

verus! {

broadcast use vstd::std_specs::vec::group_vec_axioms;

// ── Types ────────────────────────────────────────────────────────────────

/// The compiler's type for a source type, if it has one: a primitive or
/// named type as itself, an object type with its fields (none optional),
/// an array of a non-array type.
pub open spec fn lower_type_v(t: sst::TypeV) -> Option<cty::TypeV>
    decreases t,
{
    match t {
        sst::TypeV::Primitive(p) => Some(cty::TypeV { name: p, fields: Seq::empty(), is_array: false }),
        sst::TypeV::Named(n) => Some(cty::TypeV { name: n, fields: Seq::empty(), is_array: false }),
        sst::TypeV::Array(inner) => match lower_type_v(*inner) {
            Some(c) => if c.is_array {
                None
            } else {
                Some(cty::TypeV { name: c.name, fields: c.fields, is_array: true })
            },
            None => None,
        },
        sst::TypeV::Object { name, fields } => match lower_obj_fields(fields) {
            Some(fs) => Some(cty::TypeV { name, fields: fs, is_array: false }),
            None => None,
        },
        _ => None,
    }
}

pub open spec fn lower_obj_fields(fs: Seq<(Seq<char>, sst::TypeV, bool)>) -> Option<Seq<(Seq<char>, cty::TypeV)>>
    decreases fs,
{
    if fs.len() == 0 {
        Some(Seq::empty())
    } else {
        match lower_obj_fields(fs.drop_last()) {
            Some(a) => match lower_type_v(fs.last().1) {
                Some(t) => if fs.last().2 {
                    None
                } else {
                    Some(a.push((fs.last().0, t)))
                },
                None => None,
            },
            None => None,
        }
    }
}

/// The compiler's type for `t`, as `lower_type_v` says.
pub fn lower_type(t: &sst::Type) -> (r: Option<cty::Type>)
    ensures
        match r {
            Some(c) => lower_type_v(t@) == Some(c@),
            None => lower_type_v(t@) is None,
        },
    decreases t,
{
    match t {
        sst::Type::Primitive(p) => {
            let c = cty::Type { name: p.clone(), fields: Vec::new(), is_array: false };
            proof {
                assert(c@.fields =~= Seq::<(Seq<char>, cty::TypeV)>::empty());
            }
            Some(c)
        },
        sst::Type::Named(p) => {
            let c = cty::Type { name: p.clone(), fields: Vec::new(), is_array: false };
            proof {
                assert(c@.fields =~= Seq::<(Seq<char>, cty::TypeV)>::empty());
            }
            Some(c)
        },
        sst::Type::Array(inner) => match lower_type(inner) {
            Some(c) => if c.is_array {
                None
            } else {
                Some(cty::Type { name: c.name, fields: c.fields, is_array: true })
            },
            None => None,
        },
        sst::Type::Object { name, fields } => {
            let mut out: Vec<(String, Box<cty::Type>)> = Vec::new();
            let mut i: usize = 0;
            proof {
                assert(fields@.subrange(0, 0) =~= Seq::<(String, Box<sst::Type>, bool)>::empty());
                assert(cty::fields_view(out@) =~= Seq::<(Seq<char>, cty::TypeV)>::empty());
            }
            proof {
                assert(decreases_to!(*t => *fields));
                assert(t@ == sst::TypeV::Object { name: name@, fields: sst::fields_view(fields@) });
            }
            while i < fields.len()
                invariant
                    i <= fields@.len(),
                    decreases_to!(*t => *fields),
                    t@ == (sst::TypeV::Object { name: name@, fields: sst::fields_view(fields@) }),
                    lower_obj_fields(sst::fields_view(fields@.subrange(0, i as int))) == Some(
                        cty::fields_view(out@),
                    ),
                decreases fields@.len() - i,
            {
                proof {
                    assert(decreases_to!(*fields => fields@[i as int]));
                    assert(decreases_to!(fields@[i as int] => fields@[i as int].1));
                    let p = fields@.subrange(0, i + 1);
                    assert(p.drop_last() =~= fields@.subrange(0, i as int));
                    assert(sst::fields_view(p).drop_last() =~= sst::fields_view(fields@.subrange(0, i as int)));
                }
                if fields[i].2 {
                    proof {
                        lemma_unlowerable_fields_prefix(fields@, i as int);
                    }
                    return None;
                }
                match lower_type(&fields[i].1) {
                    Some(c) => {
                        let ghost before = out@;
                        out.push((fields[i].0.clone(), Box::new(c)));
                        proof {
                            assert(out@.drop_last() =~= before);
                        }
                    },
                    None => {
                        proof {
                            lemma_unlowerable_fields_prefix(fields@, i as int);
                        }
                        return None;
                    },
                }
                i += 1;
            }
            proof {
                assert(fields@.subrange(0, fields@.len() as int) =~= fields@);
            }
            Some(cty::Type { name: name.clone(), fields: out, is_array: false })
        },
        _ => None,
    }
}

/// An optional field, or one whose type has no lowering, makes the whole
/// object type have none.
proof fn lemma_unlowerable_fields_prefix(v: Seq<(String, Box<sst::Type>, bool)>, i: int)
    requires
        0 <= i < v.len(),
        v[i].2 || lower_type_v((*v[i].1)@) is None,
    ensures
        lower_obj_fields(sst::fields_view(v)) is None,
    decreases v.len(),
{
    assert(sst::fields_view(v).drop_last() =~= sst::fields_view(v.drop_last()));
    if i < v.len() - 1 {
        assert(v.drop_last()[i] == v[i]);
        lemma_unlowerable_fields_prefix(v.drop_last(), i);
    }
}

// ── Expressions ──────────────────────────────────────────────────────────

pub open spec fn lower_binop(o: sst::BinOp) -> Option<cst::BinOp> {
    match o {
        sst::BinOp::Add => Some(cst::BinOp::Add),
        sst::BinOp::Sub => Some(cst::BinOp::Sub),
        sst::BinOp::Mul => Some(cst::BinOp::Mul),
        sst::BinOp::Div => Some(cst::BinOp::Div),
        sst::BinOp::Mod => Some(cst::BinOp::Mod),
        sst::BinOp::EqEq => Some(cst::BinOp::EqEq),
        sst::BinOp::NotEq => Some(cst::BinOp::NotEq),
        sst::BinOp::Lt => Some(cst::BinOp::Lt),
        sst::BinOp::Gt => Some(cst::BinOp::Gt),
        sst::BinOp::LtEq => Some(cst::BinOp::LtEq),
        sst::BinOp::GtEq => Some(cst::BinOp::GtEq),
        sst::BinOp::And => Some(cst::BinOp::And),
        sst::BinOp::Or => Some(cst::BinOp::Or),
        sst::BinOp::NullishCoalesce => None,
    }
}

pub open spec fn lower_unop(o: sst::UnaryOp) -> cst::UnaryOp {
    match o {
        sst::UnaryOp::Not => cst::UnaryOp::Not,
        sst::UnaryOp::Neg => cst::UnaryOp::Neg,
    }
}

/// Whether the compiler takes the expression: no `null` / `undefined`,
/// arrow function, `typeof`, assertion, spread or `??` anywhere in it.
pub open spec fn lowerable_expr(e: ExprV) -> bool
    decreases e,
{
    match e {
        ExprV::Number(_) => true,
        ExprV::String(_) => true,
        ExprV::Bool(_) => true,
        ExprV::Ident(_) => true,
        ExprV::Path { .. } => true,
        ExprV::Call { callee, args } => lowerable_expr(*callee) && lowerable_exprs(args),
        ExprV::Unary { operand, .. } => lowerable_expr(*operand),
        ExprV::Binary { op, left, right } => lower_binop(op) is Some && lowerable_expr(*left) && lowerable_expr(
            *right,
        ),
        ExprV::Member { object, .. } => lowerable_expr(*object),
        ExprV::Index { object, index } => lowerable_expr(*object) && lowerable_expr(*index),
        ExprV::ArrayLiteral { elements } => lowerable_items(elements),
        ExprV::ObjectLiteral { fields } => lowerable_kvs(fields),
        _ => false,
    }
}

pub open spec fn lowerable_exprs(es: Seq<ExprV>) -> bool
    decreases es,
{
    es.len() > 0 ==> lowerable_exprs(es.drop_last()) && lowerable_expr(es.last())
}

pub open spec fn lowerable_items(es: Seq<ElementV>) -> bool
    decreases es,
{
    es.len() > 0 ==> lowerable_items(es.drop_last()) && match es.last() {
        ElementV::Item(x) => lowerable_expr(x),
        ElementV::Spread(_) => false,
    }
}

pub open spec fn lowerable_kvs(fs: Seq<FieldV>) -> bool
    decreases fs,
{
    fs.len() > 0 ==> lowerable_kvs(fs.drop_last()) && match fs.last() {
        FieldV::KV(_, x) => lowerable_expr(x),
        FieldV::Spread(_) => false,
    }
}

/// `c` is the lowering of `e`: the same tree, node for node.
pub open spec fn lowers_expr(e: ExprV, c: cst::Expr) -> bool
    decreases c,
{
    match c {
        cst::Expr::Number(s) => e == ExprV::Number(s@),
        cst::Expr::String(s) => e == ExprV::String(s@),
        cst::Expr::Bool(b) => e == ExprV::Bool(b),
        cst::Expr::Ident(s) => e == ExprV::Ident(s@),
        cst::Expr::Path { segments } => e == ExprV::Path { segments: segments@.map_values(|x: String| x@) },
        cst::Expr::Call { callee, args } => match e {
            ExprV::Call { callee: x, args: ys } => lowers_expr(*x, *callee) && lowers_exprs(ys, args@),
            _ => false,
        },
        cst::Expr::Unary { op, operand } => match e {
            ExprV::Unary { op: o, operand: x } => lower_unop(o) == op && lowers_expr(*x, *operand),
            _ => false,
        },
        cst::Expr::Binary { op, left, right } => match e {
            ExprV::Binary { op: o, left: l, right: r } => lower_binop(o) == Some(op) && lowers_expr(*l, *left)
                && lowers_expr(*r, *right),
            _ => false,
        },
        cst::Expr::Member { object, property } => match e {
            ExprV::Member { object: x, property: p } => p == property@ && lowers_expr(*x, *object),
            _ => false,
        },
        cst::Expr::Index { object, index } => match e {
            ExprV::Index { object: x, index: i } => lowers_expr(*x, *object) && lowers_expr(*i, *index),
            _ => false,
        },
        cst::Expr::ArrayLiteral { elements } => match e {
            ExprV::ArrayLiteral { elements: es } => lowers_items(es, elements@),
            _ => false,
        },
        cst::Expr::ObjectLiteral { fields } => match e {
            ExprV::ObjectLiteral { fields: fs } => lowers_kvs(fs, fields@),
            _ => false,
        },
    }
}

pub open spec fn lowers_exprs(es: Seq<ExprV>, cs: Seq<cst::Expr>) -> bool
    decreases cs,
{
    if cs.len() == 0 {
        es.len() == 0
    } else {
        es.len() > 0 && lowers_exprs(es.drop_last(), cs.drop_last()) && lowers_expr(es.last(), cs.last())
    }
}

pub open spec fn lowers_items(es: Seq<ElementV>, cs: Seq<cst::Expr>) -> bool
    decreases cs,
{
    if cs.len() == 0 {
        es.len() == 0
    } else {
        es.len() > 0 && lowers_items(es.drop_last(), cs.drop_last()) && match es.last() {
            ElementV::Item(x) => lowers_expr(x, cs.last()),
            ElementV::Spread(_) => false,
        }
    }
}

pub open spec fn lowers_kvs(fs: Seq<FieldV>, cs: Seq<(String, cst::Expr)>) -> bool
    decreases cs,
{
    if cs.len() == 0 {
        fs.len() == 0
    } else {
        fs.len() > 0 && lowers_kvs(fs.drop_last(), cs.drop_last()) && match fs.last() {
            FieldV::KV(k, x) => k == cs.last().0@ && lowers_expr(x, cs.last().1),
            FieldV::Spread(_) => false,
        }
    }
}

fn lower_binop_exec(o: sst::BinOp) -> (r: Option<cst::BinOp>)
    ensures
        r == lower_binop(o),
{
    match o {
        sst::BinOp::Add => Some(cst::BinOp::Add),
        sst::BinOp::Sub => Some(cst::BinOp::Sub),
        sst::BinOp::Mul => Some(cst::BinOp::Mul),
        sst::BinOp::Div => Some(cst::BinOp::Div),
        sst::BinOp::Mod => Some(cst::BinOp::Mod),
        sst::BinOp::EqEq => Some(cst::BinOp::EqEq),
        sst::BinOp::NotEq => Some(cst::BinOp::NotEq),
        sst::BinOp::Lt => Some(cst::BinOp::Lt),
        sst::BinOp::Gt => Some(cst::BinOp::Gt),
        sst::BinOp::LtEq => Some(cst::BinOp::LtEq),
        sst::BinOp::GtEq => Some(cst::BinOp::GtEq),
        sst::BinOp::And => Some(cst::BinOp::And),
        sst::BinOp::Or => Some(cst::BinOp::Or),
        sst::BinOp::NullishCoalesce => None,
    }
}

/// The compiler's expression for `e`: `Some` exactly when the compiler
/// takes it, and then the same tree.
#[verifier::spinoff_prover]
pub fn lower_expr(e: &sst::Expr) -> (r: Option<cst::Expr>)
    ensures
        r is Some <==> lowerable_expr(e@),
        r matches Some(c) ==> lowers_expr(e@, c),
    decreases e, 0int,
{
    match e {
        sst::Expr::Number(s) => Some(cst::Expr::Number(s.clone())),
        sst::Expr::String(s) => Some(cst::Expr::String(s.clone())),
        sst::Expr::Bool(b) => Some(cst::Expr::Bool(*b)),
        sst::Expr::Ident(s) => Some(cst::Expr::Ident(s.clone())),
        sst::Expr::Path { segments } => {
            let segs = crate::syntax::ast::clone_strings(segments);
            proof {
                assert(segs@.map_values(|x: String| x@) =~= segments@.map_values(|x: String| x@));
            }
            Some(cst::Expr::Path { segments: segs })
        },
        sst::Expr::Call { callee, args } => {
            let c = lower_expr(callee);
            let a = lower_exprs(args);
            match (c, a) {
                (Some(c), Some(a)) => Some(cst::Expr::Call { callee: Box::new(c), args: a }),
                _ => None,
            }
        },
        sst::Expr::Unary { op, operand } => match lower_expr(operand) {
            Some(x) => Some(
                cst::Expr::Unary {
                    op: match op {
                        sst::UnaryOp::Not => cst::UnaryOp::Not,
                        sst::UnaryOp::Neg => cst::UnaryOp::Neg,
                    },
                    operand: Box::new(x),
                },
            ),
            None => None,
        },
        sst::Expr::Binary { op, left, right } => {
            let o = lower_binop_exec(*op);
            let l = lower_expr(left);
            let r = lower_expr(right);
            match (o, l, r) {
                (Some(o), Some(l), Some(r)) => Some(cst::Expr::Binary { op: o, left: Box::new(l), right: Box::new(r) }),
                _ => None,
            }
        },
        sst::Expr::Member { object, property } => match lower_expr(object) {
            Some(x) => Some(cst::Expr::Member { object: Box::new(x), property: property.clone() }),
            None => None,
        },
        sst::Expr::Index { object, index } => {
            let o = lower_expr(object);
            let i = lower_expr(index);
            match (o, i) {
                (Some(o), Some(i)) => Some(cst::Expr::Index { object: Box::new(o), index: Box::new(i) }),
                _ => None,
            }
        },
        sst::Expr::ArrayLiteral { elements } => match lower_items(elements) {
            Some(v) => Some(cst::Expr::ArrayLiteral { elements: v }),
            None => None,
        },
        sst::Expr::ObjectLiteral { fields } => match lower_kvs(fields) {
            Some(v) => Some(cst::Expr::ObjectLiteral { fields: v }),
            None => None,
        },
        _ => None,
    }
}

#[verifier::loop_isolation(false)]
pub fn lower_exprs(v: &Vec<sst::Expr>) -> (r: Option<Vec<cst::Expr>>)
    ensures
        r is Some <==> lowerable_exprs(crate::syntax::view::exprs_v(v@)),
        r matches Some(c) ==> lowers_exprs(crate::syntax::view::exprs_v(v@), c@),
    decreases v, 1int,
{
    let mut out: Vec<cst::Expr> = Vec::new();
    let mut i: usize = 0;
    proof {
        assert(v@.subrange(0, 0) =~= Seq::<sst::Expr>::empty());
    }
    while i < v.len()
        invariant
            i <= v@.len(),
            lowerable_exprs(crate::syntax::view::exprs_v(v@.subrange(0, i as int))),
            lowers_exprs(crate::syntax::view::exprs_v(v@.subrange(0, i as int)), out@),
        decreases v@.len() - i,
    {
        proof {
            assert(decreases_to!(*v => v@[i as int]));
        }
        let ghost before = out@;
        proof {
            let p = v@.subrange(0, i + 1);
            assert(p.drop_last() =~= v@.subrange(0, i as int));
            assert(crate::syntax::view::exprs_v(p).drop_last() =~= crate::syntax::view::exprs_v(v@.subrange(0, i as int)));
        }
        match lower_expr(&v[i]) {
            Some(x) => {
                out.push(x);
                proof {
                    assert(out@.drop_last() =~= before);
                }
            },
            None => {
                proof {
                    lemma_unlowerable_exprs_prefix(v@, i as int);
                }
                return None;
            },
        }
        i += 1;
    }
    proof {
        assert(v@.subrange(0, v@.len() as int) =~= v@);
    }
    Some(out)
}

/// One expression the compiler refuses makes the whole list refused.
proof fn lemma_unlowerable_exprs_prefix(v: Seq<sst::Expr>, i: int)
    requires
        0 <= i < v.len(),
        !lowerable_expr(v[i]@),
    ensures
        !lowerable_exprs(crate::syntax::view::exprs_v(v)),
    decreases v.len(),
{
    assert(crate::syntax::view::exprs_v(v).drop_last() =~= crate::syntax::view::exprs_v(v.drop_last()));
    if i < v.len() - 1 {
        assert(v.drop_last()[i] == v[i]);
        lemma_unlowerable_exprs_prefix(v.drop_last(), i);
    }
}

#[verifier::loop_isolation(false)]
pub fn lower_items(v: &Vec<sst::ArrayElement>) -> (r: Option<Vec<cst::Expr>>)
    ensures
        r is Some <==> lowerable_items(crate::syntax::view::elements_v(v@)),
        r matches Some(c) ==> lowers_items(crate::syntax::view::elements_v(v@), c@),
    decreases v, 1int,
{
    let mut out: Vec<cst::Expr> = Vec::new();
    let mut i: usize = 0;
    proof {
        assert(v@.subrange(0, 0) =~= Seq::<sst::ArrayElement>::empty());
    }
    while i < v.len()
        invariant
            i <= v@.len(),
            lowerable_items(crate::syntax::view::elements_v(v@.subrange(0, i as int))),
            lowers_items(crate::syntax::view::elements_v(v@.subrange(0, i as int)), out@),
        decreases v@.len() - i,
    {
        proof {
            assert(decreases_to!(*v => v@[i as int]));
        }
        let ghost before = out@;
        proof {
            let p = v@.subrange(0, i + 1);
            assert(p.drop_last() =~= v@.subrange(0, i as int));
            assert(crate::syntax::view::elements_v(p).drop_last() =~= crate::syntax::view::elements_v(v@.subrange(0, i as int)));
        }
        let x = match &v[i] {
            sst::ArrayElement::Item(y) => lower_expr(y),
            sst::ArrayElement::Spread(_) => None,
        };
        match x {
            Some(x) => {
                out.push(x);
                proof {
                    assert(out@.drop_last() =~= before);
                }
            },
            None => {
                proof {
                    lemma_unlowerable_items_prefix(v@, i as int);
                }
                return None;
            },
        }
        i += 1;
    }
    proof {
        assert(v@.subrange(0, v@.len() as int) =~= v@);
    }
    Some(out)
}

proof fn lemma_unlowerable_items_prefix(v: Seq<sst::ArrayElement>, i: int)
    requires
        0 <= i < v.len(),
        match v[i] {
            sst::ArrayElement::Item(x) => !lowerable_expr(x@),
            sst::ArrayElement::Spread(_) => true,
        },
    ensures
        !lowerable_items(crate::syntax::view::elements_v(v)),
    decreases v.len(),
{
    assert(crate::syntax::view::elements_v(v).drop_last() =~= crate::syntax::view::elements_v(v.drop_last()));
    if i < v.len() - 1 {
        assert(v.drop_last()[i] == v[i]);
        lemma_unlowerable_items_prefix(v.drop_last(), i);
    }
}

#[verifier::loop_isolation(false)]
pub fn lower_kvs(v: &Vec<sst::ObjectField>) -> (r: Option<Vec<(String, cst::Expr)>>)
    ensures
        r is Some <==> lowerable_kvs(crate::syntax::view::fields_v(v@)),
        r matches Some(c) ==> lowers_kvs(crate::syntax::view::fields_v(v@), c@),
    decreases v, 1int,
{
    let mut out: Vec<(String, cst::Expr)> = Vec::new();
    let mut i: usize = 0;
    proof {
        assert(v@.subrange(0, 0) =~= Seq::<sst::ObjectField>::empty());
    }
    while i < v.len()
        invariant
            i <= v@.len(),
            lowerable_kvs(crate::syntax::view::fields_v(v@.subrange(0, i as int))),
            lowers_kvs(crate::syntax::view::fields_v(v@.subrange(0, i as int)), out@),
        decreases v@.len() - i,
    {
        proof {
            assert(decreases_to!(*v => v@[i as int]));
        }
        let ghost before = out@;
        proof {
            let p = v@.subrange(0, i + 1);
            assert(p.drop_last() =~= v@.subrange(0, i as int));
            assert(crate::syntax::view::fields_v(p).drop_last() =~= crate::syntax::view::fields_v(v@.subrange(0, i as int)));
        }
        let x = match &v[i] {
            sst::ObjectField::KV(k, y) => match lower_expr(y) {
                Some(c) => Some((k.clone(), c)),
                None => None,
            },
            sst::ObjectField::Spread(_) => None,
        };
        match x {
            Some(x) => {
                out.push(x);
                proof {
                    assert(out@.drop_last() =~= before);
                }
            },
            None => {
                proof {
                    lemma_unlowerable_kvs_prefix(v@, i as int);
                }
                return None;
            },
        }
        i += 1;
    }
    proof {
        assert(v@.subrange(0, v@.len() as int) =~= v@);
    }
    Some(out)
}

proof fn lemma_unlowerable_kvs_prefix(v: Seq<sst::ObjectField>, i: int)
    requires
        0 <= i < v.len(),
        match v[i] {
            sst::ObjectField::KV(_, x) => !lowerable_expr(x@),
            sst::ObjectField::Spread(_) => true,
        },
    ensures
        !lowerable_kvs(crate::syntax::view::fields_v(v)),
    decreases v.len(),
{
    assert(crate::syntax::view::fields_v(v).drop_last() =~= crate::syntax::view::fields_v(v.drop_last()));
    if i < v.len() - 1 {
        assert(v.drop_last()[i] == v[i]);
        lemma_unlowerable_kvs_prefix(v.drop_last(), i);
    }
}


// ── Statements ───────────────────────────────────────────────────────────

/// A module's segments as one specifier, `/` between them.
pub open spec fn joined(m: Seq<Seq<char>>) -> Seq<char>
    decreases m.len(),
{
    if m.len() == 0 {
        Seq::empty()
    } else if m.len() == 1 {
        m[0]
    } else {
        joined(m.drop_last()) + "/"@ + m.last()
    }
}

pub open spec fn lowerable_opt_type(t: Option<sst::TypeV>) -> bool {
    match t {
        Some(x) => lower_type_v(x) is Some,
        None => true,
    }
}

/// `c` is the lowering of the optional annotation `t`.
pub open spec fn lowers_opt_type(t: Option<sst::TypeV>, c: Option<cty::Type>) -> bool {
    match t {
        Some(x) => c matches Some(y) && lower_type_v(x) == Some(y@),
        None => c is None,
    }
}

pub open spec fn lowerable_params(ps: Seq<ParamV>) -> bool {
    forall|i: int| 0 <= i < ps.len() ==> lower_type_v(#[trigger] ps[i].ty) is Some
}

pub open spec fn lowers_params(ps: Seq<ParamV>, cs: Seq<cst::Param>) -> bool {
    &&& ps.len() == cs.len()
    &&& forall|i: int|
        0 <= i < ps.len() ==> {
            &&& (#[trigger] cs[i]).name@ == ps[i].name
            &&& lower_type_v(ps[i].ty) == Some(cs[i].ty@)
            &&& cs[i].line == ps[i].line
            &&& cs[i].col == ps[i].col
        }
}

/// Whether the compiler takes the statement: no `switch`, `try`, `throw`,
/// type declaration, namespace or wildcard import anywhere in it, and
/// every expression and annotation taken.
pub open spec fn lowerable_stmt(s: StmtV) -> bool
    decreases s,
{
    match s {
        StmtV::Let { ty, value, .. } => lowerable_opt_type(ty) && lowerable_expr(value),
        StmtV::Const { ty, value, .. } => lowerable_opt_type(ty) && lowerable_expr(value),
        StmtV::Assign { value, .. } => lowerable_expr(value),
        StmtV::AssignIndex { index, value, .. } => lowerable_expr(index) && lowerable_expr(value),
        StmtV::AssignMember { object, value, .. } => lowerable_expr(*object) && lowerable_expr(value),
        StmtV::Function(f) => lowerable_function(f),
        StmtV::Return(e) => match e {
            Some(x) => lowerable_expr(x),
            None => true,
        },
        StmtV::If { condition, then_branch, else_branch } => lowerable_expr(condition) && lowerable_stmts(then_branch)
            && match else_branch {
            Some(b) => lowerable_stmts(b),
            None => true,
        },
        StmtV::While { condition, body } => lowerable_expr(condition) && lowerable_stmts(body),
        StmtV::For { init, condition, update, body } => {
            &&& match init {
                Some(x) => lowerable_stmt(*x),
                None => true,
            }
            &&& match condition {
                Some(x) => lowerable_expr(x),
                None => true,
            }
            &&& match update {
                Some(x) => lowerable_stmt(*x),
                None => true,
            }
            &&& lowerable_stmts(body)
        },
        StmtV::ForOf { ty, iterable, body, .. } => lowerable_opt_type(ty) && lowerable_expr(*iterable)
            && lowerable_stmts(body),
        StmtV::Break => true,
        StmtV::Continue => true,
        StmtV::Expr(e) => lowerable_expr(e),
        StmtV::FromImport { wildcard, .. } => !wildcard,
        StmtV::ExportDecl(inner) => lowerable_stmt(*inner),
        StmtV::ExportSpec(_) => true,
        StmtV::ExportDefault(DefaultV::Function(f)) => lowerable_function(f),
        StmtV::ExportDefault(DefaultV::Expr(e)) => lowerable_expr(e),
        _ => false,
    }
}

pub open spec fn lowerable_function(f: FunctionV) -> bool
    decreases f,
{
    lowerable_params(f.params) && lower_type_v(f.return_type) is Some && lowerable_stmts(f.body)
}

pub open spec fn lowerable_stmts(ss: Seq<StmtV>) -> bool
    decreases ss,
{
    ss.len() > 0 ==> lowerable_stmts(ss.drop_last()) && lowerable_stmt(ss.last())
}

/// `c` is the lowering of `s`: the same statement, node for node (an
/// assignment's position dropped, a named import's module joined).
pub open spec fn lowers_stmt(s: StmtV, c: cst::Stmt) -> bool
    decreases c,
{
    match c {
        cst::Stmt::Let { name, ty, value, line, col } => match s {
            StmtV::Let { name: n, ty: t, value: v, line: l, col: k } => n == name@ && l == line && k == col
                && lowers_opt_type(t, ty) && lowers_expr(v, value),
            _ => false,
        },
        cst::Stmt::Const { name, ty, value, line, col } => match s {
            StmtV::Const { name: n, ty: t, value: v, line: l, col: k } => n == name@ && l == line && k == col
                && lowers_opt_type(t, ty) && lowers_expr(v, value),
            _ => false,
        },
        cst::Stmt::Assign { name, value } => match s {
            StmtV::Assign { name: n, value: v, .. } => n == name@ && lowers_expr(v, value),
            _ => false,
        },
        cst::Stmt::AssignIndex { object, index, value } => match s {
            StmtV::AssignIndex { object: o, index: i, value: v, .. } => o == object@ && lowers_expr(i, index)
                && lowers_expr(v, value),
            _ => false,
        },
        cst::Stmt::AssignMember { object, property, value } => match s {
            StmtV::AssignMember { object: o, property: p, value: v, .. } => p == property@ && lowers_expr(
                *o,
                *object,
            ) && lowers_expr(v, value),
            _ => false,
        },
        cst::Stmt::Function(g) => match s {
            StmtV::Function(f) => lowers_function(f, g),
            _ => false,
        },
        cst::Stmt::Return(ce) => match s {
            StmtV::Return(e) => match (e, ce) {
                (Some(x), Some(y)) => lowers_expr(x, y),
                (None, None) => true,
                _ => false,
            },
            _ => false,
        },
        cst::Stmt::If { condition, then_branch, else_branch } => match s {
            StmtV::If { condition: x, then_branch: t, else_branch: e } => lowers_expr(x, condition) && lowers_stmts(
                t,
                then_branch@,
            ) && match (e, else_branch) {
                (Some(a), Some(b)) => lowers_stmts(a, b@),
                (None, None) => true,
                _ => false,
            },
            _ => false,
        },
        cst::Stmt::While { condition, body } => match s {
            StmtV::While { condition: x, body: b } => lowers_expr(x, condition) && lowers_stmts(b, body@),
            _ => false,
        },
        cst::Stmt::For { init, condition, update, body } => match s {
            StmtV::For { init: i, condition: x, update: u, body: b } => {
                &&& match (i, init) {
                    (Some(a), Some(y)) => lowers_stmt(*a, *y),
                    (None, None) => true,
                    _ => false,
                }
                &&& match (x, condition) {
                    (Some(a), Some(y)) => lowers_expr(a, y),
                    (None, None) => true,
                    _ => false,
                }
                &&& match (u, update) {
                    (Some(a), Some(y)) => lowers_stmt(*a, *y),
                    (None, None) => true,
                    _ => false,
                }
                &&& lowers_stmts(b, body@)
            },
            _ => false,
        },
        cst::Stmt::ForOf { name, ty, iterable, body } => match s {
            StmtV::ForOf { name: n, ty: t, iterable: it, body: b } => n == name@ && lowers_opt_type(t, ty)
                && lowers_expr(*it, *iterable) && lowers_stmts(b, body@),
            _ => false,
        },
        cst::Stmt::Break => s is Break,
        cst::Stmt::Continue => s is Continue,
        cst::Stmt::Expr(ce) => match s {
            StmtV::Expr(e) => lowers_expr(e, ce),
            _ => false,
        },
        cst::Stmt::Import { default, named, module } => match s {
            StmtV::FromImport { module: m, names, wildcard } => !wildcard && default is None && module@ == joined(m)
                && named@.map_values(|n: cst::ImportNamed| NamedV { name: n.name@, alias: opt_str(n.alias) })
                == names,
            _ => false,
        },
        cst::Stmt::ExportDecl(inner) => match s {
            StmtV::ExportDecl(x) => lowers_stmt(*x, *inner),
            _ => false,
        },
        cst::Stmt::ExportSpec(items) => match s {
            StmtV::ExportSpec(xs) => items@.map_values(
                |n: cst::ExportItem| NamedV { name: n.name@, alias: opt_str(n.alias) },
            ) == xs,
            _ => false,
        },
        cst::Stmt::ExportDefault(cst::ExportDefault::Function(g)) => match s {
            StmtV::ExportDefault(DefaultV::Function(f)) => lowers_function(f, g),
            _ => false,
        },
        cst::Stmt::ExportDefault(cst::ExportDefault::Expr(ce)) => match s {
            StmtV::ExportDefault(DefaultV::Expr(e)) => lowers_expr(e, ce),
            _ => false,
        },
    }
}

pub open spec fn lowers_function(f: FunctionV, g: cst::Function) -> bool
    decreases g,
{
    &&& g.name@ == f.name
    &&& lowers_params(f.params, g.params@)
    &&& lower_type_v(f.return_type) == Some(g.return_type@)
    &&& lowers_stmts(f.body, g.body@)
}

pub open spec fn lowers_stmts(ss: Seq<StmtV>, cs: Seq<cst::Stmt>) -> bool
    decreases cs,
{
    if cs.len() == 0 {
        ss.len() == 0
    } else {
        ss.len() > 0 && lowers_stmts(ss.drop_last(), cs.drop_last()) && lowers_stmt(ss.last(), cs.last())
    }
}


fn lower_opt_type(t: &Option<sst::Type>) -> (r: Option<Option<cty::Type>>)
    ensures
        r is Some <==> lowerable_opt_type(crate::syntax::view::opt_type(*t)),
        r matches Some(c) ==> lowers_opt_type(crate::syntax::view::opt_type(*t), c),
{
    match t {
        Some(x) => match lower_type(x) {
            Some(c) => Some(Some(c)),
            None => None,
        },
        None => Some(None),
    }
}

/// The module's segments joined with `/`.
fn join_module(m: &Vec<String>) -> (r: String)
    ensures
        r@ == joined(crate::syntax::view::strs_v(m@)),
{
    let ghost sv = crate::syntax::view::strs_v(m@);
    if m.len() == 0 {
        return String::new();
    }
    let mut out = m[0].clone();
    let mut i: usize = 1;
    proof {
        assert(sv.take(1) =~= seq![sv[0]]);
    }
    while i < m.len()
        invariant
            1 <= i <= m@.len(),
            sv == crate::syntax::view::strs_v(m@),
            out@ == joined(sv.take(i as int)),
        decreases m@.len() - i,
    {
        out.append("/");
        out.append(m[i].as_str());
        proof {
            reveal_strlit("/");
            assert(sv.take(i + 1).drop_last() =~= sv.take(i as int));
            assert(out@ =~= joined(sv.take(i as int)) + "/"@ + sv[i as int]);
        }
        i += 1;
    }
    proof {
        assert(sv.take(m@.len() as int) =~= sv);
    }
    out
}

fn lower_params(v: &Vec<sst::Param>) -> (r: Option<Vec<cst::Param>>)
    ensures
        r is Some <==> lowerable_params(params_v(v@)),
        r matches Some(c) ==> lowers_params(params_v(v@), c@),
{
    let ghost pv = params_v(v@);
    let mut out: Vec<cst::Param> = Vec::new();
    let mut i: usize = 0;
    while i < v.len()
        invariant
            i <= v@.len(),
            pv == params_v(v@),
            out@.len() == i,
            forall|j: int| 0 <= j < i ==> lower_type_v(#[trigger] pv[j].ty) is Some,
            forall|j: int|
                0 <= j < i ==> {
                    &&& (#[trigger] out@[j]).name@ == pv[j].name
                    &&& lower_type_v(pv[j].ty) == Some(out@[j].ty@)
                    &&& out@[j].line == pv[j].line
                    &&& out@[j].col == pv[j].col
                },
        decreases v@.len() - i,
    {
        proof {
            assert(pv[i as int] == crate::syntax::view::param_v(v@[i as int]));
        }
        match lower_type(&v[i].ty) {
            Some(t) => {
                out.push(cst::Param { name: v[i].name.clone(), ty: t, line: v[i].line, col: v[i].col });
            },
            None => {
                proof {
                    assert(lower_type_v(pv[i as int].ty) is None);
                }
                return None;
            },
        }
        i += 1;
    }
    Some(out)
}

/// The compiler's function for `f`, when it takes it.
fn lower_function(f: &sst::Function) -> (r: Option<cst::Function>)
    ensures
        r is Some <==> lowerable_function(function_v(*f)),
        r matches Some(g) ==> lowers_function(function_v(*f), g),
    decreases f, 0int,
{
    let ps = lower_params(&f.params);
    let rt = lower_type(&f.return_type);
    let body = lower_stmts(&f.body);
    match (ps, rt, body) {
        (Some(params), Some(return_type), Some(body)) => Some(
            cst::Function { name: f.name.clone(), params, return_type, body },
        ),
        _ => None,
    }
}

/// The compiler's statements for `v`, when it takes them all.
#[verifier::loop_isolation(false)]
pub fn lower_stmts(v: &Vec<sst::Stmt>) -> (r: Option<Vec<cst::Stmt>>)
    ensures
        r is Some <==> lowerable_stmts(stmts_v(v@)),
        r matches Some(c) ==> lowers_stmts(stmts_v(v@), c@),
    decreases v, 1int,
{
    let mut out: Vec<cst::Stmt> = Vec::new();
    let mut i: usize = 0;
    proof {
        assert(v@.subrange(0, 0) =~= Seq::<sst::Stmt>::empty());
    }
    while i < v.len()
        invariant
            i <= v@.len(),
            lowerable_stmts(stmts_v(v@.subrange(0, i as int))),
            lowers_stmts(stmts_v(v@.subrange(0, i as int)), out@),
        decreases v@.len() - i,
    {
        proof {
            assert(decreases_to!(*v => v@[i as int]));
        }
        let ghost before = out@;
        proof {
            let p = v@.subrange(0, i + 1);
            assert(p.drop_last() =~= v@.subrange(0, i as int));
            assert(stmts_v(p).drop_last() =~= stmts_v(v@.subrange(0, i as int)));
        }
        match lower_stmt(&v[i]) {
            Some(x) => {
                out.push(x);
                proof {
                    assert(out@.drop_last() =~= before);
                }
            },
            None => {
                proof {
                    lemma_unlowerable_stmts_prefix(v@, i as int);
                }
                return None;
            },
        }
        i += 1;
    }
    proof {
        assert(v@.subrange(0, v@.len() as int) =~= v@);
    }
    Some(out)
}

proof fn lemma_unlowerable_stmts_prefix(v: Seq<sst::Stmt>, i: int)
    requires
        0 <= i < v.len(),
        !lowerable_stmt(v[i]@),
    ensures
        !lowerable_stmts(stmts_v(v)),
    decreases v.len(),
{
    assert(stmts_v(v).drop_last() =~= stmts_v(v.drop_last()));
    if i < v.len() - 1 {
        assert(v.drop_last()[i] == v[i]);
        lemma_unlowerable_stmts_prefix(v.drop_last(), i);
    }
}

fn lower_names(v: &Vec<sst::ImportNamed>) -> (r: Vec<cst::ImportNamed>)
    ensures
        r@.map_values(|n: cst::ImportNamed| NamedV { name: n.name@, alias: opt_str(n.alias) }) == v@.map_values(
            |n: sst::ImportNamed| crate::syntax::view::named_v(n),
        ),
{
    let mut out: Vec<cst::ImportNamed> = Vec::new();
    let mut i: usize = 0;
    while i < v.len()
        invariant
            i <= v@.len(),
            out@.len() == i,
            forall|j: int|
                0 <= j < i ==> (#[trigger] out@[j]).name@ == v@[j].name@ && opt_str(out@[j].alias) == opt_str(
                    v@[j].alias,
                ),
        decreases v@.len() - i,
    {
        let alias = v[i].alias.clone();
        proof {
            assert(opt_str(alias) == opt_str(v@[i as int].alias));
        }
        out.push(cst::ImportNamed { name: v[i].name.clone(), alias });
        i += 1;
    }
    proof {
        assert(out@.map_values(|n: cst::ImportNamed| NamedV { name: n.name@, alias: opt_str(n.alias) })
            =~= v@.map_values(|n: sst::ImportNamed| crate::syntax::view::named_v(n)));
    }
    out
}

fn lower_items_export(v: &Vec<sst::ExportItem>) -> (r: Vec<cst::ExportItem>)
    ensures
        r@.map_values(|n: cst::ExportItem| NamedV { name: n.name@, alias: opt_str(n.alias) }) == v@.map_values(
            |n: sst::ExportItem| crate::syntax::view::item_v(n),
        ),
{
    let mut out: Vec<cst::ExportItem> = Vec::new();
    let mut i: usize = 0;
    while i < v.len()
        invariant
            i <= v@.len(),
            out@.len() == i,
            forall|j: int|
                0 <= j < i ==> (#[trigger] out@[j]).name@ == v@[j].name@ && opt_str(out@[j].alias) == opt_str(
                    v@[j].alias,
                ),
        decreases v@.len() - i,
    {
        let alias = v[i].alias.clone();
        proof {
            assert(opt_str(alias) == opt_str(v@[i as int].alias));
        }
        out.push(cst::ExportItem { name: v[i].name.clone(), alias });
        i += 1;
    }
    proof {
        assert(out@.map_values(|n: cst::ExportItem| NamedV { name: n.name@, alias: opt_str(n.alias) })
            =~= v@.map_values(|n: sst::ExportItem| crate::syntax::view::item_v(n)));
    }
    out
}

fn lower_opt_expr(e: &Option<sst::Expr>) -> (r: Option<Option<cst::Expr>>)
    ensures
        r is Some <==> match *e {
            Some(x) => lowerable_expr(x@),
            None => true,
        },
        r matches Some(c) ==> match (*e, c) {
            (Some(x), Some(y)) => lowers_expr(x@, y),
            (None, None) => true,
            _ => false,
        },
{
    match e {
        Some(x) => match lower_expr(x) {
            Some(c) => Some(Some(c)),
            None => None,
        },
        None => Some(None),
    }
}

/// The compiler's statement for `s`: `Some` exactly when the compiler
/// takes it, and then the same statement.
#[verifier::spinoff_prover]
#[verifier::rlimit(60)]
pub fn lower_stmt(s: &sst::Stmt) -> (r: Option<cst::Stmt>)
    ensures
        r is Some <==> lowerable_stmt(s@),
        r matches Some(c) ==> lowers_stmt(s@, c),
    decreases s, 0int,
{
    match s {
        sst::Stmt::Let { name, ty, value, line, col } => {
            let t = lower_opt_type(ty);
            let v = lower_expr(value);
            match (t, v) {
                (Some(t), Some(v)) => Some(cst::Stmt::Let { name: name.clone(), ty: t, value: v, line: *line, col: *col }),
                _ => None,
            }
        },
        sst::Stmt::Const { name, ty, value, line, col } => {
            let t = lower_opt_type(ty);
            let v = lower_expr(value);
            match (t, v) {
                (Some(t), Some(v)) => Some(
                    cst::Stmt::Const { name: name.clone(), ty: t, value: v, line: *line, col: *col },
                ),
                _ => None,
            }
        },
        sst::Stmt::Assign { name, value, .. } => match lower_expr(value) {
            Some(v) => Some(cst::Stmt::Assign { name: name.clone(), value: v }),
            None => None,
        },
        sst::Stmt::AssignIndex { object, index, value, .. } => {
            let i = lower_expr(index);
            let v = lower_expr(value);
            match (i, v) {
                (Some(i), Some(v)) => Some(cst::Stmt::AssignIndex { object: object.clone(), index: i, value: v }),
                _ => None,
            }
        },
        sst::Stmt::AssignMember { object, property, value, .. } => {
            let o = lower_expr(object);
            let v = lower_expr(value);
            match (o, v) {
                (Some(o), Some(v)) => Some(
                    cst::Stmt::AssignMember { object: Box::new(o), property: property.clone(), value: v },
                ),
                _ => None,
            }
        },
        sst::Stmt::Function(f) => match lower_function(f) {
            Some(g) => Some(cst::Stmt::Function(g)),
            None => None,
        },
        sst::Stmt::Return(e) => match lower_opt_expr(e) {
            Some(c) => Some(cst::Stmt::Return(c)),
            None => None,
        },
        sst::Stmt::If { condition, then_branch, else_branch } => {
            let c = lower_expr(condition);
            let t = lower_stmts(then_branch);
            let e = match else_branch {
                Some(b) => match lower_stmts(b) {
                    Some(x) => Some(Some(x)),
                    None => None,
                },
                None => Some(None),
            };
            proof {
                match else_branch {
                    Some(b) => {
                        assert(crate::syntax::view::opt_stmts_v(*else_branch) == Some(stmts_v(b@)));
                    },
                    None => {},
                }
            }
            match (c, t, e) {
                (Some(c), Some(t), Some(e)) => Some(cst::Stmt::If { condition: c, then_branch: t, else_branch: e }),
                _ => None,
            }
        },
        sst::Stmt::While { condition, body } => {
            let c = lower_expr(condition);
            let b = lower_stmts(body);
            match (c, b) {
                (Some(c), Some(b)) => Some(cst::Stmt::While { condition: c, body: b }),
                _ => None,
            }
        },
        sst::Stmt::For { init, condition, update, body } => {
            let i = match init {
                Some(x) => match lower_stmt(x) {
                    Some(y) => Some(Some(Box::new(y))),
                    None => None,
                },
                None => Some(None),
            };
            let c = lower_opt_expr(condition);
            let u = match update {
                Some(x) => match lower_stmt(x) {
                    Some(y) => Some(Some(Box::new(y))),
                    None => None,
                },
                None => Some(None),
            };
            let b = lower_stmts(body);
            match (i, c, u, b) {
                (Some(i), Some(c), Some(u), Some(b)) => Some(
                    cst::Stmt::For { init: i, condition: c, update: u, body: b },
                ),
                _ => None,
            }
        },
        sst::Stmt::ForOf { name, ty, iterable, body } => {
            let t = lower_opt_type(ty);
            let it = lower_expr(iterable);
            let b = lower_stmts(body);
            match (t, it, b) {
                (Some(t), Some(it), Some(b)) => Some(
                    cst::Stmt::ForOf { name: name.clone(), ty: t, iterable: Box::new(it), body: b },
                ),
                _ => None,
            }
        },
        sst::Stmt::Break => Some(cst::Stmt::Break),
        sst::Stmt::Continue => Some(cst::Stmt::Continue),
        sst::Stmt::Expr(e) => match lower_expr(e) {
            Some(c) => Some(cst::Stmt::Expr(c)),
            None => None,
        },
        sst::Stmt::FromImport { module, names, wildcard } => if *wildcard {
            None
        } else {
            Some(cst::Stmt::Import { default: None, named: lower_names(names), module: join_module(module) })
        },
        sst::Stmt::ExportDecl(inner) => match lower_stmt(inner) {
            Some(c) => Some(cst::Stmt::ExportDecl(Box::new(c))),
            None => None,
        },
        sst::Stmt::ExportSpec(items) => Some(cst::Stmt::ExportSpec(lower_items_export(items))),
        sst::Stmt::ExportDefault(sst::ExportDefault::Function(f)) => match lower_function(f) {
            Some(g) => Some(cst::Stmt::ExportDefault(cst::ExportDefault::Function(g))),
            None => None,
        },
        sst::Stmt::ExportDefault(sst::ExportDefault::Expr(e)) => match lower_expr(e) {
            Some(c) => Some(cst::Stmt::ExportDefault(cst::ExportDefault::Expr(c))),
            None => None,
        },
        _ => None,
    }
}

/// The compiler's program for a parsed one: `Ok` exactly when the
/// compiler takes every statement, and then the same statements; else an
/// error naming the first statement it refuses.
pub fn lower_program(p: &sst::Program) -> (r: Result<cst::Program, String>)
    ensures
        r is Ok <==> lowerable_stmts(p@),
        r matches Ok(c) ==> lowers_stmts(p@, c.stmts@),
{
    match lower_stmts(&p.stmts) {
        Some(stmts) => Ok(cst::Program { stmts }),
        None => Err(crate::text::owned("the program uses a construct the compiler does not translate")),
    }
}

} // verus!
