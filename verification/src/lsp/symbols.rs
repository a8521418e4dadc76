//! The document symbol table: every named definition of a `.tsr`
//! program (variables, constants, functions and their parameters, loop
//! variables, imports, type aliases, interfaces, enums), flattened into one
//! list, plus the human-readable type labels shown for them.

use crate::syntax::lexer::lex_from;
use crate::lsp::types::CompletionItemKind;
use crate::syntax::ast::{
    fields_view, types_view, ArrayElement, ImportNamed, Param, SwitchCase, ArrowBody, ExportDefault, Expr, Function, LiteralV,
    LiteralValue, ObjectField, Program, Stmt, Type, TypeV,
};
use crate::validation::infer::{infer_program, TypeEnv};
use vstd::string::StrSliceExecFns;
use crate::text::{
    split_lines,
    i64_decimal, int_decimal, join, join_strings, lemma_join_push, owned, push_char, strings_view,
};
use vstd::prelude::*;

verus! {

broadcast use vstd::std_specs::vec::group_vec_axioms;

/// What a [`Symbol`] represents.
#[derive(Debug, Clone, Copy, PartialEq, Eq, Structural)]
pub enum SymbolKind {
    Variable,
    Constant,
    Function,
    Parameter,
    LoopVar,
    Module,
    TypeAlias,
    Interface,
    Enum,
}

pub open spec fn spec_completion_kind(k: SymbolKind) -> CompletionItemKind {
    match k {
        SymbolKind::Variable | SymbolKind::Parameter | SymbolKind::LoopVar => CompletionItemKind::Variable,
        SymbolKind::Constant => CompletionItemKind::Constant,
        SymbolKind::Function => CompletionItemKind::Function,
        SymbolKind::Module => CompletionItemKind::Module,
        SymbolKind::TypeAlias => CompletionItemKind::Class,
        SymbolKind::Interface => CompletionItemKind::Interface,
        SymbolKind::Enum => CompletionItemKind::Enum,
    }
}

pub open spec fn spec_kind_label(k: SymbolKind) -> Seq<char> {
    match k {
        SymbolKind::Variable => "variable"@,
        SymbolKind::Constant => "constant"@,
        SymbolKind::Function => "function"@,
        SymbolKind::Parameter => "parameter"@,
        SymbolKind::LoopVar => "loop variable"@,
        SymbolKind::Module => "module"@,
        SymbolKind::TypeAlias => "type alias"@,
        SymbolKind::Interface => "interface"@,
        SymbolKind::Enum => "enum"@,
    }
}

impl SymbolKind {
    /// The closest-matching completion kind.
    pub fn completion_kind(self) -> (r: CompletionItemKind)
        ensures
            r == spec_completion_kind(self),
    {
        match self {
            SymbolKind::Variable | SymbolKind::Parameter | SymbolKind::LoopVar => CompletionItemKind::Variable,
            SymbolKind::Constant => CompletionItemKind::Constant,
            SymbolKind::Function => CompletionItemKind::Function,
            SymbolKind::Module => CompletionItemKind::Module,
            SymbolKind::TypeAlias => CompletionItemKind::Class,
            SymbolKind::Interface => CompletionItemKind::Interface,
            SymbolKind::Enum => CompletionItemKind::Enum,
        }
    }

    /// Friendly label for the hover panel header.
    pub fn label(self) -> (r: &'static str)
        ensures
            r@ == spec_kind_label(self),
    {
        match self {
            SymbolKind::Variable => "variable",
            SymbolKind::Constant => "constant",
            SymbolKind::Function => "function",
            SymbolKind::Parameter => "parameter",
            SymbolKind::LoopVar => "loop variable",
            SymbolKind::Module => "module",
            SymbolKind::TypeAlias => "type alias",
            SymbolKind::Interface => "interface",
            SymbolKind::Enum => "enum",
        }
    }
}

// ── Type labels ─────────────────────────────────────────────────────────

/// Human-readable label of a list of types.
pub open spec fn type_labels(s: Seq<TypeV>) -> Seq<Seq<char>>
    decreases s,
{
    if s.len() == 0 {
        Seq::empty()
    } else {
        type_labels(s.drop_last()).push(type_label_of(s.last()))
    }
}

/// `n: T` / `n?: T` for each field of an object type.
pub open spec fn field_labels(s: Seq<(Seq<char>, TypeV, bool)>) -> Seq<Seq<char>>
    decreases s,
{
    if s.len() == 0 {
        Seq::empty()
    } else {
        let f = s.last();
        field_labels(s.drop_last()).push(
            if f.2 {
                f.0 + "?: "@ + type_label_of(f.1)
            } else {
                f.0 + ": "@ + type_label_of(f.1)
            },
        )
    }
}

/// Text of a literal type.
pub open spec fn literal_label(l: LiteralV) -> Seq<char> {
    match l {
        LiteralV::String(s) => "\""@ + s + "\""@,
        LiteralV::Number(n) => n,
        LiteralV::Bool(b) => if b {
            "true"@
        } else {
            "false"@
        },
    }
}

/// Human-readable label for a type annotation.
pub open spec fn type_label_of(t: TypeV) -> Seq<char>
    decreases t,
{
    match t {
        TypeV::Optional(inner) => type_label_of(*inner) + "?"@,
        TypeV::Array(inner) => type_label_of(*inner) + "[]"@,
        TypeV::Object { fields, .. } => "{ "@ + join(field_labels(fields), ", "@) + " }"@,
        TypeV::Primitive(name) => name,
        TypeV::Named(name) => name,
        TypeV::Null => "null"@,
        TypeV::Undefined => "undefined"@,
        TypeV::Union(members) => join(type_labels(members), " | "@),
        TypeV::Intersection(members) => join(type_labels(members), " & "@),
        TypeV::Literal(l) => literal_label(l),
        TypeV::Function { params, return_type } => "("@ + join(type_labels(params), ", "@) + ") => "@
            + type_label_of(*return_type),
    }
}

proof fn lemma_type_labels_take(s: Seq<Type>, i: int)
    requires
        0 <= i < s.len(),
    ensures
        type_labels(types_view(s.take(i + 1))) == type_labels(types_view(s.take(i))).push(
            type_label_of(s[i]@),
        ),
{
    assert(s.take(i + 1).drop_last() =~= s.take(i));
    let tv = types_view(s.take(i));
    assert(types_view(s.take(i + 1)) == tv.push(s[i]@));
    assert(tv.push(s[i]@).drop_last() =~= tv);
}

proof fn lemma_field_labels_take(s: Seq<(String, Box<Type>, bool)>, i: int)
    requires
        0 <= i < s.len(),
    ensures
        field_labels(fields_view(s.take(i + 1))) == field_labels(fields_view(s.take(i))).push(
            if s[i].2 {
                s[i].0@ + "?: "@ + type_label_of((*s[i].1)@)
            } else {
                s[i].0@ + ": "@ + type_label_of((*s[i].1)@)
            },
        ),
{
    assert(s.take(i + 1).drop_last() =~= s.take(i));
    let fv = fields_view(s.take(i));
    let x = (s[i].0@, (*s[i].1)@, s[i].2);
    assert(fields_view(s.take(i + 1)) == fv.push(x));
    assert(fv.push(x).drop_last() =~= fv);
}

/// Appends the labels of `v`, joined by `sep`, to `out`.
#[verifier::loop_isolation(false)]
fn push_type_labels(out: &mut String, v: &Vec<Type>, sep: &str)
    ensures
        final(out)@ == old(out)@ + join(type_labels(types_view(v@)), sep@),
    decreases v,
{
    let ghost start = out@;
    let mut i: usize = 0;
    assert(v@.take(0) =~= Seq::<Type>::empty());
    while i < v.len()
        invariant
            i <= v@.len(),
            out@ == start + join(type_labels(types_view(v@.take(i as int))), sep@),
        decreases v@.len() - i,
    {
        proof {
            assert(decreases_to!(*v => v[i as int]));
            lemma_type_labels_take(v@, i as int);
            lemma_join_push(type_labels(types_view(v@.take(i as int))), type_label_of(v@[i as int]@), sep@);
        }
        if i > 0 {
            out.append(sep);
        }
        let l = type_label(&v[i]);
        out.append(l.as_str());
        i += 1;
    }
    assert(v@.take(v@.len() as int) =~= v@);
}

/// Appends the field labels of an object type, joined by `, `, to `out`.
#[verifier::loop_isolation(false)]
pub(crate) fn push_field_labels(out: &mut String, v: &Vec<(String, Box<Type>, bool)>)
    ensures
        final(out)@ == old(out)@ + join(field_labels(fields_view(v@)), ", "@),
    decreases v,
{
    let ghost start = out@;
    let mut i: usize = 0;
    assert(v@.take(0) =~= Seq::<(String, Box<Type>, bool)>::empty());
    while i < v.len()
        invariant
            i <= v@.len(),
            out@ == start + join(field_labels(fields_view(v@.take(i as int))), ", "@),
        decreases v@.len() - i,
    {
        proof {
            assert(decreases_to!(*v => v[i as int]));
            assert(decreases_to!(v[i as int] => v[i as int].1));
            lemma_field_labels_take(v@, i as int);
        }
        let ghost item = if v@[i as int].2 {
            v@[i as int].0@ + "?: "@ + type_label_of((*v@[i as int].1)@)
        } else {
            v@[i as int].0@ + ": "@ + type_label_of((*v@[i as int].1)@)
        };
        proof {
            lemma_join_push(field_labels(fields_view(v@.take(i as int))), item, ", "@);
        }
        if i > 0 {
            out.append(", ");
        }
        out.append(v[i].0.as_str());
        if v[i].2 {
            out.append("?: ");
        } else {
            out.append(": ");
        }
        let l = type_label(&v[i].1);
        out.append(l.as_str());
        i += 1;
    }
    assert(v@.take(v@.len() as int) =~= v@);
}

/// Human-readable label for a type annotation.
#[verifier::loop_isolation(false)]
pub fn type_label(ty: &Type) -> (r: String)
    ensures
        r@ == type_label_of(ty@),
    decreases ty,
{
    let mut out = String::new();
    match ty {
        Type::Optional(inner) => {
            let l = type_label(inner);
            out.append(l.as_str());
            out.append("?");
        },
        Type::Array(inner) => {
            let l = type_label(inner);
            out.append(l.as_str());
            out.append("[]");
        },
        Type::Object { fields, .. } => {
            out.append("{ ");
            push_field_labels(&mut out, fields);
            out.append(" }");
        },
        Type::Primitive(name) => {
            out.append(name.as_str());
        },
        Type::Named(name) => {
            out.append(name.as_str());
        },
        Type::Null => {
            out.append("null");
        },
        Type::Undefined => {
            out.append("undefined");
        },
        Type::Union(members) => {
            push_type_labels(&mut out, members, " | ");
        },
        Type::Intersection(members) => {
            push_type_labels(&mut out, members, " & ");
        },
        Type::Literal(l) => match l {
            LiteralValue::String(s) => {
                out.append("\"");
                out.append(s.as_str());
                out.append("\"");
            },
            LiteralValue::Number(n) => {
                out.append(n.as_str());
            },
            LiteralValue::Bool(b) => {
                if *b {
                    out.append("true");
                } else {
                    out.append("false");
                }
            },
        },
        Type::Function { params, return_type } => {
            out.append("(");
            push_type_labels(&mut out, params, ", ");
            out.append(") => ");
            let l = type_label(return_type);
            out.append(l.as_str());
        },
    }
    out
}


// ── Symbols ──────────────────────────────────────────────────────────────

/// One named definition harvested from the syntax tree.
#[derive(Debug, Clone)]
pub struct Symbol {
    pub name: String,
    pub kind: SymbolKind,
    /// Source line / column of the name; `(0, 0)` where the parser keeps
    /// no position (loop variables, imports, `catch` bindings, ...).
    pub line: usize,
    pub col: usize,
    /// Short signature / type string shown in completion detail / hover.
    pub detail: String,
    /// `Some((module_path, export_name))` for a name brought in by an
    /// import; `export_name` is `None` for a namespace import.
    pub import: Option<(Vec<String>, Option<String>)>,
    /// For enums: `(variant, resolved value)` in source order.
    pub enum_variants: Vec<(String, i64)>,
    /// Whether the declaration is visible to other modules.
    pub exported: bool,
    /// The binding's declared or inferred type, where one is meaningful.
    pub ty: Option<Type>,
}

/// Mathematical value of a [`Symbol`].
pub struct SymbolV {
    pub name: Seq<char>,
    pub kind: SymbolKind,
    pub line: usize,
    pub col: usize,
    pub detail: Seq<char>,
    pub import: Option<(Seq<Seq<char>>, Option<Seq<char>>)>,
    pub enum_variants: Seq<(Seq<char>, i64)>,
    pub exported: bool,
    pub ty: Option<TypeV>,
}

pub open spec fn opt_string_view(o: Option<String>) -> Option<Seq<char>> {
    match o {
        Some(s) => Some(s@),
        None => None,
    }
}

pub open spec fn opt_type_view(o: Option<Type>) -> Option<TypeV> {
    match o {
        Some(t) => Some(t@),
        None => None,
    }
}

pub open spec fn variants_view(s: Seq<(String, i64)>) -> Seq<(Seq<char>, i64)> {
    s.map_values(|p: (String, i64)| (p.0@, p.1))
}

impl View for Symbol {
    type V = SymbolV;

    open spec fn view(&self) -> SymbolV {
        SymbolV {
            name: self.name@,
            kind: self.kind,
            line: self.line,
            col: self.col,
            detail: self.detail@,
            import: match self.import {
                Some((m, n)) => Some((strings_view(m@), opt_string_view(n))),
                None => None,
            },
            enum_variants: variants_view(self.enum_variants@),
            exported: self.exported,
            ty: opt_type_view(self.ty),
        }
    }
}

pub open spec fn symbols_view(s: Seq<Symbol>) -> Seq<SymbolV> {
    s.map_values(|x: Symbol| x@)
}

/// A plain symbol: no import, no enum variants.
pub open spec fn plain(
    name: Seq<char>,
    kind: SymbolKind,
    line: usize,
    col: usize,
    detail: Seq<char>,
    exported: bool,
    ty: Option<TypeV>,
) -> SymbolV {
    SymbolV {
        name,
        kind,
        line,
        col,
        detail,
        import: None,
        enum_variants: Seq::empty(),
        exported,
        ty,
    }
}

/// `"<type>"` when annotated, `"unknown"` otherwise.
pub open spec fn binding_label(ty: Option<TypeV>) -> Seq<char> {
    match ty {
        Some(t) => type_label_of(t),
        None => "unknown"@,
    }
}

/// `(a: number, b: string) -> number`
pub open spec fn signature_of(params: Seq<Param>, ret: TypeV) -> Seq<char> {
    "("@ + join(param_labels(params), ", "@) + ") -> "@ + type_label_of(ret)
}

pub open spec fn param_labels(ps: Seq<Param>) -> Seq<Seq<char>>
    decreases ps.len(),
{
    if ps.len() == 0 {
        Seq::empty()
    } else {
        param_labels(ps.drop_last()).push(ps.last().name@ + ": "@ + type_label_of(ps.last().ty@))
    }
}

/// `interface extends A, B { x: T, ... }`
pub open spec fn interface_label(extends: Seq<Seq<char>>, fields: Seq<(Seq<char>, TypeV, bool)>) -> Seq<char> {
    let ext = if extends.len() == 0 {
        Seq::<char>::empty()
    } else {
        " extends "@ + join(extends, ", "@)
    };
    "interface"@ + ext + " { "@ + join(interface_field_labels(fields), ", "@) + " }"@
}

pub open spec fn interface_field_labels(s: Seq<(Seq<char>, TypeV, bool)>) -> Seq<Seq<char>>
    decreases s.len(),
{
    if s.len() == 0 {
        Seq::empty()
    } else {
        interface_field_labels(s.drop_last()).push(s.last().0 + ": "@ + type_label_of(s.last().1))
    }
}

/// The value following `v` among implicit enum values (wrapping at the
/// top of the `i64` range).
pub open spec fn next_enum_value(v: i64) -> i64 {
    if v == i64::MAX {
        i64::MIN
    } else {
        (v + 1) as i64
    }
}

/// Enum variants with implicit values filled in: an unset value is the
/// previous value plus one (`0` for the first variant).
pub open spec fn resolved_variants(vs: Seq<(Seq<char>, Option<i64>)>, next: i64) -> Seq<(Seq<char>, i64)>
    decreases vs.len(),
{
    if vs.len() == 0 {
        Seq::empty()
    } else {
        let val = match vs[0].1 {
            Some(v) => v,
            None => next,
        };
        seq![(vs[0].0, val)] + resolved_variants(vs.drop_first(), next_enum_value(val))
    }
}

/// `{ A = 0, B = 5 }`
pub open spec fn enum_label(vs: Seq<(Seq<char>, i64)>) -> Seq<char> {
    "{ "@ + join(vs.map_values(|p: (Seq<char>, i64)| p.0 + " = "@ + int_decimal(p.1 as int)), ", "@)
        + " }"@
}


pub open spec fn variant_pairs_view(vs: Seq<(String, Option<i64>)>) -> Seq<(Seq<char>, Option<i64>)> {
    vs.map_values(|p: (String, Option<i64>)| (p.0@, p.1))
}

pub open spec fn params_symbols(ps: Seq<Param>) -> Seq<SymbolV> {
    ps.map_values(
        |p: Param|
            plain(p.name@, SymbolKind::Parameter, p.line, p.col, type_label_of(p.ty@), false, Some(p.ty@)),
    )
}

pub open spec fn module_label(module: Seq<Seq<char>>) -> Seq<char> {
    join(module, "."@)
}

pub open spec fn local_name(name: Seq<char>, alias: Option<String>) -> Seq<char> {
    match alias {
        Some(a) => a@,
        None => name,
    }
}

/// Symbols of a function: the function itself (tagged `tag` when
/// exported), its parameters, then everything declared in its body.
pub open spec fn function_symbols(f: Function, tag: Option<Seq<char>>) -> Seq<SymbolV>
    decreases f,
{
    let name = if f.name@.len() == 0 {
        "default"@
    } else {
        f.name@
    };
    let sig = signature_of(f.params@, f.return_type@);
    let detail = match tag {
        Some(t) => sig + " ("@ + t + ")"@,
        None => sig,
    };
    seq![plain(name, SymbolKind::Function, f.line, f.col, detail, tag is Some, None)] + params_symbols(
        f.params@,
    ) + stmts_symbols(f.body@)
}

/// Symbols of a statement list, in order.
pub open spec fn stmts_symbols(ss: Seq<Stmt>) -> Seq<SymbolV>
    decreases ss,
{
    if ss.len() == 0 {
        Seq::empty()
    } else {
        stmts_symbols(ss.drop_last()) + stmt_symbols(ss.last())
    }
}

pub open spec fn exprs_symbols(es: Seq<Expr>) -> Seq<SymbolV>
    decreases es,
{
    if es.len() == 0 {
        Seq::empty()
    } else {
        exprs_symbols(es.drop_last()) + expr_symbols(es.last())
    }
}

pub open spec fn elements_symbols(es: Seq<ArrayElement>) -> Seq<SymbolV>
    decreases es,
{
    if es.len() == 0 {
        Seq::empty()
    } else {
        elements_symbols(es.drop_last()) + (match es.last() {
            ArrayElement::Item(e) => expr_symbols(e),
            ArrayElement::Spread(e) => expr_symbols(e),
        })
    }
}

pub open spec fn object_fields_symbols(fs: Seq<ObjectField>) -> Seq<SymbolV>
    decreases fs,
{
    if fs.len() == 0 {
        Seq::empty()
    } else {
        object_fields_symbols(fs.drop_last()) + (match fs.last() {
            ObjectField::KV(_, e) => expr_symbols(e),
            ObjectField::Spread(e) => expr_symbols(e),
        })
    }
}

pub open spec fn cases_symbols(cs: Seq<SwitchCase>) -> Seq<SymbolV>
    decreases cs,
{
    if cs.len() == 0 {
        Seq::empty()
    } else {
        cases_symbols(cs.drop_last()) + exprs_symbols(cs.last().values@) + stmts_symbols(
            cs.last().body@,
        )
    }
}

/// Symbols declared inside an expression: only arrow functions declare
/// anything (their parameters and the bindings of their bodies).
pub open spec fn expr_symbols(e: Expr) -> Seq<SymbolV>
    decreases e,
{
    match e {
        Expr::Arrow { params, body, .. } => params_symbols(params@) + (match body {
            ArrowBody::Expr(b) => expr_symbols(*b),
            ArrowBody::Block(ss) => stmts_symbols(ss@),
        }),
        Expr::Call { callee, args } => expr_symbols(*callee) + exprs_symbols(args@),
        Expr::Unary { operand, .. } => expr_symbols(*operand),
        Expr::Binary { left, right, .. } => expr_symbols(*left) + expr_symbols(*right),
        Expr::Member { object, .. } => expr_symbols(*object),
        Expr::Index { object, index } => expr_symbols(*object) + expr_symbols(*index),
        Expr::ArrayLiteral { elements } => elements_symbols(elements@),
        Expr::ObjectLiteral { fields } => object_fields_symbols(fields@),
        Expr::TypeOf(inner) => expr_symbols(*inner),
        Expr::AsConst(inner) => expr_symbols(*inner),
        Expr::NonNullAssertion(inner) => expr_symbols(*inner),
        Expr::AsAssertion { expr, .. } => expr_symbols(*expr),
        _ => Seq::empty(),
    }
}

pub open spec fn enum_symbol(
    name: Seq<char>,
    variants: Seq<(String, Option<i64>)>,
    line: usize,
    col: usize,
    exported: bool,
) -> SymbolV {
    let r = resolved_variants(variant_pairs_view(variants), 0);
    SymbolV {
        name,
        kind: SymbolKind::Enum,
        line,
        col,
        detail: if exported {
            enum_label(r) + " (exported)"@
        } else {
            enum_label(r)
        },
        import: None,
        enum_variants: r,
        exported,
        ty: None,
    }
}

/// Symbols of the declaration wrapped by `export ...`, marked exported.
pub open spec fn export_decl_symbols(s: Stmt) -> Seq<SymbolV>
    decreases s,
{
    match s {
        Stmt::Let { name, ty, value, line, col } => seq![
            plain(
                name@,
                SymbolKind::Variable,
                line,
                col,
                binding_label(opt_type_view(ty)) + " (exported)"@,
                true,
                opt_type_view(ty),
            ),
        ] + expr_symbols(value),
        Stmt::Const { name, ty, value, line, col } => seq![
            plain(
                name@,
                SymbolKind::Constant,
                line,
                col,
                binding_label(opt_type_view(ty)) + " (exported)"@,
                true,
                opt_type_view(ty),
            ),
        ] + expr_symbols(value),
        Stmt::Function(f) => function_symbols(f, Some("exported"@)),
        Stmt::TypeAlias { name, ty, line, col } => seq![
            plain(name@, SymbolKind::TypeAlias, line, col, type_label_of(ty@) + " (exported)"@, true, None),
        ],
        Stmt::Interface { name, extends, fields, line, col } => seq![
            plain(
                name@,
                SymbolKind::Interface,
                line,
                col,
                interface_label(strings_view(extends@), fields_view(fields@)) + " (exported)"@,
                true,
                None,
            ),
        ],
        Stmt::Enum { name, variants, line, col } => seq![enum_symbol(name@, variants@, line, col, true)],
        _ => Seq::empty(),
    }
}

/// Symbols declared by a statement, nested blocks included, in source
/// order.
pub open spec fn stmt_symbols(s: Stmt) -> Seq<SymbolV>
    decreases s,
{
    match s {
        Stmt::Let { name, ty, value, line, col } => seq![
            plain(
                name@,
                SymbolKind::Variable,
                line,
                col,
                binding_label(opt_type_view(ty)),
                false,
                opt_type_view(ty),
            ),
        ] + expr_symbols(value),
        Stmt::Const { name, ty, value, line, col } => seq![
            plain(
                name@,
                SymbolKind::Constant,
                line,
                col,
                binding_label(opt_type_view(ty)),
                false,
                opt_type_view(ty),
            ),
        ] + expr_symbols(value),
        Stmt::Function(f) => function_symbols(f, None),
        Stmt::ForOf { name, ty, iterable, body } => seq![
            plain(
                name@,
                SymbolKind::LoopVar,
                0,
                0,
                binding_label(opt_type_view(ty)),
                false,
                opt_type_view(ty),
            ),
        ] + expr_symbols(*iterable) + stmts_symbols(body@),
        Stmt::Import { module, alias } => seq![
            SymbolV {
                name: match alias {
                    Some(a) => a@,
                    None => if module@.len() > 0 {
                        module@.last()@
                    } else {
                        Seq::empty()
                    },
                },
                kind: SymbolKind::Module,
                line: 0,
                col: 0,
                detail: "module \""@ + module_label(strings_view(module@)) + "\""@,
                import: Some((strings_view(module@), None)),
                enum_variants: Seq::empty(),
                exported: false,
                ty: None,
            },
        ],
        Stmt::FromImport { module, names, wildcard } => if wildcard {
            Seq::empty()
        } else {
            names@.map_values(
                |n: ImportNamed|
                    SymbolV {
                        name: local_name(n.name@, n.alias),
                        kind: SymbolKind::Variable,
                        line: 0,
                        col: 0,
                        detail: "from \""@ + module_label(strings_view(module@)) + "\""@,
                        import: Some((strings_view(module@), Some(n.name@))),
                        enum_variants: Seq::empty(),
                        exported: false,
                        ty: None,
                    },
            )
        },
        Stmt::ExportDecl(inner) => export_decl_symbols(*inner),
        Stmt::ExportSpec(items) => items@.map_values(
            |it: crate::syntax::ast::ExportItem|
                plain(local_name(it.name@, it.alias), SymbolKind::Variable, 0, 0, "re-export"@, true, None),
        ),
        Stmt::ExportDefault(ExportDefault::Function(f)) => function_symbols(f, Some("default export"@)),
        Stmt::ExportDefault(ExportDefault::Expr(e)) => seq![
            plain("default"@, SymbolKind::Variable, 0, 0, "default export"@, true, None),
        ] + expr_symbols(e),
        Stmt::Assign { value, .. } => expr_symbols(value),
        Stmt::AssignIndex { index, value, .. } => expr_symbols(index) + expr_symbols(value),
        Stmt::AssignMember { object, value, .. } => expr_symbols(*object) + expr_symbols(value),
        Stmt::Return(e) => match e {
            Some(x) => expr_symbols(x),
            None => Seq::empty(),
        },
        Stmt::If { condition, then_branch, else_branch } => expr_symbols(condition) + stmts_symbols(
            then_branch@,
        ) + (match else_branch {
            Some(eb) => stmts_symbols(eb@),
            None => Seq::empty(),
        }),
        Stmt::While { condition, body } => expr_symbols(condition) + stmts_symbols(body@),
        Stmt::For { init, condition, update, body } => (match init {
            Some(i) => stmt_symbols(*i),
            None => Seq::empty(),
        }) + (match condition {
            Some(c) => expr_symbols(c),
            None => Seq::empty(),
        }) + (match update {
            Some(u) => stmt_symbols(*u),
            None => Seq::empty(),
        }) + stmts_symbols(body@),
        Stmt::Switch { discriminant, cases } => expr_symbols(discriminant) + cases_symbols(cases@),
        Stmt::Try { body, catch_name, catch_body } => stmts_symbols(body@) + (match catch_name {
            Some(n) => seq![plain(n@, SymbolKind::Variable, 0, 0, "caught error"@, false, None)],
            None => Seq::empty(),
        }) + stmts_symbols(catch_body@),
        Stmt::Throw(e) => expr_symbols(e),
        Stmt::Expr(e) => expr_symbols(e),
        Stmt::Break => Seq::empty(),
        Stmt::Continue => Seq::empty(),
        Stmt::TypeAlias { name, ty, line, col } => seq![
            plain(name@, SymbolKind::TypeAlias, line, col, type_label_of(ty@), false, None),
        ],
        Stmt::Interface { name, extends, fields, line, col } => seq![
            plain(
                name@,
                SymbolKind::Interface,
                line,
                col,
                interface_label(strings_view(extends@), fields_view(fields@)),
                false,
                None,
            ),
        ],
        Stmt::Enum { name, variants, line, col } => seq![enum_symbol(name@, variants@, line, col, false)],
    }
}

/// Every symbol declared anywhere in a program, in source order.
pub open spec fn program_symbols(p: Program) -> Seq<SymbolV> {
    stmts_symbols(p.stmts@)
}


// ── Collecting symbols ───────────────────────────────────────────────────

fn push_symbol(out: &mut Vec<Symbol>, sym: Symbol)
    ensures
        symbols_view(final(out)@) == symbols_view(old(out)@).push(sym@),
{
    out.push(sym);
    assert(symbols_view(out@) =~= symbols_view(old(out)@).push(sym@));
}

fn plain_symbol(
    name: String,
    kind: SymbolKind,
    line: usize,
    col: usize,
    detail: String,
    exported: bool,
    ty: Option<Type>,
) -> (r: Symbol)
    ensures
        r@ == plain(name@, kind, line, col, detail@, exported, opt_type_view(ty)),
{
    let r = Symbol {
        name,
        kind,
        line,
        col,
        detail,
        import: None,
        enum_variants: Vec::new(),
        exported,
        ty,
    };
    assert(variants_view(r.enum_variants@) =~= Seq::empty());
    r
}

fn clone_opt_type(t: &Option<Type>) -> (r: Option<Type>)
    ensures
        opt_type_view(r) == opt_type_view(*t),
{
    match t {
        Some(x) => Some(crate::syntax::ast::clone_type(x)),
        None => None,
    }
}

/// `"<type>"` when annotated, `"unknown"` otherwise.
fn describe_binding(ty: &Option<Type>) -> (r: String)
    ensures
        r@ == binding_label(opt_type_view(*ty)),
{
    match ty {
        Some(t) => type_label(t),
        None => owned("unknown"),
    }
}

/// `(a: number, b: number) -> number`
pub fn func_sig(f: &Function) -> (r: String)
    ensures
        r@ == signature_of(f.params@, f.return_type@),
{
    let mut out = owned("(");
    let mut i: usize = 0;
    assert(f.params@.take(0) =~= Seq::<Param>::empty());
    while i < f.params.len()
        invariant
            i <= f.params@.len(),
            out@ == "("@ + join(param_labels(f.params@.take(i as int)), ", "@),
        decreases f.params@.len() - i,
    {
        let ghost ps = f.params@;
        proof {
            assert(ps.take(i + 1).drop_last() =~= ps.take(i as int));
            lemma_join_push(param_labels(ps.take(i as int)), ps[i as int].name@ + ": "@ + type_label_of(ps[i as int].ty@), ", "@);
        }
        if i > 0 {
            out.append(", ");
        }
        out.append(f.params[i].name.as_str());
        out.append(": ");
        let l = type_label(&f.params[i].ty);
        out.append(l.as_str());
        i += 1;
    }
    assert(f.params@.take(f.params@.len() as int) =~= f.params@);
    out.append(") -> ");
    let l = type_label(&f.return_type);
    out.append(l.as_str());
    out
}

/// `interface extends A { x: T, ... }`
fn describe_interface(extends: &Vec<String>, fields: &Vec<(String, Box<Type>, bool)>) -> (r: String)
    ensures
        r@ == interface_label(strings_view(extends@), fields_view(fields@)),
{
    let mut out = owned("interface");
    if extends.len() > 0 {
        out.append(" extends ");
        let j = join_strings(extends, ", ");
        out.append(j.as_str());
    }
    out.append(" { ");
    let ghost start = out@;
    let mut i: usize = 0;
    assert(fields@.take(0) =~= Seq::<(String, Box<Type>, bool)>::empty());
    proof {
        crate::syntax::ast::lemma_fields_view(fields@);
    }
    while i < fields.len()
        invariant
            i <= fields@.len(),
            fields_view(fields@).len() == fields@.len(),
            forall|k: int| 0 <= k < fields@.len() ==> #[trigger] fields_view(fields@)[k] == (fields@[k].0@, (*fields@[k].1)@, fields@[k].2),
            out@ == start + join(interface_field_labels(fields_view(fields@).take(i as int)), ", "@),
        decreases fields@.len() - i,
    {
        let ghost fv = fields_view(fields@);
        proof {
            assert(fv.take(i + 1).drop_last() =~= fv.take(i as int));
            lemma_join_push(interface_field_labels(fv.take(i as int)), fv[i as int].0 + ": "@ + type_label_of(fv[i as int].1), ", "@);
        }
        if i > 0 {
            out.append(", ");
        }
        out.append(fields[i].0.as_str());
        out.append(": ");
        let l = type_label(&fields[i].1);
        out.append(l.as_str());
        i += 1;
    }
    assert(fields_view(fields@).take(fields@.len() as int) =~= fields_view(fields@));
    out.append(" }");
    out
}

proof fn lemma_resolved_step(s: Seq<(Seq<char>, Option<i64>)>, i: int, next: i64)
    requires
        0 <= i < s.len(),
    ensures
        resolved_variants(s.skip(i), next) == seq![
            (s[i].0, match s[i].1 {
                Some(v) => v,
                None => next,
            }),
        ] + resolved_variants(
            s.skip(i + 1),
            next_enum_value(
                match s[i].1 {
                    Some(v) => v,
                    None => next,
                },
            ),
        ),
{
    assert(s.skip(i).drop_first() =~= s.skip(i + 1));
}

/// Implicit enum values filled in: an unset value is the previous value
/// plus one (`0` for the first variant), as in TypeScript numeric enums.
pub fn resolve_enum_variants(variants: &Vec<(String, Option<i64>)>) -> (r: Vec<(String, i64)>)
    ensures
        variants_view(r@) == resolved_variants(variant_pairs_view(variants@), 0),
{
    let ghost pv = variant_pairs_view(variants@);
    let mut out: Vec<(String, i64)> = Vec::new();
    let mut next: i64 = 0;
    let mut i: usize = 0;
    assert(pv.skip(0) =~= pv);
    while i < variants.len()
        invariant
            i <= variants@.len(),
            pv == variant_pairs_view(variants@),
            variants_view(out@) + resolved_variants(pv.skip(i as int), next) == resolved_variants(pv, 0),
        decreases variants@.len() - i,
    {
        proof {
            lemma_resolved_step(pv, i as int, next);
        }
        let val = match variants[i].1 {
            Some(v) => v,
            None => next,
        };
        out.push((variants[i].0.clone(), val));
        next = if val == i64::MAX {
            i64::MIN
        } else {
            val + 1
        };
        i += 1;
        proof {
            let head = seq![(pv[i - 1].0, val)];
            assert(variants_view(out@) =~= variants_view(old_out_prefix(out@)) + head);
        }
    }
    assert(pv.skip(variants@.len() as int) =~= Seq::<(Seq<char>, Option<i64>)>::empty());
    assert(variants_view(out@) + Seq::<(Seq<char>, i64)>::empty() =~= variants_view(out@));
    out
}

spec fn old_out_prefix(s: Seq<(String, i64)>) -> Seq<(String, i64)> {
    s.drop_last()
}

/// `{ A = 0, B = 5 }`
fn describe_enum(resolved: &Vec<(String, i64)>) -> (r: String)
    ensures
        r@ == enum_label(variants_view(resolved@)),
{
    let ghost items = variants_view(resolved@).map_values(
        |p: (Seq<char>, i64)| p.0 + " = "@ + int_decimal(p.1 as int),
    );
    let mut out = owned("{ ");
    let mut i: usize = 0;
    assert(items.take(0) =~= Seq::<Seq<char>>::empty());
    while i < resolved.len()
        invariant
            i <= resolved@.len(),
            items == variants_view(resolved@).map_values(
                |p: (Seq<char>, i64)| p.0 + " = "@ + int_decimal(p.1 as int),
            ),
            out@ == "{ "@ + join(items.take(i as int), ", "@),
        decreases resolved@.len() - i,
    {
        proof {
            assert(items.take(i + 1) =~= items.take(i as int).push(items[i as int]));
            lemma_join_push(items.take(i as int), items[i as int], ", "@);
        }
        if i > 0 {
            out.append(", ");
        }
        out.append(resolved[i].0.as_str());
        out.append(" = ");
        let d = i64_decimal(resolved[i].1);
        out.append(d.as_str());
        i += 1;
    }
    assert(items.take(resolved@.len() as int) =~= items);
    out.append(" }");
    out
}

fn enum_symbol_exec(
    name: &String,
    variants: &Vec<(String, Option<i64>)>,
    line: usize,
    col: usize,
    exported: bool,
) -> (r: Symbol)
    ensures
        r@ == enum_symbol(name@, variants@, line, col, exported),
{
    let resolved = resolve_enum_variants(variants);
    let mut detail = describe_enum(&resolved);
    if exported {
        detail.append(" (exported)");
    }
    Symbol {
        name: name.clone(),
        kind: SymbolKind::Enum,
        line,
        col,
        detail,
        import: None,
        enum_variants: resolved,
        exported,
        ty: None,
    }
}


proof fn lemma_stmts_symbols_take(ss: Seq<Stmt>, i: int)
    requires
        0 <= i < ss.len(),
    ensures
        stmts_symbols(ss.take(i + 1)) == stmts_symbols(ss.take(i)) + stmt_symbols(ss[i]),
{
    assert(ss.take(i + 1).drop_last() =~= ss.take(i));
}

/// Collects the symbols of a statement list.
#[verifier::loop_isolation(false)]
fn collect_block(ss: &Vec<Stmt>, out: &mut Vec<Symbol>)
    ensures
        symbols_view(final(out)@) == symbols_view(old(out)@) + stmts_symbols(ss@),
    decreases ss,
{
    let ghost start = symbols_view(out@);
    let mut i: usize = 0;
    assert(ss@.take(0) =~= Seq::<Stmt>::empty());
    assert(start + stmts_symbols(ss@.take(0)) =~= start);
    while i < ss.len()
        invariant
            i <= ss@.len(),
            symbols_view(out@) == start + stmts_symbols(ss@.take(i as int)),
        decreases ss@.len() - i,
    {
        proof {
            assert(decreases_to!(*ss => ss[i as int]));
            lemma_stmts_symbols_take(ss@, i as int);
        }
        collect_stmt(&ss[i], out);
        i += 1;
    }
    assert(ss@.take(ss@.len() as int) =~= ss@);
}

#[verifier::loop_isolation(false)]
fn collect_exprs(es: &Vec<Expr>, out: &mut Vec<Symbol>)
    ensures
        symbols_view(final(out)@) == symbols_view(old(out)@) + exprs_symbols(es@),
    decreases es,
{
    let ghost start = symbols_view(out@);
    let mut i: usize = 0;
    assert(es@.take(0) =~= Seq::<Expr>::empty());
    assert(start + exprs_symbols(es@.take(0)) =~= start);
    while i < es.len()
        invariant
            i <= es@.len(),
            symbols_view(out@) == start + exprs_symbols(es@.take(i as int)),
        decreases es@.len() - i,
    {
        proof {
            assert(decreases_to!(*es => es[i as int]));
            assert(es@.take(i + 1).drop_last() =~= es@.take(i as int));
        }
        collect_expr(&es[i], out);
        i += 1;
    }
    assert(es@.take(es@.len() as int) =~= es@);
}

#[verifier::loop_isolation(false)]
fn collect_elements(es: &Vec<ArrayElement>, out: &mut Vec<Symbol>)
    ensures
        symbols_view(final(out)@) == symbols_view(old(out)@) + elements_symbols(es@),
    decreases es,
{
    let ghost start = symbols_view(out@);
    let mut i: usize = 0;
    assert(es@.take(0) =~= Seq::<ArrayElement>::empty());
    assert(start + elements_symbols(es@.take(0)) =~= start);
    while i < es.len()
        invariant
            i <= es@.len(),
            symbols_view(out@) == start + elements_symbols(es@.take(i as int)),
        decreases es@.len() - i,
    {
        proof {
            assert(decreases_to!(*es => es[i as int]));
            assert(es@.take(i + 1).drop_last() =~= es@.take(i as int));
        }
        match &es[i] {
            ArrayElement::Item(e) => collect_expr(e, out),
            ArrayElement::Spread(e) => collect_expr(e, out),
        }
        i += 1;
    }
    assert(es@.take(es@.len() as int) =~= es@);
}

#[verifier::loop_isolation(false)]
fn collect_object_fields(fs: &Vec<ObjectField>, out: &mut Vec<Symbol>)
    ensures
        symbols_view(final(out)@) == symbols_view(old(out)@) + object_fields_symbols(fs@),
    decreases fs,
{
    let ghost start = symbols_view(out@);
    let mut i: usize = 0;
    assert(fs@.take(0) =~= Seq::<ObjectField>::empty());
    assert(start + object_fields_symbols(fs@.take(0)) =~= start);
    while i < fs.len()
        invariant
            i <= fs@.len(),
            symbols_view(out@) == start + object_fields_symbols(fs@.take(i as int)),
        decreases fs@.len() - i,
    {
        proof {
            assert(decreases_to!(*fs => fs[i as int]));
            assert(fs@.take(i + 1).drop_last() =~= fs@.take(i as int));
        }
        match &fs[i] {
            ObjectField::KV(_, e) => collect_expr(e, out),
            ObjectField::Spread(e) => collect_expr(e, out),
        }
        i += 1;
    }
    assert(fs@.take(fs@.len() as int) =~= fs@);
}

#[verifier::loop_isolation(false)]
fn collect_cases(cs: &Vec<SwitchCase>, out: &mut Vec<Symbol>)
    ensures
        symbols_view(final(out)@) == symbols_view(old(out)@) + cases_symbols(cs@),
    decreases cs,
{
    let ghost start = symbols_view(out@);
    let mut i: usize = 0;
    assert(cs@.take(0) =~= Seq::<SwitchCase>::empty());
    assert(start + cases_symbols(cs@.take(0)) =~= start);
    while i < cs.len()
        invariant
            i <= cs@.len(),
            symbols_view(out@) == start + cases_symbols(cs@.take(i as int)),
        decreases cs@.len() - i,
    {
        proof {
            assert(decreases_to!(*cs => cs[i as int]));
            assert(cs@.take(i + 1).drop_last() =~= cs@.take(i as int));
        }
        let ghost before = symbols_view(out@);
        collect_exprs(&cs[i].values, out);
        collect_block(&cs[i].body, out);
        assert(symbols_view(out@) =~= before + (exprs_symbols(cs@[i as int].values@) + stmts_symbols(cs@[i as int].body@)));
        i += 1;
    }
    assert(cs@.take(cs@.len() as int) =~= cs@);
}

fn collect_params(ps: &Vec<Param>, out: &mut Vec<Symbol>)
    ensures
        symbols_view(final(out)@) == symbols_view(old(out)@) + params_symbols(ps@),
{
    let ghost start = symbols_view(out@);
    let mut i: usize = 0;
    while i < ps.len()
        invariant
            i <= ps@.len(),
            symbols_view(out@) == start + params_symbols(ps@.take(i as int)),
        decreases ps@.len() - i,
    {
        let label = type_label(&ps[i].ty);
        let ty = crate::syntax::ast::clone_type(&ps[i].ty);
        let sym = plain_symbol(ps[i].name.clone(), SymbolKind::Parameter, ps[i].line, ps[i].col, label, false, Some(ty));
        push_symbol(out, sym);
        i += 1;
        assert(params_symbols(ps@.take(i as int)) =~= params_symbols(ps@.take(i - 1)).push(sym@));
    }
    assert(ps@.take(ps@.len() as int) =~= ps@);
}

/// Collects a function's own symbol (tagged `tag` when exported), its
/// parameters, and everything declared in its body.
fn collect_function(f: &Function, out: &mut Vec<Symbol>, tag: Option<&str>)
    ensures
        symbols_view(final(out)@) == symbols_view(old(out)@) + function_symbols(
            *f,
            match tag {
                Some(t) => Some(t@),
                None => None,
            },
        ),
    decreases f,
{
    let ghost start = symbols_view(out@);
    let name = if f.name.as_str().is_empty() {
        owned("default")
    } else {
        f.name.clone()
    };
    let mut detail = func_sig(f);
    if let Some(t) = tag {
        detail.append(" (");
        detail.append(t);
        detail.append(")");
    }
    let sym = plain_symbol(name, SymbolKind::Function, f.line, f.col, detail, tag.is_some(), None);
    push_symbol(out, sym);
    collect_params(&f.params, out);
    collect_block(&f.body, out);
    assert(symbols_view(out@) =~= start + function_symbols(
        *f,
        match tag {
            Some(t) => Some(t@),
            None => None,
        },
    ));
}

/// Collects the symbols of `export <decl>`, marked exported.
fn collect_export_decl(inner: &Stmt, out: &mut Vec<Symbol>)
    ensures
        symbols_view(final(out)@) == symbols_view(old(out)@) + export_decl_symbols(*inner),
    decreases inner,
{
    let ghost start = symbols_view(out@);
    match inner {
        Stmt::Let { name, ty, value, line, col } => {
            let mut d = describe_binding(ty);
            d.append(" (exported)");
            let sym = plain_symbol(name.clone(), SymbolKind::Variable, *line, *col, d, true, clone_opt_type(ty));
            push_symbol(out, sym);
            collect_expr(value, out);
        },
        Stmt::Const { name, ty, value, line, col } => {
            let mut d = describe_binding(ty);
            d.append(" (exported)");
            let sym = plain_symbol(name.clone(), SymbolKind::Constant, *line, *col, d, true, clone_opt_type(ty));
            push_symbol(out, sym);
            collect_expr(value, out);
        },
        Stmt::Function(f) => collect_function(f, out, Some("exported")),
        Stmt::TypeAlias { name, ty, line, col } => {
            let mut d = type_label(ty);
            d.append(" (exported)");
            let sym = plain_symbol(name.clone(), SymbolKind::TypeAlias, *line, *col, d, true, None);
            push_symbol(out, sym);
        },
        Stmt::Interface { name, extends, fields, line, col } => {
            let mut d = describe_interface(extends, fields);
            d.append(" (exported)");
            let sym = plain_symbol(name.clone(), SymbolKind::Interface, *line, *col, d, true, None);
            push_symbol(out, sym);
        },
        Stmt::Enum { name, variants, line, col } => {
            let sym = enum_symbol_exec(name, variants, *line, *col, true);
            push_symbol(out, sym);
        },
        _ => {},
    }
    assert(symbols_view(out@) =~= start + export_decl_symbols(*inner));
}

/// Collects the symbols declared inside an expression (arrow functions).
fn collect_expr(e: &Expr, out: &mut Vec<Symbol>)
    ensures
        symbols_view(final(out)@) == symbols_view(old(out)@) + expr_symbols(*e),
    decreases e,
{
    let ghost start = symbols_view(out@);
    match e {
        Expr::Arrow { params, body, .. } => {
            collect_params(params, out);
            match body {
                ArrowBody::Expr(b) => collect_expr(b, out),
                ArrowBody::Block(ss) => collect_block(ss, out),
            }
        },
        Expr::Call { callee, args } => {
            collect_expr(callee, out);
            collect_exprs(args, out);
        },
        Expr::Unary { operand, .. } => collect_expr(operand, out),
        Expr::Binary { left, right, .. } => {
            collect_expr(left, out);
            collect_expr(right, out);
        },
        Expr::Member { object, .. } => collect_expr(object, out),
        Expr::Index { object, index } => {
            collect_expr(object, out);
            collect_expr(index, out);
        },
        Expr::ArrayLiteral { elements } => collect_elements(elements, out),
        Expr::ObjectLiteral { fields } => collect_object_fields(fields, out),
        Expr::TypeOf(inner) => collect_expr(inner, out),
        Expr::AsConst(inner) => collect_expr(inner, out),
        Expr::NonNullAssertion(inner) => collect_expr(inner, out),
        Expr::AsAssertion { expr, .. } => collect_expr(expr, out),
        _ => {},
    }
    assert(symbols_view(out@) =~= start + expr_symbols(*e));
}

fn module_detail(prefix: &str, module: &Vec<String>) -> (r: String)
    ensures
        r@ == prefix@ + module_label(strings_view(module@)) + "\""@,
{
    let mut d = owned(prefix);
    let j = join_strings(module, ".");
    d.append(j.as_str());
    d.append("\"");
    d
}

fn clone_strings(v: &Vec<String>) -> (r: Vec<String>)
    ensures
        strings_view(r@) == strings_view(v@),
{
    let mut out: Vec<String> = Vec::new();
    let mut i: usize = 0;
    while i < v.len()
        invariant
            i <= v@.len(),
            out@.len() == i,
            forall|k: int| 0 <= k < i ==> (#[trigger] out@[k])@ == v@[k]@,
        decreases v@.len() - i,
    {
        out.push(v[i].clone());
        i += 1;
    }
    assert(strings_view(out@) =~= strings_view(v@));
    out
}

/// Collects the symbols declared by one statement.
#[verifier::loop_isolation(false)]
#[verifier::rlimit(60)]
fn collect_stmt(stmt: &Stmt, out: &mut Vec<Symbol>)
    ensures
        symbols_view(final(out)@) == symbols_view(old(out)@) + stmt_symbols(*stmt),
    decreases stmt,
{
    let ghost start = symbols_view(out@);
    match stmt {
        Stmt::Let { name, ty, value, line, col } => {
            let d = describe_binding(ty);
            let sym = plain_symbol(name.clone(), SymbolKind::Variable, *line, *col, d, false, clone_opt_type(ty));
            push_symbol(out, sym);
            collect_expr(value, out);
            assert(symbols_view(out@) =~= start + stmt_symbols(*stmt));
        },
        Stmt::Const { name, ty, value, line, col } => {
            let d = describe_binding(ty);
            let sym = plain_symbol(name.clone(), SymbolKind::Constant, *line, *col, d, false, clone_opt_type(ty));
            push_symbol(out, sym);
            collect_expr(value, out);
            assert(symbols_view(out@) =~= start + stmt_symbols(*stmt));
        },
        Stmt::Function(f) => collect_function(f, out, None),
        Stmt::ForOf { name, ty, iterable, body } => {
            let d = describe_binding(ty);
            let sym = plain_symbol(name.clone(), SymbolKind::LoopVar, 0, 0, d, false, clone_opt_type(ty));
            push_symbol(out, sym);
            collect_expr(iterable, out);
            collect_block(body, out);
            assert(symbols_view(out@) =~= start + stmt_symbols(*stmt));
        },
        Stmt::Import { module, alias } => {
            let local = match alias {
                Some(a) => a.clone(),
                None => if module.len() > 0 {
                    module[module.len() - 1].clone()
                } else {
                    String::new()
                },
            };
            let detail = module_detail("module \"", module);
            let sym = Symbol {
                name: local,
                kind: SymbolKind::Module,
                line: 0,
                col: 0,
                detail,
                import: Some((clone_strings(module), None)),
                enum_variants: Vec::new(),
                exported: false,
                ty: None,
            };
            assert(variants_view(sym.enum_variants@) =~= Seq::empty());
            push_symbol(out, sym);
            assert(symbols_view(out@) =~= start + stmt_symbols(*stmt));
        },
        Stmt::FromImport { module, names, wildcard } => {
            if !*wildcard {
                let mut i: usize = 0;
                while i < names.len()
                    invariant
                        i <= names@.len(),
                        symbols_view(out@) == start + names@.take(i as int).map_values(
                            |n: ImportNamed|
                                SymbolV {
                                    name: local_name(n.name@, n.alias),
                                    kind: SymbolKind::Variable,
                                    line: 0,
                                    col: 0,
                                    detail: "from \""@ + module_label(strings_view(module@)) + "\""@,
                                    import: Some((strings_view(module@), Some(n.name@))),
                                    enum_variants: Seq::empty(),
                                    exported: false,
                                    ty: None,
                                },
                        ),
                    decreases names@.len() - i,
                {
                    let local = match &names[i].alias {
                        Some(a) => a.clone(),
                        None => names[i].name.clone(),
                    };
                    let detail = module_detail("from \"", module);
                    let sym = Symbol {
                        name: local,
                        kind: SymbolKind::Variable,
                        line: 0,
                        col: 0,
                        detail,
                        import: Some((clone_strings(module), Some(names[i].name.clone()))),
                        enum_variants: Vec::new(),
                        exported: false,
                        ty: None,
                    };
                    assert(variants_view(sym.enum_variants@) =~= Seq::empty());
                    push_symbol(out, sym);
                    i += 1;
                    assert(names@.take(i as int) =~= names@.take(i - 1).push(names@[i - 1]));
                }
                assert(names@.take(names@.len() as int) =~= names@);
            }
            assert(symbols_view(out@) =~= start + stmt_symbols(*stmt));
        },
        Stmt::ExportDecl(inner) => collect_export_decl(inner, out),
        Stmt::ExportSpec(items) => {
            let mut i: usize = 0;
            while i < items.len()
                invariant
                    i <= items@.len(),
                    symbols_view(out@) == start + items@.take(i as int).map_values(
                        |it: crate::syntax::ast::ExportItem|
                            plain(local_name(it.name@, it.alias), SymbolKind::Variable, 0, 0, "re-export"@, true, None),
                    ),
                decreases items@.len() - i,
            {
                let local = match &items[i].alias {
                    Some(a) => a.clone(),
                    None => items[i].name.clone(),
                };
                let sym = plain_symbol(local, SymbolKind::Variable, 0, 0, owned("re-export"), true, None);
                push_symbol(out, sym);
                i += 1;
                assert(items@.take(i as int) =~= items@.take(i - 1).push(items@[i - 1]));
            }
            assert(items@.take(items@.len() as int) =~= items@);
            assert(symbols_view(out@) =~= start + stmt_symbols(*stmt));
        },
        Stmt::ExportDefault(ExportDefault::Function(f)) => collect_function(f, out, Some("default export")),
        Stmt::ExportDefault(ExportDefault::Expr(e)) => {
            let sym = plain_symbol(owned("default"), SymbolKind::Variable, 0, 0, owned("default export"), true, None);
            push_symbol(out, sym);
            collect_expr(e, out);
            assert(symbols_view(out@) =~= start + stmt_symbols(*stmt));
        },
        Stmt::Assign { value, .. } => collect_expr(value, out),
        Stmt::AssignIndex { index, value, .. } => {
            collect_expr(index, out);
            collect_expr(value, out);
            assert(symbols_view(out@) =~= start + stmt_symbols(*stmt));
        },
        Stmt::AssignMember { object, value, .. } => {
            collect_expr(object, out);
            collect_expr(value, out);
            assert(symbols_view(out@) =~= start + stmt_symbols(*stmt));
        },
        Stmt::Return(e) => {
            match e {
                Some(x) => collect_expr(x, out),
                None => {},
            }
            assert(symbols_view(out@) =~= start + stmt_symbols(*stmt));
        },
        Stmt::If { condition, then_branch, else_branch } => {
            collect_expr(condition, out);
            collect_block(then_branch, out);
            if let Some(eb) = else_branch {
                collect_block(eb, out);
            }
            assert(symbols_view(out@) =~= start + stmt_symbols(*stmt));
        },
        Stmt::While { condition, body } => {
            collect_expr(condition, out);
            collect_block(body, out);
            assert(symbols_view(out@) =~= start + stmt_symbols(*stmt));
        },
        Stmt::For { init, condition, update, body } => {
            if let Some(i) = init {
                collect_stmt(i, out);
            }
            if let Some(c) = condition {
                collect_expr(c, out);
            }
            if let Some(u) = update {
                collect_stmt(u, out);
            }
            collect_block(body, out);
            assert(symbols_view(out@) =~= start + stmt_symbols(*stmt));
        },
        Stmt::Switch { discriminant, cases } => {
            collect_expr(discriminant, out);
            collect_cases(cases, out);
            assert(symbols_view(out@) =~= start + stmt_symbols(*stmt));
        },
        Stmt::Try { body, catch_name, catch_body } => {
            collect_block(body, out);
            if let Some(n) = catch_name {
                let sym = plain_symbol(n.clone(), SymbolKind::Variable, 0, 0, owned("caught error"), false, None);
                push_symbol(out, sym);
            }
            collect_block(catch_body, out);
            assert(symbols_view(out@) =~= start + stmt_symbols(*stmt));
        },
        Stmt::Throw(e) => collect_expr(e, out),
        Stmt::Expr(e) => collect_expr(e, out),
        Stmt::Break => {},
        Stmt::Continue => {},
        Stmt::TypeAlias { name, ty, line, col } => {
            let d = type_label(ty);
            let sym = plain_symbol(name.clone(), SymbolKind::TypeAlias, *line, *col, d, false, None);
            push_symbol(out, sym);
            assert(symbols_view(out@) =~= start + stmt_symbols(*stmt));
        },
        Stmt::Interface { name, extends, fields, line, col } => {
            let d = describe_interface(extends, fields);
            let sym = plain_symbol(name.clone(), SymbolKind::Interface, *line, *col, d, false, None);
            push_symbol(out, sym);
            assert(symbols_view(out@) =~= start + stmt_symbols(*stmt));
        },
        Stmt::Enum { name, variants, line, col } => {
            let sym = enum_symbol_exec(name, variants, *line, *col, false);
            push_symbol(out, sym);
            assert(symbols_view(out@) =~= start + stmt_symbols(*stmt));
        },
    }
    assert(symbols_view(out@) =~= start + stmt_symbols(*stmt));
}

/// Every symbol declared anywhere in `program`, in source order.
pub fn collect_symbols(program: &Program) -> (r: Vec<Symbol>)
    ensures
        symbols_view(r@) == program_symbols(*program),
{
    let mut out: Vec<Symbol> = Vec::new();
    assert(symbols_view(out@) =~= Seq::<SymbolV>::empty());
    collect_block(&program.stmts, &mut out);
    assert(symbols_view(out@) =~= program_symbols(*program));
    out
}


/// Lexes, parses and runs type inference over `text` (missing
/// annotations filled in). `None` when the text does not lex or parse.
pub fn parse_and_infer(text: &str) -> (r: Option<Program>)
    ensures
        lex_from(text@, 0, 1, 1) is Err ==> r is None,
{
    if text.unicode_len() >= usize::MAX - 4 {
        return None;
    }
    let tokens = match crate::syntax::lexer::lex(text) {
        Ok(ts) => ts,
        Err(_) => {
            return None;
        },
    };
    let mut program = match crate::syntax::parser::parse(tokens) {
        Ok(p) => p,
        Err(_) => {
            return None;
        },
    };
    infer(&mut program);
    Some(program)
}

/// Like [`parse_and_infer`], for a document being edited: when the parse
/// fails, the line it failed on is blanked and the parse tried again, four
/// attempts in all. `None` when the text does not lex, or the failing line
/// is already blank or does not exist, or every attempt fails.
pub fn parse_lenient(text: &str) -> (r: Option<Program>)
    ensures
        lex_from(text@, 0, 1, 1) is Err ==> r is None,
{
    let mut owned_text = owned(text);
    let mut attempt: usize = 0;
    while attempt < 4
        invariant
            attempt == 0 ==> owned_text@ == text@,
            attempt > 0 ==> lex_from(text@, 0, 1, 1) is Ok,
        decreases 4 - attempt,
    {
        if owned_text.as_str().unicode_len() >= usize::MAX - 4 {
            return None;
        }
        let tokens = match crate::syntax::lexer::lex(owned_text.as_str()) {
            Ok(ts) => ts,
            Err(_) => {
                return None;
            },
        };
        match crate::syntax::parser::parse(tokens) {
            Ok(mut program) => {
                infer(&mut program);
                return Some(program);
            },
            Err(e) => {
                let mut lines = split_lines(owned_text.as_str());
                let idx = if e.line > 0 {
                    e.line - 1
                } else {
                    0
                };
                if idx >= lines.len() || lines[idx].as_str().is_empty() {
                    return None;
                }
                lines.set(idx, String::new());
                owned_text = join_strings(&lines, "\n");
            },
        }
        attempt += 1;
    }
    None
}

/// Type inference over one document: its own functions, constants and
/// enums form the environment. Only annotations change; explicit ones of
/// top-level `let` / `const` and functions' parameters are kept.
fn infer(program: &mut Program)
    ensures
        crate::validation::infer::bare_stmts(final(program)@) == crate::validation::infer::bare_stmts(
            old(program)@,
        ),
        final(program).stmts@.len() == old(program).stmts@.len(),
        forall|i: int|
            0 <= i < old(program).stmts@.len() ==> crate::validation::infer::keeps_annotation(
                #[trigger] old(program).stmts@[i],
                final(program).stmts@[i],
            ),
{
    let mut env = TypeEnv::default();
    env.add_program(program);
    infer_program(program, &env);
}


/// A copy of a symbol with the same value.
pub fn clone_symbol(s: &Symbol) -> (r: Symbol)
    ensures
        r@ == s@,
{
    let import = match &s.import {
        Some((m, n)) => {
            let mc = crate::syntax::ast::clone_strings(m);
            assert(strings_view(mc@) =~= strings_view(m@));
            Some((mc, n.clone()))
        },
        None => None,
    };
    let mut vs: Vec<(String, i64)> = Vec::new();
    let mut i: usize = 0;
    while i < s.enum_variants.len()
        invariant
            i <= s.enum_variants@.len(),
            vs@.len() == i,
            forall|j: int| 0 <= j < i ==> (#[trigger] vs@[j]).0@ == s.enum_variants@[j].0@ && vs@[j].1 == s.enum_variants@[j].1,
        decreases s.enum_variants@.len() - i,
    {
        vs.push((s.enum_variants[i].0.clone(), s.enum_variants[i].1));
        i += 1;
    }
    assert(variants_view(vs@) =~= variants_view(s.enum_variants@));
    Symbol {
        name: s.name.clone(),
        kind: s.kind,
        line: s.line,
        col: s.col,
        detail: s.detail.clone(),
        import,
        enum_variants: vs,
        exported: s.exported,
        ty: crate::syntax::ast::clone_opt_type(&s.ty),
    }
}

} // verus!
