//! Rust text for the compiler's types and values: type names, string
//! literals, indentation and the struct of an object type.
//!
//! Types map as `string` to `String`, `number` to `f64`, `boolean` to
//! `bool`, `void` to `()`, `T[]` to `Vec<T>`; an object type is a struct
//! that lives in the root module (`crate::Name` from the others).

use crate::compiler::ast::{ExportDefault, ExportItem, Expr, Function, ImportNamed, Stmt};
use crate::compiler::collect::{
    add_object_types, collect_reassigned, collect_types, stmts_mutations, stmts_object_types, stmts_types,
    types_view, unique_by_name,
};
use crate::compiler::emit::{
    annotation_code, emit_annotation, emit_block, emit_expr, emit_function, emit_init, expr_code, function_code,
    init_code, stmts_code, stmts_depth, Ctx, CtxView,
};
use crate::compiler::modules::{Module, ModuleTarget};
use crate::compiler::types::{fields_view, lemma_fields_view, Type, TypeV};
use crate::text::{chars_of, push_char, str_eq};
use vstd::prelude::*;

verus! {

/// The Rust name of `ty` with its array wrapper left off.
pub open spec fn rust_base_type(ty: TypeV, is_root: bool) -> Seq<char> {
    if ty.fields.len() > 0 {
        if is_root {
            ty.name
        } else {
            "crate::"@ + ty.name
        }
    } else if ty.name == "string"@ {
        "String"@
    } else if ty.name == "number"@ {
        "f64"@
    } else if ty.name == "boolean"@ {
        "bool"@
    } else if ty.name == "void"@ {
        "()"@
    } else {
        ty.name
    }
}

/// The Rust type for `ty`, seen from the root module or another one.
pub open spec fn rust_type(ty: TypeV, is_root: bool) -> Seq<char> {
    if ty.is_array {
        "Vec<"@ + rust_base_type(ty, is_root) + ">"@
    } else {
        rust_base_type(ty, is_root)
    }
}

/// The Rust type for `ty` (`Vec<...>` for an array; `crate::` before an
/// object type's struct outside the root module).
pub fn ts_type_to_rust(ty: &Type, is_root: bool) -> (r: String)
    ensures
        r@ == rust_type(ty@, is_root),
{
    proof {
        lemma_fields_view(ty.fields@);
    }
    let base = if ty.fields.len() > 0 {
        if is_root {
            ty.name.clone()
        } else {
            let mut s = String::from_str("crate::");
            s.append(ty.name.as_str());
            s
        }
    } else if str_eq(ty.name.as_str(), "string") {
        String::from_str("String")
    } else if str_eq(ty.name.as_str(), "number") {
        String::from_str("f64")
    } else if str_eq(ty.name.as_str(), "boolean") {
        String::from_str("bool")
    } else if str_eq(ty.name.as_str(), "void") {
        String::from_str("()")
    } else {
        ty.name.clone()
    };
    if ty.is_array {
        let mut s = String::from_str("Vec<");
        s.append(base.as_str());
        s.append(">");
        s
    } else {
        base
    }
}

/// How one character is written inside a Rust string literal.
pub open spec fn escape_char(c: char) -> Seq<char> {
    if c == '\\' {
        seq!['\\', '\\']
    } else if c == '"' {
        seq!['\\', '"']
    } else if c == '\n' {
        seq!['\\', 'n']
    } else if c == '\t' {
        seq!['\\', 't']
    } else if c == '\r' {
        seq!['\\', 'r']
    } else {
        seq![c]
    }
}

pub open spec fn escaped(s: Seq<char>) -> Seq<char>
    decreases s.len(),
{
    if s.len() == 0 {
        Seq::empty()
    } else {
        escaped(s.drop_last()) + escape_char(s.last())
    }
}

/// The body of a generated string literal stays on one line, and every
/// quote in it is escaped: no raw newline, carriage return or tab, and a
/// `"` only right after a backslash.
pub proof fn lemma_escaped_single_line(s: Seq<char>)
    ensures
        forall|i: int| 0 <= i < escaped(s).len() ==> {
            let c = #[trigger] escaped(s)[i];
            c != '\n' && c != '\r' && c != '\t'
        },
        forall|i: int| 0 <= i < escaped(s).len() && #[trigger] escaped(s)[i] == '"' ==> i > 0 && escaped(s)[i - 1] == '\\',
    decreases s.len(),
{
    if s.len() > 0 {
        lemma_escaped_single_line(s.drop_last());
        let p = escaped(s.drop_last());
        let t = escape_char(s.last());
        assert(escaped(s) == p + t);
        assert forall|i: int| 0 <= i < escaped(s).len() && #[trigger] escaped(s)[i] == '"' implies i > 0 && escaped(s)[i - 1] == '\\' by {
            if i >= p.len() {
                assert(escaped(s)[i] == t[i - p.len()]);
                assert(i - p.len() == 1);
                assert(escaped(s)[i - 1] == t[0]);
            } else {
                assert(escaped(s)[i] == p[i]);
                assert(escaped(s)[i - 1] == p[i - 1]);
            }
        }
        assert forall|i: int| 0 <= i < escaped(s).len() implies {
            let c = #[trigger] escaped(s)[i];
            c != '\n' && c != '\r' && c != '\t'
        } by {
            if i >= p.len() {
                assert(escaped(s)[i] == t[i - p.len()]);
            } else {
                assert(escaped(s)[i] == p[i]);
            }
        }
    }
}

/// `String::from("...")` holding `s`, with backslash, quote, newline, tab
/// and carriage return escaped.
pub fn rust_string_literal(s: &str) -> (r: String)
    ensures
        r@ == "String::from(\""@ + escaped(s@) + "\")"@,
{
    let cs = chars_of(s);
    let mut out = String::from_str("String::from(\"");
    let ghost start = out@;
    let mut i: usize = 0;
    while i < cs.len()
        invariant
            i <= cs@.len(),
            cs@ == s@,
            out@ == start + escaped(cs@.take(i as int)),
        decreases cs@.len() - i,
    {
        proof {
            assert(cs@.take(i + 1).drop_last() =~= cs@.take(i as int));
        }
        let c = cs[i];
        if c == '\\' {
            push_char(&mut out, '\\');
            push_char(&mut out, '\\');
        } else if c == '"' {
            push_char(&mut out, '\\');
            push_char(&mut out, '"');
        } else if c == '\n' {
            push_char(&mut out, '\\');
            push_char(&mut out, 'n');
        } else if c == '\t' {
            push_char(&mut out, '\\');
            push_char(&mut out, 't');
        } else if c == '\r' {
            push_char(&mut out, '\\');
            push_char(&mut out, 'r');
        } else {
            push_char(&mut out, c);
        }
        proof {
            assert(out@ =~= start + escaped(cs@.take(i + 1)));
        }
        i += 1;
    }
    assert(cs@.take(cs@.len() as int) =~= cs@);
    out.append("\")");
    out
}

/// Four spaces per level.
pub open spec fn indentation(level: nat) -> Seq<char>
    decreases level,
{
    if level == 0 {
        Seq::empty()
    } else {
        indentation((level - 1) as nat) + "    "@
    }
}

/// Appends `level` levels of indentation.
pub fn indent(out: &mut String, level: usize)
    ensures
        final(out)@ == old(out)@ + indentation(level as nat),
{
    let mut i: usize = 0;
    while i < level
        invariant
            i <= level,
            out@ == old(out)@ + indentation(i as nat),
        decreases level - i,
    {
        out.append("    ");
        proof {
            assert(out@ =~= old(out)@ + indentation((i + 1) as nat));
        }
        i += 1;
    }
}

/// The field lines of an object type's struct.
pub open spec fn field_lines(fields: Seq<(Seq<char>, TypeV)>) -> Seq<char>
    decreases fields.len(),
{
    if fields.len() == 0 {
        Seq::empty()
    } else {
        field_lines(fields.drop_last()) + "    pub "@ + fields.last().0 + ": "@ + rust_type(fields.last().1, true)
            + ",\n"@
    }
}

/// The struct definition of an object type.
pub open spec fn struct_def(ty: TypeV) -> Seq<char> {
    "#[derive(Clone)]\npub struct "@ + ty.name + " {\n"@ + field_lines(ty.fields) + "}\n\n"@
}

/// Appends the struct definition of the object type `ty` (it lives in the
/// root module, so its field types are seen from there).
pub fn emit_struct_def(out: &mut String, ty: &Type)
    ensures
        final(out)@ == old(out)@ + struct_def(ty@),
{
    out.append("#[derive(Clone)]\npub struct ");
    out.append(ty.name.as_str());
    out.append(" {\n");
    let ghost start = out@;
    let mut i: usize = 0;
    assert(ty.fields@.take(0) =~= Seq::<(String, Box<Type>)>::empty());
    while i < ty.fields.len()
        invariant
            i <= ty.fields@.len(),
            out@ == start + field_lines(fields_view(ty.fields@.take(i as int))),
        decreases ty.fields@.len() - i,
    {
        proof {
            assert(ty.fields@.take(i + 1).drop_last() =~= ty.fields@.take(i as int));
        }
        out.append("    pub ");
        out.append(ty.fields[i].0.as_str());
        out.append(": ");
        let t = ts_type_to_rust(&ty.fields[i].1, true);
        out.append(t.as_str());
        out.append(",\n");
        proof {
            let pre = ty.fields@.take(i + 1);
            assert(pre.drop_last() =~= ty.fields@.take(i as int));
            assert(fields_view(pre) == fields_view(ty.fields@.take(i as int)).push(
                (ty.fields@[i as int].0@, (*ty.fields@[i as int].1)@),
            ));
            assert(fields_view(pre).drop_last() =~= fields_view(ty.fields@.take(i as int)));
            assert(out@ =~= start + field_lines(fields_view(pre)));
        }
        i += 1;
    }
    assert(ty.fields@.take(ty.fields@.len() as int) =~= ty.fields@);
    out.append("}\n\n");
    proof {
        assert(out@ =~= old(out)@ + struct_def(ty@));
    }
}

// ---------------------------------------------------------------------
// Items and modules.

/// The Rust type of a literal, as `export default` declares it: `f64`,
/// `String`, `bool`, or `Vec<T>` after the first element (`Vec<f64>` for
/// an empty array).
pub open spec fn literal_rust_type(e: Expr) -> Option<Seq<char>>
    decreases e,
{
    match e {
        Expr::Number(_) => Some("f64"@),
        Expr::String(_) => Some("String"@),
        Expr::Bool(_) => Some("bool"@),
        Expr::ArrayLiteral { elements } => Some(
            "Vec<"@ + (if elements@.len() > 0 {
                match literal_rust_type(elements@[0]) {
                    Some(t) => t,
                    None => "f64"@,
                }
            } else {
                "f64"@
            }) + ">"@,
        ),
        _ => None,
    }
}

/// The Rust type of a literal (see [`literal_rust_type`]).
pub fn infer_expr_rust_type(e: &Expr) -> (r: Option<String>)
    ensures
        match r {
            Some(t) => literal_rust_type(*e) == Some(t@),
            None => literal_rust_type(*e) is None,
        },
    decreases e,
{
    match e {
        Expr::Number(_) => Some(String::from_str("f64")),
        Expr::String(_) => Some(String::from_str("String")),
        Expr::Bool(_) => Some(String::from_str("bool")),
        Expr::ArrayLiteral { elements } => {
            let inner = if elements.len() > 0 {
                proof {
                    assert(decreases_to!(*elements => elements[0]));
                }
                match infer_expr_rust_type(&elements[0]) {
                    Some(t) => t,
                    None => String::from_str("f64"),
                }
            } else {
                String::from_str("f64")
            };
            let mut s = String::from_str("Vec<");
            s.append(inner.as_str());
            s.append(">");
            Some(s)
        },
        _ => None,
    }
}

/// `export default <expr>;` as a constant named `__default`.
pub open spec fn default_const_code(e: Expr, ctx: CtxView) -> Seq<char> {
    (match literal_rust_type(e) {
        Some(t) => "pub const __default: "@ + t + " = "@,
        None => "pub const __default = "@,
    }) + expr_code(e, ctx) + ";\n\n"@
}

/// A `let` / `const` of a module other than the root one, as a `const`
/// item.
pub open spec fn const_item_code(public: bool, name: Seq<char>, ty: Option<Type>, value: Expr, ctx: CtxView) -> Seq<
    char,
> {
    (if public {
        "pub const "@
    } else {
        "const "@
    }) + name + annotation_code(ty, ctx.is_root) + " = "@ + init_code(ty, value, ctx) + ";\n\n"@
}

pub open spec fn module_const_code(s: Stmt, ctx: CtxView) -> Seq<char> {
    match s {
        Stmt::Const { name, ty, value, .. } => const_item_code(false, name@, ty, value, ctx),
        Stmt::Let { name, ty, value, .. } => const_item_code(false, name@, ty, value, ctx),
        Stmt::ExportDecl(inner) => match *inner {
            Stmt::Const { name, ty, value, .. } => const_item_code(true, name@, ty, value, ctx),
            Stmt::Let { name, ty, value, .. } => const_item_code(true, name@, ty, value, ctx),
            _ => Seq::empty(),
        },
        _ => Seq::empty(),
    }
}

/// The symbol of a default-exported function: its name, or `__default`
/// when it has none.
pub open spec fn fn_symbol(f: Function) -> Seq<char> {
    if f.name@.len() == 0 {
        "__default"@
    } else {
        f.name@
    }
}

/// A function or default export as a top-level item.
pub open spec fn top_item_code(s: Stmt, ctx: CtxView) -> Seq<char> {
    match s {
        Stmt::Function(f) => function_code(f, f.name@, ctx, false),
        Stmt::ExportDecl(inner) => match *inner {
            Stmt::Function(f) => function_code(f, f.name@, ctx, true),
            _ => Seq::empty(),
        },
        Stmt::ExportDefault(ExportDefault::Function(f)) => function_code(f, fn_symbol(f), ctx, true),
        Stmt::ExportDefault(ExportDefault::Expr(e)) => default_const_code(e, ctx),
        _ => Seq::empty(),
    }
}

/// The function a top-level item defines, if any.
pub open spec fn item_function(s: Stmt) -> Option<Function> {
    match s {
        Stmt::Function(f) => Some(f),
        Stmt::ExportDecl(inner) => match *inner {
            Stmt::Function(f) => Some(f),
            _ => None,
        },
        Stmt::ExportDefault(ExportDefault::Function(f)) => Some(f),
        _ => None,
    }
}

/// Every block the generator writes for these top-level statements keeps
/// its indentation level within `usize`.
pub open spec fn fits_indentation(ss: Seq<Stmt>) -> bool {
    &&& 1 + stmts_depth(ss) <= usize::MAX
    &&& forall|i: int|
        0 <= i < ss.len() ==> match #[trigger] item_function(ss[i]) {
            Some(f) => 1 + stmts_depth(f.body@) <= usize::MAX,
            None => true,
        }
}

pub open spec fn top_items_code(ss: Seq<Stmt>, ctx: CtxView) -> Seq<char>
    decreases ss.len(),
{
    if ss.len() == 0 {
        Seq::empty()
    } else {
        top_items_code(ss.drop_last(), ctx) + top_item_code(ss.last(), ctx)
    }
}

pub open spec fn module_consts_code(ss: Seq<Stmt>, ctx: CtxView) -> Seq<char>
    decreases ss.len(),
{
    if ss.len() == 0 {
        Seq::empty()
    } else {
        module_consts_code(ss.drop_last(), ctx) + module_const_code(ss.last(), ctx)
    }
}

/// `export { a, b as c }` as `pub use` lines.
pub open spec fn export_item_code(it: ExportItem) -> Seq<char> {
    match it.alias {
        Some(a) => "pub use self::"@ + it.name@ + " as "@ + a@ + ";\n"@,
        None => "pub use self::"@ + it.name@ + ";\n"@,
    }
}

pub open spec fn export_items_code(items: Seq<ExportItem>) -> Seq<char>
    decreases items.len(),
{
    if items.len() == 0 {
        Seq::empty()
    } else {
        export_items_code(items.drop_last()) + export_item_code(items.last())
    }
}

pub open spec fn export_specs_code(ss: Seq<Stmt>) -> Seq<char>
    decreases ss.len(),
{
    if ss.len() == 0 {
        Seq::empty()
    } else {
        export_specs_code(ss.drop_last()) + match ss.last() {
            Stmt::ExportSpec(items) => export_items_code(items@),
            _ => Seq::empty(),
        }
    }
}

/// The `use` line of one imported name, from the module or crate path
/// `prefix`.
pub open spec fn use_line(prefix: Seq<char>, n: ImportNamed) -> Seq<char> {
    let local = match n.alias {
        Some(a) => a@,
        None => n.name@,
    };
    if local == n.name@ {
        "use "@ + prefix + "::"@ + n.name@ + ";\n"@
    } else {
        "use "@ + prefix + "::"@ + n.name@ + " as "@ + local + ";\n"@
    }
}

pub open spec fn use_lines(prefix: Seq<char>, ns: Seq<ImportNamed>) -> Seq<char>
    decreases ns.len(),
{
    if ns.len() == 0 {
        Seq::empty()
    } else {
        use_lines(prefix, ns.drop_last()) + use_line(prefix, ns.last())
    }
}

/// The index of the last module with path `p`.
pub open spec fn last_with_path(ms: Seq<Module>, p: Seq<char>) -> Option<int>
    decreases ms.len(),
{
    if ms.len() == 0 {
        None
    } else if ms.last().path@ == p {
        Some(ms.len() - 1)
    } else {
        last_with_path(ms.drop_last(), p)
    }
}

/// The index of the first module with path `p`.
pub open spec fn first_with_path(ms: Seq<Module>, p: Seq<char>) -> Option<int>
    decreases ms.len(),
{
    if ms.len() == 0 {
        None
    } else if ms[0].path@ == p {
        Some(0)
    } else {
        match first_with_path(ms.drop_first(), p) {
            Some(k) => Some(k + 1),
            None => None,
        }
    }
}

pub open spec fn unresolved_message(spec: Seq<char>) -> Seq<char> {
    "módulo `"@ + spec + "` no resuelto a un id (error interno)"@
}

pub open spec fn no_default_message(spec: Seq<char>) -> Seq<char> {
    "`"@ + spec + "` no tiene default export"@
}

/// The `use` lines of one `import`, given where its specifier points: a
/// crate's items by the crate's path, a module's by `crate::<id>`, with
/// the default export under its local name first.
pub open spec fn import_code(
    default: Option<String>,
    named: Seq<ImportNamed>,
    spec: Seq<char>,
    target: ModuleTarget,
    ms: Seq<Module>,
) -> Result<Seq<char>, Seq<char>> {
    match target {
        ModuleTarget::Crate(c) => Ok(use_lines(c@, named)),
        ModuleTarget::Local(p) => match last_with_path(ms, p@) {
            None => Err(unresolved_message(spec)),
            Some(k) => {
                let prefix = "crate::"@ + ms[k].id@;
                match default {
                    Some(local) => match first_with_path(ms, p@) {
                        Some(j) => match ms[j].exports.default {
                            Some(d) => Ok(
                                "use crate::"@ + ms[k].id@ + "::"@ + d@ + " as "@ + local@ + ";\n"@ + use_lines(
                                    prefix,
                                    named,
                                ),
                            ),
                            None => Err(no_default_message(spec)),
                        },
                        None => Err(unresolved_message(spec)),
                    },
                    None => Ok(use_lines(prefix, named)),
                }
            },
        },
    }
}

/// The number of `import` statements.
pub open spec fn import_count(ss: Seq<Stmt>) -> nat
    decreases ss.len(),
{
    if ss.len() == 0 {
        0
    } else {
        import_count(ss.drop_last()) + if ss.last() is Import {
            1nat
        } else {
            0nat
        }
    }
}

/// The `use` lines of a module's imports, the `j`-th import pointing to
/// `targets[j]`; the first import that fails gives the error.
pub open spec fn imports_code(ss: Seq<Stmt>, targets: Seq<ModuleTarget>, ms: Seq<Module>) -> Result<
    Seq<char>,
    Seq<char>,
>
    decreases ss.len(),
{
    if ss.len() == 0 {
        Ok(Seq::empty())
    } else {
        match imports_code(ss.drop_last(), targets, ms) {
            Err(e) => Err(e),
            Ok(prev) => match ss.last() {
                Stmt::Import { default, named, module } => match import_code(
                    default,
                    named@,
                    module@,
                    targets[import_count(ss.drop_last()) as int],
                    ms,
                ) {
                    Ok(t) => Ok(prev + t),
                    Err(e) => Err(e),
                },
                _ => Ok(prev),
            },
        }
    }
}

/// What the emitters know of a module's program.
pub open spec fn module_ctx(ss: Seq<Stmt>, is_root: bool) -> CtxView {
    CtxView { reassigned: stmts_mutations(ss), types: stmts_types(ss), let_type: None, is_root }
}

pub open spec fn module_header() -> Seq<char> {
    "#![allow(unused_parens, non_snake_case, while_true, unused_imports, dead_code)]\n\n"@
}

pub open spec fn mod_lines(ms: Seq<Module>) -> Seq<char>
    decreases ms.len(),
{
    if ms.len() == 0 {
        Seq::empty()
    } else {
        mod_lines(ms.drop_last()) + "mod "@ + ms.last().id@ + ";\n"@
    }
}

/// The modules after the first (the root).
pub open spec fn after_first(ms: Seq<Module>) -> Seq<Module> {
    if ms.len() == 0 {
        ms
    } else {
        ms.drop_first()
    }
}

pub open spec fn struct_defs(ts: Seq<TypeV>) -> Seq<char>
    decreases ts.len(),
{
    if ts.len() == 0 {
        Seq::empty()
    } else {
        struct_defs(ts.drop_last()) + struct_def(ts.last())
    }
}

pub open spec fn crate_use_lines(ts: Seq<TypeV>) -> Seq<char>
    decreases ts.len(),
{
    if ts.len() == 0 {
        Seq::empty()
    } else {
        crate_use_lines(ts.drop_last()) + "use crate::"@ + ts.last().name + ";\n"@
    }
}

/// The Rust source of one module. The root module declares the others
/// (`mod <id>;`), defines every object type's struct and puts its
/// top-level statements in `fn main()`; another module imports the
/// structs it uses from the root and turns its top-level `let` / `const`
/// into `const` items. Both then have their imports as `use` lines, their
/// `export { .. }` as `pub use`, and their functions as items.
pub open spec fn module_code(
    m: Module,
    is_root: bool,
    ms: Seq<Module>,
    all_types: Seq<TypeV>,
    targets: Seq<ModuleTarget>,
) -> Result<Seq<char>, Seq<char>> {
    let ss = m.program.stmts@;
    let ctx = module_ctx(ss, is_root);
    match imports_code(ss, targets, ms) {
        Err(e) => Err(e),
        Ok(imports) => Ok(
            module_header() + (if is_root {
                mod_lines(after_first(ms)) + "\n"@ + struct_defs(all_types)
            } else {
                Seq::empty()
            }) + imports + (if is_root {
                Seq::empty()
            } else {
                crate_use_lines(unique_by_name(Seq::empty(), stmts_object_types(ss)))
            }) + export_specs_code(ss) + top_items_code(ss, ctx) + (if is_root {
                "fn main() {\n"@ + stmts_code(ss, 1, ctx) + "}\n"@
            } else {
                module_consts_code(ss, ctx)
            }),
        ),
    }
}

/// The object types of all the modules, in order.
pub open spec fn all_object_types(ms: Seq<Module>) -> Seq<TypeV>
    decreases ms.len(),
{
    if ms.len() == 0 {
        Seq::empty()
    } else {
        all_object_types(ms.drop_last()) + stmts_object_types(ms.last().program.stmts@)
    }
}

/// The object types that the root module defines: those of all modules,
/// each name once (the first declaration of a name wins).
pub open spec fn root_struct_types(ms: Seq<Module>) -> Seq<TypeV> {
    unique_by_name(Seq::empty(), all_object_types(ms))
}

fn emit_default_const(out: &mut String, e: &Expr, ctx: &Ctx)
    ensures
        final(out)@ == old(out)@ + default_const_code(*e, ctx@),
{
    let ghost start = out@;
    match infer_expr_rust_type(e) {
        Some(t) => {
            out.append("pub const __default: ");
            out.append(t.as_str());
            out.append(" = ");
        },
        None => out.append("pub const __default = "),
    }
    emit_expr(out, e, ctx);
    out.append(";\n\n");
    assert(out@ =~= start + default_const_code(*e, ctx@));
}

fn emit_const_item(out: &mut String, public: bool, name: &String, ty: &Option<Type>, value: &Expr, ctx: &Ctx)
    ensures
        final(out)@ == old(out)@ + const_item_code(public, name@, *ty, *value, ctx@),
{
    let ghost start = out@;
    if public {
        out.append("pub const ");
    } else {
        out.append("const ");
    }
    out.append(name.as_str());
    emit_annotation(out, ty, ctx.is_root);
    out.append(" = ");
    emit_init(out, ty, value, ctx);
    out.append(";\n\n");
    assert(out@ =~= start + const_item_code(public, name@, *ty, *value, ctx@));
}

fn emit_module_const(out: &mut String, s: &Stmt, ctx: &Ctx)
    ensures
        final(out)@ == old(out)@ + module_const_code(*s, ctx@),
{
    match s {
        Stmt::Const { name, ty, value, .. } | Stmt::Let { name, ty, value, .. } => emit_const_item(
            out,
            false,
            name,
            ty,
            value,
            ctx,
        ),
        Stmt::ExportDecl(inner) => match &**inner {
            Stmt::Const { name, ty, value, .. } | Stmt::Let { name, ty, value, .. } => emit_const_item(
                out,
                true,
                name,
                ty,
                value,
                ctx,
            ),
            _ => {
                assert(out@ =~= old(out)@ + module_const_code(*s, ctx@));
            },
        },
        _ => {
            assert(out@ =~= old(out)@ + module_const_code(*s, ctx@));
        },
    }
}

fn emit_top_item(out: &mut String, s: &Stmt, ctx: &Ctx)
    requires
        match item_function(*s) {
            Some(f) => 1 + stmts_depth(f.body@) <= usize::MAX,
            None => true,
        },
    ensures
        final(out)@ == old(out)@ + top_item_code(*s, ctx@),
{
    match s {
        Stmt::Function(f) => emit_function(out, f, f.name.as_str(), ctx, false),
        Stmt::ExportDecl(inner) => match &**inner {
            Stmt::Function(f) => emit_function(out, f, f.name.as_str(), ctx, true),
            _ => {
                assert(out@ =~= old(out)@ + top_item_code(*s, ctx@));
            },
        },
        Stmt::ExportDefault(ExportDefault::Function(f)) => {
            if f.name.as_str().unicode_len() == 0 {
                emit_function(out, f, "__default", ctx, true);
            } else {
                emit_function(out, f, f.name.as_str(), ctx, true);
            }
        },
        Stmt::ExportDefault(ExportDefault::Expr(e)) => emit_default_const(out, e, ctx),
        _ => {
            assert(out@ =~= old(out)@ + top_item_code(*s, ctx@));
        },
    }
}

fn emit_export_items(out: &mut String, items: &Vec<ExportItem>)
    ensures
        final(out)@ == old(out)@ + export_items_code(items@),
{
    let ghost start = out@;
    let mut i: usize = 0;
    assert(items@.take(0) =~= Seq::<ExportItem>::empty());
    while i < items.len()
        invariant
            i <= items@.len(),
            out@ == start + export_items_code(items@.take(i as int)),
        decreases items@.len() - i,
    {
        proof {
            assert(items@.take(i + 1).drop_last() =~= items@.take(i as int));
        }
        out.append("pub use self::");
        out.append(items[i].name.as_str());
        match &items[i].alias {
            Some(a) => {
                out.append(" as ");
                out.append(a.as_str());
                out.append(";\n");
            },
            None => out.append(";\n"),
        }
        proof {
            assert(out@ =~= start + export_items_code(items@.take(i + 1)));
        }
        i += 1;
    }
    assert(items@.take(items@.len() as int) =~= items@);
}

fn emit_use_lines(out: &mut String, prefix: &str, ns: &Vec<ImportNamed>)
    ensures
        final(out)@ == old(out)@ + use_lines(prefix@, ns@),
{
    let ghost start = out@;
    let mut i: usize = 0;
    assert(ns@.take(0) =~= Seq::<ImportNamed>::empty());
    while i < ns.len()
        invariant
            i <= ns@.len(),
            out@ == start + use_lines(prefix@, ns@.take(i as int)),
        decreases ns@.len() - i,
    {
        proof {
            assert(ns@.take(i + 1).drop_last() =~= ns@.take(i as int));
        }
        let n = &ns[i];
        let local: &String = match &n.alias {
            Some(a) => a,
            None => &n.name,
        };
        out.append("use ");
        out.append(prefix);
        out.append("::");
        out.append(n.name.as_str());
        if !str_eq(local.as_str(), n.name.as_str()) {
            out.append(" as ");
            out.append(local.as_str());
        }
        out.append(";\n");
        proof {
            assert(out@ =~= start + use_lines(prefix@, ns@.take(i + 1)));
        }
        i += 1;
    }
    assert(ns@.take(ns@.len() as int) =~= ns@);
}

fn find_last_with_path(ms: &Vec<Module>, p: &str) -> (r: Option<usize>)
    ensures
        match r {
            Some(k) => last_with_path(ms@, p@) == Some(k as int) && k < ms@.len(),
            None => last_with_path(ms@, p@) is None,
        },
{
    let mut i: usize = ms.len();
    assert(ms@.take(ms@.len() as int) =~= ms@);
    while i > 0
        invariant
            i <= ms@.len(),
            last_with_path(ms@, p@) == last_with_path(ms@.take(i as int), p@),
        decreases i,
    {
        proof {
            assert(ms@.take(i as int).drop_last() =~= ms@.take(i - 1));
        }
        if str_eq(ms[i - 1].path.as_str(), p) {
            return Some(i - 1);
        }
        i -= 1;
    }
    None
}

proof fn lemma_first_with_path(ms: Seq<Module>, p: Seq<char>, k: int)
    requires
        0 <= k < ms.len(),
        ms[k].path@ == p,
        forall|j: int| 0 <= j < k ==> (#[trigger] ms[j]).path@ != p,
    ensures
        first_with_path(ms, p) == Some(k),
    decreases k,
{
    if k > 0 {
        assert forall|j: int| 0 <= j < k - 1 implies (#[trigger] ms.drop_first()[j]).path@ != p by {
            assert(ms.drop_first()[j] == ms[j + 1]);
        }
        lemma_first_with_path(ms.drop_first(), p, k - 1);
    }
}

proof fn lemma_no_first_with_path(ms: Seq<Module>, p: Seq<char>)
    requires
        forall|j: int| 0 <= j < ms.len() ==> (#[trigger] ms[j]).path@ != p,
    ensures
        first_with_path(ms, p) is None,
    decreases ms.len(),
{
    if ms.len() > 0 {
        assert forall|j: int| 0 <= j < ms.len() - 1 implies (#[trigger] ms.drop_first()[j]).path@ != p by {
            assert(ms.drop_first()[j] == ms[j + 1]);
        }
        lemma_no_first_with_path(ms.drop_first(), p);
    }
}

fn find_first_with_path(ms: &Vec<Module>, p: &str) -> (r: Option<usize>)
    ensures
        match r {
            Some(k) => first_with_path(ms@, p@) == Some(k as int) && k < ms@.len(),
            None => first_with_path(ms@, p@) is None,
        },
{
    let mut i: usize = 0;
    while i < ms.len()
        invariant
            i <= ms@.len(),
            forall|j: int| 0 <= j < i ==> (#[trigger] ms@[j]).path@ != p@,
        decreases ms@.len() - i,
    {
        if str_eq(ms[i].path.as_str(), p) {
            proof {
                lemma_first_with_path(ms@, p@, i as int);
            }
            return Some(i);
        }
        i += 1;
    }
    proof {
        lemma_no_first_with_path(ms@, p@);
    }
    None
}

/// Appends the `use` lines of one import.
fn emit_import(
    out: &mut String,
    default: &Option<String>,
    named: &Vec<ImportNamed>,
    spec: &String,
    target: &ModuleTarget,
    ms: &Vec<Module>,
) -> (r: Result<(), String>)
    ensures
        match import_code(*default, named@, spec@, *target, ms@) {
            Ok(t) => r is Ok && final(out)@ == old(out)@ + t,
            Err(e) => r matches Err(m) && m@ == e,
        },
{
    match target {
        ModuleTarget::Crate(c) => {
            emit_use_lines(out, c.as_str(), named);
            Ok(())
        },
        ModuleTarget::Local(p) => {
            match find_last_with_path(ms, p.as_str()) {
                None => {
                    let mut m = String::from_str("módulo `");
                    m.append(spec.as_str());
                    m.append("` no resuelto a un id (error interno)");
                    Err(m)
                },
                Some(k) => {
                    let mut prefix = String::from_str("crate::");
                    prefix.append(ms[k].id.as_str());
                    let ghost start = out@;
                    if let Some(local) = default {
                        match find_first_with_path(ms, p.as_str()) {
                            Some(j) => match &ms[j].exports.default {
                                Some(d) => {
                                    out.append("use crate::");
                                    out.append(ms[k].id.as_str());
                                    out.append("::");
                                    out.append(d.as_str());
                                    out.append(" as ");
                                    out.append(local.as_str());
                                    out.append(";\n");
                                },
                                None => {
                                    let mut m = String::from_str("`");
                                    m.append(spec.as_str());
                                    m.append("` no tiene default export");
                                    return Err(m);
                                },
                            },
                            None => {
                                let mut m = String::from_str("módulo `");
                                m.append(spec.as_str());
                                m.append("` no resuelto a un id (error interno)");
                                return Err(m);
                            },
                        }
                    }
                    let ghost mid = out@;
                    emit_use_lines(out, prefix.as_str(), named);
                    assert(out@ =~= start + (mid.skip(start.len() as int)) + use_lines(prefix@, named@));
                    Ok(())
                },
            }
        },
    }
}

/// Appends the `use` lines of a module's imports, the `j`-th import
/// pointing to `targets[j]`.
fn emit_imports(out: &mut String, ss: &Vec<Stmt>, targets: &Vec<ModuleTarget>, ms: &Vec<Module>) -> (r: Result<
    (),
    String,
>)
    requires
        targets@.len() == import_count(ss@),
    ensures
        match imports_code(ss@, targets@, ms@) {
            Ok(t) => r is Ok && final(out)@ == old(out)@ + t,
            Err(e) => r matches Err(m) && m@ == e,
        },
{
    let ghost start = out@;
    let mut i: usize = 0;
    let mut j: usize = 0;
    assert(ss@.take(0) =~= Seq::<Stmt>::empty());
    assert(out@.skip(start.len() as int) =~= Seq::<char>::empty());
    let n: usize = targets.len();
    while i < ss.len()
        invariant
            i <= ss@.len(),
            n == targets@.len(),
            j == import_count(ss@.take(i as int)),
            targets@.len() == import_count(ss@),
            imports_code(ss@.take(i as int), targets@, ms@) == Ok::<Seq<char>, Seq<char>>(
                out@.skip(start.len() as int),
            ),
            out@.len() >= start.len(),
            out@.take(start.len() as int) == start,
        decreases ss@.len() - i,
    {
        proof {
            assert(ss@.take(i + 1).drop_last() =~= ss@.take(i as int));
            lemma_import_count_prefix(ss@, i as int);
        }
        let ghost before = out@;
        let ghost prev = before.skip(start.len() as int);
        if let Stmt::Import { default, named, module } = &ss[i] {
            assert(ss@[i as int] is Import);
            assert(j < n);
            let r = emit_import(out, default, named, module, &targets[j], ms);
            if let Err(m) = r {
                proof {
                    lemma_imports_err_extends(ss@, targets@, ms@, i + 1);
                }
                return Err(m);
            }
            proof {
                let t = out@.skip(before.len() as int);
                let tg = targets@[import_count(ss@.take(i as int)) as int];
                assert(ss@.take(i + 1).last() == ss@[i as int]);
                assert(import_code(*default, named@, module@, tg, ms@) is Ok);
                let t2 = import_code(*default, named@, module@, tg, ms@)->Ok_0;
                assert(out@ == before + t2);
                assert((before + t2).skip(before.len() as int) =~= t2);
                assert(out@ =~= before + t);
                assert(import_code(*default, named@, module@, tg, ms@) == Ok::<Seq<char>, Seq<char>>(t));
                assert(imports_code(ss@.take(i + 1), targets@, ms@) == Ok::<Seq<char>, Seq<char>>(prev + t));
                assert(out@.skip(start.len() as int) =~= prev + t);
            }
            j += 1;
        } else {
            assert(imports_code(ss@.take(i + 1), targets@, ms@) == Ok::<Seq<char>, Seq<char>>(prev));
        }
        proof {
            assert(out@.take(start.len() as int) =~= start);
        }
        i += 1;
    }
    assert(ss@.take(ss@.len() as int) =~= ss@);
    assert(out@ =~= start + out@.skip(start.len() as int));
    Ok(())
}

proof fn lemma_imports_err_extends(ss: Seq<Stmt>, targets: Seq<ModuleTarget>, ms: Seq<Module>, k: int)
    requires
        0 <= k <= ss.len(),
        imports_code(ss.take(k), targets, ms) is Err,
    ensures
        imports_code(ss, targets, ms) == imports_code(ss.take(k), targets, ms),
    decreases ss.len() - k,
{
    if k < ss.len() {
        assert(ss.take(k + 1).drop_last() =~= ss.take(k));
        lemma_imports_err_extends(ss, targets, ms, k + 1);
    } else {
        assert(ss.take(k) =~= ss);
    }
}

proof fn lemma_import_count_prefix(ss: Seq<Stmt>, i: int)
    requires
        0 <= i < ss.len(),
    ensures
        import_count(ss.take(i)) <= import_count(ss.take(i + 1)) <= import_count(ss),
        ss[i] is Import ==> import_count(ss.take(i)) < import_count(ss),
    decreases ss.len() - i,
{
    assert(ss.take(i + 1).drop_last() =~= ss.take(i));
    if i + 1 < ss.len() {
        lemma_import_count_prefix(ss, i + 1);
    } else {
        assert(ss.take(i + 1) =~= ss);
    }
}


/// The Rust source of one module (see [`module_code`]); `all_types` are
/// the object types the root module defines, and the `j`-th import of the
/// module points to `targets[j]`.
pub fn generate_module(m: &Module, is_root: bool, ms: &Vec<Module>, all_types: &Vec<Type>, targets: &Vec<ModuleTarget>) -> (r:
    Result<String, String>)
    requires
        targets@.len() == import_count(m.program.stmts@),
        fits_indentation(m.program.stmts@),
    ensures
        match module_code(*m, is_root, ms@, types_view(all_types@), targets@) {
            Ok(t) => r matches Ok(s) && s@ == t,
            Err(e) => r matches Err(s) && s@ == e,
        },
{
    let ss = &m.program.stmts;
    let mut out = String::from_str(
        "#![allow(unused_parens, non_snake_case, while_true, unused_imports, dead_code)]\n\n",
    );
    let reassigned = collect_reassigned(&m.program);
    let types = collect_types(&m.program);
    let ctx = Ctx { reassigned: &reassigned, types: &types, current_let_type: None, is_root };
    assert(ctx@ == module_ctx(ss@, is_root));
    let ghost p0 = out@;
    assert(p0 == module_header());
    if is_root {
        let mut i: usize = 1;
        assert(after_first(ms@).take(0) =~= Seq::<Module>::empty());
        while i < ms.len()
            invariant
                1 <= i,
                i <= ms@.len() || (ms@.len() == 0 && i == 1),
                out@ == p0 + mod_lines(after_first(ms@).take(i - 1)),
            decreases ms@.len() - i,
        {
            proof {
                assert(after_first(ms@).take(i as int).drop_last() =~= after_first(ms@).take(i - 1));
                assert(after_first(ms@)[i - 1] == ms@[i as int]);
            }
            out.append("mod ");
            out.append(ms[i].id.as_str());
            out.append(";\n");
            proof {
                assert(out@ =~= p0 + mod_lines(after_first(ms@).take(i as int)));
            }
            i += 1;
        }
        proof {
            assert(out@ == p0 + mod_lines(after_first(ms@).take(i - 1)));
            if ms@.len() == 0 {
                assert(after_first(ms@).take(i - 1) =~= after_first(ms@));
            } else {
                assert(i == ms@.len());
                assert(after_first(ms@).len() == ms@.len() - 1);
                assert(after_first(ms@).take(i - 1) =~= after_first(ms@));
            }
        }
        assert(out@ == p0 + mod_lines(after_first(ms@)));
        out.append("\n");
        let ghost p1 = out@;
        assert(p1 == p0 + mod_lines(after_first(ms@)) + "\n"@);
        let mut k: usize = 0;
        assert(types_view(all_types@.take(0)) =~= Seq::<TypeV>::empty());
        while k < all_types.len()
            invariant
                k <= all_types@.len(),
                out@ == p1 + struct_defs(types_view(all_types@.take(k as int))),
            decreases all_types@.len() - k,
        {
            proof {
                assert(types_view(all_types@.take(k + 1)).drop_last() =~= types_view(all_types@.take(k as int)));
            }
            emit_struct_def(&mut out, &all_types[k]);
            proof {
                assert(out@ =~= p1 + struct_defs(types_view(all_types@.take(k + 1))));
            }
            k += 1;
        }
        assert(all_types@.take(all_types@.len() as int) =~= all_types@);
        assert(out@ =~= p0 + (mod_lines(after_first(ms@)) + "\n"@ + struct_defs(types_view(all_types@))));
    } else {
        assert(out@ =~= p0 + Seq::<char>::empty());
    }
    let ghost p2 = out@;
    assert(p2 == p0 + (if is_root {
        mod_lines(after_first(ms@)) + "\n"@ + struct_defs(types_view(all_types@))
    } else {
        Seq::empty()
    }));
    match emit_imports(&mut out, ss, targets, ms) {
        Err(e) => return Err(e),
        Ok(()) => {},
    }
    let ghost p3 = out@;
    if !is_root {
        let mut own: Vec<Type> = Vec::new();
        assert(types_view(own@) =~= Seq::<TypeV>::empty());
        add_object_types(ss, &mut own);
        let mut k: usize = 0;
        assert(types_view(own@.take(0)) =~= Seq::<TypeV>::empty());
        while k < own.len()
            invariant
                k <= own@.len(),
                out@ == p3 + crate_use_lines(types_view(own@.take(k as int))),
            decreases own@.len() - k,
        {
            proof {
                assert(types_view(own@.take(k + 1)).drop_last() =~= types_view(own@.take(k as int)));
            }
            out.append("use crate::");
            out.append(own[k].name.as_str());
            out.append(";\n");
            proof {
                assert(out@ =~= p3 + crate_use_lines(types_view(own@.take(k + 1))));
            }
            k += 1;
        }
        assert(own@.take(own@.len() as int) =~= own@);
    }
    let ghost p4 = out@;
    let mut i: usize = 0;
    assert(ss@.take(0) =~= Seq::<Stmt>::empty());
    while i < ss.len()
        invariant
            i <= ss@.len(),
            out@ == p4 + export_specs_code(ss@.take(i as int)),
        decreases ss@.len() - i,
    {
        proof {
            assert(ss@.take(i + 1).drop_last() =~= ss@.take(i as int));
        }
        if let Stmt::ExportSpec(items) = &ss[i] {
            emit_export_items(&mut out, items);
        }
        proof {
            assert(out@ =~= p4 + export_specs_code(ss@.take(i + 1)));
        }
        i += 1;
    }
    assert(ss@.take(ss@.len() as int) =~= ss@);
    let ghost p5 = out@;
    let mut i: usize = 0;
    while i < ss.len()
        invariant
            i <= ss@.len(),
            fits_indentation(ss@),
            ctx@ == module_ctx(ss@, is_root),
            out@ == p5 + top_items_code(ss@.take(i as int), ctx@),
        decreases ss@.len() - i,
    {
        proof {
            assert(ss@.take(i + 1).drop_last() =~= ss@.take(i as int));
            let _ = item_function(ss@[i as int]);
        }
        emit_top_item(&mut out, &ss[i], &ctx);
        proof {
            assert(out@ =~= p5 + top_items_code(ss@.take(i + 1), ctx@));
        }
        i += 1;
    }
    let ghost p6 = out@;
    if is_root {
        out.append("fn main() {\n");
        emit_block(&mut out, ss, 1, &ctx);
        out.append("}\n");
        assert(out@ =~= p6 + ("fn main() {\n"@ + stmts_code(ss@, 1, ctx@) + "}\n"@));
    } else {
        let mut i: usize = 0;
        while i < ss.len()
            invariant
                i <= ss@.len(),
                out@ == p6 + module_consts_code(ss@.take(i as int), ctx@),
            decreases ss@.len() - i,
        {
            proof {
                assert(ss@.take(i + 1).drop_last() =~= ss@.take(i as int));
            }
            emit_module_const(&mut out, &ss[i], &ctx);
            proof {
                assert(out@ =~= p6 + module_consts_code(ss@.take(i + 1), ctx@));
            }
            i += 1;
        }
    }
    Ok(out)
}

/// What [`generate_module`] gives for module `i` of `ms`.
pub open spec fn module_result(ms: Seq<Module>, targets: Seq<Vec<ModuleTarget>>, i: int) -> Result<Seq<char>, Seq<char>> {
    module_code(ms[i], i == 0, ms, root_struct_types(ms), targets[i]@)
}

/// The Rust source of every module, as `(id, source)`, the root module
/// (the first) first. The `j`-th import of module `i` points to
/// `targets[i][j]`. The first module that fails gives the error.
pub fn generate_all(modules: &Vec<Module>, targets: &Vec<Vec<ModuleTarget>>) -> (r: Result<Vec<(String, String)>, String>)
    requires
        targets@.len() == modules@.len(),
        forall|i: int|
            0 <= i < modules@.len() ==> (#[trigger] targets@[i])@.len() == import_count(
                modules@[i].program.stmts@,
            ) && fits_indentation(modules@[i].program.stmts@),
    ensures
        match r {
            Ok(v) => {
                &&& v@.len() == modules@.len()
                &&& forall|i: int|
                    0 <= i < modules@.len() ==> (#[trigger] v@[i]).0@ == modules@[i].id@ && module_result(
                        modules@,
                        targets@,
                        i,
                    ) == Ok::<Seq<char>, Seq<char>>(v@[i].1@)
            },
            Err(e) => exists|k: int|
                0 <= k < modules@.len() && (forall|i: int| 0 <= i < k ==> (#[trigger] module_result(modules@, targets@, i)) is Ok)
                    && module_result(modules@, targets@, k) == Err::<Seq<char>, Seq<char>>(e@),
        },
{
    let mut all: Vec<Type> = Vec::new();
    let mut i: usize = 0;
    assert(types_view(all@) =~= Seq::<TypeV>::empty());
    assert(modules@.take(0) =~= Seq::<Module>::empty());
    while i < modules.len()
        invariant
            i <= modules@.len(),
            types_view(all@) == unique_by_name(Seq::empty(), all_object_types(modules@.take(i as int))),
        decreases modules@.len() - i,
    {
        proof {
            assert(modules@.take(i + 1).drop_last() =~= modules@.take(i as int));
            crate::compiler::collect::lemma_unique_by_name_concat(
                Seq::empty(),
                all_object_types(modules@.take(i as int)),
                stmts_object_types(modules@[i as int].program.stmts@),
            );
        }
        add_object_types(&modules[i].program.stmts, &mut all);
        i += 1;
    }
    assert(modules@.take(modules@.len() as int) =~= modules@);
    let ghost roots = root_struct_types(modules@);
    let mut out: Vec<(String, String)> = Vec::new();
    let mut i: usize = 0;
    while i < modules.len()
        invariant
            i <= modules@.len(),
            types_view(all@) == roots,
            roots == root_struct_types(modules@),
            targets@.len() == modules@.len(),
            forall|k: int|
                0 <= k < modules@.len() ==> (#[trigger] targets@[k])@.len() == import_count(
                    modules@[k].program.stmts@,
                ) && fits_indentation(modules@[k].program.stmts@),
            out@.len() == i,
            forall|k: int|
                0 <= k < i ==> (#[trigger] out@[k]).0@ == modules@[k].id@ && module_result(modules@, targets@, k)
                    == Ok::<Seq<char>, Seq<char>>(out@[k].1@),
        decreases modules@.len() - i,
    {
        proof {
            let _ = targets@[i as int];
        }
        match generate_module(&modules[i], i == 0, modules, &all, &targets[i]) {
            Ok(src) => {
                out.push((modules[i].id.clone(), src));
            },
            Err(e) => {
                proof {
                    assert(module_result(modules@, targets@, i as int) == Err::<Seq<char>, Seq<char>>(e@));
                    assert forall|k: int| 0 <= k < i implies (#[trigger] module_result(modules@, targets@, k)) is Ok by {
                        assert(out@[k].0@ == modules@[k].id@);
                    }
                }
                return Err(e);
            },
        }
        i += 1;
    }
    Ok(out)
}

} // verus!
