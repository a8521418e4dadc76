//! Rust text for expressions and statements.
//!
//! Numbers are written with a decimal point (`3` as `3.0`), strings as
//! `String::from("...")`, `print(x)` as `println!("{}", x)`. A `+` with a
//! string literal on either side becomes `format!("{}{}", a, b)`; other
//! binary operations are parenthesised. Array and string methods map to
//! their iterator and `String` counterparts, `sys.*` calls to `std::fs` /
//! `std::env`, and `.length` to a character count on a `string` variable
//! and to `.len()` elsewhere. A C-style `for` becomes a `loop` guarded by
//! a first-iteration flag, so that `continue` still runs the update.

use crate::compiler::ast::{BinOp, Expr, Function, Stmt, UnaryOp};
use crate::compiler::codegen::{escaped, indent, indentation, rust_string_literal, rust_type, ts_type_to_rust};
use crate::compiler::types::{Type, TypeV};
use crate::text::{join, str_eq, strings_view};
use vstd::prelude::*;

verus! {

broadcast use vstd::std_specs::vec::group_vec_axioms;

/// What the emitters know about the module being written: the names that
/// are assigned after their declaration (declared `let mut`), the declared
/// type of each name (`T[]` for arrays; the last declaration of a name
/// wins), the declared type of the `let` / `const` whose initialiser is
/// being written (it names an object literal's struct), and whether the
/// module is the root one.
pub struct Ctx<'a> {
    pub reassigned: &'a Vec<String>,
    pub types: &'a Vec<(String, String)>,
    pub current_let_type: Option<&'a Type>,
    pub is_root: bool,
}

/// The value of a [`Ctx`].
pub struct CtxView {
    pub reassigned: Seq<Seq<char>>,
    pub types: Seq<(Seq<char>, Seq<char>)>,
    pub let_type: Option<TypeV>,
    pub is_root: bool,
}

/// The values of `(name, type)` pairs.
pub open spec fn pairs_view(s: Seq<(String, String)>) -> Seq<(Seq<char>, Seq<char>)> {
    s.map_values(|p: (String, String)| (p.0@, p.1@))
}

impl<'a> View for Ctx<'a> {
    type V = CtxView;

    open spec fn view(&self) -> CtxView {
        CtxView {
            reassigned: strings_view(self.reassigned@),
            types: pairs_view(self.types@),
            let_type: match self.current_let_type {
                Some(t) => Some(t@),
                None => None,
            },
            is_root: self.is_root,
        }
    }
}

/// `n` is one of `names`.
pub open spec fn names_have(names: Seq<Seq<char>>, n: Seq<char>) -> bool {
    names.contains(n)
}

/// The declared type of `n`: its last entry in `types`.
pub open spec fn type_named(types: Seq<(Seq<char>, Seq<char>)>, n: Seq<char>) -> Option<Seq<char>>
    decreases types.len(),
{
    if types.len() == 0 {
        None
    } else if types.last().0 == n {
        Some(types.last().1)
    } else {
        type_named(types.drop_last(), n)
    }
}

/// `s` ends with `[]`.
pub open spec fn ends_with_brackets(s: Seq<char>) -> bool {
    s.len() >= 2 && s[s.len() - 2] == '[' && s[s.len() - 1] == ']'
}

/// `e` is a name declared as an array.
pub open spec fn is_array_name(e: Expr, types: Seq<(Seq<char>, Seq<char>)>) -> bool {
    match e {
        Expr::Ident(n) => match type_named(types, n@) {
            Some(t) => ends_with_brackets(t),
            None => false,
        },
        _ => false,
    }
}

/// `e` is a name declared as a `string`.
pub open spec fn is_string_name(e: Expr, types: Seq<(Seq<char>, Seq<char>)>) -> bool {
    match e {
        Expr::Ident(n) => type_named(types, n@) == Some("string"@),
        _ => false,
    }
}

/// `e` is the name `n`.
pub open spec fn is_ident(e: Expr, n: Seq<char>) -> bool {
    e matches Expr::Ident(m) && m@ == n
}

/// A number literal's text with a decimal point.
pub open spec fn number_code(text: Seq<char>) -> Seq<char> {
    if text.contains('.') {
        text
    } else {
        text + ".0"@
    }
}

/// The expression holds a string literal, directly or inside an
/// operand or a call argument.
pub open spec fn has_string_literal(e: Expr) -> bool
    decreases e, 1int,
{
    match e {
        Expr::String(_) => true,
        Expr::Binary { left, right, .. } => has_string_literal(*left) || has_string_literal(*right),
        Expr::Unary { operand, .. } => has_string_literal(*operand),
        Expr::Call { args, .. } => any_string_literal(args@),
        _ => false,
    }
}

pub open spec fn any_string_literal(es: Seq<Expr>) -> bool
    decreases es, 0int,
{
    if es.len() == 0 {
        false
    } else {
        any_string_literal(es.drop_last()) || has_string_literal(es.last())
    }
}

/// The call of a named callback on `arg` (`todo!()` for anything else).
pub open spec fn callback_code(cb: Expr, arg: Seq<char>) -> Seq<char> {
    match cb {
        Expr::Ident(n) => n@ + "("@ + arg + ")"@,
        _ => "todo!()"@,
    }
}

/// The call of a named callback on `acc` and `arg`.
pub open spec fn callback2_code(cb: Expr, acc: Seq<char>, arg: Seq<char>) -> Seq<char> {
    match cb {
        Expr::Ident(n) => n@ + "("@ + acc + ", "@ + arg + ")"@,
        _ => "todo!()"@,
    }
}

pub open spec fn binop_text(op: BinOp) -> Seq<char> {
    match op {
        BinOp::Add => " + "@,
        BinOp::Sub => " - "@,
        BinOp::Mul => " * "@,
        BinOp::Div => " / "@,
        BinOp::Mod => " % "@,
        BinOp::EqEq => " == "@,
        BinOp::NotEq => " != "@,
        BinOp::Lt => " < "@,
        BinOp::Gt => " > "@,
        BinOp::LtEq => " <= "@,
        BinOp::GtEq => " >= "@,
        BinOp::And => " && "@,
        BinOp::Or => " || "@,
    }
}

pub open spec fn input_code() -> Seq<char> {
    "{ let mut __arcis_input = String::new(); std::io::stdin().read_line(&mut __arcis_input).unwrap(); __arcis_input.trim_end().to_string() }"@
}

pub open spec fn list_dir_tail() -> Seq<char> {
    ").unwrap().map(|__arcis_e| __arcis_e.unwrap().file_name().to_string_lossy().into_owned()).collect::<Vec<String>>()"@
}

/// Unary operators and indexing keep their meaning: `!x` is `!` before
/// the operand's code, `-x` is `-` before it, and `a[i]` indexes with the
/// index converted to `usize`.
pub proof fn law_unary_and_index_code(x: Expr, a: Expr, i: Expr, ctx: CtxView)
    ensures
        expr_code(Expr::Unary { op: UnaryOp::Not, operand: Box::new(x) }, ctx) == "!"@ + expr_code(x, ctx),
        expr_code(Expr::Unary { op: UnaryOp::Neg, operand: Box::new(x) }, ctx) == "-"@ + expr_code(x, ctx),
        expr_code(Expr::Index { object: Box::new(a), index: Box::new(i) }, ctx) == expr_code(a, ctx) + "["@
            + expr_code(i, ctx) + " as usize]"@,
{
}

/// Each operator keeps its meaning in Rust: a comparison or a logical
/// operator of `.tsr` becomes the Rust operator of the same meaning
/// between its operands' code, in parentheses; so does arithmetic, except
/// a `+` with a string literal on either side, which becomes `format!`.
pub proof fn law_binary_operators_keep_their_meaning(op: BinOp, left: Expr, right: Expr, ctx: CtxView)
    ensures
        ({
            let code = expr_code(Expr::Binary { op, left: Box::new(left), right: Box::new(right) }, ctx);
            let l = expr_code(left, ctx);
            let r = expr_code(right, ctx);
            &&& op == BinOp::EqEq ==> code == "("@ + l + " == "@ + r + ")"@
            &&& op == BinOp::NotEq ==> code == "("@ + l + " != "@ + r + ")"@
            &&& op == BinOp::Lt ==> code == "("@ + l + " < "@ + r + ")"@
            &&& op == BinOp::Gt ==> code == "("@ + l + " > "@ + r + ")"@
            &&& op == BinOp::LtEq ==> code == "("@ + l + " <= "@ + r + ")"@
            &&& op == BinOp::GtEq ==> code == "("@ + l + " >= "@ + r + ")"@
            &&& op == BinOp::And ==> code == "("@ + l + " && "@ + r + ")"@
            &&& op == BinOp::Or ==> code == "("@ + l + " || "@ + r + ")"@
            &&& op == BinOp::Sub ==> code == "("@ + l + " - "@ + r + ")"@
            &&& op == BinOp::Mul ==> code == "("@ + l + " * "@ + r + ")"@
            &&& op == BinOp::Div ==> code == "("@ + l + " / "@ + r + ")"@
            &&& op == BinOp::Mod ==> code == "("@ + l + " % "@ + r + ")"@
            &&& op == BinOp::Add && !has_string_literal(left) && !has_string_literal(right) ==> code == "("@ + l
                + " + "@ + r + ")"@
        }),
{
}

/// The Rust text of an expression.
pub open spec fn expr_code(e: Expr, ctx: CtxView) -> Seq<char>
    decreases e, 3int,
{
    match e {
        Expr::Number(t) => number_code(t@),
        Expr::String(s) => "String::from(\""@ + escaped(s@) + "\")"@,
        Expr::Bool(b) => if b {
            "true"@
        } else {
            "false"@
        },
        Expr::Ident(n) => n@,
        Expr::Call { .. } => call_code(e, ctx),
        Expr::Unary { op, operand } => match op {
            UnaryOp::Not => "!"@ + expr_code(*operand, ctx),
            UnaryOp::Neg => "-"@ + expr_code(*operand, ctx),
        },
        Expr::Member { object, property } => if is_ident(*object, "sys"@) && property@ == "args"@ {
            "std::env::args().collect::<Vec<String>>()"@
        } else if property@ == "length"@ {
            expr_code(*object, ctx) + if is_string_name(*object, ctx.types) {
                ".chars().count() as f64"@
            } else {
                ".len() as f64"@
            }
        } else {
            expr_code(*object, ctx) + "."@ + property@
        },
        Expr::Index { object, index } => expr_code(*object, ctx) + "["@ + expr_code(*index, ctx)
            + " as usize]"@,
        Expr::ArrayLiteral { elements } => if elements@.len() == 0 {
            "Vec::<f64>::new()"@
        } else {
            "vec!["@ + args_code(elements@, ctx) + "]"@
        },
        Expr::ObjectLiteral { fields } => match ctx.let_type {
            Some(t) => if t.fields.len() > 0 {
                t.name + " { "@ + fields_code(fields@, ctx) + " }"@
            } else {
                "todo!()"@
            },
            None => "todo!()"@,
        },
        Expr::Path { segments } => join(strings_view(segments@), "::"@),
        Expr::Binary { op, left, right } => if op == BinOp::Add && (has_string_literal(*left)
            || has_string_literal(*right)) {
            "format!(\"{}{}\", "@ + expr_code(*left, ctx) + ", "@ + expr_code(*right, ctx) + ")"@
        } else {
            "("@ + expr_code(*left, ctx) + binop_text(op) + expr_code(*right, ctx) + ")"@
        },
    }
}

/// The arguments, separated by commas.
pub open spec fn args_code(es: Seq<Expr>, ctx: CtxView) -> Seq<char>
    decreases es, 0int,
{
    if es.len() == 0 {
        Seq::empty()
    } else {
        args_code(es.drop_last(), ctx) + (if es.len() > 1 {
            ", "@
        } else {
            Seq::empty()
        }) + expr_code(es.last(), ctx)
    }
}

/// The arguments of a call of a named function: an array variable is
/// passed by reference.
pub open spec fn named_args_code(es: Seq<Expr>, ctx: CtxView) -> Seq<char>
    decreases es, 0int,
{
    if es.len() == 0 {
        Seq::empty()
    } else {
        named_args_code(es.drop_last(), ctx) + (if es.len() > 1 {
            ", "@
        } else {
            Seq::empty()
        }) + (if is_array_name(es.last(), ctx.types) {
            "&"@
        } else {
            Seq::empty()
        }) + expr_code(es.last(), ctx)
    }
}

/// The fields of a struct literal.
pub open spec fn fields_code(fs: Seq<(String, Expr)>, ctx: CtxView) -> Seq<char>
    decreases fs, 0int,
{
    if fs.len() == 0 {
        Seq::empty()
    } else {
        fields_code(fs.drop_last(), ctx) + (if fs.len() > 1 {
            ", "@
        } else {
            Seq::empty()
        }) + fs.last().0@ + ": "@ + expr_code(fs.last().1, ctx)
    }
}

/// The code of argument `i`, or nothing when there is none.
pub open spec fn arg_code(es: Seq<Expr>, i: int, ctx: CtxView) -> Seq<char>
    decreases es, 1int,
{
    if 0 <= i < es.len() {
        expr_code(es[i], ctx)
    } else {
        Seq::empty()
    }
}

/// Argument `i` with ` as usize` after it, or nothing.
pub open spec fn usize_arg_code(es: Seq<Expr>, i: int, ctx: CtxView) -> Seq<char>
    decreases es, 1int,
{
    if 0 <= i < es.len() {
        expr_code(es[i], ctx) + " as usize"@
    } else {
        Seq::empty()
    }
}

/// Argument `i` by reference, or a reference to an empty string.
pub open spec fn ref_arg_code(es: Seq<Expr>, i: int, ctx: CtxView) -> Seq<char>
    decreases es, 1int,
{
    if 0 <= i < es.len() {
        "&"@ + expr_code(es[i], ctx)
    } else {
        "&String::new()"@
    }
}

/// The method name `m` is one that [`method_code`] translates.
pub open spec fn is_translated_method(m: Seq<char>) -> bool {
    m == "find"@ || m == "filter"@ || m == "map"@ || m == "reduce"@ || m == "pop"@ || m == "unshift"@
        || m == "toUpperCase"@ || m == "toLowerCase"@ || m == "trim"@ || m == "substring"@ || m
        == "indexOf"@ || m == "includes"@ || m == "charAt"@
}

/// A call: `print` / `input`, a `sys.*` builtin, an array or string
/// method, a named function or any other callee.
pub open spec fn call_code(e: Expr, ctx: CtxView) -> Seq<char>
    decreases e, 2int,
{
    match e {
        Expr::Call { callee, args } => {
            let a = args@;
            if is_ident(*callee, "print"@) {
                "println!(\"{}\", "@ + arg_code(a, 0, ctx) + ")"@
            } else if is_ident(*callee, "input"@) {
                input_code()
            } else {
                match *callee {
                    Expr::Member { object, property } => if is_ident(*object, "sys"@) {
                        sys_code(e, ctx)
                    } else if is_translated_method(property@) {
                        method_code(e, ctx)
                    } else {
                        expr_code(*callee, ctx) + "("@ + args_code(a, ctx) + ")"@
                    },
                    Expr::Ident(n) => n@ + "("@ + named_args_code(a, ctx) + ")"@,
                    _ => expr_code(*callee, ctx) + "("@ + args_code(a, ctx) + ")"@,
                }
            }
        },
        _ => Seq::empty(),
    }
}

/// An array or string method call `object.method(args)`.
pub open spec fn method_code(e: Expr, ctx: CtxView) -> Seq<char>
    decreases e, 1int,
{
    match e {
        Expr::Call { callee, args } => match *callee {
            Expr::Member { object, property } => {
                let a = args@;
                let obj = expr_code(*object, ctx);
                let m = property@;
                if m == "find"@ {
                    obj + ".iter().find(|&&x| "@ + (if a.len() > 0 {
                        callback_code(a[0], "x"@)
                    } else {
                        Seq::empty()
                    }) + ").cloned().unwrap_or_default()"@
                } else if m == "filter"@ {
                    obj + ".iter().filter(|&&x| "@ + (if a.len() > 0 {
                        callback_code(a[0], "x"@)
                    } else {
                        Seq::empty()
                    }) + ").cloned().collect()"@
                } else if m == "map"@ {
                    obj + ".iter().map(|&x| "@ + (if a.len() > 0 {
                        callback_code(a[0], "x"@)
                    } else {
                        Seq::empty()
                    }) + ").collect()"@
                } else if m == "reduce"@ {
                    obj + ".iter().fold("@ + arg_code(a, 1, ctx) + ", |acc, &x| "@ + (if a.len() > 0 {
                        callback2_code(a[0], "acc"@, "x"@)
                    } else {
                        Seq::empty()
                    }) + ")"@
                } else if m == "pop"@ {
                    obj + ".pop().unwrap_or_default()"@
                } else if m == "unshift"@ {
                    obj + ".insert(0, "@ + arg_code(a, 0, ctx) + ")"@
                } else if m == "toUpperCase"@ {
                    obj + ".to_uppercase()"@
                } else if m == "toLowerCase"@ {
                    obj + ".to_lowercase()"@
                } else if m == "trim"@ {
                    obj + ".trim().to_string()"@
                } else if m == "substring"@ {
                    obj + "["@ + usize_arg_code(a, 0, ctx) + ".."@ + usize_arg_code(a, 1, ctx)
                        + "].to_string()"@
                } else if m == "indexOf"@ {
                    obj + ".find(&"@ + arg_code(a, 0, ctx) + ").map(|i| i as f64).unwrap_or(-1.0)"@
                } else if m == "includes"@ {
                    obj + ".contains(&"@ + arg_code(a, 0, ctx) + ")"@
                } else {
                    obj + ".chars().nth("@ + usize_arg_code(a, 0, ctx)
                        + ").unwrap_or_default().to_string()"@
                }
            },
            _ => Seq::empty(),
        },
        _ => Seq::empty(),
    }
}

/// A `sys.<name>(args)` builtin.
pub open spec fn sys_code(e: Expr, ctx: CtxView) -> Seq<char>
    decreases e, 1int,
{
    match e {
        Expr::Call { callee, args } => match *callee {
            Expr::Member { property, .. } => {
                let a = args@;
                let p = property@;
                if p == "readFile"@ {
                    "std::fs::read_to_string("@ + ref_arg_code(a, 0, ctx) + ").unwrap()"@
                } else if p == "writeFile"@ {
                    "std::fs::write("@ + ref_arg_code(a, 0, ctx) + ", "@ + ref_arg_code(a, 1, ctx)
                        + ").unwrap()"@
                } else if p == "exists"@ {
                    "std::path::Path::new("@ + ref_arg_code(a, 0, ctx) + ").exists()"@
                } else if p == "deleteFile"@ {
                    "std::fs::remove_file("@ + ref_arg_code(a, 0, ctx) + ").unwrap()"@
                } else if p == "mkdir"@ {
                    "std::fs::create_dir("@ + ref_arg_code(a, 0, ctx) + ").unwrap()"@
                } else if p == "listDir"@ {
                    "std::fs::read_dir("@ + ref_arg_code(a, 0, ctx) + list_dir_tail()
                } else {
                    "sys."@ + p + "("@ + args_code(a, ctx) + ")"@
                }
            },
            _ => Seq::empty(),
        },
        _ => Seq::empty(),
    }
}

pub open spec fn max_nat(a: nat, b: nat) -> nat {
    if a >= b {
        a
    } else {
        b
    }
}

/// How many indentation levels a statement's text can reach below its
/// own (three per nested block, an upper bound).
pub open spec fn stmt_depth(s: Stmt) -> nat
    decreases s, 1int,
{
    match s {
        Stmt::If { then_branch, else_branch, .. } => 3 + max_nat(
            stmts_depth(then_branch@),
            match else_branch {
                Some(b) => stmts_depth(b@),
                None => 0,
            },
        ),
        Stmt::While { body, .. } => 3 + stmts_depth(body@),
        Stmt::ForOf { body, .. } => 3 + stmts_depth(body@),
        Stmt::For { init, update, body, .. } => 3 + max_nat(
            max_nat(
                match init {
                    Some(i) => stmt_depth(*i),
                    None => 0,
                },
                match update {
                    Some(u) => stmt_depth(*u),
                    None => 0,
                },
            ),
            stmts_depth(body@),
        ),
        Stmt::ExportDecl(inner) => stmt_depth(*inner),
        _ => 0,
    }
}

pub open spec fn stmts_depth(ss: Seq<Stmt>) -> nat
    decreases ss, 0int,
{
    if ss.len() == 0 {
        0
    } else {
        max_nat(stmts_depth(ss.drop_last()), stmt_depth(ss.last()))
    }
}

/// `: T` for a declared type, nothing otherwise.
pub open spec fn annotation_code(ty: Option<Type>, is_root: bool) -> Seq<char> {
    match ty {
        Some(t) => ": "@ + rust_type(t@, is_root),
        None => Seq::empty(),
    }
}

/// `[]`
pub open spec fn is_empty_array_literal(e: Expr) -> bool {
    match e {
        Expr::ArrayLiteral { elements } => elements@.len() == 0,
        _ => false,
    }
}

/// The initialiser of a `let` / `const` declared with `ty`: `Vec::new()`
/// for an empty array literal declared as an array, else the value, with
/// `ty` naming an object literal's struct.
pub open spec fn init_code(ty: Option<Type>, value: Expr, ctx: CtxView) -> Seq<char> {
    match ty {
        Some(t) => if t.is_array && is_empty_array_literal(value) {
            "Vec::new()"@
        } else {
            expr_code(
                value,
                CtxView {
                    reassigned: ctx.reassigned,
                    types: ctx.types,
                    let_type: Some(t@),
                    is_root: ctx.is_root,
                },
            )
        },
        None => expr_code(
            value,
            CtxView { reassigned: ctx.reassigned, types: ctx.types, let_type: None, is_root: ctx.is_root },
        ),
    }
}

/// A C-style `for` from the text of its initialiser, update, condition
/// and body.
pub open spec fn for_code(level: nat, init: Seq<char>, update: Seq<char>, cond: Seq<char>, body: Seq<char>) -> Seq<char> {
    let ind = indentation(level);
    let ind1 = indentation(level + 1);
    let ind2 = indentation(level + 2);
    ind + "{\n"@ + init + for_head(level) + update + for_rest(level, cond, body)
}

/// From the update on: the condition, the body and the closing braces.
pub open spec fn for_rest(level: nat, cond: Seq<char>, body: Seq<char>) -> Seq<char> {
    for_middle(level) + cond + ") { break; }\n"@ + body + indentation(level + 1) + "}\n"@ + indentation(level)
        + "}\n"@
}

/// The flag and the loop's opening, up to the update.
pub open spec fn for_head(level: nat) -> Seq<char> {
    let ind1 = indentation(level + 1);
    let ind2 = indentation(level + 2);
    ind1 + "let mut __for_first = true;\n"@ + ind1 + "loop {\n"@ + ind2 + "if !__for_first {\n"@
}

/// From the update to the condition.
pub open spec fn for_middle(level: nat) -> Seq<char> {
    let ind2 = indentation(level + 2);
    ind2 + "}\n"@ + ind2 + "__for_first = false;\n"@ + ind2 + "if !("@
}

fn emit_for_head(out: &mut String, level: usize)
    requires
        level + 2 <= usize::MAX,
    ensures
        final(out)@ == old(out)@ + for_head(level as nat),
{
    let ghost start = out@;
    indent(out, level + 1);
    out.append("let mut __for_first = true;\n");
    indent(out, level + 1);
    out.append("loop {\n");
    indent(out, level + 2);
    out.append("if !__for_first {\n");
    assert(out@ =~= start + for_head(level as nat));
}

fn emit_for_middle(out: &mut String, level: usize)
    requires
        level + 2 <= usize::MAX,
    ensures
        final(out)@ == old(out)@ + for_middle(level as nat),
{
    let ghost start = out@;
    indent(out, level + 2);
    out.append("}\n");
    indent(out, level + 2);
    out.append("__for_first = false;\n");
    indent(out, level + 2);
    out.append("if !(");
    assert(out@ =~= start + for_middle(level as nat));
}

/// The Rust text of a statement at `level` levels of indentation.
pub open spec fn stmt_code(s: Stmt, level: nat, ctx: CtxView) -> Seq<char>
    decreases s, 1int,
{
    let ind = indentation(level);
    match s {
        Stmt::Let { name, ty, value, .. } => ind + (if names_have(ctx.reassigned, name@) {
            "let mut "@
        } else {
            "let "@
        }) + name@ + annotation_code(ty, ctx.is_root) + " = "@ + init_code(ty, value, ctx) + ";\n"@,
        Stmt::Const { name, ty, value, .. } => ind + "let "@ + name@ + annotation_code(ty, ctx.is_root)
            + " = "@ + init_code(ty, value, ctx) + ";\n"@,
        Stmt::Assign { name, value } => ind + name@ + " = "@ + expr_code(value, ctx) + ";\n"@,
        Stmt::AssignIndex { object, index, value } => ind + object@ + "["@ + expr_code(index, ctx)
            + " as usize] = "@ + expr_code(value, ctx) + ";\n"@,
        Stmt::AssignMember { object, property, value } => ind + expr_code(*object, ctx) + "."@
            + property@ + " = "@ + expr_code(value, ctx) + ";\n"@,
        Stmt::Return(e) => ind + "return"@ + (match e {
            Some(x) => " "@ + expr_code(x, ctx),
            None => Seq::empty(),
        }) + ";\n"@,
        Stmt::If { condition, then_branch, else_branch } => ind + "if "@ + expr_code(condition, ctx)
            + " {\n"@ + stmts_code(then_branch@, level + 1, ctx) + ind + "}"@ + (match else_branch {
            Some(b) => " else {\n"@ + stmts_code(b@, level + 1, ctx) + ind + "}"@,
            None => Seq::empty(),
        }) + "\n"@,
        Stmt::While { condition, body } => ind + "while "@ + expr_code(condition, ctx) + " {\n"@
            + stmts_code(body@, level + 1, ctx) + ind + "}\n"@,
        Stmt::ForOf { name, iterable, body, .. } => ind + "for "@ + name@ + " in "@ + expr_code(
            *iterable,
            ctx,
        ) + (if *iterable is Ident {
            ".iter().cloned()"@
        } else {
            ".into_iter()"@
        }) + " {\n"@ + stmts_code(body@, level + 1, ctx) + ind + "}\n"@,
        Stmt::For { init, condition, update, body } => for_code(
            level,
            match init {
                Some(i) => stmt_code(*i, level + 1, ctx),
                None => indentation(level + 1) + ";\n"@,
            },
            match update {
                Some(u) => stmt_code(*u, level + 3, ctx),
                None => Seq::empty(),
            },
            match condition {
                Some(c) => expr_code(c, ctx),
                None => "true"@,
            },
            stmts_code(body@, level + 2, ctx),
        ),
        Stmt::Break => ind + "break;\n"@,
        Stmt::Continue => ind + "continue;\n"@,
        Stmt::Expr(e) => ind + expr_code(e, ctx) + ";\n"@,
        Stmt::ExportDecl(inner) => if *inner is Let || *inner is Const {
            stmt_code(*inner, level, ctx)
        } else {
            Seq::empty()
        },
        _ => Seq::empty(),
    }
}

/// The statements of a block, one after the other.
pub open spec fn stmts_code(ss: Seq<Stmt>, level: nat, ctx: CtxView) -> Seq<char>
    decreases ss, 0int,
{
    if ss.len() == 0 {
        Seq::empty()
    } else {
        stmts_code(ss.drop_last(), level, ctx) + stmt_code(ss.last(), level, ctx)
    }
}

pub proof fn lemma_stmts_depth(ss: Seq<Stmt>, i: int)
    requires
        0 <= i < ss.len(),
    ensures
        stmt_depth(ss[i]) <= stmts_depth(ss),
    decreases ss.len(),
{
    if i < ss.len() - 1 {
        lemma_stmts_depth(ss.drop_last(), i);
    }
}

/// The parameter list of a generated function: an array is taken by
/// reference.
pub open spec fn params_code(ps: Seq<crate::compiler::ast::Param>, is_root: bool) -> Seq<char>
    decreases ps.len(),
{
    if ps.len() == 0 {
        Seq::empty()
    } else {
        params_code(ps.drop_last(), is_root) + (if ps.len() > 1 {
            ", "@
        } else {
            Seq::empty()
        }) + ps.last().name@ + ": "@ + (if ps.last().ty.is_array {
            "&"@
        } else {
            Seq::empty()
        }) + rust_type(ps.last().ty@, is_root)
    }
}

/// A function item named `name` (`pub` when `public`), its body one
/// level in.
pub open spec fn function_code(f: Function, name: Seq<char>, ctx: CtxView, public: bool) -> Seq<char> {
    (if public {
        "pub fn "@
    } else {
        "fn "@
    }) + name + "("@ + params_code(f.params@, ctx.is_root) + ") -> "@ + rust_type(
        f.return_type@,
        ctx.is_root,
    ) + " {\n"@ + stmts_code(f.body@, 1, ctx) + "}\n\n"@
}

pub(crate) fn emit_annotation(out: &mut String, ty: &Option<Type>, is_root: bool)
    ensures
        final(out)@ == old(out)@ + annotation_code(*ty, is_root),
{
    if let Some(t) = ty {
        out.append(": ");
        let r = ts_type_to_rust(t, is_root);
        out.append(r.as_str());
    }
}

pub(crate) fn emit_init(out: &mut String, ty: &Option<Type>, value: &Expr, ctx: &Ctx)
    ensures
        final(out)@ == old(out)@ + init_code(*ty, *value, ctx@),
{
    if let Some(t) = ty {
        if t.is_array {
            if let Expr::ArrayLiteral { elements } = value {
                if elements.len() == 0 {
                    out.append("Vec::new()");
                    return;
                }
            }
        }
    }
    let nested = Ctx {
        reassigned: ctx.reassigned,
        types: ctx.types,
        current_let_type: ty.as_ref(),
        is_root: ctx.is_root,
    };
    emit_expr(out, value, &nested);
}

fn name_listed(names: &Vec<String>, n: &str) -> (r: bool)
    ensures
        r == names_have(strings_view(names@), n@),
{
    let mut i: usize = 0;
    while i < names.len()
        invariant
            i <= names@.len(),
            forall|j: int| 0 <= j < i ==> (#[trigger] names@[j])@ != n@,
        decreases names@.len() - i,
    {
        if str_eq(names[i].as_str(), n) {
            assert(strings_view(names@)[i as int] == n@);
            return true;
        }
        i += 1;
    }
    assert forall|j: int| 0 <= j < strings_view(names@).len() implies strings_view(names@)[j] != n@ by {
        assert(strings_view(names@)[j] == names@[j]@);
    }
    false
}

/// Appends a statement without nested blocks.
fn emit_simple_stmt(out: &mut String, s: &Stmt, level: usize, ctx: &Ctx)
    requires
        !(*s is If || *s is While || *s is ForOf || *s is For || *s is ExportDecl),
    ensures
        final(out)@ == old(out)@ + stmt_code(*s, level as nat, ctx@),
{
    let ghost start = out@;
    match s {
        Stmt::Let { name, ty, value, .. } => {
            indent(out, level);
            if name_listed(ctx.reassigned, name.as_str()) {
                out.append("let mut ");
            } else {
                out.append("let ");
            }
            out.append(name.as_str());
            emit_annotation(out, ty, ctx.is_root);
            out.append(" = ");
            emit_init(out, ty, value, ctx);
            out.append(";\n");
        },
        Stmt::Const { name, ty, value, .. } => {
            indent(out, level);
            out.append("let ");
            out.append(name.as_str());
            emit_annotation(out, ty, ctx.is_root);
            out.append(" = ");
            emit_init(out, ty, value, ctx);
            out.append(";\n");
        },
        Stmt::Assign { name, value } => {
            indent(out, level);
            out.append(name.as_str());
            out.append(" = ");
            emit_expr(out, value, ctx);
            out.append(";\n");
        },
        Stmt::AssignIndex { object, index, value } => {
            indent(out, level);
            out.append(object.as_str());
            out.append("[");
            emit_expr(out, index, ctx);
            out.append(" as usize] = ");
            emit_expr(out, value, ctx);
            out.append(";\n");
        },
        Stmt::AssignMember { object, property, value } => {
            indent(out, level);
            emit_expr(out, object, ctx);
            out.append(".");
            out.append(property.as_str());
            out.append(" = ");
            emit_expr(out, value, ctx);
            out.append(";\n");
        },
        Stmt::Return(e) => {
            indent(out, level);
            out.append("return");
            if let Some(x) = e {
                out.append(" ");
                emit_expr(out, x, ctx);
            }
            out.append(";\n");
        },
        Stmt::Break => {
            indent(out, level);
            out.append("break;\n");
        },
        Stmt::Continue => {
            indent(out, level);
            out.append("continue;\n");
        },
        Stmt::Expr(e) => {
            indent(out, level);
            emit_expr(out, e, ctx);
            out.append(";\n");
        },
        _ => {},
    }
    assert(out@ =~= start + stmt_code(*s, level as nat, ctx@));
}

/// Appends an `if`, a `while` or a `for ... of`.
#[verifier::loop_isolation(false)]
#[verifier::rlimit(60)]
#[verifier::spinoff_prover]
fn emit_branching(out: &mut String, s: &Stmt, level: usize, ctx: &Ctx)
    requires
        *s is If || *s is While || *s is ForOf,
        level + stmt_depth(*s) <= usize::MAX,
    ensures
        final(out)@ == old(out)@ + stmt_code(*s, level as nat, ctx@),
    decreases s, 0int,
{
    let ghost start = out@;
    match s {
        Stmt::If { condition, then_branch, else_branch } => {
            indent(out, level);
            out.append("if ");
            emit_expr(out, condition, ctx);
            out.append(" {\n");
            emit_block(out, then_branch, level + 1, ctx);
            indent(out, level);
            out.append("}");
            if let Some(b) = else_branch {
                out.append(" else {\n");
                emit_block(out, b, level + 1, ctx);
                indent(out, level);
                out.append("}");
            }
            out.append("\n");
        },
        Stmt::While { condition, body } => {
            indent(out, level);
            out.append("while ");
            emit_expr(out, condition, ctx);
            out.append(" {\n");
            emit_block(out, body, level + 1, ctx);
            indent(out, level);
            out.append("}\n");
        },
        Stmt::ForOf { name, iterable, body, .. } => {
            indent(out, level);
            out.append("for ");
            out.append(name.as_str());
            out.append(" in ");
            let use_iter = match &**iterable {
                Expr::Ident(_) => true,
                _ => false,
            };
            emit_expr(out, iterable, ctx);
            if use_iter {
                out.append(".iter().cloned()");
            } else {
                out.append(".into_iter()");
            }
            out.append(" {\n");
            emit_block(out, body, level + 1, ctx);
            indent(out, level);
            out.append("}\n");
        },
        _ => {},
    }
    assert(out@ =~= start + stmt_code(*s, level as nat, ctx@));
}

/// Appends a C-style `for`: its initialiser, then a `loop` that runs the
/// update from the second iteration on, tests the condition, and runs the
/// body.
#[verifier::loop_isolation(false)]
#[verifier::spinoff_prover]
fn emit_for(out: &mut String, s: &Stmt, level: usize, ctx: &Ctx)
    requires
        *s is For,
        level + stmt_depth(*s) <= usize::MAX,
    ensures
        final(out)@ == old(out)@ + stmt_code(*s, level as nat, ctx@),
    decreases s, 1int,
{
    if let Stmt::For { init, condition, update, body } = s {
        let ghost ip = match init {
            Some(i) => stmt_code(**i, (level + 1) as nat, ctx@),
            None => indentation((level + 1) as nat) + ";\n"@,
        };
        let ghost up = match update {
            Some(u) => stmt_code(**u, (level + 3) as nat, ctx@),
            None => Seq::<char>::empty(),
        };
        let ghost rest = for_rest(
            level as nat,
            match condition {
                Some(c) => expr_code(*c, ctx@),
                None => "true"@,
            },
            stmts_code(body@, (level + 2) as nat, ctx@),
        );
        let ghost start = out@;
        indent(out, level);
        out.append("{\n");
        let ghost p1 = out@;
        match init {
            Some(i) => emit_stmt(out, i, level + 1, ctx),
            None => {
                indent(out, level + 1);
                out.append(";\n");
            },
        }
        assert(out@ =~= p1 + ip);
        emit_for_head(out, level);
        let ghost p3 = out@;
        if let Some(u) = update {
            emit_stmt(out, u, level + 3, ctx);
        }
        assert(out@ =~= p3 + up);
        emit_for_rest(out, s, level, ctx);
        assert(out@ == start + indentation(level as nat) + "{\n"@ + ip + for_head(level as nat) + up + rest);
    }
}

/// Appends the end of a C-style `for`: the condition, the body and the
/// closing braces.
#[verifier::loop_isolation(false)]
fn emit_for_rest(out: &mut String, s: &Stmt, level: usize, ctx: &Ctx)
    requires
        *s is For,
        level + stmt_depth(*s) <= usize::MAX,
    ensures
        match *s {
            Stmt::For { condition, body, .. } => final(out)@ == old(out)@ + for_rest(
                level as nat,
                match condition {
                    Some(c) => expr_code(c, ctx@),
                    None => "true"@,
                },
                stmts_code(body@, (level + 2) as nat, ctx@),
            ),
            _ => true,
        },
    decreases s, 0int,
{
    if let Stmt::For { condition, body, .. } = s {
        let ghost start = out@;
        emit_for_middle(out, level);
        let ghost p4 = out@;
        match condition {
            Some(c) => emit_expr(out, c, ctx),
            None => out.append("true"),
        }
        let ghost cp = out@.skip(p4.len() as int);
        assert(out@ =~= p4 + cp);
        out.append(") { break; }\n");
        emit_block(out, body, level + 2, ctx);
        indent(out, level + 1);
        out.append("}\n");
        indent(out, level);
        out.append("}\n");
        assert(out@ =~= start + for_rest(level as nat, cp, stmts_code(body@, (level + 2) as nat, ctx@)));
    }
}

/// Appends the Rust text of a statement at `level` levels of indentation.
#[verifier::loop_isolation(false)]
pub fn emit_stmt(out: &mut String, s: &Stmt, level: usize, ctx: &Ctx)
    requires
        level + stmt_depth(*s) <= usize::MAX,
    ensures
        final(out)@ == old(out)@ + stmt_code(*s, level as nat, ctx@),
    decreases s, 2int,
{
    match s {
        Stmt::If { .. } | Stmt::While { .. } | Stmt::ForOf { .. } => emit_branching(out, s, level, ctx),
        Stmt::For { .. } => emit_for(out, s, level, ctx),
        Stmt::ExportDecl(inner) => {
            match &**inner {
                Stmt::Let { .. } | Stmt::Const { .. } => emit_stmt(out, inner, level, ctx),
                _ => {},
            }
        },
        _ => emit_simple_stmt(out, s, level, ctx),
    }
}

/// Appends the statements of a block at `level`.
#[verifier::loop_isolation(false)]
pub fn emit_block(out: &mut String, ss: &Vec<Stmt>, level: usize, ctx: &Ctx)
    requires
        level + stmts_depth(ss@) <= usize::MAX,
    ensures
        final(out)@ == old(out)@ + stmts_code(ss@, level as nat, ctx@),
    decreases ss, 0int,
{
    let ghost start = out@;
    let mut i: usize = 0;
    assert(ss@.take(0) =~= Seq::<Stmt>::empty());
    while i < ss.len()
        invariant
            i <= ss@.len(),
            out@ == start + stmts_code(ss@.take(i as int), level as nat, ctx@),
        decreases ss@.len() - i,
    {
        proof {
            assert(decreases_to!(*ss => ss[i as int]));
            assert(ss@.take(i + 1).drop_last() =~= ss@.take(i as int));
            lemma_stmts_depth(ss@, i as int);
        }
        emit_stmt(out, &ss[i], level, ctx);
        i += 1;
    }
    assert(ss@.take(ss@.len() as int) =~= ss@);
}

/// Appends a function item named `name` (`pub` when `public`).
pub fn emit_function(out: &mut String, f: &Function, name: &str, ctx: &Ctx, public: bool)
    requires
        1 + stmts_depth(f.body@) <= usize::MAX,
    ensures
        final(out)@ == old(out)@ + function_code(*f, name@, ctx@, public),
{
    let ghost start = out@;
    if public {
        out.append("pub fn ");
    } else {
        out.append("fn ");
    }
    out.append(name);
    out.append("(");
    let ghost before_params = out@;
    let mut i: usize = 0;
    assert(f.params@.take(0) =~= Seq::<crate::compiler::ast::Param>::empty());
    while i < f.params.len()
        invariant
            i <= f.params@.len(),
            out@ == before_params + params_code(f.params@.take(i as int), ctx.is_root),
        decreases f.params@.len() - i,
    {
        proof {
            assert(f.params@.take(i + 1).drop_last() =~= f.params@.take(i as int));
        }
        if i > 0 {
            out.append(", ");
        }
        out.append(f.params[i].name.as_str());
        out.append(": ");
        if f.params[i].ty.is_array {
            out.append("&");
        }
        let t = ts_type_to_rust(&f.params[i].ty, ctx.is_root);
        out.append(t.as_str());
        proof {
            assert(out@ =~= before_params + params_code(f.params@.take(i + 1), ctx.is_root));
        }
        i += 1;
    }
    assert(f.params@.take(f.params@.len() as int) =~= f.params@);
    out.append(") -> ");
    let rt = ts_type_to_rust(&f.return_type, ctx.is_root);
    out.append(rt.as_str());
    out.append(" {\n");
    emit_block(out, &f.body, 1, ctx);
    out.append("}\n\n");
    assert(out@ =~= start + function_code(*f, name@, ctx@, public));
}

/// The declared type of `n` (its last entry in `types`).
fn lookup_type<'a>(types: &'a Vec<(String, String)>, n: &str) -> (r: Option<&'a String>)
    ensures
        match r {
            Some(t) => type_named(pairs_view(types@), n@) == Some(t@),
            None => type_named(pairs_view(types@), n@) is None,
        },
{
    let mut i: usize = types.len();
    assert(pairs_view(types@.take(types@.len() as int)) =~= pairs_view(types@));
    while i > 0
        invariant
            i <= types@.len(),
            type_named(pairs_view(types@), n@) == type_named(pairs_view(types@.take(i as int)), n@),
        decreases i,
    {
        proof {
            assert(pairs_view(types@.take(i as int)).drop_last() =~= pairs_view(types@.take(i - 1)));
        }
        if str_eq(types[i - 1].0.as_str(), n) {
            return Some(&types[i - 1].1);
        }
        i -= 1;
    }
    None
}

fn has_brackets_suffix(s: &str) -> (r: bool)
    ensures
        r == ends_with_brackets(s@),
{
    let cs = crate::text::chars_of(s);
    let n = cs.len();
    n >= 2 && cs[n - 2] == '[' && cs[n - 1] == ']'
}

fn has_dot(s: &str) -> (r: bool)
    ensures
        r == s@.contains('.'),
{
    let cs = crate::text::chars_of(s);
    let mut i: usize = 0;
    while i < cs.len()
        invariant
            i <= cs@.len(),
            cs@ == s@,
            forall|j: int| 0 <= j < i ==> cs@[j] != '.',
        decreases cs@.len() - i,
    {
        if cs[i] == '.' {
            return true;
        }
        i += 1;
    }
    false
}

fn ident_is(e: &Expr, n: &str) -> (r: bool)
    ensures
        r == is_ident(*e, n@),
{
    match e {
        Expr::Ident(m) => str_eq(m.as_str(), n),
        _ => false,
    }
}

fn array_name(e: &Expr, types: &Vec<(String, String)>) -> (r: bool)
    ensures
        r == is_array_name(*e, pairs_view(types@)),
{
    match e {
        Expr::Ident(n) => match lookup_type(types, n.as_str()) {
            Some(t) => has_brackets_suffix(t.as_str()),
            None => false,
        },
        _ => false,
    }
}

fn string_name(e: &Expr, types: &Vec<(String, String)>) -> (r: bool)
    ensures
        r == is_string_name(*e, pairs_view(types@)),
{
    match e {
        Expr::Ident(n) => match lookup_type(types, n.as_str()) {
            Some(t) => str_eq(t.as_str(), "string"),
            None => false,
        },
        _ => false,
    }
}

/// Whether the expression holds a string literal, directly or inside an
/// operand or a call argument.
#[verifier::loop_isolation(false)]
pub fn contains_string_literal(e: &Expr) -> (r: bool)
    ensures
        r == has_string_literal(*e),
    decreases e,
{
    match e {
        Expr::String(_) => true,
        Expr::Binary { left, right, .. } => contains_string_literal(left) || contains_string_literal(right),
        Expr::Unary { operand, .. } => contains_string_literal(operand),
        Expr::Call { args, .. } => {
            let mut i: usize = 0;
            assert(args@.take(0) =~= Seq::<Expr>::empty());
            while i < args.len()
                invariant
                    i <= args@.len(),
                    !any_string_literal(args@.take(i as int)),
                decreases args@.len() - i,
            {
                proof {
                    assert(decreases_to!(*args => args[i as int]));
                    assert(args@.take(i + 1).drop_last() =~= args@.take(i as int));
                }
                if contains_string_literal(&args[i]) {
                    proof {
                        lemma_any_string_literal(args@, i as int);
                    }
                    return true;
                }
                i += 1;
            }
            assert(args@.take(args@.len() as int) =~= args@);
            false
        },
        _ => false,
    }
}

proof fn lemma_any_string_literal(es: Seq<Expr>, i: int)
    requires
        0 <= i < es.len(),
        has_string_literal(es[i]),
    ensures
        any_string_literal(es),
    decreases es.len(),
{
    if i < es.len() - 1 {
        lemma_any_string_literal(es.drop_last(), i);
    }
}

fn emit_callback(out: &mut String, cb: &Expr, arg: &str)
    ensures
        final(out)@ == old(out)@ + callback_code(*cb, arg@),
{
    match cb {
        Expr::Ident(n) => {
            out.append(n.as_str());
            out.append("(");
            out.append(arg);
            out.append(")");
        },
        _ => out.append("todo!()"),
    }
}

fn emit_callback2(out: &mut String, cb: &Expr, acc: &str, arg: &str)
    ensures
        final(out)@ == old(out)@ + callback2_code(*cb, acc@, arg@),
{
    match cb {
        Expr::Ident(n) => {
            out.append(n.as_str());
            out.append("(");
            out.append(acc);
            out.append(", ");
            out.append(arg);
            out.append(")");
        },
        _ => out.append("todo!()"),
    }
}

fn binop_str(op: BinOp) -> (r: &'static str)
    ensures
        r@ == binop_text(op),
{
    match op {
        BinOp::Add => " + ",
        BinOp::Sub => " - ",
        BinOp::Mul => " * ",
        BinOp::Div => " / ",
        BinOp::Mod => " % ",
        BinOp::EqEq => " == ",
        BinOp::NotEq => " != ",
        BinOp::Lt => " < ",
        BinOp::Gt => " > ",
        BinOp::LtEq => " <= ",
        BinOp::GtEq => " >= ",
        BinOp::And => " && ",
        BinOp::Or => " || ",
    }
}

/// Appends the Rust text of an expression.
#[verifier::loop_isolation(false)]
pub fn emit_expr(out: &mut String, e: &Expr, ctx: &Ctx)
    ensures
        final(out)@ == old(out)@ + expr_code(*e, ctx@),
    decreases e, 3int,
{
    let ghost start = out@;
    match e {
        Expr::Number(t) => {
            out.append(t.as_str());
            if !has_dot(t.as_str()) {
                out.append(".0");
            }
        },
        Expr::String(s) => {
            let lit = rust_string_literal(s.as_str());
            out.append(lit.as_str());
        },
        Expr::Bool(b) => {
            if *b {
                out.append("true");
            } else {
                out.append("false");
            }
        },
        Expr::Ident(n) => out.append(n.as_str()),
        Expr::Call { .. } => emit_call(out, e, ctx),
        Expr::Unary { op, operand } => {
            match op {
                UnaryOp::Not => out.append("!"),
                UnaryOp::Neg => out.append("-"),
            }
            emit_expr(out, operand, ctx);
        },
        Expr::Member { object, property } => {
            if ident_is(object, "sys") && str_eq(property.as_str(), "args") {
                out.append("std::env::args().collect::<Vec<String>>()");
            } else {
                emit_expr(out, object, ctx);
                if str_eq(property.as_str(), "length") {
                    if string_name(object, ctx.types) {
                        out.append(".chars().count() as f64");
                    } else {
                        out.append(".len() as f64");
                    }
                } else {
                    out.append(".");
                    out.append(property.as_str());
                }
            }
        },
        Expr::Index { object, index } => {
            emit_expr(out, object, ctx);
            out.append("[");
            emit_expr(out, index, ctx);
            out.append(" as usize]");
        },
        Expr::ArrayLiteral { elements } => {
            if elements.len() == 0 {
                out.append("Vec::<f64>::new()");
            } else {
                out.append("vec![");
                emit_args(out, elements, ctx);
                out.append("]");
            }
        },
        Expr::ObjectLiteral { fields } => {
            match ctx.current_let_type {
                Some(t) => {
                    if t.fields.len() > 0 {
                        out.append(t.name.as_str());
                        out.append(" { ");
                        emit_fields(out, fields, ctx);
                        out.append(" }");
                    } else {
                        out.append("todo!()");
                    }
                },
                None => out.append("todo!()"),
            }
        },
        Expr::Path { segments } => {
            let joined = crate::text::join_strings(segments, "::");
            out.append(joined.as_str());
        },
        Expr::Binary { op, left, right } => {
            if *op == BinOp::Add && (contains_string_literal(left) || contains_string_literal(right)) {
                out.append("format!(\"{}{}\", ");
                emit_expr(out, left, ctx);
                out.append(", ");
                emit_expr(out, right, ctx);
                out.append(")");
            } else {
                out.append("(");
                emit_expr(out, left, ctx);
                out.append(binop_str(*op));
                emit_expr(out, right, ctx);
                out.append(")");
            }
        },
    }
    assert(out@ =~= start + expr_code(*e, ctx@));
}

/// Appends the arguments, separated by commas.
#[verifier::loop_isolation(false)]
fn emit_args(out: &mut String, es: &Vec<Expr>, ctx: &Ctx)
    ensures
        final(out)@ == old(out)@ + args_code(es@, ctx@),
    decreases es, 0int,
{
    let ghost start = out@;
    let mut i: usize = 0;
    assert(es@.take(0) =~= Seq::<Expr>::empty());
    while i < es.len()
        invariant
            i <= es@.len(),
            out@ == start + args_code(es@.take(i as int), ctx@),
        decreases es@.len() - i,
    {
        proof {
            assert(decreases_to!(*es => es[i as int]));
            assert(es@.take(i + 1).drop_last() =~= es@.take(i as int));
        }
        if i > 0 {
            out.append(", ");
        }
        emit_expr(out, &es[i], ctx);
        proof {
            assert(out@ =~= start + args_code(es@.take(i + 1), ctx@));
        }
        i += 1;
    }
    assert(es@.take(es@.len() as int) =~= es@);
}

/// Appends the arguments of a call of a named function.
#[verifier::loop_isolation(false)]
fn emit_named_args(out: &mut String, es: &Vec<Expr>, ctx: &Ctx)
    ensures
        final(out)@ == old(out)@ + named_args_code(es@, ctx@),
    decreases es, 0int,
{
    let ghost start = out@;
    let mut i: usize = 0;
    assert(es@.take(0) =~= Seq::<Expr>::empty());
    while i < es.len()
        invariant
            i <= es@.len(),
            out@ == start + named_args_code(es@.take(i as int), ctx@),
        decreases es@.len() - i,
    {
        proof {
            assert(decreases_to!(*es => es[i as int]));
            assert(es@.take(i + 1).drop_last() =~= es@.take(i as int));
        }
        if i > 0 {
            out.append(", ");
        }
        if array_name(&es[i], ctx.types) {
            out.append("&");
        }
        emit_expr(out, &es[i], ctx);
        proof {
            assert(out@ =~= start + named_args_code(es@.take(i + 1), ctx@));
        }
        i += 1;
    }
    assert(es@.take(es@.len() as int) =~= es@);
}

/// Appends the fields of a struct literal.
#[verifier::loop_isolation(false)]
fn emit_fields(out: &mut String, fs: &Vec<(String, Expr)>, ctx: &Ctx)
    ensures
        final(out)@ == old(out)@ + fields_code(fs@, ctx@),
    decreases fs, 0int,
{
    let ghost start = out@;
    let mut i: usize = 0;
    assert(fs@.take(0) =~= Seq::<(String, Expr)>::empty());
    while i < fs.len()
        invariant
            i <= fs@.len(),
            out@ == start + fields_code(fs@.take(i as int), ctx@),
        decreases fs@.len() - i,
    {
        proof {
            assert(decreases_to!(*fs => fs[i as int]));
            assert(decreases_to!(fs[i as int] => fs[i as int].1));
            assert(fs@.take(i + 1).drop_last() =~= fs@.take(i as int));
        }
        if i > 0 {
            out.append(", ");
        }
        out.append(fs[i].0.as_str());
        out.append(": ");
        emit_expr(out, &fs[i].1, ctx);
        proof {
            assert(out@ =~= start + fields_code(fs@.take(i + 1), ctx@));
        }
        i += 1;
    }
    assert(fs@.take(fs@.len() as int) =~= fs@);
}

/// Appends argument `i`, when there is one.
fn emit_arg(out: &mut String, es: &Vec<Expr>, i: usize, ctx: &Ctx)
    ensures
        final(out)@ == old(out)@ + arg_code(es@, i as int, ctx@),
    decreases es, 1int,
{
    if i < es.len() {
        proof {
            assert(decreases_to!(*es => es[i as int]));
        }
        emit_expr(out, &es[i], ctx);
    }
}

/// Appends argument `i` followed by ` as usize`, when there is one.
fn emit_usize_arg(out: &mut String, es: &Vec<Expr>, i: usize, ctx: &Ctx)
    ensures
        final(out)@ == old(out)@ + usize_arg_code(es@, i as int, ctx@),
    decreases es, 1int,
{
    if i < es.len() {
        proof {
            assert(decreases_to!(*es => es[i as int]));
        }
        emit_expr(out, &es[i], ctx);
        out.append(" as usize");
    }
}

/// Appends argument `i` by reference (a reference to an empty string when
/// there is none).
fn emit_ref_arg(out: &mut String, es: &Vec<Expr>, i: usize, ctx: &Ctx)
    ensures
        final(out)@ == old(out)@ + ref_arg_code(es@, i as int, ctx@),
    decreases es, 1int,
{
    if i < es.len() {
        proof {
            assert(decreases_to!(*es => es[i as int]));
        }
        out.append("&");
        emit_expr(out, &es[i], ctx);
    } else {
        out.append("&String::new()");
    }
}

fn translated_method(m: &str) -> (r: bool)
    ensures
        r == is_translated_method(m@),
{
    str_eq(m, "find") || str_eq(m, "filter") || str_eq(m, "map") || str_eq(m, "reduce") || str_eq(m, "pop")
        || str_eq(m, "unshift") || str_eq(m, "toUpperCase") || str_eq(m, "toLowerCase") || str_eq(m, "trim")
        || str_eq(m, "substring") || str_eq(m, "indexOf") || str_eq(m, "includes") || str_eq(m, "charAt")
}

/// Appends a call.
#[verifier::loop_isolation(false)]
fn emit_call(out: &mut String, e: &Expr, ctx: &Ctx)
    requires
        *e is Call,
    ensures
        final(out)@ == old(out)@ + call_code(*e, ctx@),
    decreases e, 2int,
{
    let ghost start = out@;
    if let Expr::Call { callee, args } = e {
        if ident_is(callee, "print") {
            out.append("println!(\"{}\", ");
            emit_arg(out, args, 0, ctx);
            out.append(")");
        } else if ident_is(callee, "input") {
            out.append(
                "{ let mut __arcis_input = String::new(); std::io::stdin().read_line(&mut __arcis_input).unwrap(); __arcis_input.trim_end().to_string() }",
            );
        } else {
            match &**callee {
                Expr::Member { object, property } => {
                    if ident_is(object, "sys") {
                        emit_sys_call(out, e, ctx);
                    } else if translated_method(property.as_str()) {
                        emit_method(out, e, ctx);
                    } else {
                        emit_expr(out, callee, ctx);
                        out.append("(");
                        emit_args(out, args, ctx);
                        out.append(")");
                    }
                },
                Expr::Ident(n) => {
                    out.append(n.as_str());
                    out.append("(");
                    emit_named_args(out, args, ctx);
                    out.append(")");
                },
                _ => {
                    emit_expr(out, callee, ctx);
                    out.append("(");
                    emit_args(out, args, ctx);
                    out.append(")");
                },
            }
        }
    }
    assert(out@ =~= start + call_code(*e, ctx@));
}

/// Appends an array or string method call.
#[verifier::loop_isolation(false)]
fn emit_method(out: &mut String, e: &Expr, ctx: &Ctx)
    ensures
        final(out)@ == old(out)@ + method_code(*e, ctx@),
    decreases e, 1int,
{
    let ghost start = out@;
    if let Expr::Call { callee, args } = e {
        if let Expr::Member { object, property } = &**callee {
            emit_expr(out, object, ctx);
            let m = property.as_str();
            if str_eq(m, "find") {
                out.append(".iter().find(|&&x| ");
                if args.len() > 0 {
                    emit_callback(out, &args[0], "x");
                }
                out.append(").cloned().unwrap_or_default()");
            } else if str_eq(m, "filter") {
                out.append(".iter().filter(|&&x| ");
                if args.len() > 0 {
                    emit_callback(out, &args[0], "x");
                }
                out.append(").cloned().collect()");
            } else if str_eq(m, "map") {
                out.append(".iter().map(|&x| ");
                if args.len() > 0 {
                    emit_callback(out, &args[0], "x");
                }
                out.append(").collect()");
            } else if str_eq(m, "reduce") {
                out.append(".iter().fold(");
                emit_arg(out, args, 1, ctx);
                out.append(", |acc, &x| ");
                if args.len() > 0 {
                    emit_callback2(out, &args[0], "acc", "x");
                }
                out.append(")");
            } else if str_eq(m, "pop") {
                out.append(".pop().unwrap_or_default()");
            } else if str_eq(m, "unshift") {
                out.append(".insert(0, ");
                emit_arg(out, args, 0, ctx);
                out.append(")");
            } else if str_eq(m, "toUpperCase") {
                out.append(".to_uppercase()");
            } else if str_eq(m, "toLowerCase") {
                out.append(".to_lowercase()");
            } else if str_eq(m, "trim") {
                out.append(".trim().to_string()");
            } else if str_eq(m, "substring") {
                out.append("[");
                emit_usize_arg(out, args, 0, ctx);
                out.append("..");
                emit_usize_arg(out, args, 1, ctx);
                out.append("].to_string()");
            } else if str_eq(m, "indexOf") {
                out.append(".find(&");
                emit_arg(out, args, 0, ctx);
                out.append(").map(|i| i as f64).unwrap_or(-1.0)");
            } else if str_eq(m, "includes") {
                out.append(".contains(&");
                emit_arg(out, args, 0, ctx);
                out.append(")");
            } else {
                out.append(".chars().nth(");
                emit_usize_arg(out, args, 0, ctx);
                out.append(").unwrap_or_default().to_string()");
            }
        }
    }
    assert(out@ =~= start + method_code(*e, ctx@));
}

/// Appends a `sys.*` builtin call.
#[verifier::loop_isolation(false)]
fn emit_sys_call(out: &mut String, e: &Expr, ctx: &Ctx)
    ensures
        final(out)@ == old(out)@ + sys_code(*e, ctx@),
    decreases e, 1int,
{
    let ghost start = out@;
    if let Expr::Call { callee, args } = e {
        if let Expr::Member { property, .. } = &**callee {
            let p = property.as_str();
            if str_eq(p, "readFile") {
                out.append("std::fs::read_to_string(");
                emit_ref_arg(out, args, 0, ctx);
                out.append(").unwrap()");
            } else if str_eq(p, "writeFile") {
                out.append("std::fs::write(");
                emit_ref_arg(out, args, 0, ctx);
                out.append(", ");
                emit_ref_arg(out, args, 1, ctx);
                out.append(").unwrap()");
            } else if str_eq(p, "exists") {
                out.append("std::path::Path::new(");
                emit_ref_arg(out, args, 0, ctx);
                out.append(").exists()");
            } else if str_eq(p, "deleteFile") {
                out.append("std::fs::remove_file(");
                emit_ref_arg(out, args, 0, ctx);
                out.append(").unwrap()");
            } else if str_eq(p, "mkdir") {
                out.append("std::fs::create_dir(");
                emit_ref_arg(out, args, 0, ctx);
                out.append(").unwrap()");
            } else if str_eq(p, "listDir") {
                out.append("std::fs::read_dir(");
                emit_ref_arg(out, args, 0, ctx);
                out.append(
                    ").unwrap().map(|__arcis_e| __arcis_e.unwrap().file_name().to_string_lossy().into_owned()).collect::<Vec<String>>()",
                );
            } else {
                out.append("sys.");
                out.append(p);
                out.append("(");
                emit_args(out, args, ctx);
                out.append(")");
            }
        }
    }
    assert(out@ =~= start + sys_code(*e, ctx@));
}

} // verus!
