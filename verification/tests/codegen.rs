use arcis::compiler::ast::{BinOp, ExportDefault, ExportItem, Expr, Function, ImportNamed, Param, Program, Stmt, UnaryOp};
use arcis::compiler::codegen::{generate_all, generate_module, infer_expr_rust_type};
use arcis::compiler::emit::{contains_string_literal, emit_expr, emit_stmt, Ctx};
use arcis::compiler::modules::{Exports, Module, ModuleTarget};
use arcis::compiler::types::Type;

const HEADER: &str = "#![allow(unused_parens, non_snake_case, while_true, unused_imports, dead_code)]\n\n";

fn num(t: &str) -> Expr {
    Expr::Number(t.into())
}
fn s(t: &str) -> Expr {
    Expr::String(t.into())
}
fn id(n: &str) -> Expr {
    Expr::Ident(n.into())
}
fn call(callee: Expr, args: Vec<Expr>) -> Expr {
    Expr::Call { callee: Box::new(callee), args }
}
fn member(o: Expr, p: &str) -> Expr {
    Expr::Member { object: Box::new(o), property: p.into() }
}
fn bin(op: BinOp, l: Expr, r: Expr) -> Expr {
    Expr::Binary { op, left: Box::new(l), right: Box::new(r) }
}
fn plain(name: &str) -> Type {
    Type { name: name.into(), fields: vec![], is_array: false }
}
fn array_of(name: &str) -> Type {
    Type { name: name.into(), fields: vec![], is_array: true }
}
fn let_(name: &str, ty: Option<Type>, value: Expr) -> Stmt {
    Stmt::Let { name: name.into(), ty, value, line: 1, col: 1 }
}
fn module(id: &str, path: &str, stmts: Vec<Stmt>) -> Module {
    Module { id: id.into(), path: path.into(), program: Program { stmts }, exports: Exports { named: vec![], default: None } }
}

fn expr_text(e: &Expr, types: &Vec<(String, String)>) -> String {
    let reassigned: Vec<String> = vec![];
    let ctx = Ctx { reassigned: &reassigned, types, current_let_type: None, is_root: true };
    let mut out = String::new();
    emit_expr(&mut out, e, &ctx);
    out
}

#[test]
fn numbers_always_carry_a_decimal_point() {
    let none = vec![];
    assert_eq!(expr_text(&num("42"), &none), "42.0");
    assert_eq!(expr_text(&num("3.14"), &none), "3.14");
}

#[test]
fn literals_and_operators() {
    let none = vec![];
    assert_eq!(expr_text(&s("a\"b"), &none), "String::from(\"a\\\"b\")");
    assert_eq!(expr_text(&Expr::Bool(false), &none), "false");
    assert_eq!(expr_text(&bin(BinOp::Mul, num("2"), id("x")), &none), "(2.0 * x)");
    assert_eq!(
        expr_text(&Expr::Unary { op: UnaryOp::Not, operand: Box::new(bin(BinOp::And, id("a"), id("b"))) }, &none),
        "!(a && b)"
    );
    assert_eq!(expr_text(&Expr::Path { segments: vec!["a".into(), "b".into(), "c".into()] }, &none), "a::b::c");
    assert_eq!(
        expr_text(&Expr::Index { object: Box::new(id("xs")), index: Box::new(num("0")) }, &none),
        "xs[0.0 as usize]"
    );
}

#[test]
fn string_concatenation_becomes_format() {
    let none = vec![];
    assert_eq!(expr_text(&bin(BinOp::Add, s("n = "), id("n")), &none), "format!(\"{}{}\", String::from(\"n = \"), n)");
    assert_eq!(expr_text(&bin(BinOp::Add, id("a"), id("b")), &none), "(a + b)");
    assert!(contains_string_literal(&call(id("f"), vec![s("x")])));
    assert!(!contains_string_literal(&member(s("x"), "length")));
}

#[test]
fn print_input_and_named_calls() {
    let types = vec![("xs".to_string(), "number[]".to_string())];
    assert_eq!(expr_text(&call(id("print"), vec![id("x")]), &types), "println!(\"{}\", x)");
    assert_eq!(expr_text(&call(id("print"), vec![]), &types), "println!(\"{}\", )");
    assert!(expr_text(&call(id("input"), vec![]), &types).starts_with("{ let mut __arcis_input = String::new();"));
    assert_eq!(expr_text(&call(id("sum"), vec![id("xs"), id("y")]), &types), "sum(&xs, y)");
}

#[test]
fn methods_and_length() {
    let types = vec![("s".to_string(), "string".to_string()), ("xs".to_string(), "number[]".to_string())];
    assert_eq!(expr_text(&member(id("s"), "length"), &types), "s.chars().count() as f64");
    assert_eq!(expr_text(&member(id("xs"), "length"), &types), "xs.len() as f64");
    assert_eq!(expr_text(&member(id("p"), "name"), &types), "p.name");
    assert_eq!(
        expr_text(&call(member(id("xs"), "find"), vec![id("isBig")]), &types),
        "xs.iter().find(|&&x| isBig(x)).cloned().unwrap_or_default()"
    );
    assert_eq!(
        expr_text(&call(member(id("xs"), "reduce"), vec![id("add"), num("0")]), &types),
        "xs.iter().fold(0.0, |acc, &x| add(acc, x))"
    );
    assert_eq!(
        expr_text(&call(member(id("s"), "substring"), vec![num("1"), num("3")]), &types),
        "s[1.0 as usize..3.0 as usize].to_string()"
    );
    assert_eq!(expr_text(&call(member(id("s"), "trim"), vec![]), &types), "s.trim().to_string()");
    assert_eq!(expr_text(&call(member(id("o"), "other"), vec![num("1")]), &types), "o.other(1.0)");
}

#[test]
fn sys_builtins() {
    let none = vec![];
    assert_eq!(
        expr_text(&call(member(id("sys"), "readFile"), vec![id("p")]), &none),
        "std::fs::read_to_string(&p).unwrap()"
    );
    assert_eq!(
        expr_text(&call(member(id("sys"), "writeFile"), vec![id("p")]), &none),
        "std::fs::write(&p, &String::new()).unwrap()"
    );
    assert_eq!(expr_text(&member(id("sys"), "args"), &none), "std::env::args().collect::<Vec<String>>()");
    assert_eq!(expr_text(&call(member(id("sys"), "nope"), vec![num("1"), num("2")]), &none), "sys.nope(1.0, 2.0)");
}

#[test]
fn arrays_and_object_literals() {
    let none = vec![];
    assert_eq!(expr_text(&Expr::ArrayLiteral { elements: vec![] }, &none), "Vec::<f64>::new()");
    assert_eq!(expr_text(&Expr::ArrayLiteral { elements: vec![num("1"), num("2")] }, &none), "vec![1.0, 2.0]");
    let obj = Expr::ObjectLiteral { fields: vec![("a".into(), num("1"))] };
    assert_eq!(expr_text(&obj, &none), "todo!()");
    let point = Type { name: "__ObjP".into(), fields: vec![("a".into(), Box::new(Type::number()))], is_array: false };
    let reassigned: Vec<String> = vec![];
    let ctx = Ctx { reassigned: &reassigned, types: &none, current_let_type: Some(&point), is_root: true };
    let mut out = String::new();
    emit_expr(&mut out, &obj, &ctx);
    assert_eq!(out, "__ObjP { a: 1.0 }");
}

#[test]
fn statements_indent_and_loops_desugar() {
    let types = vec![];
    let reassigned = vec!["i".to_string()];
    let ctx = Ctx { reassigned: &reassigned, types: &types, current_let_type: None, is_root: true };
    let for_loop = Stmt::For {
        init: Some(Box::new(let_("i", Some(Type::number()), num("0")))),
        condition: Some(bin(BinOp::Lt, id("i"), num("3"))),
        update: Some(Box::new(Stmt::Assign { name: "i".into(), value: bin(BinOp::Add, id("i"), num("1")) })),
        body: vec![Stmt::Continue],
    };
    let mut out = String::new();
    emit_stmt(&mut out, &for_loop, 1, &ctx);
    let expected = "    {\n        let mut i: f64 = 0.0;\n        let mut __for_first = true;\n        loop {\n            if !__for_first {\n                i = (i + 1.0);\n            }\n            __for_first = false;\n            if !((i < 3.0)) { break; }\n            continue;\n        }\n    }\n";
    assert_eq!(out, expected);

    let mut out = String::new();
    let iff = Stmt::If {
        condition: id("ok"),
        then_branch: vec![Stmt::Break],
        else_branch: Some(vec![Stmt::Return(Some(num("1")))]),
    };
    emit_stmt(&mut out, &iff, 0, &ctx);
    assert_eq!(out, "if ok {\n    break;\n} else {\n    return 1.0;\n}\n");

    let mut out = String::new();
    let each = Stmt::ForOf { name: "v".into(), ty: None, iterable: Box::new(id("xs")), body: vec![] };
    emit_stmt(&mut out, &each, 0, &ctx);
    assert_eq!(out, "for v in xs.iter().cloned() {\n}\n");

    let mut out = String::new();
    emit_stmt(&mut out, &let_("xs", Some(array_of("string")), Expr::ArrayLiteral { elements: vec![] }), 0, &ctx);
    assert_eq!(out, "let xs: Vec<String> = Vec::new();\n");
}

#[test]
fn literal_types_for_default_exports() {
    assert_eq!(infer_expr_rust_type(&num("1")), Some("f64".to_string()));
    assert_eq!(infer_expr_rust_type(&Expr::ArrayLiteral { elements: vec![s("a")] }), Some("Vec<String>".to_string()));
    assert_eq!(infer_expr_rust_type(&Expr::ArrayLiteral { elements: vec![] }), Some("Vec<f64>".to_string()));
    assert_eq!(infer_expr_rust_type(&id("x")), None);
}

#[test]
fn root_module_puts_statements_in_main() {
    let m = module(
        "main",
        "/p/main.tsr",
        vec![
            let_("x", Some(Type::number()), num("42")),
            Stmt::Expr(call(id("print"), vec![id("x")])),
            Stmt::Assign { name: "x".into(), value: num("1") },
        ],
    );
    let out = generate_all(&vec![m], &vec![vec![]]).unwrap();
    assert_eq!(out.len(), 1);
    assert_eq!(out[0].0, "main");
    let expected = format!(
        "{}\nfn main() {{\n    let mut x: f64 = 42.0;\n    println!(\"{{}}\", x);\n    x = 1.0;\n}}\n",
        HEADER
    );
    assert_eq!(out[0].1, expected);
}

#[test]
fn modules_are_declared_and_imported() {
    let add = Function {
        name: "add".into(),
        params: vec![
            Param { name: "a".into(), ty: Type::number(), line: 1, col: 1 },
            Param { name: "xs".into(), ty: array_of("number"), line: 1, col: 1 },
        ],
        return_type: Type::number(),
        body: vec![Stmt::Return(Some(id("a")))],
    };
    let mut utils = module(
        "utils",
        "/p/utils.tsr",
        vec![
            Stmt::ExportDecl(Box::new(Stmt::Function(add))),
            Stmt::ExportDecl(Box::new(Stmt::Const { name: "K".into(), ty: Some(Type::number()), value: num("2"), line: 1, col: 1 })),
            Stmt::ExportSpec(vec![ExportItem { name: "add".into(), alias: Some("plus".into()) }]),
        ],
    );
    utils.exports.default = None;
    let main = module(
        "main",
        "/p/main.tsr",
        vec![Stmt::Import {
            default: None,
            named: vec![ImportNamed { name: "add".into(), alias: None }, ImportNamed { name: "K".into(), alias: Some("k".into()) }],
            module: "utils".into(),
        }],
    );
    let modules = vec![main, utils];
    let targets = vec![vec![ModuleTarget::Local("/p/utils.tsr".into())], vec![]];
    let out = generate_all(&modules, &targets).unwrap();
    assert_eq!(out[0].1, format!("{}mod utils;\n\nuse crate::utils::add;\nuse crate::utils::K as k;\nfn main() {{\n}}\n", HEADER));
    assert_eq!(
        out[1].1,
        format!(
            "{}pub use self::add as plus;\npub fn add(a: f64, xs: &Vec<f64>) -> f64 {{\n    return a;\n}}\n\npub const K: f64 = 2.0;\n\n",
            HEADER
        )
    );
}

#[test]
fn imports_that_cannot_be_resolved_fail() {
    let main = module(
        "main",
        "/p/main.tsr",
        vec![Stmt::Import { default: Some("d".into()), named: vec![], module: "utils".into() }],
    );
    let utils = module("utils", "/p/utils.tsr", vec![]);
    let modules = vec![main, utils];
    let err = generate_all(&modules, &vec![vec![ModuleTarget::Local("/p/utils.tsr".into())], vec![]]).unwrap_err();
    assert_eq!(err, "`utils` no tiene default export");
    let err = generate_all(&modules, &vec![vec![ModuleTarget::Local("/q/x.tsr".into())], vec![]]).unwrap_err();
    assert_eq!(err, "módulo `utils` no resuelto a un id (error interno)");
    let out = generate_module(&modules[0], true, &modules, &vec![], &vec![ModuleTarget::Crate("rand".into())]);
    assert_eq!(out, Ok(format!("{}mod utils;\n\nfn main() {{\n}}\n", HEADER)));
}

#[test]
fn object_types_live_in_the_root() {
    let point = Type { name: "__ObjP".into(), fields: vec![("x".into(), Box::new(Type::number()))], is_array: false };
    let point2 = Type { name: "__ObjP".into(), fields: vec![("x".into(), Box::new(Type::number()))], is_array: false };
    let lit = Expr::ObjectLiteral { fields: vec![("x".into(), num("1"))] };
    let lit2 = Expr::ObjectLiteral { fields: vec![("x".into(), num("2"))] };
    let main = module("main", "/p/main.tsr", vec![let_("p", Some(point), lit)]);
    let other = module("geo", "/p/geo.tsr", vec![let_("q", Some(point2), lit2)]);
    let out = generate_all(&vec![main, other], &vec![vec![], vec![]]).unwrap();
    assert_eq!(
        out[0].1,
        format!(
            "{}mod geo;\n\n#[derive(Clone)]\npub struct __ObjP {{\n    pub x: f64,\n}}\n\nfn main() {{\n    let p: __ObjP = __ObjP {{ x: 1.0 }};\n}}\n",
            HEADER
        )
    );
    assert_eq!(out[1].1, format!("{}use crate::__ObjP;\nconst q: crate::__ObjP = __ObjP {{ x: 2.0 }};\n\n", HEADER));
}

#[test]
fn default_exports_become_items() {
    let anon = Function { name: "".into(), params: vec![], return_type: Type::void(), body: vec![] };
    let m = module("lib", "/p/lib.tsr", vec![Stmt::ExportDefault(ExportDefault::Function(anon))]);
    let v = module("val", "/p/val.tsr", vec![Stmt::ExportDefault(ExportDefault::Expr(num("7")))]);
    let root = module("main", "/p/main.tsr", vec![]);
    let out = generate_all(&vec![root, m, v], &vec![vec![], vec![], vec![]]).unwrap();
    assert_eq!(out[1].1, format!("{}pub fn __default() -> () {{\n}}\n\n", HEADER));
    assert_eq!(out[2].1, format!("{}pub const __default: f64 = 7.0;\n\n", HEADER));
}
