use arcis::syntax::ast::{Program, Stmt, Type};
use arcis::validation::infer::{infer_program, object_fields, TypeEnv};

fn infer(src: &str) -> Program {
    let tokens = arcis::syntax::lexer::lex(src).expect("lex");
    let mut program = arcis::syntax::parser::parse(tokens).expect("parse");
    let mut env = TypeEnv::default();
    env.add_program(&program);
    infer_program(&mut program, &env);
    program
}

/// The name of a primitive type (`""` for any other type).
fn primitive_name(t: &Type) -> &str {
    match t {
        Type::Primitive(p) => p.as_str(),
        _ => "",
    }
}

fn let_type<'a>(program: &'a Program, name: &str) -> Option<&'a Type> {
    fn walk<'a>(stmts: &'a [Stmt], name: &str) -> Option<&'a Type> {
        for s in stmts {
            match s {
                Stmt::Let { name: n, ty, .. } | Stmt::Const { name: n, ty, .. } if n == name => {
                    return ty.as_ref()
                }
                Stmt::Function(f) => {
                    if let Some(t) = walk(&f.body, name) {
                        return Some(t);
                    }
                }
                _ => {}
            }
        }
        None
    }
    walk(&program.stmts, name)
}

#[test]
fn infers_primitive_lets() {
    let p = infer("let a = 1;\nlet b = \"x\";\nlet c = true;\n");
    assert_eq!(primitive_name(let_type(&p, "a").unwrap()), "number");
    assert_eq!(primitive_name(let_type(&p, "b").unwrap()), "string");
    assert_eq!(primitive_name(let_type(&p, "c").unwrap()), "boolean");
}

#[test]
fn infers_array_and_element() {
    let p = infer("let xs = [1, 2, 3];\n");
    let t = let_type(&p, "xs").unwrap();
    assert!(t.is_array());
    assert_eq!(primitive_name(t.array_inner().unwrap()), "number");
}

#[test]
fn infers_object_literal_shape() {
    let p = infer("let o = { a: 1, b: \"hi\" };\n");
    let t = let_type(&p, "o").unwrap();
    let fields = object_fields(t).expect("object type");
    assert_eq!(fields.len(), 2);
    assert_eq!(fields[0].0, "a");
    assert_eq!(primitive_name(&fields[0].1), "number");
    assert_eq!(primitive_name(&fields[1].1), "string");
}

#[test]
fn infers_function_return_type() {
    let p = infer("function dbl(n: number) {\n    return n * 2;\n}\n");
    let f = p
        .stmts
        .iter()
        .find_map(|s| match s {
            Stmt::Function(f) => Some(f),
            _ => None,
        })
        .unwrap();
    assert_eq!(primitive_name(&f.return_type), "number");
}

#[test]
fn infers_through_function_calls() {
    let p = infer("function greet(n: string) {\n    return \"hi \" + n;\n}\nlet g = greet(\"ana\");\n");
    assert_eq!(primitive_name(let_type(&p, "g").unwrap()), "string");
}

#[test]
fn explicit_annotation_wins() {
    let p = infer("let x: string = \"a\";\n");
    assert_eq!(primitive_name(let_type(&p, "x").unwrap()), "string");
}

#[test]
fn infers_for_of_element() {
    let p = infer("let xs = [\"a\", \"b\"];\nfor (let s of xs) {\n    print(s);\n}\n");
    let forof_ty = p.stmts.iter().find_map(|s| match s {
        Stmt::ForOf { ty, .. } => ty.as_ref(),
        _ => None,
    });
    assert_eq!(primitive_name(forof_ty.unwrap()), "string");
}

#[test]
fn infers_string_concat_type() {
    let p = infer("let n = 3;\nlet msg = \"total: \" + n;\n");
    assert_eq!(primitive_name(let_type(&p, "msg").unwrap()), "string");
}

#[test]
fn environment_records_top_level_declarations_in_order() {
    let src = "let a = 1;\nconst b: string = \"x\";\nlet c = a;\nenum Color { Red, Green }\nexport function f(): number { return 1; }\n";
    let tokens = arcis::syntax::lexer::lex(src).expect("lex");
    let program = arcis::syntax::parser::parse(tokens).expect("parse");
    let mut env = TypeEnv::default();
    env.add_program(&program);
    let consts: Vec<(&str, &str)> = env.consts.iter().map(|(n, t)| (n.as_str(), primitive_name(t))).collect();
    assert_eq!(consts, vec![("a", "number"), ("b", "string")]);
    assert_eq!(env.enums, vec!["Color".to_string()]);
    assert_eq!(env.functions.len(), 1);
    assert_eq!(env.functions[0].name, "f");
}

#[test]
fn arrow_without_return_annotation_gets_its_body_type() {
    let program = infer("const f = (x: number) => x + 1;\n");
    let Stmt::Const { value: arcis::syntax::ast::Expr::Arrow { return_type, .. }, .. } = &program.stmts[0] else {
        panic!()
    };
    assert_eq!(return_type.as_ref().map(primitive_name), Some("number"));
}

#[test]
fn nested_let_sees_bindings_of_the_enclosing_blocks() {
    let p = infer("let a = \"x\";\nif (true) {\n  let b = a;\n}\n");
    let Stmt::If { then_branch, .. } = &p.stmts[1] else { panic!() };
    let Stmt::Let { ty, .. } = &then_branch[0] else { panic!() };
    assert_eq!(ty.as_ref().map(primitive_name), Some("string"));
}
