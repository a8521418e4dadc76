use arcis::syntax::ast::{BinOp, Expr, Type};
use arcis::validation::infer::{expr_type, TypeEnv};

fn ident(n: &str) -> Box<Expr> {
    Box::new(Expr::Ident(n.into()))
}

fn prim(t: &Option<Type>) -> Option<String> {
    match t {
        Some(Type::Primitive(p)) => Some(p.clone()),
        _ => None,
    }
}

#[test]
fn plus_is_a_string_when_either_side_is_one() {
    let env = TypeEnv::default();
    let scope = vec![("n".to_string(), Type::number()), ("s".to_string(), Type::string())];
    let e = Expr::Binary { op: BinOp::Add, left: ident("n"), right: ident("s") };
    assert_eq!(prim(&expr_type(&e, &scope, &env)), Some("string".into()));
    let e2 = Expr::Binary { op: BinOp::Add, left: ident("n"), right: ident("n") };
    assert_eq!(prim(&expr_type(&e2, &scope, &env)), Some("number".into()));
}

#[test]
fn index_gives_the_element_type_and_nullish_drops_the_option() {
    let env = TypeEnv::default();
    let scope = vec![
        ("xs".to_string(), Type::Array(Box::new(Type::boolean()))),
        ("o".to_string(), Type::Optional(Box::new(Type::number()))),
    ];
    let idx = Expr::Index { object: ident("xs"), index: Box::new(Expr::Number("0".into())) };
    assert_eq!(prim(&expr_type(&idx, &scope, &env)), Some("boolean".into()));
    // `o ?? null`: the right side has no type, so the left one without `?`.
    let nc = Expr::Binary { op: BinOp::NullishCoalesce, left: ident("o"), right: Box::new(Expr::Null) };
    assert_eq!(prim(&expr_type(&nc, &scope, &env)), Some("number".into()));
    let bang = Expr::NonNullAssertion(ident("o"));
    assert!(matches!(expr_type(&bang, &scope, &env), Some(Type::Optional(_))));
}
