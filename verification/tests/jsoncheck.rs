use arcis::syntax::ast::{Expr, Program, Stmt};
use arcis::validation::jsoncheck::{check_json_calls, json_call_sites, JsonPath};

fn json_call(args: Vec<Expr>) -> Expr {
    Expr::Call { callee: Box::new(Expr::Ident("json".into())), args }
}

fn let_at(name: &str, value: Expr, line: usize, col: usize) -> Stmt {
    Stmt::Let { name: name.into(), ty: None, value, line, col }
}

#[test]
fn literal_path_that_failed_is_reported_with_its_reason() {
    let prog = Program { stmts: vec![let_at("cfg", json_call(vec![Expr::String("cfg.json".into())]), 3, 5)] };
    let failures = vec![("cfg.json".to_string(), "no such file".to_string())];
    let issues = check_json_calls(&prog, &failures);
    assert_eq!(issues.len(), 1);
    assert_eq!(issues[0].message, "json(\"cfg.json\"): no such file");
    assert_eq!((issues[0].line, issues[0].col), (3, 5));
}

#[test]
fn literal_path_that_loaded_is_fine() {
    let prog = Program { stmts: vec![let_at("cfg", json_call(vec![Expr::String("ok.json".into())]), 1, 1)] };
    let failures = vec![("other.json".to_string(), "bad".to_string())];
    assert!(check_json_calls(&prog, &failures).is_empty());
}

#[test]
fn computed_path_is_always_reported() {
    let prog = Program { stmts: vec![Stmt::Expr(json_call(vec![Expr::Ident("p".into())]))] };
    let issues = check_json_calls(&prog, &vec![]);
    assert_eq!(issues.len(), 1);
    assert!(issues[0].message.starts_with("json(path): the path isn't a string literal"));
    assert_eq!((issues[0].line, issues[0].col), (0, 0));
}

#[test]
fn call_without_path_is_reported() {
    let prog = Program { stmts: vec![let_at("x", json_call(vec![]), 2, 9)] };
    let issues = check_json_calls(&prog, &vec![]);
    assert_eq!(issues.len(), 1);
    assert_eq!(issues[0].message, "json(): expected a path argument");
    assert_eq!((issues[0].line, issues[0].col), (2, 9));
}

#[test]
fn sites_are_found_inside_nested_calls_in_order() {
    // print(json("a.json"), json(q))
    let e = Expr::Call {
        callee: Box::new(Expr::Ident("print".into())),
        args: vec![json_call(vec![Expr::String("a.json".into())]), json_call(vec![Expr::Ident("q".into())])],
    };
    let prog = Program { stmts: vec![Stmt::Expr(e)] };
    let sites = json_call_sites(&prog);
    assert_eq!(sites.len(), 2);
    assert!(matches!(&sites[0].path, JsonPath::Literal(p) if p == "a.json"));
    assert!(matches!(sites[1].path, JsonPath::Computed));
}
