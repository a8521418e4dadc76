use arcis::syntax::ast::{ArrowBody, Expr, Param, Program, Stmt, Type};
use arcis::validation::shadowing::resolve_shadowing;

fn let_stmt(name: &str, value: Expr) -> Stmt {
    Stmt::Let { name: name.to_string(), ty: None, value, line: 0, col: 0 }
}

#[test]
fn renames_inner_shadow_and_rewrites_its_uses() {
    // let x = 1; if (true) { let x = 2; print(x); }
    let inner_let = let_stmt("x", Expr::Number("2".into()));
    let inner_print = Stmt::Expr(Expr::Call {
        callee: Box::new(Expr::Ident("print".to_string())),
        args: vec![Expr::Ident("x".to_string())],
    });
    let mut program = Program {
        stmts: vec![
            let_stmt("x", Expr::Number("1".into())),
            Stmt::If { condition: Expr::Bool(true), then_branch: vec![inner_let, inner_print], else_branch: None },
        ],
    };
    resolve_shadowing(&mut program);

    let Stmt::Let { name: outer_name, .. } = &program.stmts[0] else { panic!() };
    assert_eq!(outer_name, "x");

    let Stmt::If { then_branch, .. } = &program.stmts[1] else { panic!() };
    let Stmt::Let { name: inner_name, .. } = &then_branch[0] else { panic!() };
    assert_ne!(inner_name, "x");
    let Stmt::Expr(Expr::Call { args, .. }) = &then_branch[1] else { panic!() };
    let Expr::Ident(used_name) = &args[0] else { panic!() };
    assert_eq!(used_name, inner_name, "the print(x) inside the block must reference the renamed inner x");
}

#[test]
fn leaves_same_scope_duplicate_untouched_for_the_validator() {
    // let x = 1; let x = 2;  (no nested block: a real duplicate)
    let mut program =
        Program { stmts: vec![let_stmt("x", Expr::Number("1".into())), let_stmt("x", Expr::Number("2".into()))] };
    resolve_shadowing(&mut program);
    for stmt in &program.stmts {
        let Stmt::Let { name, .. } = stmt else { panic!() };
        assert_eq!(name, "x", "same-scope duplicates must stay named `x` so the validator still flags them");
    }
}

#[test]
fn does_not_rename_unrelated_names() {
    let mut program =
        Program { stmts: vec![let_stmt("x", Expr::Number("1".into())), let_stmt("y", Expr::Number("2".into()))] };
    resolve_shadowing(&mut program);
    let Stmt::Let { name: a, .. } = &program.stmts[0] else { panic!() };
    let Stmt::Let { name: b, .. } = &program.stmts[1] else { panic!() };
    assert_eq!(a, "x");
    assert_eq!(b, "y");
}

#[test]
fn shadow_names_count_up_per_name() {
    // let x = 1; if (true) { let x = 2; } while (true) { let x = 3; }
    let mut program = Program {
        stmts: vec![
            let_stmt("x", Expr::Number("1".into())),
            Stmt::If {
                condition: Expr::Bool(true),
                then_branch: vec![let_stmt("x", Expr::Number("2".into()))],
                else_branch: None,
            },
            Stmt::While { condition: Expr::Bool(true), body: vec![let_stmt("x", Expr::Number("3".into()))] },
        ],
    };
    resolve_shadowing(&mut program);
    let Stmt::If { then_branch, .. } = &program.stmts[1] else { panic!() };
    let Stmt::Let { name: first, .. } = &then_branch[0] else { panic!() };
    assert_eq!(first, "x__shadow1");
    let Stmt::While { body, .. } = &program.stmts[2] else { panic!() };
    let Stmt::Let { name: second, .. } = &body[0] else { panic!() };
    assert_eq!(second, "x__shadow2");
}

#[test]
fn initializer_reads_the_outer_binding() {
    // let x = 1; if (true) { let x = x; }
    let mut program = Program {
        stmts: vec![
            let_stmt("x", Expr::Number("1".into())),
            Stmt::If {
                condition: Expr::Bool(true),
                then_branch: vec![let_stmt("x", Expr::Ident("x".into()))],
                else_branch: None,
            },
        ],
    };
    resolve_shadowing(&mut program);
    let Stmt::If { then_branch, .. } = &program.stmts[1] else { panic!() };
    let Stmt::Let { name, value, .. } = &then_branch[0] else { panic!() };
    assert_eq!(name, "x__shadow1");
    assert!(matches!(value, Expr::Ident(v) if v == "x"));
}

#[test]
fn loop_variable_and_its_uses_are_renamed() {
    // let i = 0; for (const i of xs) { print(i); } print(i);
    let print_i = |n: &str| {
        Stmt::Expr(Expr::Call { callee: Box::new(Expr::Ident("print".into())), args: vec![Expr::Ident(n.into())] })
    };
    let mut program = Program {
        stmts: vec![
            let_stmt("i", Expr::Number("0".into())),
            Stmt::ForOf { name: "i".into(), ty: None, iterable: Box::new(Expr::Ident("xs".into())), body: vec![print_i("i")] },
            print_i("i"),
        ],
    };
    resolve_shadowing(&mut program);
    let Stmt::ForOf { name, body, .. } = &program.stmts[1] else { panic!() };
    assert_eq!(name, "i__shadow1");
    let Stmt::Expr(Expr::Call { args, .. }) = &body[0] else { panic!() };
    assert!(matches!(&args[0], Expr::Ident(v) if v == "i__shadow1"));
    let Stmt::Expr(Expr::Call { args, .. }) = &program.stmts[2] else { panic!() };
    assert!(matches!(&args[0], Expr::Ident(v) if v == "i"));
}

#[test]
fn arrow_parameter_shadowing_an_outer_binding_is_renamed() {
    // let x = 1; const f = (x: number) => x;
    let arrow = Expr::Arrow {
        params: vec![Param { name: "x".into(), ty: Type::Primitive("number".into()), line: 0, col: 0 }],
        return_type: None,
        body: ArrowBody::Expr(Box::new(Expr::Ident("x".into()))),
    };
    let mut program = Program {
        stmts: vec![
            let_stmt("x", Expr::Number("1".into())),
            Stmt::Const { name: "f".into(), ty: None, value: arrow, line: 0, col: 0 },
        ],
    };
    resolve_shadowing(&mut program);
    let Stmt::Const { value: Expr::Arrow { params, body, .. }, .. } = &program.stmts[1] else { panic!() };
    assert_eq!(params[0].name, "x__shadow1");
    let ArrowBody::Expr(b) = body else { panic!() };
    assert!(matches!(b.as_ref(), Expr::Ident(v) if v == "x__shadow1"));
}
