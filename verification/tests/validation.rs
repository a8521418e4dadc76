use arcis::syntax::ast::{Expr, Program, Stmt};
use arcis::validation::issues::{format_issues, DeclKind, UnusedDecl, ValidationIssue};
use arcis::validation::validate::validate;

#[test]
fn empty_program_has_no_issues() {
    let prog = Program { stmts: vec![] };
    assert!(validate(&prog).is_empty());
}

#[test]
fn flags_unused_variable() {
    let prog = Program {
        stmts: vec![Stmt::Let {
            name: "x".into(),
            ty: None,
            value: Expr::Number("42".into()),
            line: 1,
            col: 5,
        }],
    };
    let issues = validate(&prog);
    assert!(matches!(issues.as_slice(), [ValidationIssue::Unused(_)]));
}

#[test]
fn flags_duplicate_declaration() {
    // Two `let x = ...` in the same scope → at least one issue must be a
    // Duplicate. (We also get two Unused issues because `x` is never
    // referenced, but that's fine — we just want at least one Duplicate.)
    let prog = Program {
        stmts: vec![
            Stmt::Let {
                name: "x".into(),
                ty: None,
                value: Expr::Number("1".into()),
                line: 1,
                col: 5,
            },
            Stmt::Let {
                name: "x".into(),
                ty: None,
                value: Expr::Number("2".into()),
                line: 2,
                col: 5,
            },
        ],
    };
    let issues = validate(&prog);
    assert!(
        issues
            .iter()
            .any(|i| matches!(i, ValidationIssue::Duplicate(_))),
        "expected at least one Duplicate issue, got: {issues:?}"
    );
}

#[test]
fn flags_break_outside_loop() {
    let prog = Program {
        stmts: vec![Stmt::Break],
    };
    let issues = validate(&prog);
    assert!(matches!(
        issues.as_slice(),
        [ValidationIssue::BreakOutsideLoop { .. }]
    ));
}

#[test]
fn break_inside_loop_is_fine_and_sibling_blocks_do_not_clash() {
    let src = "while (true) { break; }\nif (true) { let a = 1; print(a); }\nif (true) { let a = 2; print(a); }\n";
    let tokens = arcis::syntax::lexer::lex(src).unwrap();
    let program = arcis::syntax::parser::parse(tokens).unwrap();
    assert!(validate(&program).is_empty());
}

#[test]
fn format_issues_reports_each_issue_and_the_counts() {
    let issues = vec![
        ValidationIssue::Unused(UnusedDecl { kind: DeclKind::Variable, name: "x".into(), line: 1, col: 5 }),
        ValidationIssue::BreakOutsideLoop { keyword: "break", line: 0, col: 0 },
    ];
    let text = format_issues(&issues, "main.tsr");
    assert_eq!(
        text,
        "error: variable `x` declared but never used\n --> main.tsr:1:5\n\
         error: `break` used outside of any loop\n\
         \n1 declaration(s) unused.\n1 use(s) of break/continue outside of a loop.\n"
    );
    assert_eq!(format_issues(&vec![], "main.tsr"), "");
}

fn param(name: &str, line: usize, col: usize) -> arcis::syntax::ast::Param {
    arcis::syntax::ast::Param { name: name.into(), ty: arcis::syntax::ast::Type::number(), line, col }
}

#[test]
fn repeated_parameter_is_a_duplicate_of_the_first() {
    // function f(a, a) { print(a); }
    let body = vec![Stmt::Expr(Expr::Call {
        callee: Box::new(Expr::Ident("print".into())),
        args: vec![Expr::Ident("a".into())],
    })];
    let f = arcis::syntax::ast::Function {
        name: "f".into(),
        params: vec![param("a", 1, 12), param("a", 1, 15)],
        return_type: arcis::syntax::ast::Type::void(),
        body,
        line: 1,
        col: 1,
    };
    let issues = validate(&Program { stmts: vec![Stmt::Function(f)] });
    assert_eq!(issues.len(), 1);
    match &issues[0] {
        ValidationIssue::Duplicate(d) => {
            assert_eq!(d.kind, DeclKind::Parameter);
            assert_eq!(d.name, "a");
            assert_eq!((d.first_line, d.first_col, d.second_line, d.second_col), (1, 12, 1, 15));
        }
        other => panic!("expected a duplicate, got {other:?}"),
    }
}

#[test]
fn unused_parameter_and_function_break_are_reported_in_order() {
    // let x = 1; print(x); function g(p) { break; }
    let f = arcis::syntax::ast::Function {
        name: "g".into(),
        params: vec![param("p", 2, 12)],
        return_type: arcis::syntax::ast::Type::void(),
        body: vec![Stmt::Break],
        line: 2,
        col: 1,
    };
    let prog = Program {
        stmts: vec![
            Stmt::Let { name: "x".into(), ty: None, value: Expr::Number("1".into()), line: 1, col: 5 },
            Stmt::Expr(Expr::Call { callee: Box::new(Expr::Ident("print".into())), args: vec![Expr::Ident("x".into())] }),
            Stmt::Function(f),
        ],
    };
    let issues = validate(&prog);
    assert_eq!(issues.len(), 2, "{issues:?}");
    assert!(matches!(issues[0], ValidationIssue::BreakOutsideLoop { keyword: "break", .. }));
    match &issues[1] {
        ValidationIssue::Unused(u) => {
            assert_eq!(u.kind, DeclKind::Parameter);
            assert_eq!(u.name, "p");
        }
        other => panic!("expected an unused parameter, got {other:?}"),
    }
}

#[test]
fn duplicate_never_read_declarations_are_each_unused() {
    let prog = Program {
        stmts: vec![
            Stmt::Let { name: "x".into(), ty: None, value: Expr::Number("1".into()), line: 1, col: 5 },
            Stmt::Let { name: "x".into(), ty: None, value: Expr::Number("2".into()), line: 2, col: 5 },
        ],
    };
    let issues = validate(&prog);
    let unused = issues.iter().filter(|i| matches!(i, ValidationIssue::Unused(_))).count();
    assert_eq!(unused, 2, "got: {issues:?}");
}
