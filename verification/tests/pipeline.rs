use arcis::compiler::ast::{Expr, ImportNamed, Stmt};
use arcis::compiler::loader::{next_action, on_loaded, on_target, start, LoadAction};
use arcis::compiler::lower::lower_program;
use arcis::compiler::modules::{check_import, import_candidate, Exports, ModuleTarget};
use arcis::compiler::validation::{format_issues, validate, ValidationIssue};
use arcis::syntax::lexer::lex;
use arcis::syntax::parser::parse;
use arcis::syntax::token::TokenKind;

fn syntax_program(src: &str) -> arcis::syntax::ast::Program {
    parse(lex(src).unwrap()).unwrap()
}

#[test]
fn lexer_gives_canonical_numbers_keywords_and_unescaped_strings() {
    let ts = lex("let x = 007.50; // note\n'a\\nb'").unwrap();
    let kinds: Vec<TokenKind> = ts.iter().map(|t| t.kind).collect();
    assert_eq!(
        kinds,
        vec![TokenKind::Let, TokenKind::Ident, TokenKind::Eq, TokenKind::Number, TokenKind::Semi, TokenKind::Str, TokenKind::Eof]
    );
    assert_eq!(ts[1].text, "x");
    assert_eq!(ts[3].text, "7.5");
    assert_eq!(ts[5].text, "a\nb");
    assert_eq!((ts[5].line, ts[5].col), (2, 1));
    assert_eq!((ts[6].line, ts[6].col), (2, 7));
}

#[test]
fn lexer_reports_where_a_block_comment_or_string_is_left_open() {
    let e = lex("x /* open").unwrap_err();
    assert_eq!((e.line, e.col, e.msg.as_str()), (1, 3, "unterminated block comment"));
    let e = lex("\n  \"abc\n\"").unwrap_err();
    assert_eq!((e.line, e.col, e.msg.as_str()), (2, 3, "unterminated string literal"));
    let e = lex("a # b").unwrap_err();
    assert_eq!((e.line, e.col, e.msg.as_str()), (1, 3, "unexpected character"));
}

#[test]
fn lowering_keeps_declarations_and_calls() {
    let p = lower_program(&syntax_program("let x: number = 1;\nprint(x);\n")).unwrap();
    assert_eq!(p.stmts.len(), 2);
    match &p.stmts[0] {
        Stmt::Let { name, value: Expr::Number(n), .. } => {
            assert_eq!(name, "x");
            assert_eq!(n, "1");
        }
        other => panic!("unexpected {other:?}"),
    }
    assert!(matches!(&p.stmts[1], Stmt::Expr(Expr::Call { .. })));
}

#[test]
fn lowering_refuses_null() {
    assert!(lower_program(&syntax_program("let x = null;\n")).is_err());
}

#[test]
fn loader_walks_imports_depth_first_and_reports_cycles() {
    let mut l = start("/p/main.tsr".to_string(), vec!["a".to_string()]);
    match next_action(&mut l) {
        LoadAction::Resolve { importer, spec } => {
            assert_eq!(importer, "/p/main.tsr");
            assert_eq!(spec, "a");
        }
        _ => panic!("expected an import to resolve"),
    }
    assert_eq!(on_target(&l, &"/p/a.tsr".to_string()), Ok(true));
    on_loaded(&mut l, "/p/a.tsr".to_string(), vec!["main".to_string()]);
    assert!(matches!(next_action(&mut l), LoadAction::Resolve { .. }));
    assert_eq!(
        on_target(&l, &"/p/main.tsr".to_string()),
        Err("dependencia cíclica entre módulos: main -> a -> main".to_string())
    );
    match next_action(&mut l) {
        LoadAction::Finished(p) => assert_eq!(p, "/p/a.tsr"),
        _ => panic!("expected a finished module"),
    }
    assert_eq!(on_target(&l, &"/p/a.tsr".to_string()), Ok(false));
    assert!(matches!(next_action(&mut l), LoadAction::Finished(_)));
    assert!(matches!(next_action(&mut l), LoadAction::Done));
    assert_eq!(l.order, vec!["/p/main.tsr".to_string(), "/p/a.tsr".to_string()]);
}

#[test]
fn local_imports_are_looked_up_beside_the_importer() {
    let c = import_candidate("/p/src/main.tsr", "utils").unwrap();
    assert_eq!(c, "/p/src/utils.tsr");
    assert!(import_candidate("", "utils").is_err());
}

#[test]
fn imports_are_checked_against_exports() {
    let exports = Exports { named: vec!["add".to_string()], default: None };
    let local = ModuleTarget::Local("/p/utils.tsr".to_string());
    let add = vec![ImportNamed { name: "add".to_string(), alias: None }];
    assert_eq!(check_import(false, &add, "utils", &local, &exports), Ok(()));
    let sub = vec![ImportNamed { name: "sub".to_string(), alias: Some("s".to_string()) }];
    assert_eq!(
        check_import(false, &sub, "utils", &local, &exports),
        Err("`utils` no exporta ningún símbolo llamado `sub`".to_string())
    );
    assert_eq!(
        check_import(true, &Vec::new(), "utils", &local, &exports),
        Err("`utils` no exporta un valor por defecto (default export)".to_string())
    );
    let krate = ModuleTarget::Crate("rand".to_string());
    assert_eq!(
        check_import(true, &Vec::new(), "crate:rand", &krate, &Exports::default()),
        Err("`import x from \"crate:rand\"` no está soportado: los crates de Rust no tienen `default export`".to_string())
    );
}

#[test]
fn compiler_checks_report_unused_duplicates_and_stray_breaks() {
    let p = lower_program(&syntax_program("let a = 1;\nlet a = 2;\nbreak;\nfunction f(x: number): void {\n  print(1);\n}\n")).unwrap();
    let issues = validate(&p);
    assert_eq!(issues.len(), 4);
    assert!(matches!(&issues[0], ValidationIssue::Duplicate(d) if d.name == "a" && (d.first_line, d.second_line) == (1, 2)));
    assert!(matches!(&issues[1], ValidationIssue::BreakOutsideLoop { keyword: "break", .. }));
    assert!(matches!(&issues[2], ValidationIssue::Unused(u) if u.name == "a" && u.line == 1));
    assert!(matches!(&issues[3], ValidationIssue::Unused(u) if u.name == "x"));
    let text = format_issues(&issues, "main.tsr");
    assert_eq!(
        text,
        "error: variable `a` ya fue declarado en main.tsr:1:5\n --> main.tsr:2:5\n\
         error: `break` usado fuera de un loop (while/for)\n\
         error: variable `a` declarado pero no usado\n --> main.tsr:1:5\n\
         error: parámetro `x` declarado pero no usado\n --> main.tsr:4:12\n\
         \n2 declaración(es) sin uso.\n1 declaración(es) duplicada(s).\n1 uso(s) de break/continue fuera de loop.\n"
    );
}

#[test]
fn compiler_checks_accept_a_used_declaration_inside_a_loop() {
    let p = lower_program(&syntax_program("let i = 0;\nwhile (i < 3) {\n  i = i + 1;\n  if (i == 2) {\n    break;\n  }\n}\n")).unwrap();
    assert!(validate(&p).is_empty());
}

#[test]
fn reserved_words_are_keywords_and_punctuation_is_not() {
    assert!(TokenKind::Let.is_keyword());
    assert!(TokenKind::TypeVoid.is_keyword());
    assert!(TokenKind::As.is_keyword());
    assert!(!TokenKind::Ident.is_keyword());
    assert!(!TokenKind::Semi.is_keyword());
}

#[test]
fn imports_of_a_document_are_listed_in_order() {
    let p = arcis::lsp::symbols::parse_lenient("import utils;\nfrom os.path import *;\nlet x = 1;\n").unwrap();
    let ms = arcis::lsp::completion::import_modules(&p);
    assert_eq!(ms, vec![vec!["utils".to_string()], vec!["os".to_string(), "path".to_string()]]);
}
