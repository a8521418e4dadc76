use arcis::compiler::codegen::rust_string_literal;
use arcis::lsp::completion::completions_at;
use arcis::lsp::types::CompletionItemKind;
use arcis::syntax::ast::Type;
use arcis::validation::narrow::mint;
use arcis::syntax::ast::{Expr, Program, Stmt};
use arcis::validation::infer::TypeEnv;
use arcis::validation::nullsafety::check_null_safety;
use arcis::validation::typecheck::{check_types, types_compatible};

#[test]
fn a_label_is_offered_once_by_its_first_candidate() {
    // The document's own `print` comes before the builtin `print`.
    let text = "let print = 1;\n";
    let items = completions_at("", text, None);
    let prints: Vec<_> = items.iter().filter(|i| i.label == "print").collect();
    assert_eq!(prints.len(), 1, "one `print` only");
    assert_eq!(prints[0].kind, Some(CompletionItemKind::Variable));
}

#[test]
fn completion_labels_are_never_repeated() {
    let text = "let a = 1;\nfunction a2() {}\nlet b = 2;\n";
    let items = completions_at("", text, None);
    let mut labels: Vec<&String> = items.iter().map(|i| &i.label).collect();
    let n = labels.len();
    labels.sort();
    labels.dedup();
    assert_eq!(labels.len(), n);
}

#[test]
fn generated_string_literals_stay_on_one_line() {
    let lit = rust_string_literal("line one\nline \"two\"\r\tend");
    let body = &lit["String::from(\"".len()..lit.len() - 2];
    assert!(!body.contains('\n') && !body.contains('\r') && !body.contains('\t'));
    for (i, c) in body.char_indices() {
        if c == '"' {
            assert_eq!(&body[i - 1..i], "\\");
        }
    }
}

#[test]
fn minted_names_are_fresh() {
    let mut counter: u32 = 0;
    let name = "x".to_string();
    let a = mint(&mut counter, &name);
    let b = mint(&mut counter, &name);
    assert_eq!(a, "x__narrow1");
    assert_eq!(b, "x__narrow2");
    assert_ne!(a, b);
}

#[test]
fn every_type_is_compatible_with_itself() {
    let arr = Type::Array(Box::new(Type::Array(Box::new(Type::string()))));
    assert!(types_compatible(&arr, &arr));
    let opt = Type::Optional(Box::new(Type::number()));
    assert!(types_compatible(&opt, &opt));
    assert!(types_compatible(&Type::boolean(), &Type::boolean()));
}

#[test]
fn a_literal_of_the_wrong_type_is_reported_at_its_binding() {
    let prog = Program {
        stmts: vec![Stmt::Let { name: "n".into(), ty: Some(Type::number()), value: Expr::String("a".into()), line: 3, col: 5 }],
    };
    let issues = check_types(&prog, &TypeEnv::default());
    assert!(issues.iter().any(|i| i.line == 3 && i.col == 5), "{issues:?}");
}

#[test]
fn null_into_a_non_optional_binding_is_reported() {
    let prog = Program {
        stmts: vec![Stmt::Const { name: "s".into(), ty: Some(Type::string()), value: Expr::Null, line: 7, col: 7 }],
    };
    let issues = check_null_safety(&prog, &TypeEnv::default());
    assert!(issues.iter().any(|i| i.line == 7 && i.col == 7), "{issues:?}");
    let ok = Program {
        stmts: vec![Stmt::Const {
            name: "s".into(),
            ty: Some(Type::Optional(Box::new(Type::string()))),
            value: Expr::Null,
            line: 7,
            col: 7,
        }],
    };
    assert!(check_null_safety(&ok, &TypeEnv::default()).is_empty());
}
