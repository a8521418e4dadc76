use arcis::compiler::codegen::{emit_struct_def, indent, rust_string_literal, ts_type_to_rust};
use arcis::compiler::driver::{build_layout, has_crate_import, init_cargo_toml, manifest_with_workspace, resolve_arg};
use arcis::compiler::modules::{check_unique_ids, collect_exports, default_real_name, module_id, resolve_specifier, ModuleTarget};
use arcis::compiler::types::Type;
use arcis::compiler::ast::{ExportDefault, ExportItem, Expr, Function, Program, Stmt};

fn plain(name: &str) -> Type {
    Type { name: name.into(), fields: vec![], is_array: false }
}

#[test]
fn primitive_types_map_to_rust() {
    assert_eq!(ts_type_to_rust(&Type::string(), true), "String");
    assert_eq!(ts_type_to_rust(&Type::number(), true), "f64");
    assert_eq!(ts_type_to_rust(&Type::boolean(), false), "bool");
    assert_eq!(ts_type_to_rust(&Type::void(), true), "()");
    assert_eq!(ts_type_to_rust(&plain("Foo"), true), "Foo");
}

#[test]
fn arrays_and_object_types_map_to_rust() {
    let arr = Type { name: "number".into(), fields: vec![], is_array: true };
    assert_eq!(ts_type_to_rust(&arr, true), "Vec<f64>");
    let obj = Type { name: "__Obj1".into(), fields: vec![("x".into(), Box::new(Type::number()))], is_array: false };
    assert_eq!(ts_type_to_rust(&obj, true), "__Obj1");
    assert_eq!(ts_type_to_rust(&obj, false), "crate::__Obj1");
    let objs = Type { name: "__Obj1".into(), fields: vec![("x".into(), Box::new(Type::number()))], is_array: true };
    assert_eq!(ts_type_to_rust(&objs, false), "Vec<crate::__Obj1>");
}

#[test]
fn string_literal_escapes_special_characters() {
    assert_eq!(rust_string_literal("hi"), "String::from(\"hi\")");
    assert_eq!(rust_string_literal("a\"b\\c\nd\te\r"), "String::from(\"a\\\"b\\\\c\\nd\\te\\r\")");
    assert_eq!(rust_string_literal(""), "String::from(\"\")");
}

#[test]
fn indent_writes_four_spaces_per_level() {
    let mut s = String::from("x");
    indent(&mut s, 2);
    assert_eq!(s, "x        ");
    let mut t = String::new();
    indent(&mut t, 0);
    assert_eq!(t, "");
}

#[test]
fn struct_definition_lists_fields_in_order() {
    let obj = Type {
        name: "__ObjA".into(),
        fields: vec![("name".into(), Box::new(Type::string())), ("tags".into(), Box::new(Type {
            name: "string".into(),
            fields: vec![],
            is_array: true,
        }))],
        is_array: false,
    };
    let mut out = String::new();
    emit_struct_def(&mut out, &obj);
    assert_eq!(out, "#[derive(Clone)]\npub struct __ObjA {\n    pub name: String,\n    pub tags: Vec<String>,\n}\n\n");
}

#[test]
fn module_id_is_the_file_stem_when_it_is_an_identifier() {
    assert_eq!(module_id("/proj/utils.tsr"), Ok("utils".to_string()));
    assert_eq!(module_id("/proj/_x1.tsr"), Ok("_x1".to_string()));
    let err = module_id("/proj/my-mod.tsr").unwrap_err();
    assert!(err.starts_with("nombre de módulo inválido `my-mod`"));
    assert!(module_id("/proj/1abc.tsr").is_err());
    assert_eq!(module_id("/"), Err("nombre de archivo inválido: /".to_string()));
}

#[test]
fn crate_specifiers_name_a_crate() {
    assert_eq!(resolve_specifier("crate:reqwest", "x", None), Ok(ModuleTarget::Crate("reqwest".into())));
    assert_eq!(
        resolve_specifier("crate:reqwest::blocking", "x", None),
        Ok(ModuleTarget::Crate("reqwest::blocking".into()))
    );
    assert!(resolve_specifier("crate:", "x", None).is_err());
}

#[test]
fn local_specifiers_need_the_file() {
    assert_eq!(
        resolve_specifier("utils", "/p/utils.tsr", Some("/p/utils.tsr".into())),
        Ok(ModuleTarget::Local("/p/utils.tsr".into()))
    );
    assert_eq!(
        resolve_specifier("nope", "/p/nope.tsr", None),
        Err("módulo no encontrado `nope` (buscado en `/p/nope.tsr`)".to_string())
    );
}

fn func(name: &str) -> Function {
    Function { name: name.into(), params: vec![], return_type: Type::void(), body: vec![] }
}

#[test]
fn default_export_names() {
    assert_eq!(default_real_name(&ExportDefault::Function(func("f"))), "f");
    assert_eq!(default_real_name(&ExportDefault::Function(func(""))), "__default");
    assert_eq!(default_real_name(&ExportDefault::Expr(Expr::Bool(true))), "__default");
}

#[test]
fn exports_collect_declarations_items_and_default() {
    let prog = Program {
        stmts: vec![
            Stmt::ExportDecl(Box::new(Stmt::Function(func("sum")))),
            Stmt::ExportDecl(Box::new(Stmt::Const {
                name: "PI".into(),
                ty: None,
                value: Expr::Number("3".into()),
                line: 1,
                col: 1,
            })),
            Stmt::ExportSpec(vec![
                ExportItem { name: "a".into(), alias: None },
                ExportItem { name: "b".into(), alias: Some("c".into()) },
                ExportItem { name: "sum".into(), alias: None },
            ]),
            Stmt::ExportDefault(ExportDefault::Function(func(""))),
        ],
    };
    let e = collect_exports(&prog);
    let mut named = e.named.clone();
    named.sort();
    assert_eq!(named, vec!["PI".to_string(), "a".into(), "c".into(), "sum".into()]);
    assert_eq!(e.default, Some("__default".to_string()));
}

#[test]
fn crate_imports_are_detected() {
    assert!(has_crate_import(&vec!["utils".into(), "crate:serde".into()]));
    assert!(!has_crate_import(&vec!["utils".into(), "crat:x".into()]));
    assert!(!has_crate_import(&vec![]));
}

#[test]
fn build_layout_follows_the_manifest() {
    assert_eq!(build_layout("/home/u/app", &"main".to_string(), true, &vec![]), Ok(Some("app".to_string())));
    assert_eq!(build_layout(".", &"main".to_string(), true, &vec![]), Ok(Some("main".to_string())));
    assert_eq!(build_layout("/home/u/app", &"main".to_string(), false, &vec!["utils".into()]), Ok(None));
    let err = build_layout("/home/u/app", &"main".to_string(), false, &vec!["crate:rand".into()]).unwrap_err();
    assert!(err.starts_with("para usar crates de Rust"));
}

#[test]
fn manifest_gets_its_own_workspace() {
    assert_eq!(manifest_with_workspace(b"[package]".to_vec()), b"[package]\n\n[workspace]\n".to_vec());
    assert_eq!(manifest_with_workspace(b"x\n".to_vec()), b"x\n\n[workspace]\n".to_vec());
    assert_eq!(manifest_with_workspace(vec![]), b"\n\n[workspace]\n".to_vec());
}

#[test]
fn init_manifest_is_named_after_the_directory() {
    let t = init_cargo_toml("/tmp/demo");
    assert!(t.starts_with("[package]\nname = \"demo\"\nversion = \"0.1.0\"\nedition = \"2021\"\n"));
    assert!(t.contains("# serde = { version = \"1\", features = [\"derive\"] }\n"));
    assert!(init_cargo_toml(".").starts_with("[package]\nname = \"arcis-app\"\n"));
}

#[test]
fn command_path_defaults_to_the_current_directory() {
    assert_eq!(resolve_arg(None), ".");
    assert_eq!(resolve_arg(Some("proj/main.tsr".into())), "proj/main.tsr");
}

#[test]
fn module_ids_must_be_unique() {
    let ok = vec![("main".to_string(), "/p/main.tsr".to_string()), ("utils".into(), "/p/utils.tsr".into())];
    assert_eq!(check_unique_ids(&ok), Ok(()));
    let dup = vec![
        ("main".to_string(), "/p/main.tsr".to_string()),
        ("utils".into(), "/p/utils.tsr".into()),
        ("utils".into(), "/p/lib/utils.tsr".into()),
    ];
    assert_eq!(
        check_unique_ids(&dup),
        Err("dos módulos con el mismo nombre `utils`: /p/utils.tsr y /p/lib/utils.tsr".to_string())
    );
}
