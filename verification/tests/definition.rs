use arcis::lsp::definition::{
    definition_in_module, goto_definition, ident_at_position, module_file_path, DefinitionLookup,
};
use arcis::lsp::types::Position;

fn pos(line: u32, character: u32) -> Position {
    Position { line, character }
}

#[test]
fn identifier_under_cursor_on_its_line() {
    let text = "let alpha = 1;\nprint(alpha);\n";
    assert_eq!(ident_at_position(text, pos(1, 8)), Some("alpha".to_string()));
    assert_eq!(ident_at_position(text, pos(1, 6)), Some("alpha".to_string()));
    assert_eq!(ident_at_position(text, pos(0, 3)), Some("let".to_string()));
    assert_eq!(ident_at_position(text, pos(0, 14)), None);
    // A column past the end of the line stops at its end.
    assert_eq!(ident_at_position("foo", pos(0, 99)), Some("foo".to_string()));
}

#[test]
fn local_variable_resolves_to_its_declaration() {
    let text = "let alpha = 1;\nprint(alpha);\n";
    let uri = "file:///w/main.tsr".to_string();
    match goto_definition(text, &uri, pos(1, 8)) {
        Some(DefinitionLookup::Found(loc)) => {
            assert_eq!(loc.uri, uri);
            let line = loc.range.start.line;
            assert_eq!(loc.range.end.line, line);
            assert_eq!(loc.range.end.character - loc.range.start.character, 5);
        }
        other => panic!("expected a local definition, got {other:?}"),
    }
}

#[test]
fn imported_name_points_to_its_module() {
    let text = "from mate import sumar;\nprint(sumar(1, 2));\n";
    let uri = "file:///w/main.tsr".to_string();
    match goto_definition(text, &uri, pos(1, 8)) {
        Some(DefinitionLookup::Import { module, export_name }) => {
            assert_eq!(module, vec!["mate".to_string()]);
            assert_eq!(export_name, Some("sumar".to_string()));
        }
        other => panic!("expected an import, got {other:?}"),
    }
}

#[test]
fn unknown_name_has_no_definition() {
    let uri = "file:///w/main.tsr".to_string();
    assert!(goto_definition("print(zzz);\n", &uri, pos(0, 7)).is_none());
}

#[test]
fn module_path_is_next_to_the_document() {
    let p = module_file_path("file", "/w/src/main.tsr", &vec!["os".to_string(), "path".to_string()]);
    assert_eq!(p, Some("/w/src/os/path.tsr".to_string()));
    let q = module_file_path("file", "/w/main.tsr", &vec!["mate".to_string()]);
    assert_eq!(q, Some("/w/mate.tsr".to_string()));
    assert_eq!(module_file_path("http", "/w/main.tsr", &vec!["mate".to_string()]), None);
}

#[test]
fn export_is_found_in_the_other_module() {
    let module = "export function sumar(a: number, b: number): number {\n  return a + b;\n}\n";
    let uri = "file:///w/mate.tsr".to_string();
    let loc = definition_in_module(module, &uri, &Some("sumar".to_string())).expect("export found");
    assert_eq!(loc.uri, uri);
    assert_eq!(loc.range.end.character - loc.range.start.character, 5);
    assert!(definition_in_module(module, &uri, &Some("nope".to_string())).is_none());
    // A whole-module import leads to the first declaration.
    assert!(definition_in_module(module, &uri, &None).is_some());
}

#[test]
fn reexported_name_leads_to_its_local_declaration() {
    let module = "let x = 1;\nexport { x as y };\n";
    let uri = "file:///w/m.tsr".to_string();
    let loc = definition_in_module(module, &uri, &Some("y".to_string())).expect("re-export found");
    assert_eq!(loc.range.end.character - loc.range.start.character, 1);
}
