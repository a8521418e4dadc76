//! Cross-file completion: namespace-import member completion
//! (`import utils; utils.<TAB>`) and `from x import *;` wildcard imports,
//! with the imported modules' sources given as the editor read them.

use arcis::lsp::completion::{completions_at, ModuleSources};

fn labels_with(prefix: &str, full_text: &str, sources: Vec<(Vec<&str>, &str)>) -> Vec<String> {
    let modules = ModuleSources {
        modules: sources
            .into_iter()
            .map(|(path, src)| (path.into_iter().map(String::from).collect(), src.to_string()))
            .collect(),
    };
    completions_at(prefix, full_text, Some(&modules)).into_iter().map(|i| i.label).collect()
}

#[test]
fn namespace_import_offers_target_modules_exports() {
    let utils = "export function add(a: number, b: number): number { return a + b; }\n\
                 export const PI: number = 3.14;\n\
                 function helper(): void {}\n";
    let doc = "import utils;\nutils.";
    let labels = labels_with("utils.", doc, vec![(vec!["utils"], utils)]);
    assert!(labels.contains(&"add".to_string()), "missing exported `add`: {labels:?}");
    assert!(labels.contains(&"PI".to_string()), "missing exported `PI`: {labels:?}");
    assert!(!labels.contains(&"helper".to_string()), "non-exported `helper` leaked: {labels:?}");
}

#[test]
fn aliased_namespace_import_still_resolves() {
    let mate = "export function sumar(a: number, b: number): number { return a + b; }\n";
    let doc = "import mate as m;\nm.";
    let labels = labels_with("m.", doc, vec![(vec!["mate"], mate)]);
    assert!(labels.contains(&"sumar".to_string()), "missing exported `sumar` via alias: {labels:?}");
}

#[test]
fn wildcard_import_brings_exports_into_top_level_completion() {
    let consts = "export const MAX_RETRIES: number = 3;\n";
    let doc = "from consts import *;\n";
    let labels = labels_with("", doc, vec![(vec!["consts"], consts)]);
    assert!(
        labels.contains(&"MAX_RETRIES".to_string()),
        "wildcard-imported `MAX_RETRIES` missing from top-level completion: {labels:?}"
    );
}

#[test]
fn missing_target_file_degrades_to_empty_not_error() {
    let doc = "import doesnotexist;\ndoesnotexist.";
    // An unreadable module just yields no items.
    let labels = labels_with("doesnotexist.", doc, vec![]);
    assert!(labels.is_empty(), "unresolvable module should yield no items, got: {labels:?}");
}
