//! Names in the module graph: a module's id (its file stem, which must be
//! a Rust identifier), where an import specifier points, and what a
//! module exports.

use crate::compiler::ast::{ExportDefault, Program, Stmt};
use crate::lsp::definition::{parent_of, path_parent, path_pushed, pushed};
use crate::text::{chars_of, str_eq};
use vstd::prelude::*;
use vstd::string::StrSliceExecFns;

verus! {

broadcast use vstd::std_specs::vec::group_vec_axioms;

/// What `Path::file_stem` gives for a path.
pub uninterp spec fn path_stem(path: Seq<char>) -> Option<Seq<char>>;

/// `std::path::Path::file_stem`: the file name without its last
/// extension (`None` when the path has no file name). The result is
/// named, as a function of the path alone.
#[verifier::external_body]
fn file_stem(path: &str) -> (r: Option<String>)
    ensures
        match r {
            Some(s) => path_stem(path@) == Some(s@),
            None => path_stem(path@) is None,
        },
{
    match std::path::Path::new(path).file_stem() {
        Some(os) => match os.to_str() {
            Some(s) => Some(s.to_string()),
            None => None,
        },
        None => None,
    }
}

pub open spec fn is_ascii_alpha(c: char) -> bool {
    ('a' <= c && c <= 'z') || ('A' <= c && c <= 'Z')
}

pub open spec fn is_ascii_alnum(c: char) -> bool {
    is_ascii_alpha(c) || ('0' <= c && c <= '9')
}

/// `[A-Za-z_][A-Za-z0-9_]*`
pub open spec fn is_module_ident(s: Seq<char>) -> bool {
    &&& s.len() > 0
    &&& (is_ascii_alpha(s[0]) || s[0] == '_')
    &&& forall|i: int| 0 <= i < s.len() ==> (is_ascii_alnum(#[trigger] s[i]) || s[i] == '_')
}

pub open spec fn bad_file_name_message(path: Seq<char>) -> Seq<char> {
    "nombre de archivo inválido: "@ + path
}

pub open spec fn bad_module_name_message(stem: Seq<char>) -> Seq<char> {
    "nombre de módulo inválido `"@ + stem
        + "`: debe ser un identificador (letras, dígitos o `_`, sin empezar por dígito y sin guiones)"@
}

fn is_ident_text(s: &String) -> (r: bool)
    ensures
        r == is_module_ident(s@),
{
    let cs = chars_of(s.as_str());
    if cs.len() == 0 {
        return false;
    }
    let c0 = cs[0];
    if !(('a' <= c0 && c0 <= 'z') || ('A' <= c0 && c0 <= 'Z') || c0 == '_') {
        return false;
    }
    let mut i: usize = 0;
    while i < cs.len()
        invariant
            i <= cs@.len(),
            cs@ == s@,
            forall|j: int| 0 <= j < i ==> (is_ascii_alnum(#[trigger] cs@[j]) || cs@[j] == '_'),
        decreases cs@.len() - i,
    {
        let c = cs[i];
        if !(('a' <= c && c <= 'z') || ('A' <= c && c <= 'Z') || ('0' <= c && c <= '9') || c == '_') {
            return false;
        }
        i += 1;
    }
    true
}

/// The id of the module at `path`: its file stem, which must be a Rust
/// identifier (it names a `mod` and a generated file).
pub fn module_id(path: &str) -> (r: Result<String, String>)
    ensures
        match path_stem(path@) {
            None => r is Err && r->Err_0@ == bad_file_name_message(path@),
            Some(stem) => if is_module_ident(stem) {
                r is Ok && r->Ok_0@ == stem
            } else {
                r is Err && r->Err_0@ == bad_module_name_message(stem)
            },
        },
{
    match file_stem(path) {
        None => {
            let mut m = String::from_str("nombre de archivo inválido: ");
            m.append(path);
            Err(m)
        },
        Some(stem) => {
            if is_ident_text(&stem) {
                Ok(stem)
            } else {
                let mut m = String::from_str("nombre de módulo inválido `");
                m.append(stem.as_str());
                m.append(
                    "`: debe ser un identificador (letras, dígitos o `_`, sin empezar por dígito y sin guiones)",
                );
                Err(m)
            }
        },
    }
}

/// Where an `import ... from "<spec>"` points: a `.tsr` module of the
/// program (by its resolved path) or a Rust crate (`crate:<name>`, where
/// the name may reach into a submodule: `crate:reqwest::blocking`).
#[derive(Debug, Clone, PartialEq, Eq)]
pub enum ModuleTarget {
    Local(String),
    Crate(String),
}

pub open spec fn crate_prefix() -> Seq<char> {
    "crate:"@
}

pub open spec fn missing_crate_message() -> Seq<char> {
    "crate de Rust sin nombre (`from \"crate:\"`)"@
}

pub open spec fn module_not_found_message(spec: Seq<char>, candidate: Seq<char>) -> Seq<char> {
    "módulo no encontrado `"@ + spec + "` (buscado en `"@ + candidate + "`)"@
}

/// Resolves an import specifier. A `crate:` specifier names a crate and
/// touches nothing else. Any other names `candidate`, the file
/// `<importer's dir>/<spec>.tsr`, and `found` is its canonical path when
/// that file exists.
pub fn resolve_specifier(spec: &str, candidate: &str, found: Option<String>) -> (r: Result<ModuleTarget, String>)
    ensures
        spec@.len() >= 6 && spec@.take(6) == crate_prefix() ==> if spec@.len() == 6 {
            r is Err && r->Err_0@ == missing_crate_message()
        } else {
            match r {
                Ok(ModuleTarget::Crate(n)) => n@ == spec@.skip(6),
                _ => false,
            }
        },
        !(spec@.len() >= 6 && spec@.take(6) == crate_prefix()) ==> match found {
            Some(p) => match r {
                Ok(ModuleTarget::Local(q)) => q@ == p@,
                _ => false,
            },
            None => r is Err && r->Err_0@ == module_not_found_message(spec@, candidate@),
        },
{
    let cs = chars_of(spec);
    let prefix = chars_of("crate:");
    proof {
        reveal_strlit("crate:");
    }
    let mut is_crate = cs.len() >= 6;
    let mut i: usize = 0;
    while i < 6 && is_crate
        invariant
            i <= 6,
            prefix@ == crate_prefix(),
            prefix@.len() == 6,
            cs@ == spec@,
            is_crate ==> cs@.len() >= 6 && forall|j: int| 0 <= j < i ==> cs@[j] == prefix@[j],
            !is_crate ==> !(cs@.len() >= 6 && cs@.take(6) == crate_prefix()),
        decreases 6 - i,
    {
        if cs[i] != prefix[i] {
            is_crate = false;
            proof {
                assert(cs@.take(6)[i as int] != crate_prefix()[i as int]);
            }
        }
        i += 1;
    }
    if is_crate {
        assert(cs@.take(6) =~= crate_prefix());
        if cs.len() == 6 {
            return Err(String::from_str("crate de Rust sin nombre (`from \"crate:\"`)"));
        }
        let mut name = String::new();
        let mut k: usize = 6;
        while k < cs.len()
            invariant
                6 <= k <= cs@.len(),
                name@ == cs@.subrange(6, k as int),
            decreases cs@.len() - k,
        {
            crate::text::push_char(&mut name, cs[k]);
            proof {
                assert(name@ =~= cs@.subrange(6, k + 1));
            }
            k += 1;
        }
        assert(name@ =~= spec@.skip(6));
        return Ok(ModuleTarget::Crate(name));
    }
    match found {
        Some(p) => Ok(ModuleTarget::Local(p)),
        None => {
            let mut m = String::from_str("módulo no encontrado `");
            m.append(spec);
            m.append("` (buscado en `");
            m.append(candidate);
            m.append("`)");
            Err(m)
        },
    }
}

pub open spec fn no_directory_message(importer: Seq<char>) -> Seq<char> {
    "no se pudo determinar el directorio de `"@ + importer + "`"@
}

/// The file a local import `spec` of the module at `importer` names:
/// `<importer's directory>/<spec>.tsr`; an error when the importer's path
/// has no directory.
pub fn import_candidate(importer: &str, spec: &str) -> (r: Result<String, String>)
    ensures
        match path_parent(importer@) {
            Some(dir) => r matches Ok(c) && c@ == path_pushed(dir, spec@ + ".tsr"@),
            None => r matches Err(m) && m@ == no_directory_message(importer@),
        },
{
    match parent_of(importer) {
        Some(dir) => {
            let mut file = String::from_str(spec);
            file.append(".tsr");
            Ok(pushed(dir.as_str(), file.as_str()))
        },
        None => {
            let mut m = String::from_str("no se pudo determinar el directorio de `");
            m.append(importer);
            m.append("`");
            Err(m)
        },
    }
}

/// The first of `names` that `exported` does not hold.
pub open spec fn first_missing(names: Seq<Seq<char>>, exported: Seq<Seq<char>>) -> Option<Seq<char>>
    decreases names.len(),
{
    if names.len() == 0 {
        None
    } else if !exported.contains(names[0]) {
        Some(names[0])
    } else {
        first_missing(names.drop_first(), exported)
    }
}

pub open spec fn crate_default_message(name: Seq<char>) -> Seq<char> {
    "`import x from \"crate:"@ + name + "\"` no está soportado: los crates de Rust no tienen `default export`"@
}

pub open spec fn no_default_message(spec: Seq<char>) -> Seq<char> {
    "`"@ + spec + "` no exporta un valor por defecto (default export)"@
}

pub open spec fn no_symbol_message(spec: Seq<char>, name: Seq<char>) -> Seq<char> {
    "`"@ + spec + "` no exporta ningún símbolo llamado `"@ + name + "`"@
}

/// What an import `spec` (with a default binding when `has_default`, and
/// the named `names`) is answered, given where it points and, for a
/// local module, what that module exports: a crate has no default
/// export; a module must export a default when one is imported, and each
/// named symbol (the first missing one is reported).
pub open spec fn import_check(
    has_default: bool,
    names: Seq<Seq<char>>,
    spec: Seq<char>,
    target: ModuleTarget,
    exported: Seq<Seq<char>>,
    exported_default: bool,
) -> Result<(), Seq<char>> {
    match target {
        ModuleTarget::Crate(n) => if has_default {
            Err(crate_default_message(n@))
        } else {
            Ok(())
        },
        ModuleTarget::Local(_) => if has_default && !exported_default {
            Err(no_default_message(spec))
        } else {
            match first_missing(names, exported) {
                Some(n) => Err(no_symbol_message(spec, n)),
                None => Ok(()),
            }
        },
    }
}

fn holds_name(v: &Vec<String>, x: &String) -> (r: bool)
    ensures
        r == names_view(v@).contains(x@),
{
    let mut i: usize = 0;
    while i < v.len()
        invariant
            i <= v@.len(),
            forall|j: int| 0 <= j < i ==> v@[j]@ != x@,
        decreases v@.len() - i,
    {
        if str_eq(v[i].as_str(), x.as_str()) {
            proof {
                assert(names_view(v@)[i as int] == x@);
            }
            return true;
        }
        i += 1;
    }
    proof {
        if names_view(v@).contains(x@) {
            let k = choose|k: int| 0 <= k < names_view(v@).len() && names_view(v@)[k] == x@;
            assert(v@[k]@ == x@);
        }
    }
    false
}

/// The names an import binds by name, as written in the target module.
pub open spec fn imported_names(v: Seq<crate::compiler::ast::ImportNamed>) -> Seq<Seq<char>> {
    v.map_values(|n: crate::compiler::ast::ImportNamed| n.name@)
}

/// Checks one import of a loaded program against its target: see
/// [`import_check`]. `exports` is what the target module exports (only
/// read when the target is a local module).
pub fn check_import(
    has_default: bool,
    named: &Vec<crate::compiler::ast::ImportNamed>,
    spec: &str,
    target: &ModuleTarget,
    exports: &Exports,
) -> (r: Result<(), String>)
    ensures
        match r {
            Ok(()) => import_check(
                has_default,
                imported_names(named@),
                spec@,
                *target,
                names_view(exports.named@),
                exports.default is Some,
            ) is Ok,
            Err(m) => import_check(
                has_default,
                imported_names(named@),
                spec@,
                *target,
                names_view(exports.named@),
                exports.default is Some,
            ) == Err::<(), Seq<char>>(m@),
        },
{
    match target {
        ModuleTarget::Crate(n) => {
            if has_default {
                let mut m = String::from_str("`import x from \"crate:");
                m.append(n.as_str());
                m.append("\"` no está soportado: los crates de Rust no tienen `default export`");
                return Err(m);
            }
            Ok(())
        },
        ModuleTarget::Local(_) => {
            if has_default && exports.default.is_none() {
                let mut m = String::from_str("`");
                m.append(spec);
                m.append("` no exporta un valor por defecto (default export)");
                return Err(m);
            }
            let ghost exported = names_view(exports.named@);
            let mut i: usize = 0;
            assert(imported_names(named@).skip(0) =~= imported_names(named@));
            while i < named.len()
                invariant
                    i <= named@.len(),
                    exported == names_view(exports.named@),
                    *target is Local,
                    !(has_default && exports.default is None),
                    first_missing(imported_names(named@), exported) == first_missing(
                        imported_names(named@).skip(i as int),
                        exported,
                    ),
                decreases named@.len() - i,
            {
                proof {
                    assert(imported_names(named@).skip(i as int)[0] == named@[i as int].name@);
                    assert(imported_names(named@).skip(i as int).drop_first() =~= imported_names(named@).skip(
                        i + 1,
                    ));
                }
                if !holds_name(&exports.named, &named[i].name) {
                    assert(first_missing(imported_names(named@).skip(i as int), exported) == Some(
                        named@[i as int].name@,
                    ));
                    let mut m = String::from_str("`");
                    m.append(spec);
                    m.append("` no exporta ningún símbolo llamado `");
                    m.append(named[i].name.as_str());
                    m.append("`");
                    assert(m@ == no_symbol_message(spec@, named@[i as int].name@));
                    assert(import_check(
                        has_default,
                        imported_names(named@),
                        spec@,
                        *target,
                        exported,
                        exports.default is Some,
                    ) == Err::<(), Seq<char>>(no_symbol_message(spec@, named@[i as int].name@)));
                    return Err(m);
                }
                i += 1;
            }
            proof {
                assert(imported_names(named@).skip(i as int).len() == 0);
            }
            Ok(())
        },
    }
}

/// Whether two of the modules share an id.
pub open spec fn has_duplicate_id(modules: Seq<(String, String)>) -> bool {
    exists|i: int, j: int| 0 <= i < j < modules.len() && (#[trigger] modules[i]).0@ == (#[trigger] modules[j]).0@
}

pub open spec fn duplicate_id_message(id: Seq<char>, first: Seq<char>, second: Seq<char>) -> Seq<char> {
    "dos módulos con el mismo nombre `"@ + id + "`: "@ + first + " y "@ + second
}

/// Checks that no two modules `(id, path)` share an id (each id names a
/// `mod` and a generated file). The error names the id and the paths of
/// the first two modules found with it.
pub fn check_unique_ids(modules: &Vec<(String, String)>) -> (r: Result<(), String>)
    ensures
        r is Ok <==> !has_duplicate_id(modules@),
        r matches Err(m) ==> exists|i: int, j: int|
            0 <= i < j < modules@.len() && (#[trigger] modules@[i]).0@ == (#[trigger] modules@[j]).0@ && m@
                == duplicate_id_message(modules@[j].0@, modules@[i].1@, modules@[j].1@),
{
    let mut j: usize = 0;
    while j < modules.len()
        invariant
            j <= modules@.len(),
            forall|a: int, b: int| 0 <= a < b < j ==> (#[trigger] modules@[a]).0@ != (#[trigger] modules@[b]).0@,
        decreases modules@.len() - j,
    {
        let mut i: usize = 0;
        while i < j
            invariant
                i <= j < modules@.len(),
                forall|a: int| 0 <= a < i ==> (#[trigger] modules@[a]).0@ != modules@[j as int].0@,
            decreases j - i,
        {
            if str_eq(modules[i].0.as_str(), modules[j].0.as_str()) {
                let mut m = String::from_str("dos módulos con el mismo nombre `");
                m.append(modules[j].0.as_str());
                m.append("`: ");
                m.append(modules[i].1.as_str());
                m.append(" y ");
                m.append(modules[j].1.as_str());
                return Err(m);
            }
            i += 1;
        }
        j += 1;
    }
    Ok(())
}

/// The name of the default export's symbol in the generated Rust: the
/// function's name, or `__default` for an anonymous function or a value.
pub open spec fn spec_default_real_name(ed: ExportDefault) -> Seq<char> {
    match ed {
        ExportDefault::Function(f) => if f.name@.len() == 0 {
            "__default"@
        } else {
            f.name@
        },
        ExportDefault::Expr(_) => "__default"@,
    }
}

pub fn default_real_name(ed: &ExportDefault) -> (r: String)
    ensures
        r@ == spec_default_real_name(*ed),
{
    match ed {
        ExportDefault::Function(f) => {
            if f.name.as_str().unicode_len() == 0 {
                String::from_str("__default")
            } else {
                f.name.clone()
            }
        },
        ExportDefault::Expr(_) => String::from_str("__default"),
    }
}

/// What a module exports: its exported names (each once) and the symbol
/// of its default export, if it has one.
#[derive(Debug, Clone)]
pub struct Exports {
    pub named: Vec<String>,
    pub default: Option<String>,
}

impl Default for Exports {
    fn default() -> (r: Self)
        ensures
            r.named@.len() == 0,
            r.default is None,
    {
        Exports { named: Vec::new(), default: None }
    }
}

/// The names one statement exports: a declared function, `let` or
/// `const` after `export`, and each item of `export { .. }` under its
/// alias if it has one.
pub open spec fn stmt_exports(s: Stmt) -> Seq<Seq<char>> {
    match s {
        Stmt::ExportDecl(inner) => match *inner {
            Stmt::Function(f) => seq![f.name@],
            Stmt::Let { name, .. } => seq![name@],
            Stmt::Const { name, .. } => seq![name@],
            _ => Seq::empty(),
        },
        Stmt::ExportSpec(items) => items@.map_values(
            |it: crate::compiler::ast::ExportItem|
                match it.alias {
                    Some(a) => a@,
                    None => it.name@,
                },
        ),
        _ => Seq::empty(),
    }
}

pub open spec fn stmts_exports(ss: Seq<Stmt>) -> Seq<Seq<char>>
    decreases ss.len(),
{
    if ss.len() == 0 {
        Seq::empty()
    } else {
        stmts_exports(ss.drop_last()) + stmt_exports(ss.last())
    }
}

/// The default export's symbol: that of the last `export default`.
pub open spec fn stmts_default(ss: Seq<Stmt>) -> Option<Seq<char>>
    decreases ss.len(),
{
    if ss.len() == 0 {
        None
    } else {
        match ss.last() {
            Stmt::ExportDefault(ed) => Some(spec_default_real_name(ed)),
            _ => stmts_default(ss.drop_last()),
        }
    }
}

pub open spec fn names_view(v: Seq<String>) -> Seq<Seq<char>> {
    v.map_values(|s: String| s@)
}

#[verifier::loop_isolation(false)]
fn insert_name(named: &mut Vec<String>, name: &String)
    requires
        names_view(old(named)@).no_duplicates(),
    ensures
        names_view(final(named)@).no_duplicates(),
        names_view(final(named)@).to_set() == names_view(old(named)@).to_set().insert(name@),
{
    let mut i: usize = 0;
    while i < named.len()
        invariant
            i <= named@.len(),
            forall|j: int| 0 <= j < i ==> (#[trigger] named@[j])@ != name@,
        decreases named@.len() - i,
    {
        if str_eq(named[i].as_str(), name.as_str()) {
            proof {
                assert(names_view(named@)[i as int] == name@);
                assert(names_view(named@).to_set().insert(name@) =~= names_view(named@).to_set());
            }
            return;
        }
        i += 1;
    }
    let ghost before = named@;
    named.push(name.clone());
    proof {
        assert(names_view(named@) =~= names_view(before).push(name@));
        assert(!names_view(before).contains(name@)) by {
            if names_view(before).contains(name@) {
                let j = choose|j: int| 0 <= j < names_view(before).len() && names_view(before)[j] == name@;
                assert(before[j]@ == name@);
            }
        }
        names_view(before).lemma_push_to_set_commute(name@);
    }
}

/// The exports of `program`.
pub fn collect_exports(program: &Program) -> (r: Exports)
    ensures
        names_view(r.named@).no_duplicates(),
        names_view(r.named@).to_set() == stmts_exports(program.stmts@).to_set(),
        match r.default {
            Some(d) => stmts_default(program.stmts@) == Some(d@),
            None => stmts_default(program.stmts@) is None,
        },
{
    let mut exp = Exports { named: Vec::new(), default: None };
    let ss = &program.stmts;
    let mut i: usize = 0;
    assert(names_view(exp.named@) =~= Seq::empty());
    assert(stmts_exports(ss@.take(0)) =~= Seq::empty());
    while i < ss.len()
        invariant
            i <= ss@.len(),
            names_view(exp.named@).no_duplicates(),
            names_view(exp.named@).to_set() == stmts_exports(ss@.take(i as int)).to_set(),
            match exp.default {
                Some(d) => stmts_default(ss@.take(i as int)) == Some(d@),
                None => stmts_default(ss@.take(i as int)) is None,
            },
        decreases ss@.len() - i,
    {
        let ghost prev = stmts_exports(ss@.take(i as int));
        let ghost e = stmt_exports(ss@[i as int]);
        proof {
            assert(ss@.take(i + 1).drop_last() =~= ss@.take(i as int));
            assert(ss@.take(i + 1).last() == ss@[i as int]);
        }
        match &ss[i] {
            Stmt::ExportDecl(inner) => {
                match &**inner {
                    Stmt::Function(f) => insert_name(&mut exp.named, &f.name),
                    Stmt::Let { name, .. } => insert_name(&mut exp.named, name),
                    Stmt::Const { name, .. } => insert_name(&mut exp.named, name),
                    _ => {},
                }
                proof {
                    if e.len() == 1 {
                        assert(e.to_set() =~= set![e[0]]);
                    } else {
                        assert(e.to_set() =~= Set::<Seq<char>>::empty());
                    }
                    assert(names_view(exp.named@).to_set() =~= prev.to_set() + e.to_set());
                }
            },
            Stmt::ExportSpec(items) => {
                let mut k: usize = 0;
                let ghost d0 = exp.default;
                assert(e.take(0).to_set() =~= Set::<Seq<char>>::empty());
                assert(names_view(exp.named@).to_set() =~= prev.to_set() + e.take(0).to_set());
                while k < items.len()
                    invariant
                        k <= items@.len(),
                        exp.default == d0,
                        e == items@.map_values(
                            |it: crate::compiler::ast::ExportItem|
                                match it.alias {
                                    Some(a) => a@,
                                    None => it.name@,
                                },
                        ),
                        names_view(exp.named@).no_duplicates(),
                        names_view(exp.named@).to_set() == prev.to_set() + e.take(k as int).to_set(),
                    decreases items@.len() - k,
                {
                    proof {
                        assert(e.take(k + 1) =~= e.take(k as int).push(e[k as int]));
                        e.take(k as int).lemma_push_to_set_commute(e[k as int]);
                    }
                    match &items[k].alias {
                        Some(a) => insert_name(&mut exp.named, a),
                        None => insert_name(&mut exp.named, &items[k].name),
                    }
                    proof {
                        assert(names_view(exp.named@).to_set() =~= prev.to_set() + e.take(k + 1).to_set());
                    }
                    k += 1;
                }
                proof {
                    assert(e.take(items@.len() as int) =~= e);
                }
            },
            Stmt::ExportDefault(ed) => {
                exp.default = Some(default_real_name(ed));
                proof {
                    assert(e.to_set() =~= Set::<Seq<char>>::empty());
                    assert(names_view(exp.named@).to_set() =~= prev.to_set() + e.to_set());
                }
            },
            _ => {
                proof {
                    assert(e.to_set() =~= Set::<Seq<char>>::empty());
                    assert(names_view(exp.named@).to_set() =~= prev.to_set() + e.to_set());
                }
            },
        }
        proof {
            vstd::seq_lib::seq_to_set_distributes_over_add(prev, e);
            assert(stmts_exports(ss@.take(i + 1)) == prev + e);
            assert(stmts_default(ss@.take(i + 1)) == match ss@[i as int] {
                Stmt::ExportDefault(ed) => Some(spec_default_real_name(ed)),
                _ => stmts_default(ss@.take(i as int)),
            });
        }
        i += 1;
    }
    assert(ss@.take(ss@.len() as int) =~= ss@);
    exp
}

/// A loaded module: its id (the file stem), its resolved path, its program
/// and what it exports.
#[derive(Debug)]
pub struct Module {
    pub id: String,
    pub path: String,
    pub program: Program,
    pub exports: Exports,
}

} // verus!
