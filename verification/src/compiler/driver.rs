//! The build's decisions: whether the program is built as a Cargo project
//! (when the entry has a `Cargo.toml` beside it) and under which package
//! name, the manifest it is built with, and the manifest `init` writes.
//! Reading, writing and running `rustc` / `cargo` are the caller's part.

use crate::text::str_eq;
use vstd::prelude::*;
use vstd::string::StrSliceExecFns;

verus! {

broadcast use vstd::std_specs::vec::group_vec_axioms;

/// What a build produced: the generated sources `(id, rust source)`, the
/// root module's id, and, for a Cargo build, the project's directory and
/// package name.
#[derive(Debug)]
pub struct BuildOutput {
    pub sources: Vec<(String, String)>,
    pub root_id: String,
    pub cargo_dir: Option<String>,
    pub pkg_name: Option<String>,
}

/// The path a command works on: the one given, or the current directory.
pub fn resolve_arg(file: Option<String>) -> (r: String)
    ensures
        r@ == match file {
            Some(f) => f@,
            None => "."@,
        },
{
    match file {
        Some(f) => f,
        None => String::from_str("."),
    }
}

/// What `Path::file_name` gives for a path.
pub uninterp spec fn path_file_name(path: Seq<char>) -> Option<Seq<char>>;

/// `std::path::Path::file_name`: the last component of the path (`None`
/// when it ends in `..` or has none). The result is named, as a function
/// of the path alone.
#[verifier::external_body]
fn file_name(path: &str) -> (r: Option<String>)
    ensures
        match r {
            Some(s) => path_file_name(path@) == Some(s@),
            None => path_file_name(path@) is None,
        },
{
    match std::path::Path::new(path).file_name() {
        Some(os) => match os.to_str() {
            Some(s) => Some(s.to_string()),
            None => None,
        },
        None => None,
    }
}

/// The package name a directory gives: its last component, unless there
/// is none, it is empty, or it is `.`.
pub open spec fn dir_package_name(dir: Seq<char>) -> Option<Seq<char>> {
    match path_file_name(dir) {
        Some(n) => if n.len() > 0 && n != "."@ {
            Some(n)
        } else {
            None
        },
        None => None,
    }
}

fn package_name_of(dir: &str) -> (r: Option<String>)
    ensures
        match r {
            Some(n) => dir_package_name(dir@) == Some(n@),
            None => dir_package_name(dir@) is None,
        },
{
    match file_name(dir) {
        Some(n) => {
            if n.as_str().unicode_len() > 0 && !str_eq(n.as_str(), ".") {
                Some(n)
            } else {
                None
            }
        },
        None => None,
    }
}

pub open spec fn starts_with_crate(s: Seq<char>) -> bool {
    s.len() >= 6 && s.take(6) == "crate:"@
}

/// Whether one of the import specifiers names a crate (`crate:...`).
pub fn has_crate_import(specifiers: &Vec<String>) -> (r: bool)
    ensures
        r == exists|i: int| 0 <= i < specifiers@.len() && starts_with_crate(#[trigger] specifiers@[i]@),
{
    proof {
        reveal_strlit("crate:");
    }
    let prefix = crate::text::chars_of("crate:");
    let mut i: usize = 0;
    while i < specifiers.len()
        invariant
            i <= specifiers@.len(),
            prefix@ == "crate:"@,
            prefix@.len() == 6,
            forall|j: int| 0 <= j < i ==> !starts_with_crate(#[trigger] specifiers@[j]@),
        decreases specifiers@.len() - i,
    {
        let cs = crate::text::chars_of(specifiers[i].as_str());
        let mut ok = cs.len() >= 6;
        let mut k: usize = 0;
        while k < 6 && ok
            invariant
                k <= 6,
                prefix@ == "crate:"@,
                prefix@.len() == 6,
                cs@ == specifiers@[i as int]@,
                ok ==> cs@.len() >= 6 && forall|j: int| 0 <= j < k ==> cs@[j] == prefix@[j],
                !ok ==> !starts_with_crate(cs@),
            decreases 6 - k,
        {
            if cs[k] != prefix[k] {
                ok = false;
                proof {
                    assert(cs@.take(6)[k as int] != prefix@[k as int]);
                }
            }
            k += 1;
        }
        if ok {
            assert(cs@.take(6) =~= "crate:"@);
            return true;
        }
        i += 1;
    }
    false
}

pub open spec fn crate_needs_manifest_message() -> Seq<char> {
    "para usar crates de Rust (`from \"crate:<nombre>\"`) necesitás un `Cargo.toml` al lado de `main.tsr`. Creá uno (o ejecutá `arcis init` de nuevo) y descomentá la dep."@
}

/// How the program is built: `Ok(Some(package))` as a Cargo project when
/// the entry's directory holds a `Cargo.toml` (the package named after
/// that directory, else after the root module); `Ok(None)` with plain
/// `rustc` otherwise, which cannot link a crate an import names.
pub fn build_layout(entry_dir: &str, root_id: &String, has_cargo_toml: bool, import_specifiers: &Vec<String>) -> (r:
    Result<Option<String>, String>)
    ensures
        has_cargo_toml ==> match r {
            Ok(Some(p)) => p@ == match dir_package_name(entry_dir@) {
                Some(n) => n,
                None => root_id@,
            },
            _ => false,
        },
        !has_cargo_toml ==> if exists|i: int|
            0 <= i < import_specifiers@.len() && starts_with_crate(#[trigger] import_specifiers@[i]@) {
            r is Err && r->Err_0@ == crate_needs_manifest_message()
        } else {
            r is Ok && r->Ok_0 is None
        },
{
    if has_cargo_toml {
        let pkg = match package_name_of(entry_dir) {
            Some(n) => n,
            None => root_id.clone(),
        };
        Ok(Some(pkg))
    } else if has_crate_import(import_specifiers) {
        Err(
            String::from_str(
                "para usar crates de Rust (`from \"crate:<nombre>\"`) necesitás un `Cargo.toml` al lado de `main.tsr`. Creá uno (o ejecutá `arcis init` de nuevo) y descomentá la dep.",
            ),
        )
    } else {
        Ok(None)
    }
}

/// The bytes of `\n[workspace]\n`.
pub open spec fn workspace_table() -> Seq<u8> {
    seq![10u8, 91u8, 119u8, 111u8, 114u8, 107u8, 115u8, 112u8, 97u8, 99u8, 101u8, 93u8, 10u8]
}

/// The manifest a Cargo build uses: the user's, ending in a newline, with
/// an empty `[workspace]` table after it so that the generated project is
/// a workspace of its own.
pub fn manifest_with_workspace(contents: Vec<u8>) -> (r: Vec<u8>)
    ensures
        r@ == (if contents@.len() > 0 && contents@.last() == 10u8 {
            contents@
        } else {
            contents@.push(10u8)
        }) + workspace_table(),
{
    let mut c = contents;
    let n = c.len();
    if n == 0 || c[n - 1] != 10u8 {
        c.push(10u8);
    }
    let ghost base = c@;
    let table: Vec<u8> = vec![10u8, 91u8, 119u8, 111u8, 114u8, 107u8, 115u8, 112u8, 97u8, 99u8, 101u8, 93u8, 10u8];
    let mut i: usize = 0;
    while i < table.len()
        invariant
            i <= table@.len(),
            table@ == workspace_table(),
            c@ == base + table@.take(i as int),
        decreases table@.len() - i,
    {
        c.push(table[i]);
        proof {
            assert(c@ =~= base + table@.take(i + 1));
        }
        i += 1;
    }
    assert(table@.take(table@.len() as int) =~= table@);
    c
}

pub open spec fn cargo_template_head() -> Seq<char> {
    "[package]\nname = \""@
}

pub open spec fn cargo_template_tail() -> Seq<char> {
    "\"\nversion = \"0.1.0\"\nedition = \"2021\"\n\n# Descomenta las dependencias de Rust que necesites. Arcis las usa con\n# `import { ... } from \"crate:<nombre>\";` y las compila con `cargo build`.\n#\n# [dependencies]\n# serde = { version = \"1\", features = [\"derive\"] }\n# serde_json = \"1\"\n# reqwest = { version = \"0.12\", default-features = false, features = [\"blocking\", \"rustls-tls\"] }\n"@
}

/// The `Cargo.toml` that `init` writes into `dir`: a package named after
/// the directory (`arcis-app` when it has no usable name), with Rust
/// dependencies left as commented examples.
pub fn init_cargo_toml(dir: &str) -> (r: String)
    ensures
        r@ == cargo_template_head() + match dir_package_name(dir@) {
            Some(n) => n,
            None => "arcis-app"@,
        } + cargo_template_tail(),
{
    let name = match package_name_of(dir) {
        Some(n) => n,
        None => String::from_str("arcis-app"),
    };
    let mut out = String::from_str("[package]\nname = \"");
    out.append(name.as_str());
    out.append(
        "\"\nversion = \"0.1.0\"\nedition = \"2021\"\n\n# Descomenta las dependencias de Rust que necesites. Arcis las usa con\n# `import { ... } from \"crate:<nombre>\";` y las compila con `cargo build`.\n#\n# [dependencies]\n# serde = { version = \"1\", features = [\"derive\"] }\n# serde_json = \"1\"\n# reqwest = { version = \"0.12\", default-features = false, features = [\"blocking\", \"rustls-tls\"] }\n",
    );
    out
}

} // verus!
