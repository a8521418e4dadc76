//! The static table of every completion / hover candidate: keywords,
//! global builtins, the `sys.*` namespaces and their methods, and the
//! methods of array and string receivers.
//!
//! Each table is an executable function whose contract is the table
//! itself (the matching `spec_*` function), so lookups built on top of it
//! can be stated over the same data.

use crate::lsp::types::CompletionItemKind;
use vstd::prelude::*;

verus! {

/// One entry in the builtin table.
#[derive(Debug, Clone, Copy)]
pub struct Builtin {
    /// What the editor inserts (e.g. `sys.readFile`).
    pub label: &'static str,
    /// Completion kind (function, module, ...).
    pub kind: CompletionItemKind,
    /// Short signature shown next to the label.
    pub detail: &'static str,
    /// Markdown documentation shown in the hover / detail panel.
    pub documentation: &'static str,
}

/// Reserved keywords and the primitive type names; always offered.
pub open spec fn spec_keywords() -> Seq<Builtin> {
    seq![
        Builtin {
            label: "let",
            kind: CompletionItemKind::Keyword,
            detail: "declare a mutable binding",
            documentation: "`let x: type = expr;` binds `x` to the value of `expr`. The binding is mutable; subsequent `x = …` reassigns it.",
        },
        Builtin {
            label: "const",
            kind: CompletionItemKind::Keyword,
            detail: "declare an immutable binding",
            documentation: "`const X: type = expr;` binds `X` to the value of `expr`. Reassignment is a compile error.",
        },
        Builtin {
            label: "function",
            kind: CompletionItemKind::Keyword,
            detail: "define a named function",
            documentation: "`function name(p1: T1, p2: T2): R { … }` declares a function. Parameters and the return type can be annotated.",
        },
        Builtin {
            label: "return",
            kind: CompletionItemKind::Keyword,
            detail: "exit the current function with a value",
            documentation: "`return expr;` exits the enclosing function, returning `expr`. Omit the expression to return `()`.",
        },
        Builtin {
            label: "if",
            kind: CompletionItemKind::Keyword,
            detail: "conditional branch",
            documentation: "`if (cond) { … } else { … }` runs the `then` block when `cond` is truthy, otherwise the `else` block (if any).",
        },
        Builtin {
            label: "else",
            kind: CompletionItemKind::Keyword,
            detail: "fallback branch of an `if`",
            documentation: "Pairs with `if`. Run when the `if` condition is falsy.",
        },
        Builtin {
            label: "while",
            kind: CompletionItemKind::Keyword,
            detail: "loop while a condition holds",
            documentation: "`while (cond) { … }` repeats the body as long as `cond` is truthy. Use `break` to exit early.",
        },
        Builtin {
            label: "for",
            kind: CompletionItemKind::Keyword,
            detail: "C-style or range for loop",
            documentation: "`for (init; cond; update) { … }` is the C-style form. Use `for (x of array) { … }` to iterate.",
        },
        Builtin {
            label: "of",
            kind: CompletionItemKind::Keyword,
            detail: "iterate the elements of an array",
            documentation: "`for (x of arr) { … }` iterates each element of `arr`.",
        },
        Builtin {
            label: "break",
            kind: CompletionItemKind::Keyword,
            detail: "exit the innermost loop",
            documentation: "Jumps out of the nearest enclosing `while` or `for`.",
        },
        Builtin {
            label: "continue",
            kind: CompletionItemKind::Keyword,
            detail: "skip to the next iteration",
            documentation: "Skips the rest of the current loop body and starts the next iteration.",
        },
        Builtin {
            label: "true",
            kind: CompletionItemKind::Keyword,
            detail: "boolean literal `true`",
            documentation: "The `boolean` literal `true`.",
        },
        Builtin {
            label: "false",
            kind: CompletionItemKind::Keyword,
            detail: "boolean literal `false`",
            documentation: "The `boolean` literal `false`.",
        },
        Builtin {
            label: "string",
            kind: CompletionItemKind::Keyword,
            detail: "primitive type: UTF-8 string",
            documentation: "Maps to `String` in the emitted Rust.",
        },
        Builtin {
            label: "number",
            kind: CompletionItemKind::Keyword,
            detail: "primitive type: 64-bit float",
            documentation: "Maps to `f64` in the emitted Rust.",
        },
        Builtin {
            label: "boolean",
            kind: CompletionItemKind::Keyword,
            detail: "primitive type: bool",
            documentation: "Maps to `bool` in the emitted Rust.",
        },
        Builtin {
            label: "void",
            kind: CompletionItemKind::Keyword,
            detail: "primitive type: unit `()`",
            documentation: "Maps to `()` in the emitted Rust.",
        },
        Builtin {
            label: "import",
            kind: CompletionItemKind::Keyword,
            detail: "import a module as a namespace",
            documentation: "`import utils;` imports the module `utils.tsr` as a namespace.\n\n`import utils as u;` imports with an alias.\n\n`import os.path;` imports a nested module.",
        },
        Builtin {
            label: "from",
            kind: CompletionItemKind::Keyword,
            detail: "import specific names from a module",
            documentation: "`from utils import add, sub;` imports specific names.\n\n`from utils import add as suma;` imports with aliases.\n\n`from utils import *;` imports everything.",
        },
        Builtin {
            label: "export",
            kind: CompletionItemKind::Keyword,
            detail: "export a declaration from the current module",
            documentation: "`export function f() {}` / `export const X = ...;` exports inline declarations.\n\n`export { a, b as c };` re-exports existing names.\n\n`export default ...` exports a default value.",
        },
        Builtin {
            label: "as",
            kind: CompletionItemKind::Keyword,
            detail: "alias a binding",
            documentation: "Used in `import utils as u;` and `from utils import add as suma;` to rename bindings.",
        },
        Builtin {
            label: "default",
            kind: CompletionItemKind::Keyword,
            detail: "import or export a default binding",
            documentation: "`export default function() {}` / `export default expr;` to export a default.\n\n`from utils import default as calc;` to import a default export.",
        },
    ]
}

/// Reserved keywords and the primitive type names; always offered.
pub fn keywords() -> (r: Vec<Builtin>)
    ensures
        r@ == spec_keywords(),
{
    let r = vec![
        Builtin {
            label: "let",
            kind: CompletionItemKind::Keyword,
            detail: "declare a mutable binding",
            documentation: "`let x: type = expr;` binds `x` to the value of `expr`. The binding is mutable; subsequent `x = …` reassigns it.",
        },
        Builtin {
            label: "const",
            kind: CompletionItemKind::Keyword,
            detail: "declare an immutable binding",
            documentation: "`const X: type = expr;` binds `X` to the value of `expr`. Reassignment is a compile error.",
        },
        Builtin {
            label: "function",
            kind: CompletionItemKind::Keyword,
            detail: "define a named function",
            documentation: "`function name(p1: T1, p2: T2): R { … }` declares a function. Parameters and the return type can be annotated.",
        },
        Builtin {
            label: "return",
            kind: CompletionItemKind::Keyword,
            detail: "exit the current function with a value",
            documentation: "`return expr;` exits the enclosing function, returning `expr`. Omit the expression to return `()`.",
        },
        Builtin {
            label: "if",
            kind: CompletionItemKind::Keyword,
            detail: "conditional branch",
            documentation: "`if (cond) { … } else { … }` runs the `then` block when `cond` is truthy, otherwise the `else` block (if any).",
        },
        Builtin {
            label: "else",
            kind: CompletionItemKind::Keyword,
            detail: "fallback branch of an `if`",
            documentation: "Pairs with `if`. Run when the `if` condition is falsy.",
        },
        Builtin {
            label: "while",
            kind: CompletionItemKind::Keyword,
            detail: "loop while a condition holds",
            documentation: "`while (cond) { … }` repeats the body as long as `cond` is truthy. Use `break` to exit early.",
        },
        Builtin {
            label: "for",
            kind: CompletionItemKind::Keyword,
            detail: "C-style or range for loop",
            documentation: "`for (init; cond; update) { … }` is the C-style form. Use `for (x of array) { … }` to iterate.",
        },
        Builtin {
            label: "of",
            kind: CompletionItemKind::Keyword,
            detail: "iterate the elements of an array",
            documentation: "`for (x of arr) { … }` iterates each element of `arr`.",
        },
        Builtin {
            label: "break",
            kind: CompletionItemKind::Keyword,
            detail: "exit the innermost loop",
            documentation: "Jumps out of the nearest enclosing `while` or `for`.",
        },
        Builtin {
            label: "continue",
            kind: CompletionItemKind::Keyword,
            detail: "skip to the next iteration",
            documentation: "Skips the rest of the current loop body and starts the next iteration.",
        },
        Builtin {
            label: "true",
            kind: CompletionItemKind::Keyword,
            detail: "boolean literal `true`",
            documentation: "The `boolean` literal `true`.",
        },
        Builtin {
            label: "false",
            kind: CompletionItemKind::Keyword,
            detail: "boolean literal `false`",
            documentation: "The `boolean` literal `false`.",
        },
        Builtin {
            label: "string",
            kind: CompletionItemKind::Keyword,
            detail: "primitive type: UTF-8 string",
            documentation: "Maps to `String` in the emitted Rust.",
        },
        Builtin {
            label: "number",
            kind: CompletionItemKind::Keyword,
            detail: "primitive type: 64-bit float",
            documentation: "Maps to `f64` in the emitted Rust.",
        },
        Builtin {
            label: "boolean",
            kind: CompletionItemKind::Keyword,
            detail: "primitive type: bool",
            documentation: "Maps to `bool` in the emitted Rust.",
        },
        Builtin {
            label: "void",
            kind: CompletionItemKind::Keyword,
            detail: "primitive type: unit `()`",
            documentation: "Maps to `()` in the emitted Rust.",
        },
        Builtin {
            label: "import",
            kind: CompletionItemKind::Keyword,
            detail: "import a module as a namespace",
            documentation: "`import utils;` imports the module `utils.tsr` as a namespace.\n\n`import utils as u;` imports with an alias.\n\n`import os.path;` imports a nested module.",
        },
        Builtin {
            label: "from",
            kind: CompletionItemKind::Keyword,
            detail: "import specific names from a module",
            documentation: "`from utils import add, sub;` imports specific names.\n\n`from utils import add as suma;` imports with aliases.\n\n`from utils import *;` imports everything.",
        },
        Builtin {
            label: "export",
            kind: CompletionItemKind::Keyword,
            detail: "export a declaration from the current module",
            documentation: "`export function f() {}` / `export const X = ...;` exports inline declarations.\n\n`export { a, b as c };` re-exports existing names.\n\n`export default ...` exports a default value.",
        },
        Builtin {
            label: "as",
            kind: CompletionItemKind::Keyword,
            detail: "alias a binding",
            documentation: "Used in `import utils as u;` and `from utils import add as suma;` to rename bindings.",
        },
        Builtin {
            label: "default",
            kind: CompletionItemKind::Keyword,
            detail: "import or export a default binding",
            documentation: "`export default function() {}` / `export default expr;` to export a default.\n\n`from utils import default as calc;` to import a default export.",
        },
    ];
    assert(r@ =~= spec_keywords());
    r
}

/// Global functions (`print`, `input`, ...) and every top-level `sys.X` builtin.
pub open spec fn spec_top_level_builtins() -> Seq<Builtin> {
    seq![
        Builtin {
            label: "sys",
            kind: CompletionItemKind::Module,
            detail: "system namespace",
            documentation: "`sys.*` — system-level builtins (filesystem, OS, env, processes, …).\n\nUse `sys.X(...)` for top-level methods or `sys.ns.method(...)` for namespaced methods.",
        },
        Builtin {
            label: "print",
            kind: CompletionItemKind::Function,
            detail: "(...values: any[]) -> void",
            documentation: "Print each argument to stdout, separated by a space, terminated by a newline.",
        },
        Builtin {
            label: "input",
            kind: CompletionItemKind::Function,
            detail: "() -> string",
            documentation: "Reads a line from stdin and returns it (without the trailing newline).",
        },
        Builtin {
            label: "parseFloat",
            kind: CompletionItemKind::Function,
            detail: "(s: string) -> number",
            documentation: "Converts a string to a floating-point number. Returns `NaN` if the string is not a valid number.",
        },
        Builtin {
            label: "isNaN",
            kind: CompletionItemKind::Function,
            detail: "(n: number) -> boolean",
            documentation: "Returns `true` if the value is `NaN` (not a number). Use to validate results from `parseFloat`.",
        },
        Builtin {
            label: "str",
            kind: CompletionItemKind::Function,
            detail: "(value: any) -> string",
            documentation: "Converts any value to its string representation. Use for explicit string concatenation.",
        },
        Builtin {
            label: "typeof",
            kind: CompletionItemKind::Keyword,
            detail: "typeof expr -> string",
            documentation: "Returns the type of an expression as a string: `\"number\"`, `\"string\"`, `\"boolean\"`, `\"array\"`, `\"object\"`, or `\"void\"`.",
        },
        Builtin {
            label: "sys.readFile",
            kind: CompletionItemKind::Function,
            detail: "(path: string) -> string",
            documentation: "`sys.readFile(p)` reads `p` to a UTF-8 `String`. Panics on I/O error.",
        },
        Builtin {
            label: "sys.writeFile",
            kind: CompletionItemKind::Function,
            detail: "(path: string, content: string) -> void",
            documentation: "`sys.writeFile(p, c)` overwrites `p` with `c`.",
        },
        Builtin {
            label: "sys.readBytes",
            kind: CompletionItemKind::Function,
            detail: "(path: string) -> bytes",
            documentation: "`sys.readBytes(p)` reads `p` to a `Vec<u8>`. Arcis has no `bytes` literal yet, so this is mostly useful for round-trip.",
        },
        Builtin {
            label: "sys.writeBytes",
            kind: CompletionItemKind::Function,
            detail: "(path: string, bytes: bytes) -> void",
            documentation: "`sys.writeBytes(p, b)` overwrites `p` with the bytes `b`.",
        },
        Builtin {
            label: "sys.appendFile",
            kind: CompletionItemKind::Function,
            detail: "(path: string, text: string) -> void",
            documentation: "`sys.appendFile(p, t)` opens `p` in append mode (creating it if missing) and writes `t`.",
        },
        Builtin {
            label: "sys.createFile",
            kind: CompletionItemKind::Function,
            detail: "(path: string) -> void",
            documentation: "`sys.createFile(p)` creates an empty file at `p`.",
        },
        Builtin {
            label: "sys.deleteFile",
            kind: CompletionItemKind::Function,
            detail: "(path: string) -> void",
            documentation: "`sys.deleteFile(p)` removes the file at `p`. Panics if `p` is not a file.",
        },
        Builtin {
            label: "sys.deleteDir",
            kind: CompletionItemKind::Function,
            detail: "(path: string) -> void",
            documentation: "`sys.deleteDir(p)` removes the empty directory at `p`.",
        },
        Builtin {
            label: "sys.deleteDirAll",
            kind: CompletionItemKind::Function,
            detail: "(path: string) -> void",
            documentation: "`sys.deleteDirAll(p)` removes `p` recursively (files and sub-directories).",
        },
        Builtin {
            label: "sys.mkdir",
            kind: CompletionItemKind::Function,
            detail: "(path: string) -> void",
            documentation: "`sys.mkdir(p)` creates the directory `p`. Panics if `p` already exists.",
        },
        Builtin {
            label: "sys.listDir",
            kind: CompletionItemKind::Function,
            detail: "(path: string) -> string[]",
            documentation: "`sys.listDir(p)` returns the entry names in `p` as `string[]`.",
        },
        Builtin {
            label: "sys.copy",
            kind: CompletionItemKind::Function,
            detail: "(src: string, dst: string) -> void",
            documentation: "`sys.copy(s, d)` copies file `s` to `d`.",
        },
        Builtin {
            label: "sys.move",
            kind: CompletionItemKind::Function,
            detail: "(src: string, dst: string) -> void",
            documentation: "`sys.move(s, d)` renames file `s` to `d`.",
        },
        Builtin {
            label: "sys.rename",
            kind: CompletionItemKind::Function,
            detail: "(old: string, new: string) -> void",
            documentation: "`sys.rename(o, n)` is an alias of `sys.move`.",
        },
        Builtin {
            label: "sys.exists",
            kind: CompletionItemKind::Function,
            detail: "(path: string) -> boolean",
            documentation: "`sys.exists(p)` returns `true` if `p` exists.",
        },
        Builtin {
            label: "sys.isFile",
            kind: CompletionItemKind::Function,
            detail: "(path: string) -> boolean",
            documentation: "`sys.isFile(p)` returns `true` if `p` is a regular file.",
        },
        Builtin {
            label: "sys.isDir",
            kind: CompletionItemKind::Function,
            detail: "(path: string) -> boolean",
            documentation: "`sys.isDir(p)` returns `true` if `p` is a directory.",
        },
        Builtin {
            label: "sys.fileSize",
            kind: CompletionItemKind::Function,
            detail: "(path: string) -> number",
            documentation: "`sys.fileSize(p)` returns the size of `p` in bytes.",
        },
        Builtin {
            label: "sys.fileInfo",
            kind: CompletionItemKind::Function,
            detail: "(path: string) -> string",
            documentation: "`sys.fileInfo(p)` returns a summary `size=…;is_file=…;is_dir=…;modified_secs=…`.",
        },
        Builtin {
            label: "sys.absolute",
            kind: CompletionItemKind::Function,
            detail: "(path: string) -> string",
            documentation: "`sys.absolute(p)` returns the absolute (canonical) form of `p`.",
        },
        Builtin {
            label: "sys.relative",
            kind: CompletionItemKind::Function,
            detail: "(path: string) -> string",
            documentation: "`sys.relative(p)` returns `p` relative to the current working directory.",
        },
        Builtin {
            label: "sys.createSymlink",
            kind: CompletionItemKind::Function,
            detail: "(target: string, linkPath: string) -> void",
            documentation: "`sys.createSymlink(t, l)` creates a symlink at `l` pointing to `t`.",
        },
        Builtin {
            label: "sys.readLink",
            kind: CompletionItemKind::Function,
            detail: "(path: string) -> string",
            documentation: "`sys.readLink(p)` returns the target of the symlink at `p`.",
        },
        Builtin {
            label: "sys.currentDir",
            kind: CompletionItemKind::Function,
            detail: "() -> string",
            documentation: "`sys.currentDir()` returns the current working directory.",
        },
        Builtin {
            label: "sys.changeDir",
            kind: CompletionItemKind::Function,
            detail: "(path: string) -> void",
            documentation: "`sys.changeDir(p)` changes the process working directory to `p`.",
        },
        Builtin {
            label: "sys.tempDir",
            kind: CompletionItemKind::Function,
            detail: "() -> string",
            documentation: "`sys.tempDir()` returns the OS temporary directory (e.g. `/tmp`).",
        },
        Builtin {
            label: "sys.homeDir",
            kind: CompletionItemKind::Function,
            detail: "() -> string",
            documentation: "`sys.homeDir()` returns the current user's home directory.",
        },
        Builtin {
            label: "sys.executablePath",
            kind: CompletionItemKind::Function,
            detail: "() -> string",
            documentation: "`sys.executablePath()` returns the absolute path of the running binary.",
        },
        Builtin {
            label: "sys.process",
            kind: CompletionItemKind::Function,
            detail: "(cmd: string, args: string[]) -> ArcisProcess",
            documentation: "`sys.process(cmd, args)` runs `cmd` with the given arguments and returns an `ArcisProcess { stdout, stderr, exitCode }` struct.",
        },
        Builtin {
            label: "sys.exec",
            kind: CompletionItemKind::Function,
            detail: "(cmd: string, args?: string[]) -> string",
            documentation: "`sys.exec(cmd, args?)` runs `cmd` and returns stdout as a lossy string.",
        },
        Builtin {
            label: "sys.spawn",
            kind: CompletionItemKind::Function,
            detail: "(cmd: string, args?: string[]) -> number",
            documentation: "`sys.spawn(cmd, args?)` runs `cmd` detached and returns its PID.",
        },
        Builtin {
            label: "sys.kill",
            kind: CompletionItemKind::Function,
            detail: "(pid: number) -> void",
            documentation: "`sys.kill(pid)` sends SIGTERM to `pid`.",
        },
        Builtin {
            label: "sys.currentPid",
            kind: CompletionItemKind::Function,
            detail: "() -> number",
            documentation: "`sys.currentPid()` returns the current process ID.",
        },
        Builtin {
            label: "sys.parentPid",
            kind: CompletionItemKind::Function,
            detail: "() -> number",
            documentation: "`sys.parentPid()` returns the parent process ID.",
        },
        Builtin {
            label: "sys.processes",
            kind: CompletionItemKind::Function,
            detail: "() -> string[]",
            documentation: "`sys.processes()` returns `pid=<n>;name=<s>` per running process.",
        },
        Builtin {
            label: "sys.args",
            kind: CompletionItemKind::Property,
            detail: "string[]",
            documentation: "Program arguments (the contents of `std::env::args()`). Member access — no parentheses.",
        },
    ]
}

/// Global functions (`print`, `input`, ...) and every top-level `sys.X` builtin.
pub fn top_level_builtins() -> (r: Vec<Builtin>)
    ensures
        r@ == spec_top_level_builtins(),
{
    let r = vec![
        Builtin {
            label: "sys",
            kind: CompletionItemKind::Module,
            detail: "system namespace",
            documentation: "`sys.*` — system-level builtins (filesystem, OS, env, processes, …).\n\nUse `sys.X(...)` for top-level methods or `sys.ns.method(...)` for namespaced methods.",
        },
        Builtin {
            label: "print",
            kind: CompletionItemKind::Function,
            detail: "(...values: any[]) -> void",
            documentation: "Print each argument to stdout, separated by a space, terminated by a newline.",
        },
        Builtin {
            label: "input",
            kind: CompletionItemKind::Function,
            detail: "() -> string",
            documentation: "Reads a line from stdin and returns it (without the trailing newline).",
        },
        Builtin {
            label: "parseFloat",
            kind: CompletionItemKind::Function,
            detail: "(s: string) -> number",
            documentation: "Converts a string to a floating-point number. Returns `NaN` if the string is not a valid number.",
        },
        Builtin {
            label: "isNaN",
            kind: CompletionItemKind::Function,
            detail: "(n: number) -> boolean",
            documentation: "Returns `true` if the value is `NaN` (not a number). Use to validate results from `parseFloat`.",
        },
        Builtin {
            label: "str",
            kind: CompletionItemKind::Function,
            detail: "(value: any) -> string",
            documentation: "Converts any value to its string representation. Use for explicit string concatenation.",
        },
        Builtin {
            label: "typeof",
            kind: CompletionItemKind::Keyword,
            detail: "typeof expr -> string",
            documentation: "Returns the type of an expression as a string: `\"number\"`, `\"string\"`, `\"boolean\"`, `\"array\"`, `\"object\"`, or `\"void\"`.",
        },
        Builtin {
            label: "sys.readFile",
            kind: CompletionItemKind::Function,
            detail: "(path: string) -> string",
            documentation: "`sys.readFile(p)` reads `p` to a UTF-8 `String`. Panics on I/O error.",
        },
        Builtin {
            label: "sys.writeFile",
            kind: CompletionItemKind::Function,
            detail: "(path: string, content: string) -> void",
            documentation: "`sys.writeFile(p, c)` overwrites `p` with `c`.",
        },
        Builtin {
            label: "sys.readBytes",
            kind: CompletionItemKind::Function,
            detail: "(path: string) -> bytes",
            documentation: "`sys.readBytes(p)` reads `p` to a `Vec<u8>`. Arcis has no `bytes` literal yet, so this is mostly useful for round-trip.",
        },
        Builtin {
            label: "sys.writeBytes",
            kind: CompletionItemKind::Function,
            detail: "(path: string, bytes: bytes) -> void",
            documentation: "`sys.writeBytes(p, b)` overwrites `p` with the bytes `b`.",
        },
        Builtin {
            label: "sys.appendFile",
            kind: CompletionItemKind::Function,
            detail: "(path: string, text: string) -> void",
            documentation: "`sys.appendFile(p, t)` opens `p` in append mode (creating it if missing) and writes `t`.",
        },
        Builtin {
            label: "sys.createFile",
            kind: CompletionItemKind::Function,
            detail: "(path: string) -> void",
            documentation: "`sys.createFile(p)` creates an empty file at `p`.",
        },
        Builtin {
            label: "sys.deleteFile",
            kind: CompletionItemKind::Function,
            detail: "(path: string) -> void",
            documentation: "`sys.deleteFile(p)` removes the file at `p`. Panics if `p` is not a file.",
        },
        Builtin {
            label: "sys.deleteDir",
            kind: CompletionItemKind::Function,
            detail: "(path: string) -> void",
            documentation: "`sys.deleteDir(p)` removes the empty directory at `p`.",
        },
        Builtin {
            label: "sys.deleteDirAll",
            kind: CompletionItemKind::Function,
            detail: "(path: string) -> void",
            documentation: "`sys.deleteDirAll(p)` removes `p` recursively (files and sub-directories).",
        },
        Builtin {
            label: "sys.mkdir",
            kind: CompletionItemKind::Function,
            detail: "(path: string) -> void",
            documentation: "`sys.mkdir(p)` creates the directory `p`. Panics if `p` already exists.",
        },
        Builtin {
            label: "sys.listDir",
            kind: CompletionItemKind::Function,
            detail: "(path: string) -> string[]",
            documentation: "`sys.listDir(p)` returns the entry names in `p` as `string[]`.",
        },
        Builtin {
            label: "sys.copy",
            kind: CompletionItemKind::Function,
            detail: "(src: string, dst: string) -> void",
            documentation: "`sys.copy(s, d)` copies file `s` to `d`.",
        },
        Builtin {
            label: "sys.move",
            kind: CompletionItemKind::Function,
            detail: "(src: string, dst: string) -> void",
            documentation: "`sys.move(s, d)` renames file `s` to `d`.",
        },
        Builtin {
            label: "sys.rename",
            kind: CompletionItemKind::Function,
            detail: "(old: string, new: string) -> void",
            documentation: "`sys.rename(o, n)` is an alias of `sys.move`.",
        },
        Builtin {
            label: "sys.exists",
            kind: CompletionItemKind::Function,
            detail: "(path: string) -> boolean",
            documentation: "`sys.exists(p)` returns `true` if `p` exists.",
        },
        Builtin {
            label: "sys.isFile",
            kind: CompletionItemKind::Function,
            detail: "(path: string) -> boolean",
            documentation: "`sys.isFile(p)` returns `true` if `p` is a regular file.",
        },
        Builtin {
            label: "sys.isDir",
            kind: CompletionItemKind::Function,
            detail: "(path: string) -> boolean",
            documentation: "`sys.isDir(p)` returns `true` if `p` is a directory.",
        },
        Builtin {
            label: "sys.fileSize",
            kind: CompletionItemKind::Function,
            detail: "(path: string) -> number",
            documentation: "`sys.fileSize(p)` returns the size of `p` in bytes.",
        },
        Builtin {
            label: "sys.fileInfo",
            kind: CompletionItemKind::Function,
            detail: "(path: string) -> string",
            documentation: "`sys.fileInfo(p)` returns a summary `size=…;is_file=…;is_dir=…;modified_secs=…`.",
        },
        Builtin {
            label: "sys.absolute",
            kind: CompletionItemKind::Function,
            detail: "(path: string) -> string",
            documentation: "`sys.absolute(p)` returns the absolute (canonical) form of `p`.",
        },
        Builtin {
            label: "sys.relative",
            kind: CompletionItemKind::Function,
            detail: "(path: string) -> string",
            documentation: "`sys.relative(p)` returns `p` relative to the current working directory.",
        },
        Builtin {
            label: "sys.createSymlink",
            kind: CompletionItemKind::Function,
            detail: "(target: string, linkPath: string) -> void",
            documentation: "`sys.createSymlink(t, l)` creates a symlink at `l` pointing to `t`.",
        },
        Builtin {
            label: "sys.readLink",
            kind: CompletionItemKind::Function,
            detail: "(path: string) -> string",
            documentation: "`sys.readLink(p)` returns the target of the symlink at `p`.",
        },
        Builtin {
            label: "sys.currentDir",
            kind: CompletionItemKind::Function,
            detail: "() -> string",
            documentation: "`sys.currentDir()` returns the current working directory.",
        },
        Builtin {
            label: "sys.changeDir",
            kind: CompletionItemKind::Function,
            detail: "(path: string) -> void",
            documentation: "`sys.changeDir(p)` changes the process working directory to `p`.",
        },
        Builtin {
            label: "sys.tempDir",
            kind: CompletionItemKind::Function,
            detail: "() -> string",
            documentation: "`sys.tempDir()` returns the OS temporary directory (e.g. `/tmp`).",
        },
        Builtin {
            label: "sys.homeDir",
            kind: CompletionItemKind::Function,
            detail: "() -> string",
            documentation: "`sys.homeDir()` returns the current user's home directory.",
        },
        Builtin {
            label: "sys.executablePath",
            kind: CompletionItemKind::Function,
            detail: "() -> string",
            documentation: "`sys.executablePath()` returns the absolute path of the running binary.",
        },
        Builtin {
            label: "sys.process",
            kind: CompletionItemKind::Function,
            detail: "(cmd: string, args: string[]) -> ArcisProcess",
            documentation: "`sys.process(cmd, args)` runs `cmd` with the given arguments and returns an `ArcisProcess { stdout, stderr, exitCode }` struct.",
        },
        Builtin {
            label: "sys.exec",
            kind: CompletionItemKind::Function,
            detail: "(cmd: string, args?: string[]) -> string",
            documentation: "`sys.exec(cmd, args?)` runs `cmd` and returns stdout as a lossy string.",
        },
        Builtin {
            label: "sys.spawn",
            kind: CompletionItemKind::Function,
            detail: "(cmd: string, args?: string[]) -> number",
            documentation: "`sys.spawn(cmd, args?)` runs `cmd` detached and returns its PID.",
        },
        Builtin {
            label: "sys.kill",
            kind: CompletionItemKind::Function,
            detail: "(pid: number) -> void",
            documentation: "`sys.kill(pid)` sends SIGTERM to `pid`.",
        },
        Builtin {
            label: "sys.currentPid",
            kind: CompletionItemKind::Function,
            detail: "() -> number",
            documentation: "`sys.currentPid()` returns the current process ID.",
        },
        Builtin {
            label: "sys.parentPid",
            kind: CompletionItemKind::Function,
            detail: "() -> number",
            documentation: "`sys.parentPid()` returns the parent process ID.",
        },
        Builtin {
            label: "sys.processes",
            kind: CompletionItemKind::Function,
            detail: "() -> string[]",
            documentation: "`sys.processes()` returns `pid=<n>;name=<s>` per running process.",
        },
        Builtin {
            label: "sys.args",
            kind: CompletionItemKind::Property,
            detail: "string[]",
            documentation: "Program arguments (the contents of `std::env::args()`). Member access — no parentheses.",
        },
    ];
    assert(r@ =~= spec_top_level_builtins());
    r
}

/// Sub-namespace accessors offered after `sys.`.
pub open spec fn spec_sys_namespaces() -> Seq<Builtin> {
    seq![
        Builtin {
            label: "env",
            kind: CompletionItemKind::Module,
            detail: "environment variables (get/set/delete/all)",
            documentation: "`sys.env.*` — environment-variable accessors.",
        },
        Builtin {
            label: "os",
            kind: CompletionItemKind::Module,
            detail: "operating-system info",
            documentation: "`sys.os.*` — OS-level info (name, arch, hostname, …).",
        },
        Builtin {
            label: "memory",
            kind: CompletionItemKind::Module,
            detail: "RAM info (Linux-first via /proc/meminfo)",
            documentation: "`sys.memory.*` — system memory. Returns 0 on non-Linux.",
        },
        Builtin {
            label: "cpu",
            kind: CompletionItemKind::Module,
            detail: "CPU info (Linux-first via /proc/cpuinfo and /proc/stat)",
            documentation: "`sys.cpu.*` — CPU model, brand, frequency, usage, core count.",
        },
        Builtin {
            label: "gpu",
            kind: CompletionItemKind::Module,
            detail: "GPU info (Linux-first via lspci / nvidia-smi)",
            documentation: "`sys.gpu.*` — enumerate GPUs and query memory.",
        },
        Builtin {
            label: "disk",
            kind: CompletionItemKind::Module,
            detail: "disk info (cross-platform via df)",
            documentation: "`sys.disk.*` — filesystem space.",
        },
        Builtin {
            label: "net",
            kind: CompletionItemKind::Module,
            detail: "network info (hostname, interfaces, ip, publicIp, online)",
            documentation: "`sys.net.*` — host networking.",
        },
    ]
}

/// Sub-namespace accessors offered after `sys.`.
pub fn sys_namespaces() -> (r: Vec<Builtin>)
    ensures
        r@ == spec_sys_namespaces(),
{
    let r = vec![
        Builtin {
            label: "env",
            kind: CompletionItemKind::Module,
            detail: "environment variables (get/set/delete/all)",
            documentation: "`sys.env.*` — environment-variable accessors.",
        },
        Builtin {
            label: "os",
            kind: CompletionItemKind::Module,
            detail: "operating-system info",
            documentation: "`sys.os.*` — OS-level info (name, arch, hostname, …).",
        },
        Builtin {
            label: "memory",
            kind: CompletionItemKind::Module,
            detail: "RAM info (Linux-first via /proc/meminfo)",
            documentation: "`sys.memory.*` — system memory. Returns 0 on non-Linux.",
        },
        Builtin {
            label: "cpu",
            kind: CompletionItemKind::Module,
            detail: "CPU info (Linux-first via /proc/cpuinfo and /proc/stat)",
            documentation: "`sys.cpu.*` — CPU model, brand, frequency, usage, core count.",
        },
        Builtin {
            label: "gpu",
            kind: CompletionItemKind::Module,
            detail: "GPU info (Linux-first via lspci / nvidia-smi)",
            documentation: "`sys.gpu.*` — enumerate GPUs and query memory.",
        },
        Builtin {
            label: "disk",
            kind: CompletionItemKind::Module,
            detail: "disk info (cross-platform via df)",
            documentation: "`sys.disk.*` — filesystem space.",
        },
        Builtin {
            label: "net",
            kind: CompletionItemKind::Module,
            detail: "network info (hostname, interfaces, ip, publicIp, online)",
            documentation: "`sys.net.*` — host networking.",
        },
    ];
    assert(r@ =~= spec_sys_namespaces());
    r
}

/// Methods and properties of array receivers.
pub open spec fn spec_array_methods() -> Seq<Builtin> {
    seq![
        Builtin {
            label: "find",
            kind: CompletionItemKind::Method,
            detail: "(p: (T) => boolean) -> T | undefined",
            documentation: "Returns the first element matching the predicate.",
        },
        Builtin {
            label: "filter",
            kind: CompletionItemKind::Method,
            detail: "(p: (T) => boolean) -> T[]",
            documentation: "Returns the elements matching the predicate.",
        },
        Builtin {
            label: "map",
            kind: CompletionItemKind::Method,
            detail: "<U>(f: (T) => U) -> U[]",
            documentation: "Returns the array of `f` applied to each element.",
        },
        Builtin {
            label: "reduce",
            kind: CompletionItemKind::Method,
            detail: "<U>(f: (acc, T) => U, init: U) -> U",
            documentation: "Left-fold; `init` is the initial accumulator.",
        },
        Builtin {
            label: "pop",
            kind: CompletionItemKind::Method,
            detail: "() -> T",
            documentation: "Removes and returns the last element.",
        },
        Builtin {
            label: "push",
            kind: CompletionItemKind::Method,
            detail: "(item: T) -> void",
            documentation: "Appends `item`.",
        },
        Builtin {
            label: "unshift",
            kind: CompletionItemKind::Method,
            detail: "(item: T) -> void",
            documentation: "Prepends `item`.",
        },
        Builtin {
            label: "length",
            kind: CompletionItemKind::Property,
            detail: "number",
            documentation: "Element count.",
        },
    ]
}

/// Methods and properties of array receivers.
pub fn array_methods() -> (r: Vec<Builtin>)
    ensures
        r@ == spec_array_methods(),
{
    let r = vec![
        Builtin {
            label: "find",
            kind: CompletionItemKind::Method,
            detail: "(p: (T) => boolean) -> T | undefined",
            documentation: "Returns the first element matching the predicate.",
        },
        Builtin {
            label: "filter",
            kind: CompletionItemKind::Method,
            detail: "(p: (T) => boolean) -> T[]",
            documentation: "Returns the elements matching the predicate.",
        },
        Builtin {
            label: "map",
            kind: CompletionItemKind::Method,
            detail: "<U>(f: (T) => U) -> U[]",
            documentation: "Returns the array of `f` applied to each element.",
        },
        Builtin {
            label: "reduce",
            kind: CompletionItemKind::Method,
            detail: "<U>(f: (acc, T) => U, init: U) -> U",
            documentation: "Left-fold; `init` is the initial accumulator.",
        },
        Builtin {
            label: "pop",
            kind: CompletionItemKind::Method,
            detail: "() -> T",
            documentation: "Removes and returns the last element.",
        },
        Builtin {
            label: "push",
            kind: CompletionItemKind::Method,
            detail: "(item: T) -> void",
            documentation: "Appends `item`.",
        },
        Builtin {
            label: "unshift",
            kind: CompletionItemKind::Method,
            detail: "(item: T) -> void",
            documentation: "Prepends `item`.",
        },
        Builtin {
            label: "length",
            kind: CompletionItemKind::Property,
            detail: "number",
            documentation: "Element count.",
        },
    ];
    assert(r@ =~= spec_array_methods());
    r
}

/// Methods and properties of string receivers.
pub open spec fn spec_string_methods() -> Seq<Builtin> {
    seq![
        Builtin {
            label: "toUpperCase",
            kind: CompletionItemKind::Method,
            detail: "() -> string",
            documentation: "Uppercase copy.",
        },
        Builtin {
            label: "toLowerCase",
            kind: CompletionItemKind::Method,
            detail: "() -> string",
            documentation: "Lowercase copy.",
        },
        Builtin {
            label: "trim",
            kind: CompletionItemKind::Method,
            detail: "() -> string",
            documentation: "Strips leading and trailing whitespace.",
        },
        Builtin {
            label: "substring",
            kind: CompletionItemKind::Method,
            detail: "(start: number, end?: number) -> string",
            documentation: "Sub-range slice.",
        },
        Builtin {
            label: "indexOf",
            kind: CompletionItemKind::Method,
            detail: "(s: string) -> number",
            documentation: "Index of first occurrence, or -1.",
        },
        Builtin {
            label: "includes",
            kind: CompletionItemKind::Method,
            detail: "(s: string) -> boolean",
            documentation: "True if `s` is a substring.",
        },
        Builtin {
            label: "charAt",
            kind: CompletionItemKind::Method,
            detail: "(i: number) -> string",
            documentation: "Character at `i` (as a 1-char string).",
        },
        Builtin {
            label: "length",
            kind: CompletionItemKind::Property,
            detail: "number",
            documentation: "Codepoint count.",
        },
    ]
}

/// Methods and properties of string receivers.
pub fn string_methods() -> (r: Vec<Builtin>)
    ensures
        r@ == spec_string_methods(),
{
    let r = vec![
        Builtin {
            label: "toUpperCase",
            kind: CompletionItemKind::Method,
            detail: "() -> string",
            documentation: "Uppercase copy.",
        },
        Builtin {
            label: "toLowerCase",
            kind: CompletionItemKind::Method,
            detail: "() -> string",
            documentation: "Lowercase copy.",
        },
        Builtin {
            label: "trim",
            kind: CompletionItemKind::Method,
            detail: "() -> string",
            documentation: "Strips leading and trailing whitespace.",
        },
        Builtin {
            label: "substring",
            kind: CompletionItemKind::Method,
            detail: "(start: number, end?: number) -> string",
            documentation: "Sub-range slice.",
        },
        Builtin {
            label: "indexOf",
            kind: CompletionItemKind::Method,
            detail: "(s: string) -> number",
            documentation: "Index of first occurrence, or -1.",
        },
        Builtin {
            label: "includes",
            kind: CompletionItemKind::Method,
            detail: "(s: string) -> boolean",
            documentation: "True if `s` is a substring.",
        },
        Builtin {
            label: "charAt",
            kind: CompletionItemKind::Method,
            detail: "(i: number) -> string",
            documentation: "Character at `i` (as a 1-char string).",
        },
        Builtin {
            label: "length",
            kind: CompletionItemKind::Property,
            detail: "number",
            documentation: "Codepoint count.",
        },
    ];
    assert(r@ =~= spec_string_methods());
    r
}

/// Methods of `sys.env`.
pub open spec fn spec_env_methods() -> Seq<Builtin> {
    seq![
        Builtin {
            label: "get",
            kind: CompletionItemKind::Method,
            detail: "(name: string) -> string",
            documentation: "`sys.env.get(name)` returns the value of env var `name`, or `\"\"` if not set.",
        },
        Builtin {
            label: "set",
            kind: CompletionItemKind::Method,
            detail: "(name: string, value: string) -> void",
            documentation: "`sys.env.set(name, value)` sets env var `name`.",
        },
        Builtin {
            label: "delete",
            kind: CompletionItemKind::Method,
            detail: "(name: string) -> void",
            documentation: "`sys.env.delete(name)` unsets env var `name`.",
        },
        Builtin {
            label: "all",
            kind: CompletionItemKind::Method,
            detail: "() -> string[]",
            documentation: "`sys.env.all()` returns every env var as `name=value` strings.",
        },
    ]
}

/// Methods of `sys.env`.
pub fn env_methods() -> (r: Vec<Builtin>)
    ensures
        r@ == spec_env_methods(),
{
    let r = vec![
        Builtin {
            label: "get",
            kind: CompletionItemKind::Method,
            detail: "(name: string) -> string",
            documentation: "`sys.env.get(name)` returns the value of env var `name`, or `\"\"` if not set.",
        },
        Builtin {
            label: "set",
            kind: CompletionItemKind::Method,
            detail: "(name: string, value: string) -> void",
            documentation: "`sys.env.set(name, value)` sets env var `name`.",
        },
        Builtin {
            label: "delete",
            kind: CompletionItemKind::Method,
            detail: "(name: string) -> void",
            documentation: "`sys.env.delete(name)` unsets env var `name`.",
        },
        Builtin {
            label: "all",
            kind: CompletionItemKind::Method,
            detail: "() -> string[]",
            documentation: "`sys.env.all()` returns every env var as `name=value` strings.",
        },
    ];
    assert(r@ =~= spec_env_methods());
    r
}

/// Methods of `sys.os`.
pub open spec fn spec_os_methods() -> Seq<Builtin> {
    seq![
        Builtin {
            label: "name",
            kind: CompletionItemKind::Method,
            detail: "() -> string",
            documentation: "`sys.os.name()` — `\"linux\"` / `\"macos\"` / `\"windows\"`.",
        },
        Builtin {
            label: "version",
            kind: CompletionItemKind::Method,
            detail: "() -> string",
            documentation: "`sys.os.version()` runs `uname -r` (or `ver` on Windows).",
        },
        Builtin {
            label: "arch",
            kind: CompletionItemKind::Method,
            detail: "() -> string",
            documentation: "`sys.os.arch()` returns `std::env::consts::ARCH`.",
        },
        Builtin {
            label: "hostname",
            kind: CompletionItemKind::Method,
            detail: "() -> string",
            documentation: "`sys.os.hostname()` runs the `hostname` command.",
        },
        Builtin {
            label: "username",
            kind: CompletionItemKind::Method,
            detail: "() -> string",
            documentation: "`sys.os.username()` returns `$USER` (or `$USERNAME` on Windows).",
        },
        Builtin {
            label: "uptime",
            kind: CompletionItemKind::Method,
            detail: "() -> number",
            documentation: "`sys.os.uptime()` parses `/proc/uptime` on Linux.",
        },
        Builtin {
            label: "locale",
            kind: CompletionItemKind::Method,
            detail: "() -> string",
            documentation: "`sys.os.locale()` returns `$LC_ALL` or `$LANG`.",
        },
        Builtin {
            label: "cpuCount",
            kind: CompletionItemKind::Method,
            detail: "() -> number",
            documentation: "`sys.os.cpuCount()` returns the available parallelism.",
        },
    ]
}

/// Methods of `sys.os`.
pub fn os_methods() -> (r: Vec<Builtin>)
    ensures
        r@ == spec_os_methods(),
{
    let r = vec![
        Builtin {
            label: "name",
            kind: CompletionItemKind::Method,
            detail: "() -> string",
            documentation: "`sys.os.name()` — `\"linux\"` / `\"macos\"` / `\"windows\"`.",
        },
        Builtin {
            label: "version",
            kind: CompletionItemKind::Method,
            detail: "() -> string",
            documentation: "`sys.os.version()` runs `uname -r` (or `ver` on Windows).",
        },
        Builtin {
            label: "arch",
            kind: CompletionItemKind::Method,
            detail: "() -> string",
            documentation: "`sys.os.arch()` returns `std::env::consts::ARCH`.",
        },
        Builtin {
            label: "hostname",
            kind: CompletionItemKind::Method,
            detail: "() -> string",
            documentation: "`sys.os.hostname()` runs the `hostname` command.",
        },
        Builtin {
            label: "username",
            kind: CompletionItemKind::Method,
            detail: "() -> string",
            documentation: "`sys.os.username()` returns `$USER` (or `$USERNAME` on Windows).",
        },
        Builtin {
            label: "uptime",
            kind: CompletionItemKind::Method,
            detail: "() -> number",
            documentation: "`sys.os.uptime()` parses `/proc/uptime` on Linux.",
        },
        Builtin {
            label: "locale",
            kind: CompletionItemKind::Method,
            detail: "() -> string",
            documentation: "`sys.os.locale()` returns `$LC_ALL` or `$LANG`.",
        },
        Builtin {
            label: "cpuCount",
            kind: CompletionItemKind::Method,
            detail: "() -> number",
            documentation: "`sys.os.cpuCount()` returns the available parallelism.",
        },
    ];
    assert(r@ =~= spec_os_methods());
    r
}

/// Methods of `sys.memory`.
pub open spec fn spec_memory_methods() -> Seq<Builtin> {
    seq![
        Builtin {
            label: "total",
            kind: CompletionItemKind::Method,
            detail: "() -> number",
            documentation: "`sys.memory.total()` — total RAM in bytes (Linux-first).",
        },
        Builtin {
            label: "free",
            kind: CompletionItemKind::Method,
            detail: "() -> number",
            documentation: "`sys.memory.free()` — free RAM in bytes.",
        },
        Builtin {
            label: "used",
            kind: CompletionItemKind::Method,
            detail: "() -> number",
            documentation: "`sys.memory.used()` — total - free.",
        },
        Builtin {
            label: "available",
            kind: CompletionItemKind::Method,
            detail: "() -> number",
            documentation: "`sys.memory.available()` — kernel's `MemAvailable` estimate.",
        },
    ]
}

/// Methods of `sys.memory`.
pub fn memory_methods() -> (r: Vec<Builtin>)
    ensures
        r@ == spec_memory_methods(),
{
    let r = vec![
        Builtin {
            label: "total",
            kind: CompletionItemKind::Method,
            detail: "() -> number",
            documentation: "`sys.memory.total()` — total RAM in bytes (Linux-first).",
        },
        Builtin {
            label: "free",
            kind: CompletionItemKind::Method,
            detail: "() -> number",
            documentation: "`sys.memory.free()` — free RAM in bytes.",
        },
        Builtin {
            label: "used",
            kind: CompletionItemKind::Method,
            detail: "() -> number",
            documentation: "`sys.memory.used()` — total - free.",
        },
        Builtin {
            label: "available",
            kind: CompletionItemKind::Method,
            detail: "() -> number",
            documentation: "`sys.memory.available()` — kernel's `MemAvailable` estimate.",
        },
    ];
    assert(r@ =~= spec_memory_methods());
    r
}

/// Methods of `sys.cpu`.
pub open spec fn spec_cpu_methods() -> Seq<Builtin> {
    seq![
        Builtin {
            label: "model",
            kind: CompletionItemKind::Method,
            detail: "() -> string",
            documentation: "`sys.cpu.model()` — `model name` from `/proc/cpuinfo`.",
        },
        Builtin {
            label: "brand",
            kind: CompletionItemKind::Method,
            detail: "() -> string",
            documentation: "`sys.cpu.brand()` — `vendor_id` (e.g. `GenuineIntel`).",
        },
        Builtin {
            label: "frequency",
            kind: CompletionItemKind::Method,
            detail: "() -> number",
            documentation: "`sys.cpu.frequency()` — MHz from `/proc/cpuinfo`.",
        },
        Builtin {
            label: "usage",
            kind: CompletionItemKind::Method,
            detail: "() -> number",
            documentation: "`sys.cpu.usage()` — samples `/proc/stat` twice with a 100ms sleep and returns busy %.",
        },
        Builtin {
            label: "cores",
            kind: CompletionItemKind::Method,
            detail: "() -> number",
            documentation: "`sys.cpu.cores()` — available parallelism.",
        },
    ]
}

/// Methods of `sys.cpu`.
pub fn cpu_methods() -> (r: Vec<Builtin>)
    ensures
        r@ == spec_cpu_methods(),
{
    let r = vec![
        Builtin {
            label: "model",
            kind: CompletionItemKind::Method,
            detail: "() -> string",
            documentation: "`sys.cpu.model()` — `model name` from `/proc/cpuinfo`.",
        },
        Builtin {
            label: "brand",
            kind: CompletionItemKind::Method,
            detail: "() -> string",
            documentation: "`sys.cpu.brand()` — `vendor_id` (e.g. `GenuineIntel`).",
        },
        Builtin {
            label: "frequency",
            kind: CompletionItemKind::Method,
            detail: "() -> number",
            documentation: "`sys.cpu.frequency()` — MHz from `/proc/cpuinfo`.",
        },
        Builtin {
            label: "usage",
            kind: CompletionItemKind::Method,
            detail: "() -> number",
            documentation: "`sys.cpu.usage()` — samples `/proc/stat` twice with a 100ms sleep and returns busy %.",
        },
        Builtin {
            label: "cores",
            kind: CompletionItemKind::Method,
            detail: "() -> number",
            documentation: "`sys.cpu.cores()` — available parallelism.",
        },
    ];
    assert(r@ =~= spec_cpu_methods());
    r
}

/// Methods of `sys.gpu`.
pub open spec fn spec_gpu_methods() -> Seq<Builtin> {
    seq![
        Builtin {
            label: "list",
            kind: CompletionItemKind::Method,
            detail: "() -> string[]",
            documentation: "`sys.gpu.list()` parses `lspci -vmm` for VGA / 3D / Display.",
        },
        Builtin {
            label: "name",
            kind: CompletionItemKind::Method,
            detail: "() -> string",
            documentation: "`sys.gpu.name()` — first GPU device name.",
        },
        Builtin {
            label: "vendor",
            kind: CompletionItemKind::Method,
            detail: "() -> string",
            documentation: "`sys.gpu.vendor()` — first GPU vendor.",
        },
        Builtin {
            label: "memory",
            kind: CompletionItemKind::Method,
            detail: "() -> number",
            documentation: "`sys.gpu.memory()` — first NVIDIA GPU's total memory in bytes (via `nvidia-smi`).",
        },
    ]
}

/// Methods of `sys.gpu`.
pub fn gpu_methods() -> (r: Vec<Builtin>)
    ensures
        r@ == spec_gpu_methods(),
{
    let r = vec![
        Builtin {
            label: "list",
            kind: CompletionItemKind::Method,
            detail: "() -> string[]",
            documentation: "`sys.gpu.list()` parses `lspci -vmm` for VGA / 3D / Display.",
        },
        Builtin {
            label: "name",
            kind: CompletionItemKind::Method,
            detail: "() -> string",
            documentation: "`sys.gpu.name()` — first GPU device name.",
        },
        Builtin {
            label: "vendor",
            kind: CompletionItemKind::Method,
            detail: "() -> string",
            documentation: "`sys.gpu.vendor()` — first GPU vendor.",
        },
        Builtin {
            label: "memory",
            kind: CompletionItemKind::Method,
            detail: "() -> number",
            documentation: "`sys.gpu.memory()` — first NVIDIA GPU's total memory in bytes (via `nvidia-smi`).",
        },
    ];
    assert(r@ =~= spec_gpu_methods());
    r
}

/// Methods of `sys.disk`.
pub open spec fn spec_disk_methods() -> Seq<Builtin> {
    seq![
        Builtin {
            label: "list",
            kind: CompletionItemKind::Method,
            detail: "() -> string[]",
            documentation: "`sys.disk.list()` parses `df -B1 -P` into `mount=…;size=…;used=…;avail=…` rows.",
        },
        Builtin {
            label: "free",
            kind: CompletionItemKind::Method,
            detail: "(path: string) -> number",
            documentation: "`sys.disk.free(p)` — available bytes on the filesystem containing `p`.",
        },
        Builtin {
            label: "used",
            kind: CompletionItemKind::Method,
            detail: "(path: string) -> number",
            documentation: "`sys.disk.used(p)` — used bytes on the filesystem containing `p`.",
        },
        Builtin {
            label: "total",
            kind: CompletionItemKind::Method,
            detail: "(path: string) -> number",
            documentation: "`sys.disk.total(p)` — total bytes on the filesystem containing `p`.",
        },
    ]
}

/// Methods of `sys.disk`.
pub fn disk_methods() -> (r: Vec<Builtin>)
    ensures
        r@ == spec_disk_methods(),
{
    let r = vec![
        Builtin {
            label: "list",
            kind: CompletionItemKind::Method,
            detail: "() -> string[]",
            documentation: "`sys.disk.list()` parses `df -B1 -P` into `mount=…;size=…;used=…;avail=…` rows.",
        },
        Builtin {
            label: "free",
            kind: CompletionItemKind::Method,
            detail: "(path: string) -> number",
            documentation: "`sys.disk.free(p)` — available bytes on the filesystem containing `p`.",
        },
        Builtin {
            label: "used",
            kind: CompletionItemKind::Method,
            detail: "(path: string) -> number",
            documentation: "`sys.disk.used(p)` — used bytes on the filesystem containing `p`.",
        },
        Builtin {
            label: "total",
            kind: CompletionItemKind::Method,
            detail: "(path: string) -> number",
            documentation: "`sys.disk.total(p)` — total bytes on the filesystem containing `p`.",
        },
    ];
    assert(r@ =~= spec_disk_methods());
    r
}

/// Methods of `sys.net`.
pub open spec fn spec_net_methods() -> Seq<Builtin> {
    seq![
        Builtin {
            label: "hostname",
            kind: CompletionItemKind::Method,
            detail: "() -> string",
            documentation: "`sys.net.hostname()` runs the `hostname` command.",
        },
        Builtin {
            label: "interfaces",
            kind: CompletionItemKind::Method,
            detail: "() -> string[]",
            documentation: "`sys.net.interfaces()` parses `ip -o -4 addr show` into `iface=…;ip=…` rows.",
        },
        Builtin {
            label: "ip",
            kind: CompletionItemKind::Method,
            detail: "() -> string",
            documentation: "`sys.net.ip()` — first token of `hostname -I`.",
        },
        Builtin {
            label: "publicIp",
            kind: CompletionItemKind::Method,
            detail: "() -> string",
            documentation: "`sys.net.publicIp()` — `curl -s --max-time 5 https://ifconfig.me`.",
        },
        Builtin {
            label: "online",
            kind: CompletionItemKind::Method,
            detail: "() -> boolean",
            documentation: "`sys.net.online()` — `ping -c 1 -W 3 1.1.1.1` exit-success.",
        },
    ]
}

/// Methods of `sys.net`.
pub fn net_methods() -> (r: Vec<Builtin>)
    ensures
        r@ == spec_net_methods(),
{
    let r = vec![
        Builtin {
            label: "hostname",
            kind: CompletionItemKind::Method,
            detail: "() -> string",
            documentation: "`sys.net.hostname()` runs the `hostname` command.",
        },
        Builtin {
            label: "interfaces",
            kind: CompletionItemKind::Method,
            detail: "() -> string[]",
            documentation: "`sys.net.interfaces()` parses `ip -o -4 addr show` into `iface=…;ip=…` rows.",
        },
        Builtin {
            label: "ip",
            kind: CompletionItemKind::Method,
            detail: "() -> string",
            documentation: "`sys.net.ip()` — first token of `hostname -I`.",
        },
        Builtin {
            label: "publicIp",
            kind: CompletionItemKind::Method,
            detail: "() -> string",
            documentation: "`sys.net.publicIp()` — `curl -s --max-time 5 https://ifconfig.me`.",
        },
        Builtin {
            label: "online",
            kind: CompletionItemKind::Method,
            detail: "() -> boolean",
            documentation: "`sys.net.online()` — `ping -c 1 -W 3 1.1.1.1` exit-success.",
        },
    ];
    assert(r@ =~= spec_net_methods());
    r
}

/// Methods of `sys.process`.
pub open spec fn spec_process_methods() -> Seq<Builtin> {
    seq![
        Builtin {
            label: "process",
            kind: CompletionItemKind::Method,
            detail: "(cmd: string, args: string[]) -> ArcisProcess",
            documentation: "`sys.process.process(cmd, args)` — duplicate top-level path under the namespace for symmetry.",
        },
        Builtin {
            label: "exec",
            kind: CompletionItemKind::Method,
            detail: "(cmd: string, args?: string[]) -> string",
            documentation: "Same as top-level `sys.exec`.",
        },
        Builtin {
            label: "spawn",
            kind: CompletionItemKind::Method,
            detail: "(cmd: string, args?: string[]) -> number",
            documentation: "Same as top-level `sys.spawn`.",
        },
        Builtin {
            label: "kill",
            kind: CompletionItemKind::Method,
            detail: "(pid: number) -> void",
            documentation: "Same as top-level `sys.kill`.",
        },
        Builtin {
            label: "currentPid",
            kind: CompletionItemKind::Method,
            detail: "() -> number",
            documentation: "Same as top-level `sys.currentPid`.",
        },
        Builtin {
            label: "parentPid",
            kind: CompletionItemKind::Method,
            detail: "() -> number",
            documentation: "Same as top-level `sys.parentPid`.",
        },
        Builtin {
            label: "processes",
            kind: CompletionItemKind::Method,
            detail: "() -> string[]",
            documentation: "Same as top-level `sys.processes`.",
        },
    ]
}

/// Methods of `sys.process`.
pub fn process_methods() -> (r: Vec<Builtin>)
    ensures
        r@ == spec_process_methods(),
{
    let r = vec![
        Builtin {
            label: "process",
            kind: CompletionItemKind::Method,
            detail: "(cmd: string, args: string[]) -> ArcisProcess",
            documentation: "`sys.process.process(cmd, args)` — duplicate top-level path under the namespace for symmetry.",
        },
        Builtin {
            label: "exec",
            kind: CompletionItemKind::Method,
            detail: "(cmd: string, args?: string[]) -> string",
            documentation: "Same as top-level `sys.exec`.",
        },
        Builtin {
            label: "spawn",
            kind: CompletionItemKind::Method,
            detail: "(cmd: string, args?: string[]) -> number",
            documentation: "Same as top-level `sys.spawn`.",
        },
        Builtin {
            label: "kill",
            kind: CompletionItemKind::Method,
            detail: "(pid: number) -> void",
            documentation: "Same as top-level `sys.kill`.",
        },
        Builtin {
            label: "currentPid",
            kind: CompletionItemKind::Method,
            detail: "() -> number",
            documentation: "Same as top-level `sys.currentPid`.",
        },
        Builtin {
            label: "parentPid",
            kind: CompletionItemKind::Method,
            detail: "() -> number",
            documentation: "Same as top-level `sys.parentPid`.",
        },
        Builtin {
            label: "processes",
            kind: CompletionItemKind::Method,
            detail: "() -> string[]",
            documentation: "Same as top-level `sys.processes`.",
        },
    ];
    assert(r@ =~= spec_process_methods());
    r
}

/// The methods of the `sys.<ns>` namespace called `ns`; empty for a name
/// that is not a namespace.
pub open spec fn spec_ns_methods(ns: Seq<char>) -> Seq<Builtin> {
    if ns == "env"@ {
        spec_env_methods()
    } else     if ns == "os"@ {
        spec_os_methods()
    } else     if ns == "memory"@ {
        spec_memory_methods()
    } else     if ns == "cpu"@ {
        spec_cpu_methods()
    } else     if ns == "gpu"@ {
        spec_gpu_methods()
    } else     if ns == "disk"@ {
        spec_disk_methods()
    } else     if ns == "net"@ {
        spec_net_methods()
    } else     if ns == "process"@ {
        spec_process_methods()
    } else {
        Seq::empty()
    }
}

/// Look up the methods for a given namespace name (case-sensitive).
pub fn ns_methods(ns: &str) -> (r: Vec<Builtin>)
    ensures
        r@ == spec_ns_methods(ns@),
{
    if crate::text::str_eq(ns, "env") {
        env_methods()
    } else     if crate::text::str_eq(ns, "os") {
        os_methods()
    } else     if crate::text::str_eq(ns, "memory") {
        memory_methods()
    } else     if crate::text::str_eq(ns, "cpu") {
        cpu_methods()
    } else     if crate::text::str_eq(ns, "gpu") {
        gpu_methods()
    } else     if crate::text::str_eq(ns, "disk") {
        disk_methods()
    } else     if crate::text::str_eq(ns, "net") {
        net_methods()
    } else     if crate::text::str_eq(ns, "process") {
        process_methods()
    } else {
        Vec::new()
    }
}

/// Every table, in the order `find_by_label` searches them.
pub open spec fn spec_all_builtins() -> Seq<Builtin> {
    spec_keywords() + spec_top_level_builtins() + spec_sys_namespaces() + spec_env_methods() + spec_os_methods() + spec_memory_methods() + spec_cpu_methods() + spec_gpu_methods() + spec_disk_methods() + spec_net_methods() + spec_process_methods() + spec_array_methods() + spec_string_methods()
}
/// The first entry of `s` whose label is `label`.
pub open spec fn first_with_label(s: Seq<Builtin>, label: Seq<char>) -> Option<Builtin>
    decreases s.len(),
{
    if s.len() == 0 {
        None
    } else if s[0].label@ == label {
        Some(s[0])
    } else {
        first_with_label(s.drop_first(), label)
    }
}

proof fn lemma_first_with_label_skip(s: Seq<Builtin>, label: Seq<char>, i: int)
    requires
        0 <= i < s.len(),
        s[i].label@ != label,
    ensures
        first_with_label(s.skip(i), label) == first_with_label(s.skip(i + 1), label),
{
    assert(s.skip(i).drop_first() =~= s.skip(i + 1));
}

/// The first entry of `v` whose label is `label`.
fn find_in(v: &Vec<Builtin>, label: &str) -> (r: Option<Builtin>)
    ensures
        r == first_with_label(v@, label@),
{
    let mut i: usize = 0;
    assert(v@.skip(0) =~= v@);
    while i < v.len()
        invariant
            i <= v@.len(),
            first_with_label(v@, label@) == first_with_label(v@.skip(i as int), label@),
        decreases v@.len() - i,
    {
        if crate::text::str_eq(v[i].label, label) {
            return Some(v[i]);
        }
        proof {
            lemma_first_with_label_skip(v@, label@, i as int);
        }
        i += 1;
    }
    None
}

/// Look up a single builtin by its full label (e.g. `sys.readFile`),
/// searching the keywords, the global builtins, the `sys` namespaces,
/// every namespace's methods, then the array and string methods.
pub fn find_by_label(label: &str) -> (r: Option<Builtin>)
    ensures
        r == first_with_label(spec_all_builtins(), label@),
{
    let mut all = keywords();
    let mut t = top_level_builtins();
    all.append(&mut t);
    let mut t = sys_namespaces();
    all.append(&mut t);
    let mut t = env_methods();
    all.append(&mut t);
    let mut t = os_methods();
    all.append(&mut t);
    let mut t = memory_methods();
    all.append(&mut t);
    let mut t = cpu_methods();
    all.append(&mut t);
    let mut t = gpu_methods();
    all.append(&mut t);
    let mut t = disk_methods();
    all.append(&mut t);
    let mut t = net_methods();
    all.append(&mut t);
    let mut t = process_methods();
    all.append(&mut t);
    let mut t = array_methods();
    all.append(&mut t);
    let mut t = string_methods();
    all.append(&mut t);
    assert(all@ =~= spec_all_builtins());
    find_in(&all, label)
}

} // verus!
