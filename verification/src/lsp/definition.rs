//! Go to definition: the identifier under the cursor resolves to its
//! definition in the same document (a `let` / `const`, a function, a
//! parameter, a `for ... of` variable, an export) or, for an imported
//! name, to the export of the module it comes from.
//!
//! Module layout is Python-style: `import utils` is `./utils.tsr`,
//! `import os.path` is `./os/path.tsr`, relative to the current file.
//! Reading the other module is the caller's part: [`goto_definition`]
//! says which module and name to look for, [`module_file_path`] where
//! the module lives, and [`definition_in_module`] finds the name in it.

use crate::lsp::hover::{identifier_at, spec_identifier_at};
use crate::lsp::symbols::opt_string_view;
use crate::lsp::types::{Position, Range};
use crate::syntax::ast::{ExportDefault, ExportItem, ImportNamed, Param, Program, Stmt};
use crate::text::{chars_of, str_eq, string_from_chars, strings_view};
use vstd::prelude::*;
use vstd::string::StrSliceExecFns;

verus! {

/// The symbol of a default export: the function's name, or `__default`
/// for an anonymous function or a value.
pub open spec fn default_symbol(ed: ExportDefault) -> Seq<char> {
    match ed {
        ExportDefault::Function(f) => if f.name@.len() == 0 {
            "__default"@
        } else {
            f.name@
        },
        ExportDefault::Expr(_) => "__default"@,
    }
}

fn default_symbol_name(ed: &ExportDefault) -> (r: String)
    ensures
        r@ == default_symbol(*ed),
{
    match ed {
        ExportDefault::Function(f) => {
            if f.name.as_str().unicode_len() == 0 {
                String::from_str("__default")
            } else {
                f.name.clone()
            }
        },
        ExportDefault::Expr(_) => String::from_str("__default"),
    }
}


broadcast use vstd::std_specs::vec::group_vec_axioms;

/// A place in a document.
#[derive(Debug, Clone)]
pub struct Location {
    pub uri: String,
    pub range: Range,
}

pub type LocV = (Seq<char>, Range);

pub open spec fn loc_view(l: Location) -> LocV {
    (l.uri@, l.range)
}

pub open spec fn opt_loc_view(o: Option<Location>) -> Option<LocV> {
    match o {
        Some(l) => Some(loc_view(l)),
        None => None,
    }
}

/// Bytes of one character in UTF-8.
pub open spec fn char_utf8_len(c: char) -> nat {
    if (c as u32) < 0x80 {
        1
    } else if (c as u32) < 0x800 {
        2
    } else if (c as u32) < 0x10000 {
        3
    } else {
        4
    }
}

/// Bytes of a string in UTF-8.
pub open spec fn utf8_len(s: Seq<char>) -> nat
    decreases s.len(),
{
    if s.len() == 0 {
        0
    } else {
        utf8_len(s.drop_last()) + char_utf8_len(s.last())
    }
}

/// `str::len`: the length of `s` in bytes.
#[verifier::external_body]
fn byte_len(s: &str) -> (r: usize)
    ensures
        r == utf8_len(s@),
{
    s.len()
}

/// `a + b` wrapping around the width of `usize`.
pub open spec fn wrapping_usize(x: int) -> int {
    if x > usize::MAX {
        x - usize::MAX - 1
    } else {
        x
    }
}

/// From `(line, col)` over `len` characters on the same line; lines and
/// columns wider than 32 bits are cut to their low bits, and `col + len`
/// wraps around the width of `usize`.
pub open spec fn spec_location(uri: Seq<char>, line: usize, col: usize, len: usize) -> LocV {
    (
        uri,
        Range {
            start: Position { line: line as u32, character: col as u32 },
            end: Position { line: line as u32, character: (wrapping_usize(col + len) as usize) as u32 },
        },
    )
}

pub fn location(uri: &String, line: usize, col: usize, len: usize) -> (r: Location)
    ensures
        loc_view(r) == spec_location(uri@, line, col, len),
{
    let end = col.wrapping_add(len);
    Location {
        uri: uri.clone(),
        range: Range {
            start: Position { line: line as u32, character: col as u32 },
            end: Position { line: line as u32, character: end as u32 },
        },
    }
}

/// The start of the document, as a location.
pub open spec fn spec_zero_location(uri: Seq<char>) -> LocV {
    (uri, Range { start: Position { line: 0, character: 0 }, end: Position { line: 0, character: 0 } })
}

fn zero_location(uri: &String) -> (r: Location)
    ensures
        loc_view(r) == spec_zero_location(uri@),
{
    Location {
        uri: uri.clone(),
        range: Range { start: Position { line: 0, character: 0 }, end: Position { line: 0, character: 0 } },
    }
}

// ---------------------------------------------------------------------
// The identifier under the cursor.

/// Where line `line` starts, scanning from `i` with `cur` lines passed:
/// the first character reached on that line; `0` when no character is on
/// it (past the last line, or after a final newline).
pub open spec fn line_start_from(cs: Seq<char>, line: nat, i: int, cur: nat) -> int
    decreases cs.len() - i,
{
    if i >= cs.len() || i < 0 {
        0
    } else if cur == line {
        i
    } else {
        line_start_from(cs, line, i + 1, if cs[i] == '\n' { cur + 1 } else { cur })
    }
}

/// The first newline at or after `j`, or the end.
pub open spec fn line_end_from(cs: Seq<char>, j: int) -> int
    decreases cs.len() - j,
{
    if j >= cs.len() || j < 0 {
        cs.len() as int
    } else if cs[j] == '\n' {
        j
    } else {
        line_end_from(cs, j + 1)
    }
}

/// The cursor's line, and the cursor's place on it (at most its end).
pub open spec fn cursor_line(text: Seq<char>, pos: Position) -> (Seq<char>, int) {
    let start = line_start_from(text, pos.line as nat, 0, 0);
    let line = text.subrange(start, line_end_from(text, start));
    let idx = if (pos.character as int) <= line.len() {
        pos.character as int
    } else {
        line.len() as int
    };
    (line, idx)
}

/// The identifier the cursor touches on its line.
pub open spec fn spec_cursor_ident(text: Seq<char>, pos: Position) -> Option<Seq<char>> {
    let (line, idx) = cursor_line(text, pos);
    spec_identifier_at(line.take(idx), line.skip(idx))
}

proof fn lemma_line_end_bounds(cs: Seq<char>, j: int)
    requires
        0 <= j <= cs.len(),
    ensures
        j <= line_end_from(cs, j) <= cs.len(),
    decreases cs.len() - j,
{
    if j < cs.len() && cs[j] != '\n' {
        lemma_line_end_bounds(cs, j + 1);
    }
}

proof fn lemma_line_start_bounds(cs: Seq<char>, line: nat, i: int, cur: nat)
    requires
        0 <= i,
    ensures
        0 <= line_start_from(cs, line, i, cur) <= cs.len(),
    decreases cs.len() - i,
{
    if i < cs.len() && cur != line {
        lemma_line_start_bounds(cs, line, i + 1, if cs[i] == '\n' { cur + 1 } else { cur });
    }
}

/// The identifier under the cursor at `pos` in `text`.
pub fn ident_at_position(text: &str, pos: Position) -> (r: Option<String>)
    ensures
        opt_string_view(r) == spec_cursor_ident(text@, pos),
{
    let cs = chars_of(text);
    let mut start: usize = 0;
    let mut cur: u32 = 0;
    let mut i: usize = 0;
    let mut found = false;
    while i < cs.len() && !found
        invariant
            i <= cs@.len(),
            cs@ == text@,
            cur <= pos.line,
            !found ==> line_start_from(cs@, pos.line as nat, 0, 0) == line_start_from(
                cs@,
                pos.line as nat,
                i as int,
                cur as nat,
            ),
            found ==> start == line_start_from(cs@, pos.line as nat, 0, 0) && start < cs@.len(),
        decreases cs@.len() - i + (if found { 0int } else { 1int }),
    {
        if cur == pos.line {
            start = i;
            found = true;
        } else {
            if cs[i] == '\n' {
                cur = cur + 1;
            }
            i += 1;
        }
    }
    if !found {
        start = 0;
    }
    proof {
        lemma_line_start_bounds(cs@, pos.line as nat, 0, 0);
        lemma_line_end_bounds(cs@, start as int);
    }
    let mut end = start;
    while end < cs.len() && cs[end] != '\n'
        invariant
            start <= end <= cs@.len(),
            line_end_from(cs@, start as int) == line_end_from(cs@, end as int),
        decreases cs@.len() - end,
    {
        end += 1;
    }
    assert(line_end_from(cs@, end as int) == end as int);
    assert(start as int == line_start_from(cs@, pos.line as nat, 0, 0));
    let len = end - start;
    let idx: usize = if (pos.character as usize) <= len {
        pos.character as usize
    } else {
        len
    };
    let before = string_from_chars(&cs.as_slice()[start..start + idx]);
    let after = string_from_chars(&cs.as_slice()[start + idx..end]);
    proof {
        let line = cs@.subrange(start as int, end as int);
        assert(before@ =~= line.take(idx as int));
        assert(after@ =~= line.skip(idx as int));
    }
    identifier_at(before.as_str(), after.as_str())
}

/// The text before the position `pos`: the lines above it and its own
/// line up to the cursor (a column past the line's end stops at its end).
pub open spec fn spec_prefix_up_to(text: Seq<char>, pos: Position) -> Seq<char> {
    let start = line_start_from(text, pos.line as nat, 0, 0);
    text.take(start + cursor_line(text, pos).1)
}

/// The document text before the editor position `pos`.
pub fn prefix_up_to(text: &str, pos: Position) -> (r: String)
    ensures
        r@ == spec_prefix_up_to(text@, pos),
{
    let cs = chars_of(text);
    let mut start: usize = 0;
    let mut cur: u32 = 0;
    let mut i: usize = 0;
    let mut found = false;
    while i < cs.len() && !found
        invariant
            i <= cs@.len(),
            cs@ == text@,
            cur <= pos.line,
            !found ==> line_start_from(cs@, pos.line as nat, 0, 0) == line_start_from(
                cs@,
                pos.line as nat,
                i as int,
                cur as nat,
            ),
            found ==> start == line_start_from(cs@, pos.line as nat, 0, 0) && start < cs@.len(),
        decreases cs@.len() - i + (if found { 0int } else { 1int }),
    {
        if cur == pos.line {
            start = i;
            found = true;
        } else {
            if cs[i] == '\n' {
                cur = cur + 1;
            }
            i += 1;
        }
    }
    if !found {
        start = 0;
    }
    proof {
        lemma_line_start_bounds(cs@, pos.line as nat, 0, 0);
        lemma_line_end_bounds(cs@, start as int);
    }
    let mut end = start;
    while end < cs.len() && cs[end] != '\n'
        invariant
            start <= end <= cs@.len(),
            line_end_from(cs@, start as int) == line_end_from(cs@, end as int),
        decreases cs@.len() - end,
    {
        end += 1;
    }
    assert(line_end_from(cs@, end as int) == end as int);
    let len = end - start;
    let idx: usize = if (pos.character as usize) <= len {
        pos.character as usize
    } else {
        len
    };
    let r = string_from_chars(&cs.as_slice()[0..start + idx]);
    proof {
        assert(r@ =~= text@.take(start + idx));
    }
    r
}

// ---------------------------------------------------------------------
// Definitions of a document.

/// One named binding: its position, and for an imported name the module
/// path and the exported name (`None` for a whole-module import).
#[derive(Debug)]
pub struct Definition {
    pub name: String,
    pub line: usize,
    pub col: usize,
    pub import: Option<(Vec<String>, Option<String>)>,
}

pub type DefV = (Seq<char>, usize, usize, Option<(Seq<Seq<char>>, Option<Seq<char>>)>);

pub open spec fn def_view(d: Definition) -> DefV {
    (
        d.name@,
        d.line,
        d.col,
        match d.import {
            Some((m, e)) => Some((strings_view(m@), opt_string_view(e))),
            None => None,
        },
    )
}

pub open spec fn defs_view(s: Seq<Definition>) -> Seq<DefV> {
    s.map_values(|d: Definition| def_view(d))
}

pub open spec fn params_defs(ps: Seq<Param>) -> Seq<DefV> {
    ps.map_values(|p: Param| (p.name@, p.line, p.col, None::<(Seq<Seq<char>>, Option<Seq<char>>)>))
}

/// The local name an `import <module> [as <alias>]` binds.
pub open spec fn import_local_name(module: Seq<String>, alias: Option<String>) -> Seq<char> {
    match alias {
        Some(a) => a@,
        None => if module.len() > 0 {
            module.last()@
        } else {
            Seq::empty()
        },
    }
}

pub open spec fn from_import_defs(module: Seq<String>, names: Seq<ImportNamed>) -> Seq<DefV> {
    names.map_values(
        |n: ImportNamed|
            (
                match n.alias {
                    Some(a) => a@,
                    None => n.name@,
                },
                0usize,
                0usize,
                Some((strings_view(module), Some(n.name@))),
            ),
    )
}

pub open spec fn export_items_defs(items: Seq<ExportItem>) -> Seq<DefV> {
    items.map_values(
        |it: ExportItem|
            (
                match it.alias {
                    Some(a) => a@,
                    None => it.name@,
                },
                0usize,
                0usize,
                None::<(Seq<Seq<char>>, Option<Seq<char>>)>,
            ),
    )
}

pub open spec fn local_def(name: Seq<char>, line: usize, col: usize) -> Seq<DefV> {
    seq![(name, line, col, None::<(Seq<Seq<char>>, Option<Seq<char>>)>)]
}

/// The definitions a statement makes, in walk order: a function before
/// its parameters and body.
pub open spec fn stmt_defs(s: Stmt) -> Seq<DefV>
    decreases s,
{
    match s {
        Stmt::Let { name, line, col, .. } => local_def(name@, line, col),
        Stmt::Const { name, line, col, .. } => local_def(name@, line, col),
        Stmt::Function(f) => local_def(f.name@, f.line, f.col) + params_defs(f.params@) + stmts_defs(f.body@),
        Stmt::ForOf { name, body, .. } => local_def(name@, 0, 0) + stmts_defs(body@),
        Stmt::Import { module, alias } => seq![
            (import_local_name(module@, alias), 0usize, 0usize, Some((strings_view(module@), None::<Seq<char>>))),
        ],
        Stmt::FromImport { module, names, wildcard } => if wildcard {
            Seq::empty()
        } else {
            from_import_defs(module@, names@)
        },
        Stmt::ExportDecl(inner) => match *inner {
            Stmt::Let { name, line, col, .. } => local_def(name@, line, col),
            Stmt::Const { name, line, col, .. } => local_def(name@, line, col),
            Stmt::Function(f) => local_def(f.name@, f.line, f.col) + params_defs(f.params@) + stmts_defs(
                f.body@,
            ),
            _ => Seq::empty(),
        },
        Stmt::ExportSpec(items) => export_items_defs(items@),
        Stmt::ExportDefault(ed) => match ed {
            ExportDefault::Function(f) => if f.name@.len() == 0 {
                local_def("__default"@, f.line, f.col)
            } else {
                local_def(f.name@, f.line, f.col) + params_defs(f.params@) + stmts_defs(f.body@)
            },
            ExportDefault::Expr(_) => Seq::empty(),
        },
        Stmt::If { then_branch, else_branch, .. } => stmts_defs(then_branch@) + match else_branch {
            Some(b) => stmts_defs(b@),
            None => Seq::empty(),
        },
        Stmt::While { body, .. } => stmts_defs(body@),
        Stmt::For { init, body, .. } => (match init {
            Some(i) => stmt_defs(*i),
            None => Seq::empty(),
        }) + stmts_defs(body@),
        _ => Seq::empty(),
    }
}

pub open spec fn stmts_defs(ss: Seq<Stmt>) -> Seq<DefV>
    decreases ss,
{
    if ss.len() == 0 {
        Seq::empty()
    } else {
        stmts_defs(ss.drop_last()) + stmt_defs(ss.last())
    }
}

fn push_def(defs: &mut Vec<Definition>, name: String, line: usize, col: usize, import: Option<(Vec<String>, Option<String>)>)
    ensures
        defs_view(final(defs)@) == defs_view(old(defs)@).push(
            def_view(Definition { name, line, col, import }),
        ),
{
    let ghost d = def_view(Definition { name, line, col, import });
    defs.push(Definition { name, line, col, import });
    assert(defs_view(defs@) =~= defs_view(old(defs)@).push(d));
}

fn clone_strings(v: &Vec<String>) -> (r: Vec<String>)
    ensures
        strings_view(r@) == strings_view(v@),
{
    let mut out: Vec<String> = Vec::new();
    let mut i: usize = 0;
    while i < v.len()
        invariant
            i <= v@.len(),
            out@.len() == i,
            forall|k: int| 0 <= k < i ==> (#[trigger] out@[k])@ == v@[k]@,
        decreases v@.len() - i,
    {
        out.push(v[i].clone());
        i += 1;
    }
    assert(strings_view(out@) =~= strings_view(v@));
    out
}

#[verifier::loop_isolation(false)]
fn defs_of_params(ps: &Vec<Param>, defs: &mut Vec<Definition>)
    ensures
        defs_view(final(defs)@) == defs_view(old(defs)@) + params_defs(ps@),
{
    let ghost start = defs_view(defs@);
    let mut i: usize = 0;
    while i < ps.len()
        invariant
            i <= ps@.len(),
            defs_view(defs@) == start + params_defs(ps@.take(i as int)),
        decreases ps@.len() - i,
    {
        push_def(defs, ps[i].name.clone(), ps[i].line, ps[i].col, None);
        proof {
            assert(params_defs(ps@.take(i + 1)) =~= params_defs(ps@.take(i as int)).push(
                (ps@[i as int].name@, ps@[i as int].line, ps@[i as int].col, None),
            ));
        }
        i += 1;
    }
    assert(ps@.take(ps@.len() as int) =~= ps@);
}

#[verifier::loop_isolation(false)]
fn defs_of_block(ss: &Vec<Stmt>, defs: &mut Vec<Definition>)
    ensures
        defs_view(final(defs)@) == defs_view(old(defs)@) + stmts_defs(ss@),
    decreases ss,
{
    let ghost start = defs_view(defs@);
    let mut i: usize = 0;
    assert(ss@.take(0) =~= Seq::<Stmt>::empty());
    while i < ss.len()
        invariant
            i <= ss@.len(),
            defs_view(defs@) == start + stmts_defs(ss@.take(i as int)),
        decreases ss@.len() - i,
    {
        proof {
            assert(decreases_to!(*ss => ss[i as int]));
            assert(ss@.take(i + 1).drop_last() =~= ss@.take(i as int));
        }
        defs_of_stmt(&ss[i], defs);
        i += 1;
    }
    assert(ss@.take(ss@.len() as int) =~= ss@);
}

/// Adds the definitions `stmt` makes to `defs`.
#[verifier::loop_isolation(false)]
pub fn defs_of_stmt(stmt: &Stmt, defs: &mut Vec<Definition>)
    ensures
        defs_view(final(defs)@) == defs_view(old(defs)@) + stmt_defs(*stmt),
    decreases stmt,
{
    let ghost start = defs_view(defs@);
    match stmt {
        Stmt::Let { name, line, col, .. } | Stmt::Const { name, line, col, .. } => {
            push_def(defs, name.clone(), *line, *col, None);
        },
        Stmt::Function(f) => {
            push_def(defs, f.name.clone(), f.line, f.col, None);
            defs_of_params(&f.params, defs);
            defs_of_block(&f.body, defs);
        },
        Stmt::ForOf { name, body, .. } => {
            push_def(defs, name.clone(), 0, 0, None);
            defs_of_block(body, defs);
        },
        Stmt::Import { module, alias } => {
            let local = match alias {
                Some(a) => a.clone(),
                None => if module.len() > 0 {
                    module[module.len() - 1].clone()
                } else {
                    String::new()
                },
            };
            push_def(defs, local, 0, 0, Some((clone_strings(module), None)));
        },
        Stmt::FromImport { module, names, wildcard } => {
            if !*wildcard {
                let mut i: usize = 0;
                while i < names.len()
                    invariant
                        i <= names@.len(),
                        defs_view(defs@) == start + from_import_defs(module@, names@.take(i as int)),
                    decreases names@.len() - i,
                {
                    let local = match &names[i].alias {
                        Some(a) => a.clone(),
                        None => names[i].name.clone(),
                    };
                    push_def(defs, local, 0, 0, Some((clone_strings(module), Some(names[i].name.clone()))));
                    proof {
                        assert(from_import_defs(module@, names@.take(i + 1)) =~= from_import_defs(
                            module@,
                            names@.take(i as int),
                        ).push(from_import_defs(module@, names@)[i as int]));
                    }
                    i += 1;
                }
                assert(names@.take(names@.len() as int) =~= names@);
            }
        },
        Stmt::ExportDecl(inner) => match &**inner {
            Stmt::Let { name, line, col, .. } | Stmt::Const { name, line, col, .. } => {
                push_def(defs, name.clone(), *line, *col, None);
            },
            Stmt::Function(f) => {
                push_def(defs, f.name.clone(), f.line, f.col, None);
                defs_of_params(&f.params, defs);
                defs_of_block(&f.body, defs);
            },
            _ => {},
        },
        Stmt::ExportSpec(items) => {
            let mut i: usize = 0;
            while i < items.len()
                invariant
                    i <= items@.len(),
                    defs_view(defs@) == start + export_items_defs(items@.take(i as int)),
                decreases items@.len() - i,
            {
                let local = match &items[i].alias {
                    Some(a) => a.clone(),
                    None => items[i].name.clone(),
                };
                push_def(defs, local, 0, 0, None);
                proof {
                    assert(export_items_defs(items@.take(i + 1)) =~= export_items_defs(items@.take(i as int)).push(
                        export_items_defs(items@)[i as int],
                    ));
                }
                i += 1;
            }
            assert(items@.take(items@.len() as int) =~= items@);
        },
        Stmt::ExportDefault(ExportDefault::Function(f)) => {
            if f.name.as_str().unicode_len() == 0 {
                push_def(defs, String::from_str("__default"), f.line, f.col, None);
            } else {
                push_def(defs, f.name.clone(), f.line, f.col, None);
                defs_of_params(&f.params, defs);
                defs_of_block(&f.body, defs);
            }
        },
        Stmt::If { then_branch, else_branch, .. } => {
            defs_of_block(then_branch, defs);
            if let Some(b) = else_branch {
                defs_of_block(b, defs);
            }
        },
        Stmt::While { body, .. } => defs_of_block(body, defs),
        Stmt::For { init, body, .. } => {
            if let Some(i) = init {
                defs_of_stmt(i, defs);
            }
            defs_of_block(body, defs);
        },
        _ => {},
    }
    assert(defs_view(defs@) =~= start + stmt_defs(*stmt));
}

/// Every definition of `program`, in walk order.
pub fn collect_definitions(program: &Program) -> (r: Vec<Definition>)
    ensures
        defs_view(r@) == stmts_defs(program.stmts@),
{
    let mut defs: Vec<Definition> = Vec::new();
    assert(defs_view(defs@) =~= Seq::empty());
    defs_of_block(&program.stmts, &mut defs);
    assert(defs_view(defs@) =~= Seq::empty() + stmts_defs(program.stmts@));
    defs
}

// ---------------------------------------------------------------------
// Resolving the identifier.

/// The first definition from `i` on named `name` that is (or, with
/// `imported` false, is not) an import.
pub open spec fn first_def_from(d: Seq<DefV>, name: Seq<char>, imported: bool, i: int) -> Option<int>
    decreases d.len() - i,
{
    if i < 0 || i >= d.len() {
        None
    } else if d[i].0 == name && (d[i].3 is Some) == imported {
        Some(i)
    } else {
        first_def_from(d, name, imported, i + 1)
    }
}

/// What the identifier resolves to: a place in the document, or a name
/// to look for in another module (`None` for the module itself).
#[derive(Debug)]
pub enum DefinitionLookup {
    Found(Location),
    Import { module: Vec<String>, export_name: Option<String> },
}

pub enum LookupV {
    Found(LocV),
    Import(Seq<Seq<char>>, Option<Seq<char>>),
}

pub open spec fn lookup_view(l: DefinitionLookup) -> LookupV {
    match l {
        DefinitionLookup::Found(loc) => LookupV::Found(loc_view(loc)),
        DefinitionLookup::Import { module, export_name } => LookupV::Import(
            strings_view(module@),
            opt_string_view(export_name),
        ),
    }
}

/// How `ident` resolves among the definitions `d` of the document at
/// `uri`: its first local definition, else its first import, else not.
pub open spec fn spec_resolve(d: Seq<DefV>, ident: Seq<char>, uri: Seq<char>) -> Option<LookupV> {
    match first_def_from(d, ident, false, 0) {
        Some(i) => Some(LookupV::Found(spec_location(uri, d[i].1, d[i].2, utf8_len(d[i].0) as usize))),
        None => match first_def_from(d, ident, true, 0) {
            Some(i) => Some(LookupV::Import(d[i].3->Some_0.0, d[i].3->Some_0.1)),
            None => None,
        },
    }
}

proof fn lemma_first_def(d: Seq<DefV>, name: Seq<char>, imported: bool, k: int)
    ensures
        first_def_from(d, name, imported, k) matches Some(i) ==> {
            &&& k <= i < d.len()
            &&& d[i].0 == name
            &&& (d[i].3 is Some) == imported
        },
    decreases d.len() - k,
{
    if 0 <= k < d.len() && !(d[k].0 == name && (d[k].3 is Some) == imported) {
        lemma_first_def(d, name, imported, k + 1);
    }
}

fn find_def(defs: &Vec<Definition>, name: &String, imported: bool) -> (r: Option<usize>)
    ensures
        match r {
            Some(i) => first_def_from(defs_view(defs@), name@, imported, 0) == Some(i as int) && i < defs@.len(),
            None => first_def_from(defs_view(defs@), name@, imported, 0) is None,
        },
{
    let mut i: usize = 0;
    while i < defs.len()
        invariant
            i <= defs@.len(),
            first_def_from(defs_view(defs@), name@, imported, 0) == first_def_from(
                defs_view(defs@),
                name@,
                imported,
                i as int,
            ),
        decreases defs@.len() - i,
    {
        proof {
            assert(defs_view(defs@)[i as int] == def_view(defs@[i as int]));
        }
        if str_eq(defs[i].name.as_str(), name.as_str()) && defs[i].import.is_some() == imported {
            return Some(i);
        }
        i += 1;
    }
    None
}

fn clone_opt_string(o: &Option<String>) -> (r: Option<String>)
    ensures
        opt_string_view(r) == opt_string_view(*o),
{
    match o {
        Some(s) => Some(s.clone()),
        None => None,
    }
}

/// Resolves `ident` in `program`, the document at `uri`.
pub fn resolve_in_program(program: &Program, ident: &String, uri: &String) -> (r: Option<DefinitionLookup>)
    ensures
        match r {
            Some(l) => spec_resolve(stmts_defs(program.stmts@), ident@, uri@) == Some(lookup_view(l)),
            None => spec_resolve(stmts_defs(program.stmts@), ident@, uri@) is None,
        },
{
    let defs = collect_definitions(program);
    let ghost d = defs_view(defs@);
    match find_def(&defs, ident, false) {
        Some(i) => {
            let len = byte_len(defs[i].name.as_str());
            proof {
                assert(d[i as int] == def_view(defs@[i as int]));
            }
            Some(DefinitionLookup::Found(location(uri, defs[i].line, defs[i].col, len)))
        },
        None => match find_def(&defs, ident, true) {
            Some(i) => {
                proof {
                    assert(d[i as int] == def_view(defs@[i as int]));
                    lemma_first_def(d, ident@, true, 0);
                    assert(d[i as int].3 is Some);
                    assert(defs@[i as int].import is Some);
                }
                match &defs[i].import {
                    Some((m, e)) => Some(
                        DefinitionLookup::Import { module: clone_strings(m), export_name: clone_opt_string(e) },
                    ),
                    None => None,
                }
            },
            None => None,
        },
    }
}

/// Whether `text` is short enough to be lexed.
pub open spec fn lexable(text: Seq<char>) -> bool {
    text.len() < usize::MAX - 4
}

/// Lexes and parses `text`; `None` when it does not lex or parse.
fn parse_text(text: &str) -> (r: Option<Program>) {
    if text.unicode_len() >= usize::MAX - 4 {
        return None;
    }
    let tokens = match crate::syntax::lexer::lex(text) {
        Ok(ts) => ts,
        Err(_) => {
            return None;
        },
    };
    match crate::syntax::parser::parse(tokens) {
        Ok(p) => Some(p),
        Err(_) => None,
    }
}

/// The definition of the identifier at `pos` in `text`, the document at
/// `uri`: `None` when the cursor is on no identifier, the document does
/// not parse, or nothing defines the identifier. Otherwise the result
/// is how the identifier resolves among the document's definitions.
pub fn goto_definition(text: &str, uri: &String, pos: Position) -> (r: Option<DefinitionLookup>)
    ensures
        spec_cursor_ident(text@, pos) is None ==> r is None,
        r matches Some(l) ==> exists|p: Program|
            #[trigger] spec_resolve(stmts_defs(p.stmts@), spec_cursor_ident(text@, pos)->Some_0, uri@) == Some(
                lookup_view(l),
            ),
{
    let ident = match ident_at_position(text, pos) {
        Some(i) => i,
        None => {
            return None;
        },
    };
    let program = match parse_text(text) {
        Some(p) => p,
        None => {
            return None;
        },
    };
    let r = resolve_in_program(&program, &ident, uri);
    proof {
        if r is Some {
            assert(spec_resolve(stmts_defs(program.stmts@), spec_cursor_ident(text@, pos)->Some_0, uri@) == Some(
                lookup_view(r->Some_0),
            ));
        }
    }
    r
}

// ---------------------------------------------------------------------
// Finding a name in another module.

/// The location of `len` characters at a declaration, in the document at
/// `uri`.
pub open spec fn decl_location(uri: Seq<char>, line: usize, col: usize, name: Seq<char>) -> LocV {
    spec_location(uri, line, col, utf8_len(name) as usize)
}

/// A top-level `let`, `const` or function named `name`, as a location.
pub open spec fn local_answer(s: Stmt, name: Seq<char>, uri: Seq<char>) -> Option<LocV> {
    match s {
        Stmt::Let { name: n, line, col, .. } => if n@ == name {
            Some(decl_location(uri, line, col, n@))
        } else {
            None
        },
        Stmt::Const { name: n, line, col, .. } => if n@ == name {
            Some(decl_location(uri, line, col, n@))
        } else {
            None
        },
        Stmt::Function(f) => if f.name@ == name {
            Some(decl_location(uri, f.line, f.col, f.name@))
        } else {
            None
        },
        _ => None,
    }
}

pub open spec fn first_local_from(ss: Seq<Stmt>, name: Seq<char>, uri: Seq<char>, i: int) -> Option<LocV>
    decreases ss.len() - i,
{
    if i < 0 || i >= ss.len() {
        None
    } else {
        match local_answer(ss[i], name, uri) {
            Some(l) => Some(l),
            None => first_local_from(ss, name, uri, i + 1),
        }
    }
}

fn local_at(s: &Stmt, name: &str, uri: &String) -> (r: Option<Location>)
    ensures
        opt_loc_view(r) == local_answer(*s, name@, uri@),
{
    match s {
        Stmt::Let { name: n, line, col, .. } | Stmt::Const { name: n, line, col, .. } => {
            if str_eq(n.as_str(), name) {
                Some(location(uri, *line, *col, byte_len(n.as_str())))
            } else {
                None
            }
        },
        Stmt::Function(f) => {
            if str_eq(f.name.as_str(), name) {
                Some(location(uri, f.line, f.col, byte_len(f.name.as_str())))
            } else {
                None
            }
        },
        _ => None,
    }
}

/// The first top-level `let`, `const` or function of `program` named
/// `name`.
pub fn find_local_def(program: &Program, name: &str, uri: &String) -> (r: Option<Location>)
    ensures
        opt_loc_view(r) == first_local_from(program.stmts@, name@, uri@, 0),
{
    let ss = &program.stmts;
    let mut i: usize = 0;
    while i < ss.len()
        invariant
            i <= ss@.len(),
            ss@ == program.stmts@,
            first_local_from(ss@, name@, uri@, 0) == first_local_from(ss@, name@, uri@, i as int),
        decreases ss@.len() - i,
    {
        let a = local_at(&ss[i], name, uri);
        if let Some(l) = a {
            return Some(l);
        }
        i += 1;
    }
    None
}

/// The name an item of `export { .. }` exports.
pub open spec fn exported_name(it: ExportItem) -> Seq<char> {
    match it.alias {
        Some(a) => a@,
        None => it.name@,
    }
}

pub open spec fn first_item_from(items: Seq<ExportItem>, target: Seq<char>, k: int) -> Option<int>
    decreases items.len() - k,
{
    if k < 0 || k >= items.len() {
        None
    } else if exported_name(items[k]) == target {
        Some(k)
    } else {
        first_item_from(items, target, k + 1)
    }
}

/// What one statement of a module answers for the export `target`, if
/// it exports it: the declaration; for `export { .. }`, the local
/// declaration of the name it re-exports (the start of the module when
/// there is none); for a default export, the function (at least eight
/// characters long) or the start of the module.
pub open spec fn export_answer(s: Stmt, all: Seq<Stmt>, target: Seq<char>, uri: Seq<char>) -> Option<LocV> {
    match s {
        Stmt::ExportDecl(inner) => match *inner {
            Stmt::Let { name, line, col, .. } => if name@ == target {
                Some(decl_location(uri, line, col, name@))
            } else {
                None
            },
            Stmt::Const { name, line, col, .. } => if name@ == target {
                Some(decl_location(uri, line, col, name@))
            } else {
                None
            },
            Stmt::Function(f) => if f.name@ == target {
                Some(decl_location(uri, f.line, f.col, f.name@))
            } else {
                None
            },
            _ => None,
        },
        Stmt::ExportSpec(items) => match first_item_from(items@, target, 0) {
            Some(k) => Some(
                match first_local_from(all, items@[k].name@, uri, 0) {
                    Some(l) => l,
                    None => spec_zero_location(uri),
                },
            ),
            None => None,
        },
        Stmt::ExportDefault(ed) => if target == default_symbol(ed) || target
            == "__default"@ {
            match ed {
                ExportDefault::Function(f) => Some(
                    spec_location(
                        uri,
                        f.line,
                        f.col,
                        if utf8_len(f.name@) >= 8 {
                            utf8_len(f.name@) as usize
                        } else {
                            8
                        },
                    ),
                ),
                ExportDefault::Expr(_) => Some(spec_zero_location(uri)),
            }
        } else {
            None
        },
        _ => None,
    }
}

pub open spec fn first_export_from(ss: Seq<Stmt>, target: Seq<char>, uri: Seq<char>, i: int) -> Option<LocV>
    decreases ss.len() - i,
{
    if i < 0 || i >= ss.len() {
        None
    } else {
        match export_answer(ss[i], ss, target, uri) {
            Some(l) => Some(l),
            None => first_export_from(ss, target, uri, i + 1),
        }
    }
}

#[verifier::loop_isolation(false)]
fn export_at(s: &Stmt, program: &Program, target: &str, uri: &String) -> (r: Option<Location>)
    ensures
        opt_loc_view(r) == export_answer(*s, program.stmts@, target@, uri@),
{
    match s {
        Stmt::ExportDecl(inner) => match &**inner {
            Stmt::Let { name, line, col, .. } | Stmt::Const { name, line, col, .. } => {
                if str_eq(name.as_str(), target) {
                    Some(location(uri, *line, *col, byte_len(name.as_str())))
                } else {
                    None
                }
            },
            Stmt::Function(f) => {
                if str_eq(f.name.as_str(), target) {
                    Some(location(uri, f.line, f.col, byte_len(f.name.as_str())))
                } else {
                    None
                }
            },
            _ => None,
        },
        Stmt::ExportSpec(items) => {
            let mut k: usize = 0;
            while k < items.len()
                invariant
                    k <= items@.len(),
                    first_item_from(items@, target@, 0) == first_item_from(items@, target@, k as int),
                decreases items@.len() - k,
            {
                let exported = match &items[k].alias {
                    Some(a) => a,
                    None => &items[k].name,
                };
                if str_eq(exported.as_str(), target) {
                    proof {
                        assert(first_item_from(items@, target@, k as int) == Some(k as int));
                    }
                    let found = find_local_def(program, items[k].name.as_str(), uri);
                    return match found {
                        Some(l) => Some(l),
                        None => Some(zero_location(uri)),
                    };
                }
                k += 1;
            }
            None
        },
        Stmt::ExportDefault(ed) => {
            let dn = default_symbol_name(ed);
            if str_eq(target, dn.as_str()) || str_eq(target, "__default") {
                match ed {
                    ExportDefault::Function(f) => {
                        let n = byte_len(f.name.as_str());
                        let len = if n >= 8 {
                            n
                        } else {
                            8
                        };
                        Some(location(uri, f.line, f.col, len))
                    },
                    ExportDefault::Expr(_) => Some(zero_location(uri)),
                }
            } else {
                None
            }
        },
        _ => None,
    }
}

/// Where `program`, the module at `uri`, defines its export `target`:
/// the first statement that exports it.
pub fn find_export(program: &Program, target: &str, uri: &String) -> (r: Option<Location>)
    ensures
        opt_loc_view(r) == first_export_from(program.stmts@, target@, uri@, 0),
{
    let ss = &program.stmts;
    let mut i: usize = 0;
    while i < ss.len()
        invariant
            i <= ss@.len(),
            ss@ == program.stmts@,
            first_export_from(ss@, target@, uri@, 0) == first_export_from(ss@, target@, uri@, i as int),
        decreases ss@.len() - i,
    {
        let a = export_at(&ss[i], program, target, uri);
        if let Some(l) = a {
            return Some(l);
        }
        i += 1;
    }
    None
}

/// A statement that declares something, as a location: a `let`, `const`
/// or function, exported or not, or a default-exported function (eight
/// characters long when anonymous).
pub open spec fn first_def_answer(s: Stmt, uri: Seq<char>) -> Option<LocV> {
    match s {
        Stmt::Let { name, line, col, .. } => Some(decl_location(uri, line, col, name@)),
        Stmt::Const { name, line, col, .. } => Some(decl_location(uri, line, col, name@)),
        Stmt::Function(f) => Some(decl_location(uri, f.line, f.col, f.name@)),
        Stmt::ExportDecl(inner) => match *inner {
            Stmt::Let { name, line, col, .. } => Some(decl_location(uri, line, col, name@)),
            Stmt::Const { name, line, col, .. } => Some(decl_location(uri, line, col, name@)),
            Stmt::Function(f) => Some(decl_location(uri, f.line, f.col, f.name@)),
            _ => None,
        },
        Stmt::ExportDefault(ExportDefault::Function(f)) => Some(
            spec_location(
                uri,
                f.line,
                f.col,
                if f.name@.len() == 0 {
                    8
                } else {
                    utf8_len(f.name@) as usize
                },
            ),
        ),
        _ => None,
    }
}

pub open spec fn first_decl_from(ss: Seq<Stmt>, uri: Seq<char>, i: int) -> Option<LocV>
    decreases ss.len() - i,
{
    if i < 0 || i >= ss.len() {
        None
    } else {
        match first_def_answer(ss[i], uri) {
            Some(l) => Some(l),
            None => first_decl_from(ss, uri, i + 1),
        }
    }
}

fn decl_at(s: &Stmt, uri: &String) -> (r: Option<Location>)
    ensures
        opt_loc_view(r) == first_def_answer(*s, uri@),
{
    match s {
        Stmt::Let { name, line, col, .. } | Stmt::Const { name, line, col, .. } => Some(
            location(uri, *line, *col, byte_len(name.as_str())),
        ),
        Stmt::Function(f) => Some(location(uri, f.line, f.col, byte_len(f.name.as_str()))),
        Stmt::ExportDecl(inner) => match &**inner {
            Stmt::Let { name, line, col, .. } | Stmt::Const { name, line, col, .. } => Some(
                location(uri, *line, *col, byte_len(name.as_str())),
            ),
            Stmt::Function(f) => Some(location(uri, f.line, f.col, byte_len(f.name.as_str()))),
            _ => None,
        },
        Stmt::ExportDefault(ExportDefault::Function(f)) => {
            let len = if f.name.as_str().unicode_len() == 0 {
                8
            } else {
                byte_len(f.name.as_str())
            };
            Some(location(uri, f.line, f.col, len))
        },
        _ => None,
    }
}

/// The first declaration of `program`, the module at `uri` (where a
/// whole-module import leads).
pub fn first_definition_location(program: &Program, uri: &String) -> (r: Option<Location>)
    ensures
        opt_loc_view(r) == first_decl_from(program.stmts@, uri@, 0),
{
    let ss = &program.stmts;
    let mut i: usize = 0;
    while i < ss.len()
        invariant
            i <= ss@.len(),
            ss@ == program.stmts@,
            first_decl_from(ss@, uri@, 0) == first_decl_from(ss@, uri@, i as int),
        decreases ss@.len() - i,
    {
        let a = decl_at(&ss[i], uri);
        if let Some(l) = a {
            return Some(l);
        }
        i += 1;
    }
    None
}

/// Where an imported name is defined in its module's `program`, the
/// module at `uri`: its export, or the module's first declaration for a
/// whole-module import.
pub open spec fn spec_definition_in(program: Program, uri: Seq<char>, export_name: Option<Seq<char>>) -> Option<
    LocV,
> {
    match export_name {
        Some(n) => first_export_from(program.stmts@, n, uri, 0),
        None => first_decl_from(program.stmts@, uri, 0),
    }
}

/// [`spec_definition_in`] for the module with source `text`; `None` when
/// it does not parse.
pub fn definition_in_module(text: &str, uri: &String, export_name: &Option<String>) -> (r: Option<Location>)
    ensures
        r matches Some(l) ==> exists|p: Program|
            #[trigger] spec_definition_in(p, uri@, opt_string_view(*export_name)) == Some(loc_view(l)),
{
    let program = match parse_text(text) {
        Some(p) => p,
        None => {
            return None;
        },
    };
    let r = match export_name {
        Some(n) => find_export(&program, n.as_str(), uri),
        None => first_definition_location(&program, uri),
    };
    proof {
        if r is Some {
            assert(spec_definition_in(program, uri@, opt_string_view(*export_name)) == Some(loc_view(r->Some_0)));
        }
    }
    r
}

// ---------------------------------------------------------------------
// Where a module lives.

/// What `Path::parent` gives for a path.
pub uninterp spec fn path_parent(path: Seq<char>) -> Option<Seq<char>>;

/// What `PathBuf::push` makes of a path and a component.
pub uninterp spec fn path_pushed(base: Seq<char>, part: Seq<char>) -> Seq<char>;

/// `std::path::Path::parent`: the path without its last component
/// (`None` for a root or an empty path). The result is named, as a
/// function of the path alone.
#[verifier::external_body]
pub(crate) fn parent_of(path: &str) -> (r: Option<String>)
    ensures
        match r {
            Some(p) => path_parent(path@) == Some(p@),
            None => path_parent(path@) is None,
        },
{
    match std::path::Path::new(path).parent() {
        Some(p) => Some(p.to_string_lossy().into_owned()),
        None => None,
    }
}

/// `std::path::PathBuf::push`: `base` extended by `part`. The result is
/// named, as a function of the two paths alone.
#[verifier::external_body]
pub(crate) fn pushed(base: &str, part: &str) -> (r: String)
    ensures
        r@ == path_pushed(base@, part@),
{
    let mut p = std::path::PathBuf::from(base);
    p.push(part);
    p.to_string_lossy().into_owned()
}

/// `dir` extended by the segments, the last one with `.tsr` added.
pub open spec fn module_path_from(dir: Seq<char>, module: Seq<Seq<char>>) -> Seq<char>
    decreases module.len(),
{
    if module.len() == 0 {
        dir
    } else if module.len() == 1 {
        path_pushed(dir, module[0] + ".tsr"@)
    } else {
        module_path_from(path_pushed(dir, module[0]), module.drop_first())
    }
}

/// The file of `module` (`["os", "path"]` is `os/path.tsr`) next to the
/// document whose URI has scheme `scheme` and path `path`; `None` unless
/// the scheme is `file` and the path has a parent.
pub fn module_file_path(scheme: &str, path: &str, module: &Vec<String>) -> (r: Option<String>)
    ensures
        match r {
            Some(p) => scheme@ == "file"@ && path_parent(path@) is Some && p@ == module_path_from(
                path_parent(path@)->Some_0,
                strings_view(module@),
            ),
            None => scheme@ != "file"@ || path_parent(path@) is None,
        },
{
    if !str_eq(scheme, "file") {
        return None;
    }
    let dir = match parent_of(path) {
        Some(d) => d,
        None => {
            return None;
        },
    };
    let ghost segs = strings_view(module@);
    assert(segs.skip(0) =~= segs);
    let mut acc = dir;
    let mut i: usize = 0;
    while i < module.len()
        invariant
            i <= module@.len(),
            segs == strings_view(module@),
            module_path_from(path_parent(path@)->Some_0, segs) == (if i == module@.len() {
                acc@
            } else {
                module_path_from(acc@, segs.skip(i as int))
            }),
        decreases module@.len() - i,
    {
        proof {
            let rest = segs.skip(i as int);
            assert(rest[0] == module@[i as int]@);
            assert(rest.drop_first() =~= segs.skip(i + 1));
        }
        if i + 1 == module.len() {
            let mut last = module[i].clone();
            last.append(".tsr");
            acc = pushed(acc.as_str(), last.as_str());
        } else {
            acc = pushed(acc.as_str(), module[i].as_str());
        }
        i += 1;
    }
    Some(acc)
}

} // verus!
