//! `import` and `export`, in ES style (`import { a } from "utils";`,
//! `import * as u from "./utils";`, `import d, { a } from "utils";`) and
//! Python style (`import utils as u;`, `from utils import a, b as c;`,
//! `from utils import *;`). A first path segment `crate:name` names an
//! external Rust crate.

use crate::syntax::ast::{ExportDefault, ExportItem, ImportNamed, Stmt};
use crate::syntax::parser::{error_at, outcome, steps, ParseError, Parser};
use crate::syntax::token::TokenKind;
use crate::text::{owned, push_char, str_eq, string_from_chars};
use vstd::prelude::*;

verus! {

broadcast use vstd::std_specs::vec::group_vec_axioms;

/// Name an import list uses for the module's default export.
pub open spec fn spec_default_import() -> Seq<char> {
    "default"@
}

pub fn default_import() -> (r: String)
    ensures
        r@ == spec_default_import(),
{
    owned("default")
}

/// Splitting at `/`: the segments completed so far and the one being read.
pub open spec fn split_state(s: Seq<char>) -> (Seq<Seq<char>>, Seq<char>)
    decreases s.len(),
{
    if s.len() == 0 {
        (Seq::empty(), Seq::empty())
    } else {
        let (done, cur) = split_state(s.drop_last());
        if s.last() == '/' {
            if cur.len() > 0 {
                (done.push(cur), Seq::empty())
            } else {
                (done, Seq::empty())
            }
        } else {
            (done, cur.push(s.last()))
        }
    }
}

/// The non-empty `/`-separated segments of `s`, in order.
pub open spec fn path_segments(s: Seq<char>) -> Seq<Seq<char>> {
    let (done, cur) = split_state(s);
    if cur.len() > 0 {
        done.push(cur)
    } else {
        done
    }
}

/// A string module specifier without its leading `./`.
pub open spec fn strip_dot_slash(s: Seq<char>) -> Seq<char> {
    if s.len() >= 2 && s[0] == '.' && s[1] == '/' {
        s.subrange(2, s.len() as int)
    } else {
        s
    }
}

/// Segments of a string module specifier (`"utils"`, `"./dir/utils"`,
/// `"crate:serde"`): the leading `./` dropped, split at `/`, empty
/// segments left out.
pub open spec fn spec_string_spec_to_path(spec: Seq<char>) -> Seq<Seq<char>> {
    path_segments(strip_dot_slash(spec))
}

pub fn string_spec_to_path(spec: &str) -> (r: Vec<String>)
    ensures
        crate::text::strings_view(r@) == spec_string_spec_to_path(spec@),
{
    let all = crate::text::chars_of(spec);
    let start: usize = if all.len() >= 2 && all[0] == '.' && all[1] == '/' {
        2
    } else {
        0
    };
    let ghost s = strip_dot_slash(spec@);
    assert(s =~= all@.subrange(start as int, all@.len() as int));
    let mut done: Vec<String> = Vec::new();
    let mut cur: Vec<char> = Vec::new();
    let mut i: usize = start;
    while i < all.len()
        invariant
            start <= i <= all@.len(),
            s == all@.subrange(start as int, all@.len() as int),
            split_state(s.take(i - start)) == (crate::text::strings_view(done@), cur@),
        decreases all@.len() - i,
    {
        let c = all[i];
        proof {
            assert(s.take(i - start + 1).drop_last() =~= s.take(i - start));
            assert(s.take(i - start + 1).last() == c);
        }
        if c == '/' {
            if cur.len() > 0 {
                let seg = string_from_chars(cur.as_slice());
                done.push(seg);
                cur = Vec::new();
                proof {
                    assert(crate::text::strings_view(done@) =~= split_state(s.take(i - start)).0.push(
                        seg@,
                    ));
                }
            }
        } else {
            cur.push(c);
        }
        i += 1;
    }
    assert(s.take(i - start) =~= s);
    if cur.len() > 0 {
        let seg = string_from_chars(cur.as_slice());
        let ghost before = done@;
        done.push(seg);
        assert(crate::text::strings_view(done@) =~= crate::text::strings_view(before).push(seg@));
    }
    done
}

impl Parser {
    /// `name (. name)*`; a first segment `crate` followed by `:name` reads
    /// as the single segment `crate:name`.
    pub fn parse_module_path(&mut self) -> (r: Result<Vec<String>, ParseError>)
        requires
            old(self).wf(),
        ensures
            outcome(*old(self), *final(self), r),
            r matches Ok(p) ==> p@.len() >= 1,
    {
        let mut first = self.expect_ident("module name")?;
        if str_eq(first.as_str(), "crate") && self.matches(TokenKind::Colon) {
            let name = self.expect_ident("crate name after `crate:`")?;
            let mut joined = owned("crate:");
            joined.append(name.as_str());
            first = joined;
        }
        let mut path: Vec<String> = Vec::new();
        path.push(first);
        loop
            invariant
                self.wf(),
                self.tokens@ == old(self).tokens@,
                old(self).pos < self.pos,
                path@.len() >= 1,
            decreases self.remaining(),
        {
            if !self.matches(TokenKind::Dot) {
                break;
            }
            let next = self.expect_ident("module name after `.`")?;
            path.push(next);
        }
        Ok(path)
    }

    /// The module after `from`: a string specifier (which must name at
    /// least one segment) or a dotted path.
    pub fn parse_module_spec(&mut self) -> (r: Result<Vec<String>, ParseError>)
        requires
            old(self).wf(),
        ensures
            outcome(*old(self), *final(self), r),
            r matches Ok(p) ==> p@.len() >= 1,
            old(self).cur_kind() == TokenKind::Str ==> match r {
                Ok(p) => crate::text::strings_view(p@) == spec_string_spec_to_path(
                    old(self).tokens@[old(self).pos as int].text@,
                ),
                Err(_) => spec_string_spec_to_path(old(self).tokens@[old(self).pos as int].text@).len()
                    == 0,
            },
    {
        if self.check(TokenKind::Str) {
            let at = self.pos;
            let tok = self.advance();
            let segments = string_spec_to_path(tok.text.as_str());
            if segments.len() == 0 {
                return Err(error_at(&self.tokens, at, owned("empty module specifier")));
            }
            Ok(segments)
        } else {
            self.parse_module_path()
        }
    }

    /// `name [as alias] (, name [as alias])*`; the keyword `default` may
    /// stand as a name.
    #[verifier::loop_isolation(false)]
    pub fn parse_named_list(&mut self) -> (r: Result<Vec<ImportNamed>, ParseError>)
        requires
            old(self).wf(),
        ensures
            outcome(*old(self), *final(self), r),
            r matches Ok(v) ==> v@.len() >= 1,
    {
        let mut names: Vec<ImportNamed> = Vec::new();
        loop
            invariant
                self.wf(),
                self.tokens@ == old(self).tokens@,
                old(self).pos <= self.pos,
                names@.len() >= 1 ==> old(self).pos < self.pos,
            decreases self.remaining(),
        {
            let name = if self.matches(TokenKind::Default) {
                default_import()
            } else {
                self.expect_ident("imported name")?
            };
            let alias = if self.matches(TokenKind::As) {
                Some(self.expect_ident("alias after `as`")?)
            } else {
                None
            };
            names.push(ImportNamed { name, alias });
            if !self.matches(TokenKind::Comma) {
                break;
            }
        }
        Ok(names)
    }

    /// `import { a, b as c } from M;`, `import * as ns from M;`,
    /// `import d [, { a }] from M;` (a default import) or
    /// `import path [as alias];`.
    pub fn parse_import(&mut self) -> (r: Result<Stmt, ParseError>)
        requires
            old(self).wf(),
        ensures
            outcome(*old(self), *final(self), r),
            r matches Ok(s) ==> s is Import || s is FromImport,
        decreases old(self).remaining(), 90int,
    {
        self.advance();
        if self.matches(TokenKind::LBrace) {
            let names = if self.check(TokenKind::RBrace) {
                Vec::new()
            } else {
                self.parse_named_list()?
            };
            self.expect(TokenKind::RBrace, "`}` closing import list")?;
            self.expect(TokenKind::From, "`from` after import list")?;
            let module = self.parse_module_spec()?;
            self.expect(TokenKind::Semi, "`;` after `import`")?;
            return Ok(Stmt::FromImport { module, names, wildcard: false });
        }
        if self.matches(TokenKind::Star) {
            self.expect(TokenKind::As, "`as` after `import *`")?;
            let alias = self.expect_ident("namespace alias after `as`")?;
            self.expect(TokenKind::From, "`from` after `import * as ns`")?;
            let module = self.parse_module_spec()?;
            self.expect(TokenKind::Semi, "`;` after `import`")?;
            return Ok(Stmt::Import { module, alias: Some(alias) });
        }
        let mut module = self.parse_module_path()?;
        if module.len() == 1 && (self.check(TokenKind::From) || self.check(TokenKind::Comma)) {
            let local = module.pop().unwrap();
            let mut names: Vec<ImportNamed> = Vec::new();
            names.push(ImportNamed { name: default_import(), alias: Some(local) });
            if self.matches(TokenKind::Comma) {
                self.expect(TokenKind::LBrace, "`{` after `,` in import")?;
                if !self.check(TokenKind::RBrace) {
                    let mut more = self.parse_named_list()?;
                    names.append(&mut more);
                }
                self.expect(TokenKind::RBrace, "`}` closing import list")?;
            }
            self.expect(TokenKind::From, "`from` after import bindings")?;
            let from = self.parse_module_spec()?;
            self.expect(TokenKind::Semi, "`;` after `import`")?;
            return Ok(Stmt::FromImport { module: from, names, wildcard: false });
        }
        let alias = if self.matches(TokenKind::As) {
            Some(self.expect_ident("alias after `as`")?)
        } else {
            None
        };
        self.expect(TokenKind::Semi, "`;` after `import`")?;
        Ok(Stmt::Import { module, alias })
    }

    /// `from path import *;` or `from path import a, b as c;`
    pub fn parse_from_import(&mut self) -> (r: Result<Stmt, ParseError>)
        requires
            old(self).wf(),
        ensures
            outcome(*old(self), *final(self), r),
            r matches Ok(s) ==> s is FromImport,
        decreases old(self).remaining(), 90int,
    {
        self.advance();
        let module = self.parse_module_path()?;
        self.expect(TokenKind::Import, "`import` after module path in `from ... import`")?;
        if self.matches(TokenKind::Star) {
            self.expect(TokenKind::Semi, "`;` after `from ... import *`")?;
            return Ok(Stmt::FromImport { module, names: Vec::new(), wildcard: true });
        }
        let names = self.parse_named_list()?;
        self.expect(TokenKind::Semi, "`;` after `from ... import`")?;
        Ok(Stmt::FromImport { module, names, wildcard: false })
    }

    /// `export default (function ... | value;)`, `export { a, b as c };`,
    /// or `export` before a `function`, `const`, `let`, `type`,
    /// `interface` or `enum` declaration.
    pub fn parse_export(&mut self) -> (r: Result<Stmt, ParseError>)
        requires
            old(self).wf(),
        ensures
            outcome(*old(self), *final(self), r),
            r matches Ok(s) ==> s is ExportDecl || s is ExportSpec || s is ExportDefault,
        decreases old(self).remaining(), 90int,
    {
        self.advance();
        if self.matches(TokenKind::Default) {
            if self.check(TokenKind::Function) {
                let fn_tok = self.advance();
                let f = self.parse_function_rest(false, fn_tok.line, fn_tok.col)?;
                return Ok(Stmt::ExportDefault(ExportDefault::Function(f)));
            }
            let e = self.parse_expr()?;
            self.expect(TokenKind::Semi, "`;` after `export default`")?;
            return Ok(Stmt::ExportDefault(ExportDefault::Expr(e)));
        }
        if self.matches(TokenKind::LBrace) {
            let mut items: Vec<ExportItem> = Vec::new();
            if !self.check(TokenKind::RBrace) {
                loop
                    invariant
                        self.wf(),
                        self.tokens@ == old(self).tokens@,
                        old(self).pos < self.pos,
                    decreases self.remaining(),
                {
                    let name = self.expect_ident("name in export")?;
                    let alias = if self.matches(TokenKind::As) {
                        Some(self.expect_ident("name after `as`")?)
                    } else {
                        None
                    };
                    items.push(ExportItem { name, alias });
                    if !self.matches(TokenKind::Comma) {
                        break;
                    }
                }
            }
            self.expect(TokenKind::RBrace, "`}` closing export list")?;
            self.expect(TokenKind::Semi, "`;` after export")?;
            return Ok(Stmt::ExportSpec(items));
        }
        let k = self.peek_kind();
        let inner = match k {
            TokenKind::Function => self.parse_function()?,
            TokenKind::Const => self.parse_let(true)?,
            TokenKind::Let => self.parse_let(false)?,
            TokenKind::Type => self.parse_type_alias()?,
            TokenKind::Interface => self.parse_interface()?,
            TokenKind::Enum => self.parse_enum()?,
            _ => {
                let mut msg = owned(
                    "invalid export: expected `default`, `{`, `function`, `const`, or `let`, found ",
                );
                msg.append(crate::syntax::token::describe_kind(k));
                return Err(error_at(&self.tokens, self.pos, msg));
            },
        };
        Ok(Stmt::ExportDecl(Box::new(inner)))
    }
}

} // verus!
