//! Statements: dispatch on the first token, then one parser per kind.

use crate::syntax::ast::{Expr, Function, Param, Stmt, SwitchCase, Type};
use crate::syntax::parser::{error_at, outcome, steps, ParseError, Parser};
use crate::syntax::token::TokenKind;
use crate::text::{owned, spec_is_digit, is_digit};
use vstd::prelude::*;

verus! {

/// The statement form announced by its first token: a keyword decides the
/// kind of statement; anything else starts an expression statement or an
/// assignment.
pub open spec fn stmt_starts(k: TokenKind, s: Stmt) -> bool {
    match k {
        TokenKind::Let => s is Let,
        TokenKind::Const => s is Const,
        TokenKind::Function => s is Function,
        TokenKind::Type => s is TypeAlias,
        TokenKind::Interface => s is Interface,
        TokenKind::Enum => s is Enum,
        TokenKind::Import => s is Import || s is FromImport,
        TokenKind::From => s is FromImport,
        TokenKind::Export => s is ExportDecl || s is ExportSpec || s is ExportDefault,
        TokenKind::Return => s is Return,
        TokenKind::If => s is If,
        TokenKind::While => s is While,
        TokenKind::For => s is For || s is ForOf,
        TokenKind::Switch => s is Switch,
        TokenKind::Try => s is Try,
        TokenKind::Throw => s is Throw,
        TokenKind::Break => s is Break,
        TokenKind::Continue => s is Continue,
        _ => s is Expr || s is Assign || s is AssignIndex || s is AssignMember,
    }
}

/// Value of a run of decimal digits.
pub open spec fn digits_value(s: Seq<char>) -> nat
    decreases s.len(),
{
    if s.len() == 0 {
        0
    } else {
        10 * digits_value(s.drop_last()) + ((s.last() as u32) - ('0' as u32)) as nat
    }
}

/// Length of the run of digits at the start of `s`.
pub open spec fn digit_run(s: Seq<char>) -> nat
    decreases s.len(),
{
    if s.len() > 0 && spec_is_digit(s[0]) {
        1 + digit_run(s.drop_first())
    } else {
        0
    }
}

/// The integer an enum value's number text converts to: its integer part
/// (the fraction is dropped), saturated at `i64::MAX`.
pub open spec fn enum_value(text: Seq<char>) -> i64 {
    let v = digits_value(text.take(digit_run(text) as int));
    if v > i64::MAX {
        i64::MAX
    } else {
        v as i64
    }
}

proof fn lemma_digit_run(s: Seq<char>, i: int)
    requires
        0 <= i <= s.len(),
        forall|j: int| 0 <= j < i ==> spec_is_digit(#[trigger] s[j]),
        i == s.len() || !spec_is_digit(s[i]),
    ensures
        digit_run(s) == i,
    decreases i,
{
    if i > 0 {
        lemma_digit_run(s.drop_first(), i - 1);
    }
}

/// Integer value of a number token's text, as an enum value.
pub fn enum_value_of(text: &str) -> (r: i64)
    ensures
        r == enum_value(text@),
{
    let cs = crate::text::chars_of(text);
    let mut acc: i64 = 0;
    let mut saturated = false;
    let mut i: usize = 0;
    while i < cs.len() && is_digit(cs[i])
        invariant
            cs@ == text@,
            i <= cs@.len(),
            forall|j: int| 0 <= j < i ==> spec_is_digit(#[trigger] cs@[j]),
            saturated ==> acc == i64::MAX && digits_value(cs@.take(i as int)) >= i64::MAX,
            !saturated ==> acc == digits_value(cs@.take(i as int)) && acc <= i64::MAX,
        decreases cs@.len() - i,
    {
        let d = (cs[i] as u32 - '0' as u32) as i64;
        let ghost prev = cs@.take(i as int);
        proof {
            assert(cs@.take(i + 1).drop_last() =~= prev);
        }
        if !saturated {
            if acc > (i64::MAX - d) / 10 {
                saturated = true;
                acc = i64::MAX;
            } else {
                acc = acc * 10 + d;
            }
        }
        i += 1;
    }
    proof {
        lemma_digit_run(cs@, i as int);
    }
    acc
}

impl Parser {
    /// One statement.
    pub fn parse_stmt(&mut self) -> (r: Result<Stmt, ParseError>)
        requires
            old(self).wf(),
        ensures
            outcome(*old(self), *final(self), r),
            r matches Ok(s) ==> stmt_starts(old(self).cur_kind(), s),
            old(self).cur_kind() == TokenKind::Break || old(self).cur_kind() == TokenKind::Continue ==> {
                &&& (r is Ok <==> old(self).kind_at(old(self).pos + 1) == TokenKind::Semi)
                &&& r is Ok ==> final(self).pos == old(self).pos + 2 && (if old(self).cur_kind() == TokenKind::Break {
                    r matches Ok(Stmt::Break)
                } else {
                    r matches Ok(Stmt::Continue)
                })
            },
        decreases old(self).remaining(), 100int,
    {
        let k = self.peek_kind();
        match k {
            TokenKind::Let => self.parse_let(false),
            TokenKind::Const => self.parse_let(true),
            TokenKind::Function => self.parse_function(),
            TokenKind::Type => self.parse_type_alias(),
            TokenKind::Interface => self.parse_interface(),
            TokenKind::Enum => self.parse_enum(),
            TokenKind::Import => self.parse_import(),
            TokenKind::From => self.parse_from_import(),
            TokenKind::Export => self.parse_export(),
            TokenKind::Return => self.parse_return(),
            TokenKind::If => self.parse_if(),
            TokenKind::While => self.parse_while(),
            TokenKind::For => self.parse_for(),
            TokenKind::Switch => self.parse_switch(),
            TokenKind::Try => self.parse_try(),
            TokenKind::Throw => self.parse_throw(),
            TokenKind::Break => {
                self.advance();
                self.expect(TokenKind::Semi, "`;` after `break`")?;
                Ok(Stmt::Break)
            },
            TokenKind::Continue => {
                self.advance();
                self.expect(TokenKind::Semi, "`;` after `continue`")?;
                Ok(Stmt::Continue)
            },
            TokenKind::Ident => {
                let next = self.peek_kind_at(1);
                let index_or_member = match next {
                    Some(TokenKind::LBracket) => true,
                    Some(TokenKind::Dot) => true,
                    _ => false,
                };
                if index_or_member {
                    let start_line = self.tokens[self.pos].line;
                    let start_col = self.tokens[self.pos].col;
                    let expr = self.parse_expr()?;
                    if self.check(TokenKind::Eq) {
                        match expr {
                            Expr::Index { object, index } => {
                                let name = match *object {
                                    Expr::Ident(n) => n,
                                    _ => {
                                        let msg = owned(
                                            "the LHS of an indexed assignment must be an identifier",
                                        );
                                        return Err(error_at(&self.tokens, self.pos, msg));
                                    },
                                };
                                self.advance();
                                let value = self.parse_expr()?;
                                self.expect(TokenKind::Semi, "`;` after indexed assignment")?;
                                return Ok(
                                    Stmt::AssignIndex {
                                        object: name,
                                        index: *index,
                                        value,
                                        line: start_line,
                                        col: start_col,
                                    },
                                );
                            },
                            Expr::Member { object, property } => {
                                self.advance();
                                let value = self.parse_expr()?;
                                self.expect(TokenKind::Semi, "`;` after member assignment")?;
                                return Ok(
                                    Stmt::AssignMember {
                                        object,
                                        property,
                                        value,
                                        line: start_line,
                                        col: start_col,
                                    },
                                );
                            },
                            _ => {
                                let msg = owned("invalid assignment LHS");
                                return Err(error_at(&self.tokens, self.pos, msg));
                            },
                        }
                    }
                    self.expect(TokenKind::Semi, "after expression")?;
                    return Ok(Stmt::Expr(expr));
                }
                let is_assign = match next {
                    Some(TokenKind::Eq) => true,
                    _ => false,
                };
                if is_assign {
                    self.parse_assign()
                } else {
                    let expr = self.parse_expr()?;
                    self.expect(TokenKind::Semi, "after expression")?;
                    Ok(Stmt::Expr(expr))
                }
            },
            _ => {
                let expr = self.parse_expr()?;
                self.expect(TokenKind::Semi, "after expression")?;
                Ok(Stmt::Expr(expr))
            },
        }
    }

    /// Statements up to the closing `}` (the opening `{` already
    /// consumed), which is then consumed; `context` names it in the error.
    pub fn parse_block_rest(&mut self, context: &str) -> (r: Result<Vec<Stmt>, ParseError>)
        requires
            old(self).wf(),
        ensures
            outcome(*old(self), *final(self), r),
        decreases old(self).remaining(), 101int,
    {
        let mut body: Vec<Stmt> = Vec::new();
        loop
            invariant
                self.wf(),
                self.tokens@ == old(self).tokens@,
                old(self).pos <= self.pos,
            decreases self.remaining(),
        {
            if self.check(TokenKind::RBrace) || self.check(TokenKind::Eof) {
                break;
            }
            let s = self.parse_stmt()?;
            body.push(s);
        }
        self.expect(TokenKind::RBrace, context)?;
        Ok(body)
    }

    /// `name = value;`
    pub fn parse_assign(&mut self) -> (r: Result<Stmt, ParseError>)
        requires
            old(self).wf(),
            old(self).cur_kind() == TokenKind::Ident,
        ensures
            outcome(*old(self), *final(self), r),
            r matches Ok(s) ==> (s matches Stmt::Assign { name, .. } && name@ == old(self).tokens@[old(
                self,
            ).pos as int].text@),
        decreases old(self).remaining(), 90int,
    {
        let name_tok = self.advance();
        self.expect(TokenKind::Eq, "`=` after name")?;
        let value = self.parse_expr()?;
        self.expect(TokenKind::Semi, "`;` after value")?;
        Ok(Stmt::Assign { name: name_tok.text, value, line: name_tok.line, col: name_tok.col })
    }

    /// `name = value` or `name[index] = value` without the `;`: the update
    /// clause of a `for`.
    pub fn parse_assign_no_semi(&mut self) -> (r: Result<Stmt, ParseError>)
        requires
            old(self).wf(),
            old(self).cur_kind() == TokenKind::Ident,
        ensures
            outcome(*old(self), *final(self), r),
            r matches Ok(s) ==> s is Assign || s is AssignIndex,
        decreases old(self).remaining(), 90int,
    {
        let name_tok = self.advance();
        let name = name_tok.text.clone();
        if self.check(TokenKind::LBracket) {
            self.advance();
            let index = self.parse_expr()?;
            self.expect(TokenKind::RBracket, "`]` in indexed assignment")?;
            self.expect(TokenKind::Eq, "`=` in indexed assignment")?;
            let value = self.parse_expr()?;
            return Ok(Stmt::AssignIndex { object: name, index, value, line: name_tok.line, col: name_tok.col });
        }
        self.expect(TokenKind::Eq, "`=` after name")?;
        let value = self.parse_expr()?;
        Ok(Stmt::Assign { name, value, line: name_tok.line, col: name_tok.col })
    }

    /// `let` / `const` `name (: T)? = value;` — the name and its position
    /// come from the token after the keyword.
    pub fn parse_let(&mut self, is_const: bool) -> (r: Result<Stmt, ParseError>)
        requires
            old(self).wf(),
        ensures
            outcome(*old(self), *final(self), r),
            r matches Ok(s) ==> old(self).pos + 1 < old(self).tokens@.len() && {
                let nt = old(self).tokens@[old(self).pos + 1];
                if is_const {
                    s matches Stmt::Const { name, line, col, .. } && name@ == nt.text@ && line == nt.line
                        && col == nt.col
                } else {
                    s matches Stmt::Let { name, line, col, .. } && name@ == nt.text@ && line == nt.line
                        && col == nt.col
                }
            },
        decreases old(self).remaining(), 90int,
    {
        self.advance();
        let name_tok = self.expect(TokenKind::Ident, "variable name")?;
        let ty = if self.matches(TokenKind::Colon) {
            Some(self.parse_type()?)
        } else {
            None
        };
        self.expect(TokenKind::Eq, "assignment `=`")?;
        let value = self.parse_expr()?;
        self.expect(TokenKind::Semi, "after value")?;
        if is_const {
            Ok(Stmt::Const { name: name_tok.text, ty, value, line: name_tok.line, col: name_tok.col })
        } else {
            Ok(Stmt::Let { name: name_tok.text, ty, value, line: name_tok.line, col: name_tok.col })
        }
    }

    /// `function name(params): R { body }`
    pub fn parse_function(&mut self) -> (r: Result<Stmt, ParseError>)
        requires
            old(self).wf(),
        ensures
            outcome(*old(self), *final(self), r),
            r matches Ok(s) ==> s is Function,
        decreases old(self).remaining(), 90int,
    {
        let fn_tok = self.advance();
        let f = self.parse_function_rest(true, fn_tok.line, fn_tok.col)?;
        Ok(Stmt::Function(f))
    }

    /// `[name](params)[: R] { body }` after `function`. Without a name (only
    /// where `require_name` is off) the function is anonymous, positioned at
    /// the keyword; without `: R` it returns `void`.
    pub fn parse_function_rest(&mut self, require_name: bool, kw_line: usize, kw_col: usize) -> (r:
        Result<Function, ParseError>)
        requires
            old(self).wf(),
        ensures
            outcome(*old(self), *final(self), r),
            r matches Ok(f) ==> if old(self).cur_kind() == TokenKind::Ident {
                f.name@ == old(self).tokens@[old(self).pos as int].text@
                    && f.line == old(self).tokens@[old(self).pos as int].line
                    && f.col == old(self).tokens@[old(self).pos as int].col
            } else {
                !require_name && f.name@.len() == 0 && f.line == kw_line && f.col == kw_col
            },
        decreases old(self).remaining(), 80int,
    {
        let (name, line, col) = if self.check(TokenKind::Ident) {
            let tok = self.advance();
            (tok.text, tok.line, tok.col)
        } else if require_name {
            return Err(error_at(&self.tokens, self.pos, owned("expected function name")));
        } else {
            (String::new(), kw_line, kw_col)
        };
        self.expect(TokenKind::LParen, "`(` after function name")?;
        let mut params: Vec<Param> = Vec::new();
        if !self.check(TokenKind::RParen) {
            loop
                invariant
                    self.wf(),
                    self.tokens@ == old(self).tokens@,
                    old(self).pos < self.pos,
                decreases self.remaining(),
            {
                let pname = self.expect(TokenKind::Ident, "parameter name")?;
                self.expect(TokenKind::Colon, "`:` after parameter name")?;
                let pty = self.parse_type()?;
                params.push(Param { name: pname.text, ty: pty, line: pname.line, col: pname.col });
                if !self.matches(TokenKind::Comma) {
                    break;
                }
            }
        }
        self.expect(TokenKind::RParen, "`)` after parameters")?;
        let return_type = if self.matches(TokenKind::Colon) {
            self.parse_type()?
        } else {
            Type::void()
        };
        self.expect(TokenKind::LBrace, "`{` opening function body")?;
        let body = self.parse_block_rest("`}` closing function body")?;
        Ok(Function { name, params, return_type, body, line, col })
    }

    /// `type Name = T;`, positioned at the `type` keyword.
    pub fn parse_type_alias(&mut self) -> (r: Result<Stmt, ParseError>)
        requires
            old(self).wf(),
        ensures
            outcome(*old(self), *final(self), r),
            r matches Ok(s) ==> s is TypeAlias,
        decreases old(self).remaining(), 90int,
    {
        let kw = self.advance();
        let name = self.expect_ident("type alias name")?;
        self.expect(TokenKind::Eq, "`=` after type alias name")?;
        let ty = self.parse_type()?;
        self.expect(TokenKind::Semi, "`;` after type alias")?;
        Ok(Stmt::TypeAlias { name, ty, line: kw.line, col: kw.col })
    }

    /// `interface Name [extends A, B] { f: T; g?: U, ... }`; `g?: U` stores
    /// `U?` and marks the field optional.
    pub fn parse_interface(&mut self) -> (r: Result<Stmt, ParseError>)
        requires
            old(self).wf(),
        ensures
            outcome(*old(self), *final(self), r),
            r matches Ok(s) ==> s is Interface,
        decreases old(self).remaining(), 90int,
    {
        self.advance();
        let name_tok = self.expect(TokenKind::Ident, "interface name")?;
        let mut extends: Vec<String> = Vec::new();
        if self.matches(TokenKind::Extends) {
            loop
                invariant
                    self.wf(),
                    self.tokens@ == old(self).tokens@,
                    old(self).pos < self.pos,
                decreases self.remaining(),
            {
                let base = self.expect_ident("base interface name")?;
                extends.push(base);
                if !self.matches(TokenKind::Comma) {
                    break;
                }
            }
        }
        self.expect(TokenKind::LBrace, "`{` opening interface body")?;
        let mut fields: Vec<(String, Box<Type>, bool)> = Vec::new();
        loop
            invariant
                self.wf(),
                self.tokens@ == old(self).tokens@,
                old(self).pos < self.pos,
            decreases self.remaining(),
        {
            if self.check(TokenKind::RBrace) || self.check(TokenKind::Eof) {
                break;
            }
            let key = self.expect_ident("field name in interface")?;
            let optional = self.matches(TokenKind::Question);
            self.expect(TokenKind::Colon, "`:` after field name")?;
            let field_ty = self.parse_type()?;
            let stored = if optional {
                Type::optional(field_ty)
            } else {
                field_ty
            };
            fields.push((key, Box::new(stored), optional));
            if !self.matches(TokenKind::Comma) {
                self.matches(TokenKind::Semi);
            }
        }
        self.expect(TokenKind::RBrace, "`}` closing interface body")?;
        Ok(
            Stmt::Interface {
                name: name_tok.text,
                extends,
                fields,
                line: name_tok.line,
                col: name_tok.col,
            },
        )
    }

    /// `enum Name { A, B = 5, C }` — an explicit value must be a number,
    /// kept as its integer part (saturated at `i64::MAX`).
    pub fn parse_enum(&mut self) -> (r: Result<Stmt, ParseError>)
        requires
            old(self).wf(),
        ensures
            outcome(*old(self), *final(self), r),
            r matches Ok(s) ==> s is Enum,
        decreases old(self).remaining(), 90int,
    {
        self.advance();
        let name_tok = self.expect(TokenKind::Ident, "enum name")?;
        self.expect(TokenKind::LBrace, "`{` opening enum body")?;
        let mut variants: Vec<(String, Option<i64>)> = Vec::new();
        if !self.check(TokenKind::RBrace) {
            loop
                invariant
                    self.wf(),
                    self.tokens@ == old(self).tokens@,
                    old(self).pos < self.pos,
                decreases self.remaining(),
            {
                let vname = self.expect_ident("enum variant name")?;
                let value = if self.matches(TokenKind::Eq) {
                    let at = self.pos;
                    let tok = self.advance();
                    if tok.kind == TokenKind::Number {
                        Some(enum_value_of(tok.text.as_str()))
                    } else {
                        let mut msg = owned("expected a numeric enum value, found ");
                        msg.append(crate::syntax::token::describe_kind(tok.kind));
                        return Err(error_at(&self.tokens, at, msg));
                    }
                } else {
                    None
                };
                variants.push((vname, value));
                if !self.matches(TokenKind::Comma) {
                    break;
                }
                if self.check(TokenKind::RBrace) {
                    break;
                }
            }
        }
        self.expect(TokenKind::RBrace, "`}` closing enum body")?;
        Ok(Stmt::Enum { name: name_tok.text, variants, line: name_tok.line, col: name_tok.col })
    }

    /// `return [value];`
    pub fn parse_return(&mut self) -> (r: Result<Stmt, ParseError>)
        requires
            old(self).wf(),
        ensures
            outcome(*old(self), *final(self), r),
            r matches Ok(s) ==> s is Return,
        decreases old(self).remaining(), 90int,
    {
        self.advance();
        if self.check(TokenKind::Semi) {
            self.advance();
            return Ok(Stmt::Return(None));
        }
        let e = self.parse_expr()?;
        self.expect(TokenKind::Semi, "`;` after `return`")?;
        Ok(Stmt::Return(Some(e)))
    }

    /// `if (c) { .. } [else if ... | else { .. }]` — an `else if` chain
    /// nests the next `if` as the only statement of the `else` branch.
    pub fn parse_if(&mut self) -> (r: Result<Stmt, ParseError>)
        requires
            old(self).wf(),
        ensures
            outcome(*old(self), *final(self), r),
            r matches Ok(s) ==> s is If,
        decreases old(self).remaining(), 90int,
    {
        self.advance();
        self.expect(TokenKind::LParen, "`(` after `if`")?;
        let condition = self.parse_expr()?;
        self.expect(TokenKind::RParen, "`)` after if condition")?;
        self.expect(TokenKind::LBrace, "`{` opening then-block")?;
        let then_branch = self.parse_block_rest("`}` closing then-block")?;
        let else_branch = if self.matches(TokenKind::Else) {
            if self.check(TokenKind::If) {
                let inner = self.parse_if()?;
                let mut v: Vec<Stmt> = Vec::new();
                v.push(inner);
                Some(v)
            } else {
                self.expect(TokenKind::LBrace, "`{` opening else-block")?;
                let stmts = self.parse_block_rest("`}` closing else-block")?;
                Some(stmts)
            }
        } else {
            None
        };
        Ok(Stmt::If { condition, then_branch, else_branch })
    }

    /// `while (c) { body }`
    pub fn parse_while(&mut self) -> (r: Result<Stmt, ParseError>)
        requires
            old(self).wf(),
        ensures
            outcome(*old(self), *final(self), r),
            r matches Ok(s) ==> s is While,
        decreases old(self).remaining(), 90int,
    {
        self.advance();
        self.expect(TokenKind::LParen, "`(` after `while`")?;
        let condition = self.parse_expr()?;
        self.expect(TokenKind::RParen, "`)` after while condition")?;
        self.expect(TokenKind::LBrace, "`{` opening while body")?;
        let body = self.parse_block_rest("`}` closing while body")?;
        Ok(Stmt::While { condition, body })
    }

    /// `for (let x[: T] of items) { .. }` or `for (init; cond; update) { .. }`
    /// with every clause optional. `for (let x of` is told from a C-style
    /// `let` by the `of` two tokens after `let`.
    pub fn parse_for(&mut self) -> (r: Result<Stmt, ParseError>)
        requires
            old(self).wf(),
        ensures
            outcome(*old(self), *final(self), r),
            r matches Ok(s) ==> s is For || s is ForOf,
        decreases old(self).remaining(), 90int,
    {
        self.advance();
        self.expect(TokenKind::LParen, "`(` after `for`")?;
        let is_for_of = self.check(TokenKind::Let) && match self.peek_kind_at(1) {
            Some(TokenKind::Ident) => true,
            _ => false,
        } && match self.peek_kind_at(2) {
            Some(TokenKind::Of) => true,
            _ => false,
        };
        if is_for_of {
            self.advance();
            let name = self.expect_ident("loop variable in `for-of`")?;
            let ty = if self.matches(TokenKind::Colon) {
                Some(self.parse_type()?)
            } else {
                None
            };
            self.expect(TokenKind::Of, "`of` after loop variable")?;
            let iterable = self.parse_expr()?;
            self.expect(TokenKind::RParen, "`)` after `for-of` iterable")?;
            self.expect(TokenKind::LBrace, "`{` opening `for-of` body")?;
            let body = self.parse_block_rest("`}` closing `for-of` body")?;
            return Ok(Stmt::ForOf { name, ty, iterable: Box::new(iterable), body });
        }
        let init = if self.check(TokenKind::Semi) {
            self.advance();
            None
        } else if self.check(TokenKind::Let) || self.check(TokenKind::Const) {
            let is_const = self.check(TokenKind::Const);
            let s = self.parse_let(is_const)?;
            Some(Box::new(s))
        } else {
            let e = self.parse_expr()?;
            self.expect(TokenKind::Semi, "`;` after `for` init")?;
            Some(Box::new(Stmt::Expr(e)))
        };
        let condition = if self.check(TokenKind::Semi) {
            None
        } else {
            Some(self.parse_expr()?)
        };
        self.expect(TokenKind::Semi, "`;` after `for` condition")?;
        let update = if self.check(TokenKind::RParen) {
            None
        } else {
            let is_assign = self.check(TokenKind::Ident) && match self.peek_kind_at(1) {
                Some(TokenKind::Eq) => true,
                _ => false,
            };
            let s = if is_assign {
                self.parse_assign_no_semi()?
            } else {
                let e = self.parse_expr()?;
                Stmt::Expr(e)
            };
            Some(Box::new(s))
        };
        self.expect(TokenKind::RParen, "`)` after `for` update")?;
        self.expect(TokenKind::LBrace, "`{` opening `for` body")?;
        let body = self.parse_block_rest("`}` closing `for` body")?;
        Ok(Stmt::For { init, condition, update, body })
    }

    /// `switch (d) { case a: case b: .. default: .. }` — consecutive labels
    /// share one body; bodies do not fall through.
    pub fn parse_switch(&mut self) -> (r: Result<Stmt, ParseError>)
        requires
            old(self).wf(),
        ensures
            outcome(*old(self), *final(self), r),
            r matches Ok(s) ==> s is Switch,
        decreases old(self).remaining(), 90int,
    {
        self.advance();
        self.expect(TokenKind::LParen, "`(` after `switch`")?;
        let discriminant = self.parse_expr()?;
        self.expect(TokenKind::RParen, "`)` after switch discriminant")?;
        self.expect(TokenKind::LBrace, "`{` opening switch body")?;
        let mut cases: Vec<SwitchCase> = Vec::new();
        loop
            invariant
                self.wf(),
                self.tokens@ == old(self).tokens@,
                old(self).pos < self.pos,
            decreases self.remaining(),
        {
            if self.check(TokenKind::RBrace) || self.check(TokenKind::Eof) {
                break;
            }
            let ghost case_start = self.pos;
            let mut values: Vec<Expr> = Vec::new();
            let mut is_default = false;
            loop
                invariant
                    self.wf(),
                    self.tokens@ == old(self).tokens@,
                    case_start <= self.pos,
                    old(self).pos < self.pos,
                    (values@.len() > 0 || is_default) ==> case_start < self.pos,
                decreases self.remaining(),
            {
                if self.matches(TokenKind::Case) {
                    let v = self.parse_expr()?;
                    values.push(v);
                    self.expect(TokenKind::Colon, "`:` after `case` value")?;
                } else if self.matches(TokenKind::Default) {
                    is_default = true;
                    self.expect(TokenKind::Colon, "`:` after `default`")?;
                } else {
                    break;
                }
                if !(self.check(TokenKind::Case) || self.check(TokenKind::Default)) {
                    break;
                }
            }
            if values.len() == 0 && !is_default {
                let msg = owned("expected `case` or `default` in switch body");
                return Err(error_at(&self.tokens, self.pos, msg));
            }
            let mut body: Vec<Stmt> = Vec::new();
            loop
                invariant
                    self.wf(),
                    self.tokens@ == old(self).tokens@,
                    case_start < self.pos,
                    old(self).pos < self.pos,
                decreases self.remaining(),
            {
                if self.check(TokenKind::Case) || self.check(TokenKind::Default) || self.check(
                    TokenKind::RBrace,
                ) || self.check(TokenKind::Eof) {
                    break;
                }
                let s = self.parse_stmt()?;
                body.push(s);
            }
            cases.push(SwitchCase { values, body, is_default });
        }
        self.expect(TokenKind::RBrace, "`}` closing switch body")?;
        Ok(Stmt::Switch { discriminant, cases })
    }

    /// `try { .. } catch [(e)] { .. }`
    pub fn parse_try(&mut self) -> (r: Result<Stmt, ParseError>)
        requires
            old(self).wf(),
        ensures
            outcome(*old(self), *final(self), r),
            r matches Ok(s) ==> s is Try,
        decreases old(self).remaining(), 90int,
    {
        self.advance();
        self.expect(TokenKind::LBrace, "`{` opening `try` body")?;
        let body = self.parse_block_rest("`}` closing `try` body")?;
        self.expect(TokenKind::Catch, "`catch` after `try` body")?;
        let catch_name = if self.matches(TokenKind::LParen) {
            let name = self.expect_ident("caught error name")?;
            self.expect(TokenKind::RParen, "`)` after caught error name")?;
            Some(name)
        } else {
            None
        };
        self.expect(TokenKind::LBrace, "`{` opening `catch` body")?;
        let catch_body = self.parse_block_rest("`}` closing `catch` body")?;
        Ok(Stmt::Try { body, catch_name, catch_body })
    }

    /// `throw value;`
    pub fn parse_throw(&mut self) -> (r: Result<Stmt, ParseError>)
        requires
            old(self).wf(),
        ensures
            outcome(*old(self), *final(self), r),
            r matches Ok(s) ==> s is Throw,
        decreases old(self).remaining(), 90int,
    {
        self.advance();
        let e = self.parse_expr()?;
        self.expect(TokenKind::Semi, "`;` after `throw`")?;
        Ok(Stmt::Throw(e))
    }
}

} // verus!
