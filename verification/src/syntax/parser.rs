//! Parser: token stream to syntax tree.
//!
//! Recursive descent with precedence climbing for expressions (loosest to
//! tightest: `||`, `&&`, equality, comparison, additive, multiplicative,
//! unary, postfix, atom) and for types (union, intersection, postfix `[]`
//! / `?`, primary).

use crate::syntax::ast::{
    ArrayElement, ArrowBody, BinOp, ExportDefault, ExportItem, Expr, Function, ImportNamed,
    LiteralValue, ObjectField, Param, Program, Stmt, SwitchCase, Type, UnaryOp,
};
use crate::syntax::parser::stmt::stmt_starts;
use crate::syntax::token::{describe_kind, well_formed_tokens, Token, TokenKind};
use crate::text::owned;
use vstd::prelude::*;

pub mod expr;
pub mod modules;
pub mod stmt;
pub mod types;

verus! {

/// A parse error at the position of the offending token.
#[derive(Debug, Clone)]
pub struct ParseError {
    pub line: usize,
    pub col: usize,
    pub msg: String,
}

impl ParseError {
    /// `parse error at <line>:<col>: <msg>`
    pub fn message(&self) -> (r: String)
        ensures
            r@ == "parse error at "@ + crate::text::nat_digits(self.line as nat) + ":"@
                + crate::text::nat_digits(self.col as nat) + ": "@ + self.msg@,
    {
        let mut s = owned("parse error at ");
        s.append(crate::text::usize_decimal(self.line).as_str());
        s.append(":");
        s.append(crate::text::usize_decimal(self.col).as_str());
        s.append(": ");
        s.append(self.msg.as_str());
        s
    }
}

/// The error sits at the position of one of the tokens.
pub open spec fn error_at_token(ts: Seq<Token>, e: ParseError) -> bool {
    exists|k: int| 0 <= k < ts.len() && (#[trigger] ts[k]).line == e.line && ts[k].col == e.col
}

/// The parser moved forward over the same tokens.
pub open spec fn steps(a: Parser, b: Parser) -> bool {
    &&& b.wf()
    &&& b.tokens@ == a.tokens@
    &&& a.pos <= b.pos
}

/// What one parsing step leaves behind: on success at least one token was
/// consumed; a failure points at one of the tokens.
pub open spec fn outcome<T>(a: Parser, b: Parser, r: Result<T, ParseError>) -> bool {
    &&& steps(a, b)
    &&& match r {
        Ok(_) => a.pos < b.pos,
        Err(e) => error_at_token(a.tokens@, e),
    }
}

/// An error at the position of the token at index `i`.
pub fn error_at(ts: &Vec<Token>, i: usize, msg: String) -> (e: ParseError)
    requires
        i < ts@.len(),
    ensures
        error_at_token(ts@, e),
        e.msg@ == msg@,
{
    let e = ParseError { line: ts[i].line, col: ts[i].col, msg };
    assert(ts@[i as int].line == e.line);
    e
}

/// Parser state: the token stream and a cursor into it.
pub struct Parser {
    pub tokens: Vec<Token>,
    pub pos: usize,
}

impl Parser {
    /// The cursor is on a token of a well-formed stream.
    pub open spec fn wf(&self) -> bool {
        &&& well_formed_tokens(self.tokens@)
        &&& self.pos < self.tokens@.len()
    }

    /// Tokens not yet consumed.
    pub open spec fn remaining(&self) -> int {
        self.tokens@.len() - self.pos
    }

    pub open spec fn kind_at(&self, i: int) -> TokenKind {
        self.tokens@[i].kind
    }

    pub open spec fn cur_kind(&self) -> TokenKind {
        self.tokens@[self.pos as int].kind
    }

    pub fn peek_kind(&self) -> (k: TokenKind)
        requires
            self.wf(),
        ensures
            k == self.cur_kind(),
    {
        self.tokens[self.pos].kind
    }

    /// Kind of the token `offset` places ahead, if there is one.
    pub fn peek_kind_at(&self, offset: usize) -> (r: Option<TokenKind>)
        requires
            self.wf(),
        ensures
            match r {
                Some(k) => self.pos + offset < self.tokens@.len() && k == self.kind_at(self.pos + offset),
                None => self.pos + offset >= self.tokens@.len(),
            },
    {
        if offset < self.tokens.len() - self.pos {
            Some(self.tokens[self.pos + offset].kind)
        } else {
            None
        }
    }

    pub fn check(&self, k: TokenKind) -> (r: bool)
        requires
            self.wf(),
        ensures
            r == (self.cur_kind() == k),
    {
        self.tokens[self.pos].kind == k
    }

    /// Consumes the current token (the cursor stays on the final `Eof`).
    pub fn advance(&mut self) -> (t: Token)
        requires
            old(self).wf(),
        ensures
            final(self).wf(),
            final(self).tokens@ == old(self).tokens@,
            t.kind == old(self).cur_kind(),
            t.line == old(self).tokens@[old(self).pos as int].line,
            t.col == old(self).tokens@[old(self).pos as int].col,
            t.text@ == old(self).tokens@[old(self).pos as int].text@,
            old(self).cur_kind() != TokenKind::Eof ==> final(self).pos == old(self).pos + 1,
            old(self).cur_kind() == TokenKind::Eof ==> final(self).pos == old(self).pos,
    {
        let t = self.tokens[self.pos].clone();
        if self.pos < self.tokens.len() - 1 {
            self.pos = self.pos + 1;
        }
        t
    }

    /// Consumes the current token if it is a `k`.
    pub fn matches(&mut self, k: TokenKind) -> (r: bool)
        requires
            old(self).wf(),
            k != TokenKind::Eof,
        ensures
            final(self).wf(),
            final(self).tokens@ == old(self).tokens@,
            r == (old(self).cur_kind() == k),
            r ==> final(self).pos == old(self).pos + 1,
            !r ==> final(self).pos == old(self).pos,
    {
        if self.check(k) {
            self.advance();
            true
        } else {
            false
        }
    }

    /// An error at the current token.
    pub fn error_here(&self, msg: String) -> (e: ParseError)
        requires
            self.wf(),
        ensures
            error_at_token(self.tokens@, e),
            e.msg@ == msg@,
    {
        let t = &self.tokens[self.pos];
        let e = ParseError { line: t.line, col: t.col, msg };
        assert(self.tokens@[self.pos as int].line == e.line);
        e
    }

    /// Consumes a `k`, or fails with `expected <k>, found <context>`.
    pub fn expect(&mut self, k: TokenKind, context: &str) -> (r: Result<Token, ParseError>)
        requires
            old(self).wf(),
            k != TokenKind::Eof,
        ensures
            final(self).wf(),
            final(self).tokens@ == old(self).tokens@,
            match r {
                Ok(t) => old(self).cur_kind() == k && t.kind == k && final(self).pos == old(self).pos + 1
                    && t.text@ == old(self).tokens@[old(self).pos as int].text@
                    && t.line == old(self).tokens@[old(self).pos as int].line
                    && t.col == old(self).tokens@[old(self).pos as int].col,
                Err(e) => old(self).cur_kind() != k && final(self).pos == old(self).pos
                    && error_at_token(old(self).tokens@, e),
            },
    {
        if self.check(k) {
            Ok(self.advance())
        } else {
            let mut msg = owned("expected ");
            msg.append(describe_kind(k));
            msg.append(", found ");
            msg.append(context);
            Err(self.error_here(msg))
        }
    }

    /// Consumes an identifier and returns its name.
    pub fn expect_ident(&mut self, context: &str) -> (r: Result<String, ParseError>)
        requires
            old(self).wf(),
        ensures
            final(self).wf(),
            final(self).tokens@ == old(self).tokens@,
            match r {
                Ok(name) => old(self).cur_kind() == TokenKind::Ident && final(self).pos == old(self).pos + 1
                    && name@ == old(self).tokens@[old(self).pos as int].text@,
                Err(e) => final(self).pos == old(self).pos && error_at_token(old(self).tokens@, e),
            },
    {
        let t = self.expect(TokenKind::Ident, context)?;
        Ok(t.text)
    }
}

/// Parses a whole token stream into a program: statements up to `Eof`.
/// The first statement is of the form its first token announces; an error
/// points at one of the tokens.
#[verifier::loop_isolation(false)]
pub fn parse(tokens: Vec<Token>) -> (r: Result<Program, ParseError>)
    requires
        well_formed_tokens(tokens@),
    ensures
        r matches Err(e) ==> error_at_token(tokens@, e),
        r matches Ok(p) ==> (p.stmts@.len() == 0 <==> tokens@.len() == 1),
        r matches Ok(p) ==> p.stmts@.len() > 0 ==> stmt_starts(tokens@[0].kind, p.stmts@[0]),
        tokens@.len() == 1 ==> (r matches Ok(p) && p.stmts@.len() == 0),
{
    let ghost ts = tokens@;
    let mut p = Parser { tokens, pos: 0 };
    let mut stmts: Vec<Stmt> = Vec::new();
    loop
        invariant
            p.wf(),
            p.tokens@ == ts,
            well_formed_tokens(ts),
            stmts@.len() == 0 <==> p.pos == 0,
            stmts@.len() > 0 ==> stmt_starts(ts[0].kind, stmts@[0]),
        decreases p.remaining(),
    {
        if p.check(TokenKind::Eof) {
            break;
        }
        let s = p.parse_stmt()?;
        stmts.push(s);
    }
    assert(p.tokens@[p.pos as int].kind == TokenKind::Eof);
    Ok(Program { stmts })
}

} // verus!
