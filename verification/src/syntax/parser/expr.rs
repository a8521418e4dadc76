//! Expressions, by precedence climbing (loosest to tightest): `??`, `||`, `&&`,
//! equality, comparison, additive, multiplicative, unary (`!`, `-`,
//! `typeof`), postfix (`.name`, `[i]`, `(args)`, `!`, `as T`), atom.

use crate::syntax::ast::{ArrayElement, ArrowBody, BinOp, Expr, ObjectField, Param, Type, UnaryOp};
use crate::syntax::parser::{error_at, outcome, steps, ParseError, Parser};
use crate::syntax::token::{describe_kind, TokenKind};
use crate::text::owned;
use vstd::prelude::*;

verus! {

/// A literal token, which stands for an expression by itself.
pub open spec fn literal_kind(k: TokenKind) -> bool {
    k == TokenKind::Number || k == TokenKind::Str || k == TokenKind::True || k == TokenKind::False
        || k == TokenKind::Null || k == TokenKind::Undefined
}

/// `e` is the expression the literal token (`k`, `text`) denotes.
pub open spec fn literal_expr(k: TokenKind, text: Seq<char>, e: Expr) -> bool {
    match k {
        TokenKind::Number => e matches Expr::Number(s) && s@ == text,
        TokenKind::Str => e matches Expr::String(s) && s@ == text,
        TokenKind::True => e == Expr::Bool(true),
        TokenKind::False => e == Expr::Bool(false),
        TokenKind::Null => e is Null,
        TokenKind::Undefined => e is Undefined,
        _ => false,
    }
}

/// The binary operator a token stands for at one precedence level.
pub open spec fn equality_op(k: TokenKind) -> Option<BinOp> {
    if k == TokenKind::EqEq {
        Some(BinOp::EqEq)
    } else if k == TokenKind::NotEq {
        Some(BinOp::NotEq)
    } else {
        None
    }
}

pub open spec fn comparison_op(k: TokenKind) -> Option<BinOp> {
    if k == TokenKind::Lt {
        Some(BinOp::Lt)
    } else if k == TokenKind::Gt {
        Some(BinOp::Gt)
    } else if k == TokenKind::LtEq {
        Some(BinOp::LtEq)
    } else if k == TokenKind::GtEq {
        Some(BinOp::GtEq)
    } else {
        None
    }
}

pub open spec fn additive_op(k: TokenKind) -> Option<BinOp> {
    if k == TokenKind::Plus {
        Some(BinOp::Add)
    } else if k == TokenKind::Minus {
        Some(BinOp::Sub)
    } else {
        None
    }
}

pub open spec fn multiplicative_op(k: TokenKind) -> Option<BinOp> {
    if k == TokenKind::Star {
        Some(BinOp::Mul)
    } else if k == TokenKind::Slash {
        Some(BinOp::Div)
    } else if k == TokenKind::Percent {
        Some(BinOp::Mod)
    } else {
        None
    }
}

fn op_of(k: TokenKind, level: u8) -> (r: Option<BinOp>)
    ensures
        r == (if level == 0 {
            equality_op(k)
        } else if level == 1 {
            comparison_op(k)
        } else if level == 2 {
            additive_op(k)
        } else {
            multiplicative_op(k)
        }),
{
    if level == 0 {
        if k == TokenKind::EqEq {
            Some(BinOp::EqEq)
        } else if k == TokenKind::NotEq {
            Some(BinOp::NotEq)
        } else {
            None
        }
    } else if level == 1 {
        if k == TokenKind::Lt {
            Some(BinOp::Lt)
        } else if k == TokenKind::Gt {
            Some(BinOp::Gt)
        } else if k == TokenKind::LtEq {
            Some(BinOp::LtEq)
        } else if k == TokenKind::GtEq {
            Some(BinOp::GtEq)
        } else {
            None
        }
    } else if level == 2 {
        if k == TokenKind::Plus {
            Some(BinOp::Add)
        } else if k == TokenKind::Minus {
            Some(BinOp::Sub)
        } else {
            None
        }
    } else {
        if k == TokenKind::Star {
            Some(BinOp::Mul)
        } else if k == TokenKind::Slash {
            Some(BinOp::Div)
        } else if k == TokenKind::Percent {
            Some(BinOp::Mod)
        } else {
            None
        }
    }
}

impl Parser {
    /// After an already consumed `(`, tries `params) [: R] => body`.
    /// Parameters need a type annotation, which is what tells an arrow
    /// function from a grouped expression. `Ok(None)` on any mismatch,
    /// so that the caller can roll back.
    fn try_parse_arrow_after_lparen(&mut self) -> (r: Result<Option<Expr>, ParseError>)
        requires
            old(self).wf(),
        ensures
            steps(*old(self), *final(self)),
            r matches Ok(Some(e)) ==> old(self).pos < final(self).pos && e is Arrow,
            r matches Err(e) ==> crate::syntax::parser::error_at_token(old(self).tokens@, e),
        decreases old(self).remaining(), 50int,
    {
        let mut params: Vec<Param> = Vec::new();
        if !self.check(TokenKind::RParen) {
            loop
                invariant
                    self.wf(),
                    self.tokens@ == old(self).tokens@,
                    old(self).pos <= self.pos,
                decreases self.remaining(),
            {
                if !self.check(TokenKind::Ident) {
                    return Ok(None);
                }
                let name_tok = self.advance();
                if !self.check(TokenKind::Colon) {
                    return Ok(None);
                }
                self.advance();
                let ty = match self.parse_type() {
                    Ok(t) => t,
                    Err(_) => {
                        return Ok(None);
                    },
                };
                params.push(Param { name: name_tok.text, ty, line: name_tok.line, col: name_tok.col });
                if !self.matches(TokenKind::Comma) {
                    break;
                }
            }
        }
        if !self.check(TokenKind::RParen) {
            return Ok(None);
        }
        self.advance();
        let return_type = if self.matches(TokenKind::Colon) {
            match self.parse_type() {
                Ok(t) => Some(t),
                Err(_) => {
                    return Ok(None);
                },
            }
        } else {
            None
        };
        if !self.check(TokenKind::FatArrow) {
            return Ok(None);
        }
        self.advance();
        let body = if self.check(TokenKind::LBrace) {
            self.advance();
            let stmts = self.parse_block_rest("`}` closing arrow function body")?;
            ArrowBody::Block(stmts)
        } else {
            let e = self.parse_expr()?;
            ArrowBody::Expr(Box::new(e))
        };
        Ok(Some(Expr::Arrow { params, return_type, body }))
    }

    /// An expression.
    pub fn parse_expr(&mut self) -> (r: Result<Expr, ParseError>)
        requires
            old(self).wf(),
        ensures
            outcome(*old(self), *final(self), r),
        decreases old(self).remaining(), 62int,
    {
        self.parse_nullish()
    }

    /// or (`??` or)*, left-associative: the loosest operator.
    fn parse_nullish(&mut self) -> (r: Result<Expr, ParseError>)
        requires
            old(self).wf(),
        ensures
            outcome(*old(self), *final(self), r),
        decreases old(self).remaining(), 61int,
    {
        let mut left = self.parse_or()?;
        loop
            invariant
                self.wf(),
                self.tokens@ == old(self).tokens@,
                old(self).pos < self.pos,
            decreases self.remaining(),
        {
            if !self.check(TokenKind::QuestionQuestion) {
                break;
            }
            self.advance();
            let right = self.parse_or()?;
            left = Expr::Binary { op: BinOp::NullishCoalesce, left: Box::new(left), right: Box::new(right) };
        }
        Ok(left)
    }

    /// and (`||` and)*, left-associative.
    fn parse_or(&mut self) -> (r: Result<Expr, ParseError>)
        requires
            old(self).wf(),
        ensures
            outcome(*old(self), *final(self), r),
        decreases old(self).remaining(), 59int,
    {
        let mut left = self.parse_and()?;
        loop
            invariant
                self.wf(),
                self.tokens@ == old(self).tokens@,
                old(self).pos < self.pos,
            decreases self.remaining(),
        {
            if !self.check(TokenKind::Or) {
                break;
            }
            self.advance();
            let right = self.parse_and()?;
            left = Expr::Binary { op: BinOp::Or, left: Box::new(left), right: Box::new(right) };
        }
        Ok(left)
    }

    /// level (`&&` level)*, left-associative.
    fn parse_and(&mut self) -> (r: Result<Expr, ParseError>)
        requires
            old(self).wf(),
        ensures
            outcome(*old(self), *final(self), r),
        decreases old(self).remaining(), 58int,
    {
        let mut left = self.parse_binary_level(0)?;
        loop
            invariant
                self.wf(),
                self.tokens@ == old(self).tokens@,
                old(self).pos < self.pos,
            decreases self.remaining(),
        {
            if !self.check(TokenKind::And) {
                break;
            }
            self.advance();
            let right = self.parse_binary_level(0)?;
            left = Expr::Binary { op: BinOp::And, left: Box::new(left), right: Box::new(right) };
        }
        Ok(left)
    }

    /// One left-associative binary level: `0` equality (`==`, `!=`), `1`
    /// comparison (`<`, `>`, `<=`, `>=`), `2` additive (`+`, `-`), `3`
    /// multiplicative (`*`, `/`, `%`); its operands are the next level, or
    /// unary expressions below level `3`.
    fn parse_binary_level(&mut self, level: u8) -> (r: Result<Expr, ParseError>)
        requires
            old(self).wf(),
            level <= 3,
        ensures
            outcome(*old(self), *final(self), r),
        decreases old(self).remaining(), 57int - level,
    {
        let mut left = if level < 3 {
            self.parse_binary_level(level + 1)?
        } else {
            self.parse_unary()?
        };
        loop
            invariant
                self.wf(),
                self.tokens@ == old(self).tokens@,
                old(self).pos < self.pos,
                level <= 3,
            decreases self.remaining(),
        {
            let op = match op_of(self.peek_kind(), level) {
                Some(op) => op,
                None => {
                    break;
                },
            };
            self.advance();
            let right = if level < 3 {
                self.parse_binary_level(level + 1)?
            } else {
                self.parse_unary()?
            };
            left = Expr::Binary { op, left: Box::new(left), right: Box::new(right) };
        }
        Ok(left)
    }

    /// `!e`, `-e`, `typeof e`, or a postfix chain.
    fn parse_unary(&mut self) -> (r: Result<Expr, ParseError>)
        requires
            old(self).wf(),
        ensures
            outcome(*old(self), *final(self), r),
        decreases old(self).remaining(), 53int,
    {
        let k = self.peek_kind();
        if k == TokenKind::Bang {
            self.advance();
            let operand = self.parse_unary()?;
            Ok(Expr::Unary { op: UnaryOp::Not, operand: Box::new(operand) })
        } else if k == TokenKind::Minus {
            self.advance();
            let operand = self.parse_unary()?;
            Ok(Expr::Unary { op: UnaryOp::Neg, operand: Box::new(operand) })
        } else if k == TokenKind::Typeof {
            self.advance();
            let operand = self.parse_unary()?;
            Ok(Expr::TypeOf(Box::new(operand)))
        } else {
            self.parse_postfix()
        }
    }

    /// Comma-separated arguments after an already consumed `(`, through the
    /// closing `)`.
    fn parse_args_rest(&mut self) -> (r: Result<Vec<Expr>, ParseError>)
        requires
            old(self).wf(),
        ensures
            outcome(*old(self), *final(self), r),
        decreases old(self).remaining(), 63int,
    {
        let mut args: Vec<Expr> = Vec::new();
        if !self.check(TokenKind::RParen) {
            loop
                invariant
                    self.wf(),
                    self.tokens@ == old(self).tokens@,
                    old(self).pos <= self.pos,
                decreases self.remaining(),
            {
                let a = self.parse_expr()?;
                args.push(a);
                if !self.matches(TokenKind::Comma) {
                    break;
                }
            }
        }
        self.expect(TokenKind::RParen, "`)` after arguments")?;
        Ok(args)
    }

    /// An atom followed by `.name`, `[index]`, `(args)`, `!` (non-null
    /// assertion), `as T` or `as const`, any number of times.
    fn parse_postfix(&mut self) -> (r: Result<Expr, ParseError>)
        requires
            old(self).wf(),
        ensures
            outcome(*old(self), *final(self), r),
        decreases old(self).remaining(), 52int,
    {
        let mut expr = self.parse_atom()?;
        loop
            invariant
                self.wf(),
                self.tokens@ == old(self).tokens@,
                old(self).pos < self.pos,
            decreases self.remaining(),
        {
            let k = self.peek_kind();
            if k == TokenKind::Dot {
                self.advance();
                let property = self.expect_ident("property name after `.`")?;
                expr = Expr::Member { object: Box::new(expr), property };
            } else if k == TokenKind::LBracket {
                self.advance();
                let index = self.parse_expr()?;
                self.expect(TokenKind::RBracket, "`]` after index expression")?;
                expr = Expr::Index { object: Box::new(expr), index: Box::new(index) };
            } else if k == TokenKind::LParen {
                self.advance();
                let args = self.parse_args_rest()?;
                expr = Expr::Call { callee: Box::new(expr), args };
            } else if k == TokenKind::Bang {
                self.advance();
                expr = Expr::NonNullAssertion(Box::new(expr));
            } else if k == TokenKind::As {
                self.advance();
                if self.check(TokenKind::Const) {
                    self.advance();
                    expr = Expr::AsConst(Box::new(expr));
                } else {
                    let ty = self.parse_type()?;
                    expr = Expr::AsAssertion { expr: Box::new(expr), ty };
                }
            } else {
                break;
            }
        }
        Ok(expr)
    }

    /// A literal, a name, a path `a::b`, a call of either, a grouped
    /// expression, an arrow function, or an array / object literal.
    #[verifier::loop_isolation(false)]
    fn parse_atom(&mut self) -> (r: Result<Expr, ParseError>)
        requires
            old(self).wf(),
        ensures
            outcome(*old(self), *final(self), r),
            literal_kind(old(self).cur_kind()) ==> (r matches Ok(e) && literal_expr(
                old(self).cur_kind(),
                old(self).tokens@[old(self).pos as int].text@,
                e,
            ) && final(self).pos == old(self).pos + 1),
            old(self).cur_kind() == TokenKind::Ident && old(self).kind_at(old(self).pos + 1) != TokenKind::ColonColon
                && old(self).kind_at(old(self).pos + 1) != TokenKind::LParen ==> ((r matches Ok(Expr::Ident(n)) && n@
                == old(self).tokens@[old(self).pos as int].text@) && final(self).pos == old(self).pos + 1),
        decreases old(self).remaining(), 51int,
    {
        let at = self.pos;
        let t = self.advance();
        match t.kind {
            TokenKind::Number => Ok(Expr::Number(t.text)),
            TokenKind::Str => Ok(Expr::String(t.text)),
            TokenKind::True => Ok(Expr::Bool(true)),
            TokenKind::False => Ok(Expr::Bool(false)),
            TokenKind::Null => Ok(Expr::Null),
            TokenKind::Undefined => Ok(Expr::Undefined),
            TokenKind::Ident => {
                let name = t.text;
                if self.check(TokenKind::ColonColon) {
                    let mut segments: Vec<String> = Vec::new();
                    segments.push(name);
                    loop
                        invariant
                            self.wf(),
                            self.tokens@ == old(self).tokens@,
                            old(self).pos < self.pos,
                        decreases self.remaining(),
                    {
                        if !self.matches(TokenKind::ColonColon) {
                            break;
                        }
                        let seg = self.expect_ident("path segment after `::`")?;
                        segments.push(seg);
                    }
                    if self.check(TokenKind::LParen) {
                        self.advance();
                        let args = self.parse_args_rest()?;
                        return Ok(Expr::Call { callee: Box::new(Expr::Path { segments }), args });
                    }
                    return Ok(Expr::Path { segments });
                }
                if self.check(TokenKind::LParen) {
                    self.advance();
                    let args = self.parse_args_rest()?;
                    Ok(Expr::Call { callee: Box::new(Expr::Ident(name)), args })
                } else {
                    Ok(Expr::Ident(name))
                }
            },
            TokenKind::LParen => {
                let after_lparen = self.pos;
                match self.try_parse_arrow_after_lparen()? {
                    Some(arrow) => {
                        return Ok(arrow);
                    },
                    None => {},
                }
                self.pos = after_lparen;
                let expr = self.parse_expr()?;
                self.expect(TokenKind::RParen, "`)` after grouped expression")?;
                Ok(expr)
            },
            TokenKind::LBracket => {
                let mut elements: Vec<ArrayElement> = Vec::new();
                if !self.check(TokenKind::RBracket) {
                    loop
                        invariant
                            self.wf(),
                            self.tokens@ == old(self).tokens@,
                            old(self).pos < self.pos,
                        decreases self.remaining(),
                    {
                        if self.matches(TokenKind::DotDotDot) {
                            let e = self.parse_expr()?;
                            elements.push(ArrayElement::Spread(e));
                        } else {
                            let e = self.parse_expr()?;
                            elements.push(ArrayElement::Item(e));
                        }
                        if !self.matches(TokenKind::Comma) {
                            break;
                        }
                    }
                }
                self.expect(TokenKind::RBracket, "`]` closing array literal")?;
                Ok(Expr::ArrayLiteral { elements })
            },
            TokenKind::LBrace => {
                let mut fields: Vec<ObjectField> = Vec::new();
                if !self.check(TokenKind::RBrace) {
                    loop
                        invariant
                            self.wf(),
                            self.tokens@ == old(self).tokens@,
                            old(self).pos < self.pos,
                        decreases self.remaining(),
                    {
                        if self.matches(TokenKind::DotDotDot) {
                            let e = self.parse_expr()?;
                            fields.push(ObjectField::Spread(e));
                        } else {
                            let key = self.expect_ident("field name in object literal")?;
                            self.expect(TokenKind::Colon, "`:` after field name")?;
                            let value = self.parse_expr()?;
                            fields.push(ObjectField::KV(key, value));
                        }
                        if !self.matches(TokenKind::Comma) {
                            break;
                        }
                    }
                }
                self.expect(TokenKind::RBrace, "`}` closing object literal")?;
                Ok(Expr::ObjectLiteral { fields })
            },
            _ => {
                let mut msg = owned("expected an expression, found ");
                msg.append(describe_kind(t.kind));
                Err(error_at(&self.tokens, at, msg))
            },
        }
    }

    /// Consumes a string literal and returns its contents.
    pub fn expect_string_literal(&mut self, context: &str) -> (r: Result<String, ParseError>)
        requires
            old(self).wf(),
        ensures
            outcome(*old(self), *final(self), r),
            match r {
                Ok(s) => old(self).cur_kind() == TokenKind::Str && s@ == old(self).tokens@[old(
                    self,
                ).pos as int].text@,
                Err(_) => old(self).cur_kind() != TokenKind::Str,
            },
    {
        if self.check(TokenKind::Str) {
            let t = self.advance();
            Ok(t.text)
        } else {
            let mut msg = owned("expected a string (");
            msg.append(context);
            msg.append(")");
            Err(error_at(&self.tokens, self.pos, msg))
        }
    }
}

} // verus!
