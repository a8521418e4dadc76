//! Type annotations: primitives, `null` / `undefined`, named types, inline
//! object types, `T[]`, `T?`, unions, intersections, literal types and
//! function types. Loosest to tightest: union, intersection, postfix
//! (`[]`, `?`), primary.

use crate::lsp::symbols::{field_labels, push_field_labels};
use crate::syntax::ast::{fields_view, lemma_fields_view, lemma_types_view, types_view, LiteralValue, LiteralV, Type, TypeV};
use crate::syntax::parser::{error_at, outcome, steps, ParseError, Parser};
use crate::syntax::token::TokenKind;
use crate::text::{join, nat_hex, owned, u64_hex};
use vstd::prelude::*;

verus! {

broadcast use vstd::std_specs::vec::group_vec_axioms;

/// A type as the type grammar builds it: every union lists at least two
/// members, none of them `null` or `undefined` (such a member makes the
/// whole type optional instead).
pub open spec fn normalized(t: TypeV) -> bool
    decreases t,
{
    match t {
        TypeV::Optional(inner) => normalized(*inner),
        TypeV::Array(inner) => normalized(*inner),
        TypeV::Object { fields, .. } => forall|k: int|
            0 <= k < fields.len() ==> normalized(#[trigger] fields[k].1),
        TypeV::Union(members) => {
            &&& members.len() >= 2
            &&& forall|k: int|
                0 <= k < members.len() ==> normalized(#[trigger] members[k]) && !nullish(members[k])
        },
        TypeV::Intersection(members) => forall|k: int|
            0 <= k < members.len() ==> normalized(#[trigger] members[k]),
        TypeV::Function { params, return_type } => {
            &&& normalized(*return_type)
            &&& forall|k: int| 0 <= k < params.len() ==> normalized(#[trigger] params[k])
        },
        _ => true,
    }
}

/// `null` or `undefined`.
pub open spec fn nullish(t: TypeV) -> bool {
    t is Null || t is Undefined
}

/// The type a single token denotes in type position, if it denotes one by
/// itself.
pub open spec fn token_type(k: TokenKind, text: Seq<char>) -> Option<TypeV> {
    match k {
        TokenKind::TypeString => Some(TypeV::Primitive("string"@)),
        TokenKind::TypeNumber => Some(TypeV::Primitive("number"@)),
        TokenKind::TypeBoolean => Some(TypeV::Primitive("boolean"@)),
        TokenKind::TypeVoid => Some(TypeV::Primitive("void"@)),
        TokenKind::TypeAny => Some(TypeV::Primitive("any"@)),
        TokenKind::Null => Some(TypeV::Null),
        TokenKind::Undefined => Some(TypeV::Undefined),
        TokenKind::Str => Some(TypeV::Literal(LiteralV::String(text))),
        TokenKind::Number => Some(TypeV::Literal(LiteralV::Number(text))),
        TokenKind::True => Some(TypeV::Literal(LiteralV::Bool(true))),
        TokenKind::False => Some(TypeV::Literal(LiteralV::Bool(false))),
        TokenKind::Ident => Some(TypeV::Named(text)),
        _ => None,
    }
}

/// Hash of an object type's shape label (`DefaultHasher`, fixed keys).
pub uninterp spec fn shape_hash(label: Seq<char>) -> u64;

/// Hashes a shape label with std's `DefaultHasher` (`Hash for str`, then
/// `finish`). `DefaultHasher::new` uses fixed keys, so the hash depends on
/// the label alone; its value is left unstated.
#[verifier::external_body]
fn hash_label(label: &str) -> (h: u64)
    ensures
        h == shape_hash(label@),
{
    let mut hasher = std::collections::hash_map::DefaultHasher::new();
    std::hash::Hash::hash(label, &mut hasher);
    std::hash::Hasher::finish(&hasher)
}

/// The label an object type's shape is named after: `{ a: T, b?: U }`.
pub open spec fn shape_label(fields: Seq<(Seq<char>, TypeV, bool)>) -> Seq<char> {
    "{ "@ + join(field_labels(fields), ", "@) + " }"@
}

/// Name given to an inline object type: `__Obj` and the low 24 bits of the
/// hash of its shape label, in hexadecimal. Same shape, same name.
pub open spec fn spec_object_type_name(fields: Seq<(Seq<char>, TypeV, bool)>) -> Seq<char> {
    "__Obj"@ + nat_hex((shape_hash(shape_label(fields)) % 0x1000000) as nat)
}

pub fn object_type_name(fields: &Vec<(String, Box<Type>, bool)>) -> (r: String)
    ensures
        r@ == spec_object_type_name(fields_view(fields@)),
{
    let mut label = owned("{ ");
    push_field_labels(&mut label, fields);
    label.append(" }");
    let h = hash_label(label.as_str());
    let mut name = owned("__Obj");
    name.append(u64_hex(h % 0x1000000).as_str());
    name
}

impl Parser {
    /// A type annotation.
    pub fn parse_type(&mut self) -> (r: Result<Type, ParseError>)
        requires
            old(self).wf(),
        ensures
            outcome(*old(self), *final(self), r),
            r matches Ok(t) ==> normalized(t@),
        decreases old(self).remaining(), 9int,
    {
        self.parse_union_type()
    }

    /// `|`? intersection (`|` intersection)*. A `null` / `undefined`
    /// member makes the result optional instead of being listed.
    fn parse_union_type(&mut self) -> (r: Result<Type, ParseError>)
        requires
            old(self).wf(),
        ensures
            outcome(*old(self), *final(self), r),
            r matches Ok(t) ==> normalized(t@),
        decreases old(self).remaining(), 8int,
    {
        let ghost start = self.pos;
        self.matches(TokenKind::Bar);
        let first = self.parse_intersection_type()?;
        if !self.check(TokenKind::Bar) {
            return Ok(first);
        }
        let mut members: Vec<Type> = Vec::new();
        members.push(first);
        loop
            invariant
                self.wf(),
                self.tokens@ == old(self).tokens@,
                start == old(self).pos,
                old(self).pos < self.pos,
                members@.len() >= 1,
                forall|k: int| 0 <= k < members@.len() ==> normalized(#[trigger] members@[k]@),
            decreases self.remaining(),
        {
            if !self.matches(TokenKind::Bar) {
                break;
            }
            let m = self.parse_intersection_type()?;
            members.push(m);
        }
        let mut had_null = false;
        let mut kept: Vec<Type> = Vec::new();
        let n = members.len();
        let mut i: usize = 0;
        while i < n
            invariant
                n == members@.len(),
                i <= n,
                forall|k: int| 0 <= k < members@.len() ==> normalized(#[trigger] members@[k]@),
                forall|k: int|
                    0 <= k < kept@.len() ==> normalized(#[trigger] kept@[k]@) && !nullish(kept@[k]@),
            decreases n - i,
        {
            let is_null = match &members[i] {
                Type::Null => true,
                Type::Undefined => true,
                _ => false,
            };
            if is_null {
                had_null = true;
            } else {
                let m = members[i].clone();
                kept.push(m);
            }
            i += 1;
        }
        let base = if kept.len() == 0 {
            Type::Null
        } else if kept.len() == 1 {
            kept.pop().unwrap()
        } else {
            proof {
                lemma_types_view(kept@);
                let tv = types_view(kept@);
                assert forall|k: int| 0 <= k < tv.len() implies normalized(#[trigger] tv[k]) && !nullish(tv[k]) by {
                    assert(tv[k] == kept@[k]@);
                }
            }
            Type::Union(kept)
        };
        assert(normalized(base@));
        if had_null {
            let o = Type::optional(base);
            assert(normalized(o@));
            Ok(o)
        } else {
            Ok(base)
        }
    }

    /// postfix (`&` postfix)*
    fn parse_intersection_type(&mut self) -> (r: Result<Type, ParseError>)
        requires
            old(self).wf(),
        ensures
            outcome(*old(self), *final(self), r),
            r matches Ok(t) ==> normalized(t@),
        decreases old(self).remaining(), 7int,
    {
        let first = self.parse_postfix_type()?;
        if !self.check(TokenKind::Ampersand) {
            return Ok(first);
        }
        let mut members: Vec<Type> = Vec::new();
        members.push(first);
        loop
            invariant
                self.wf(),
                self.tokens@ == old(self).tokens@,
                old(self).pos < self.pos,
                forall|k: int| 0 <= k < members@.len() ==> normalized(#[trigger] members@[k]@),
            decreases self.remaining(),
        {
            if !self.matches(TokenKind::Ampersand) {
                break;
            }
            let m = self.parse_postfix_type()?;
            members.push(m);
        }
        proof {
            lemma_types_view(members@);
        }
        Ok(Type::Intersection(members))
    }

    /// primary (`[` `]`)* `?`? — each `[]` wraps an array; a trailing `?`
    /// makes the type optional. `T??` is refused.
    fn parse_postfix_type(&mut self) -> (r: Result<Type, ParseError>)
        requires
            old(self).wf(),
        ensures
            outcome(*old(self), *final(self), r),
            r matches Ok(t) ==> normalized(t@),
        decreases old(self).remaining(), 6int,
    {
        let mut ty = self.parse_primary_type()?;
        loop
            invariant
                self.wf(),
                self.tokens@ == old(self).tokens@,
                old(self).pos < self.pos,
                normalized(ty@),
            decreases self.remaining(),
        {
            if !self.check(TokenKind::LBracket) {
                break;
            }
            self.advance();
            self.expect(TokenKind::RBracket, "`]` after `[`")?;
            ty = Type::Array(Box::new(ty));
        }
        if self.check(TokenKind::QuestionQuestion) {
            let msg = owned("`T??` is not a type — one `?` already covers \"may be missing\"");
            return Err(error_at(&self.tokens, self.pos, msg));
        }
        if self.matches(TokenKind::Question) {
            ty = Type::optional(ty);
        }
        Ok(ty)
    }

    /// A single-token type, an inline object type, a function type or a
    /// negative number literal type (`-1`).
    fn parse_primary_type(&mut self) -> (r: Result<Type, ParseError>)
        requires
            old(self).wf(),
        ensures
            outcome(*old(self), *final(self), r),
            r matches Ok(t) ==> normalized(t@),
            token_type(old(self).cur_kind(), old(self).tokens@[old(self).pos as int].text@) matches Some(v)
                ==> (r matches Ok(t) && t@ == v && final(self).pos == old(self).pos + 1),
        decreases old(self).remaining(), 5int,
    {
        if self.check(TokenKind::LBrace) {
            return self.parse_object_type();
        }
        if self.check(TokenKind::LParen) {
            return self.parse_function_type();
        }
        let at = self.pos;
        let t = self.advance();
        match t.kind {
            TokenKind::TypeString => Ok(Type::Primitive(owned("string"))),
            TokenKind::TypeNumber => Ok(Type::Primitive(owned("number"))),
            TokenKind::TypeBoolean => Ok(Type::Primitive(owned("boolean"))),
            TokenKind::TypeVoid => Ok(Type::Primitive(owned("void"))),
            TokenKind::TypeAny => Ok(Type::Primitive(owned("any"))),
            TokenKind::Null => Ok(Type::Null),
            TokenKind::Undefined => Ok(Type::Undefined),
            TokenKind::Str => Ok(Type::Literal(LiteralValue::String(t.text))),
            TokenKind::Number => Ok(Type::Literal(LiteralValue::Number(t.text))),
            TokenKind::True => Ok(Type::Literal(LiteralValue::Bool(true))),
            TokenKind::False => Ok(Type::Literal(LiteralValue::Bool(false))),
            TokenKind::Ident => Ok(Type::Named(t.text)),
            TokenKind::Minus => {
                let next_at = self.pos;
                let next = self.advance();
                if next.kind == TokenKind::Number {
                    let mut text = owned("-");
                    text.append(next.text.as_str());
                    Ok(Type::Literal(LiteralValue::Number(text)))
                } else {
                    let mut msg = owned("expected a number after `-` in type position, found ");
                    msg.append(crate::syntax::token::describe_kind(next.kind));
                    Err(error_at(&self.tokens, next_at, msg))
                }
            },
            _ => {
                let mut msg = owned("unknown type ");
                msg.append(crate::syntax::token::describe_kind(t.kind));
                Err(error_at(&self.tokens, at, msg))
            },
        }
    }

    /// `{ name: T, opt?: U; ... }` (the `{` not yet consumed). `opt?: U`
    /// stores `U?` and marks the field optional.
    fn parse_object_type(&mut self) -> (r: Result<Type, ParseError>)
        requires
            old(self).wf(),
            old(self).cur_kind() == TokenKind::LBrace,
        ensures
            outcome(*old(self), *final(self), r),
            r matches Ok(t) ==> normalized(t@) && t@ is Object,
        decreases old(self).remaining(), 4int,
    {
        self.advance();
        let mut fields: Vec<(String, Box<Type>, bool)> = Vec::new();
        if !self.check(TokenKind::RBrace) {
            loop
                invariant
                    self.wf(),
                    self.tokens@ == old(self).tokens@,
                    old(self).pos < self.pos,
                    forall|k: int| 0 <= k < fields@.len() ==> normalized((*(#[trigger] fields@[k]).1)@),
                decreases self.remaining(),
            {
                let key = self.expect_ident("field name in object type")?;
                let optional = self.matches(TokenKind::Question);
                self.expect(TokenKind::Colon, "`:` after field name")?;
                let field_ty = self.parse_type()?;
                let stored = if optional {
                    Type::optional(field_ty)
                } else {
                    field_ty
                };
                fields.push((key, Box::new(stored), optional));
                if !self.matches(TokenKind::Comma) {
                    if !self.matches(TokenKind::Semi) {
                        break;
                    }
                }
            }
        }
        self.expect(TokenKind::RBrace, "`}` closing object type")?;
        let name = object_type_name(&fields);
        proof {
            lemma_fields_view(fields@);
        }
        Ok(Type::Object { name, fields })
    }

    /// `(a: T, b: U) => R` (the `(` not yet consumed). Parameter names are
    /// required but not kept.
    fn parse_function_type(&mut self) -> (r: Result<Type, ParseError>)
        requires
            old(self).wf(),
            old(self).cur_kind() == TokenKind::LParen,
        ensures
            outcome(*old(self), *final(self), r),
            r matches Ok(t) ==> normalized(t@) && t@ is Function,
        decreases old(self).remaining(), 4int,
    {
        self.advance();
        let mut params: Vec<Type> = Vec::new();
        if !self.check(TokenKind::RParen) {
            loop
                invariant
                    self.wf(),
                    self.tokens@ == old(self).tokens@,
                    old(self).pos < self.pos,
                    forall|k: int| 0 <= k < params@.len() ==> normalized(#[trigger] params@[k]@),
                decreases self.remaining(),
            {
                self.expect(TokenKind::Ident, "parameter name in function type")?;
                self.expect(TokenKind::Colon, "`:` after parameter name")?;
                let p = self.parse_type()?;
                params.push(p);
                if !self.matches(TokenKind::Comma) {
                    break;
                }
            }
        }
        self.expect(TokenKind::RParen, "`)` after function type parameters")?;
        self.expect(TokenKind::FatArrow, "`=>` in function type")?;
        let ret = self.parse_type()?;
        proof {
            lemma_types_view(params@);
        }
        Ok(Type::Function { params, return_type: Box::new(ret) })
    }
}

} // verus!
