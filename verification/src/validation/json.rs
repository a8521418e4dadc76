//! The shape of a JSON document as a type, for `json("<path>")`: the
//! compiler reads the file (that is the caller's part) and the call gets
//! the type of its top-level value, the way an object literal's type is
//! inferred. Objects get the same hash-derived name as an object literal
//! of the same shape.

use crate::syntax::ast::{fields_view, type_view, Type, TypeV};
use crate::syntax::parser::types::{object_type_name, spec_object_type_name};
use vstd::prelude::*;

verus! {

broadcast use vstd::std_specs::vec::group_vec_axioms;

/// A parsed JSON value, as far as its shape goes (a number's value does
/// not matter to it).
#[derive(Debug)]
pub enum JsonValue {
    Null,
    Bool(bool),
    Number,
    String(String),
    Array(Vec<JsonValue>),
    /// Members in document order.
    Object(Vec<(String, JsonValue)>),
}

/// The type of a JSON value: `null` gives `string?` (a placeholder: one
/// sample tells nothing of the real type); an array its first element's
/// type (`number` when empty), as an array; an object an object type with
/// a required field per member.
pub open spec fn json_type(v: JsonValue) -> TypeV
    decreases v,
{
    match v {
        JsonValue::Null => TypeV::Optional(Box::new(TypeV::Primitive("string"@))),
        JsonValue::Bool(_) => TypeV::Primitive("boolean"@),
        JsonValue::Number => TypeV::Primitive("number"@),
        JsonValue::String(_) => TypeV::Primitive("string"@),
        JsonValue::Array(items) => TypeV::Array(
            Box::new(
                if items@.len() == 0 {
                    TypeV::Primitive("number"@)
                } else {
                    json_type(items@[0])
                },
            ),
        ),
        JsonValue::Object(members) => {
            let fs = json_fields(members@);
            TypeV::Object { name: spec_object_type_name(fs), fields: fs }
        },
    }
}

pub open spec fn json_fields(members: Seq<(String, JsonValue)>) -> Seq<(Seq<char>, TypeV, bool)>
    decreases members,
{
    if members.len() == 0 {
        Seq::empty()
    } else {
        json_fields(members.drop_last()).push((members.last().0@, json_type(members.last().1), false))
    }
}

/// The type of the JSON value `v` (see [`json_type`]).
#[verifier::loop_isolation(false)]
pub fn value_to_type(v: &JsonValue) -> (r: Type)
    ensures
        r@ == json_type(*v),
    decreases v,
{
    match v {
        JsonValue::Null => {
            let s = Type::string();
            assert(s@ == TypeV::Primitive("string"@));
            Type::Optional(Box::new(s))
        },
        JsonValue::Bool(_) => {
            let t = Type::boolean();
            assert(t@ == TypeV::Primitive("boolean"@));
            t
        },
        JsonValue::Number => {
            let t = Type::number();
            assert(t@ == TypeV::Primitive("number"@));
            t
        },
        JsonValue::String(_) => {
            let t = Type::string();
            assert(t@ == TypeV::Primitive("string"@));
            t
        },
        JsonValue::Array(items) => {
            let elem = if items.len() == 0 {
                let n = Type::number();
                assert(n@ == TypeV::Primitive("number"@));
                n
            } else {
                proof {
                    assert(decreases_to!(*items => items@[0]));
                }
                value_to_type(&items[0])
            };
            Type::Array(Box::new(elem))
        },
        JsonValue::Object(members) => {
            let mut typed: Vec<(String, Box<Type>, bool)> = Vec::new();
            let mut i: usize = 0;
            assert(members@.take(0) =~= Seq::<(String, JsonValue)>::empty());
            assert(fields_view(typed@) =~= Seq::empty());
            while i < members.len()
                invariant
                    i <= members@.len(),
                    fields_view(typed@) == json_fields(members@.take(i as int)),
                decreases members@.len() - i,
            {
                proof {
                    assert(decreases_to!(*members => members@[i as int]));
                    assert(decreases_to!(members@[i as int] => members@[i as int].1));
                    assert(members@.take(i + 1).drop_last() =~= members@.take(i as int));
                }
                let t = value_to_type(&members[i].1);
                let ghost before = typed@;
                typed.push((members[i].0.clone(), Box::new(t), false));
                proof {
                    assert(typed@.drop_last() =~= before);
                }
                i += 1;
            }
            assert(members@.take(members@.len() as int) =~= members@);
            let name = object_type_name(&typed);
            Type::Object { name, fields: typed }
        },
    }
}

} // verus!
