//! A type as the compiler sees it: a primitive or object type, possibly
//! an array of it.

use vstd::prelude::*;

verus! {

/// A source type. For a primitive or an array, `name` alone (`string`,
/// `number`, ...); for an object type, `name` is the struct's unique name
/// and `fields` its `(field, type)` pairs. `is_array` marks `T[]`.
#[derive(Debug)]
pub struct Type {
    pub name: String,
    pub fields: Vec<(String, Box<Type>)>,
    pub is_array: bool,
}

/// The value of a [`Type`]: its name, its fields' names and types, and
/// whether it is an array.
pub struct TypeV {
    pub name: Seq<char>,
    pub fields: Seq<(Seq<char>, TypeV)>,
    pub is_array: bool,
}

/// Values of a sequence of object-type fields, element by element.
pub open spec fn fields_view(s: Seq<(String, Box<Type>)>) -> Seq<(Seq<char>, TypeV)>
    decreases s,
{
    if s.len() == 0 {
        Seq::empty()
    } else {
        fields_view(s.drop_last()).push((s.last().0@, type_view(*s.last().1)))
    }
}

pub open spec fn type_view(t: Type) -> TypeV
    decreases t,
{
    TypeV { name: t.name@, fields: fields_view(t.fields@), is_array: t.is_array }
}

impl View for Type {
    type V = TypeV;

    open spec fn view(&self) -> TypeV {
        type_view(*self)
    }
}

pub proof fn lemma_fields_view(s: Seq<(String, Box<Type>)>)
    ensures
        fields_view(s).len() == s.len(),
        forall|i: int| 0 <= i < s.len() ==> #[trigger] fields_view(s)[i] == (s[i].0@, (*s[i].1)@),
    decreases s.len(),
{
    if s.len() > 0 {
        lemma_fields_view(s.drop_last());
    }
}

impl TypeV {
    /// The plain type named `name`.
    pub open spec fn is_plain(self, name: Seq<char>) -> bool {
        &&& self.name == name
        &&& self.fields.len() == 0
        &&& !self.is_array
    }
}

impl Type {
    pub fn string() -> (t: Self)
        ensures
            t@.is_plain("string"@),
    {
        Type { name: String::from_str("string"), fields: Vec::new(), is_array: false }
    }

    pub fn number() -> (t: Self)
        ensures
            t@.is_plain("number"@),
    {
        Type { name: String::from_str("number"), fields: Vec::new(), is_array: false }
    }

    pub fn boolean() -> (t: Self)
        ensures
            t@.is_plain("boolean"@),
    {
        Type { name: String::from_str("boolean"), fields: Vec::new(), is_array: false }
    }

    pub fn void() -> (t: Self)
        ensures
            t@.is_plain("void"@),
    {
        Type { name: String::from_str("void"), fields: Vec::new(), is_array: false }
    }
}

/// A copy of a type with the same value.
#[verifier::loop_isolation(false)]
pub fn clone_type(t: &Type) -> (r: Type)
    ensures
        r@ == t@,
    decreases t,
{
    let mut out: Vec<(String, Box<Type>)> = Vec::new();
    let mut i: usize = 0;
    while i < t.fields.len()
        invariant
            i <= t.fields@.len(),
            out@.len() == i,
            forall|j: int|
                0 <= j < i ==> (#[trigger] out@[j]).0@ == t.fields@[j].0@ && (*out@[j].1)@ == (
                *t.fields@[j].1)@,
        decreases t.fields@.len() - i,
    {
        proof {
            assert(decreases_to!(t.fields => t.fields[i as int]));
            assert(decreases_to!(t.fields[i as int] => t.fields[i as int].1));
        }
        let c = clone_type(&t.fields[i].1);
        out.push((t.fields[i].0.clone(), Box::new(c)));
        i += 1;
    }
    proof {
        lemma_fields_view(out@);
        lemma_fields_view(t.fields@);
        assert(fields_view(out@) =~= fields_view(t.fields@));
    }
    Type { name: t.name.clone(), fields: out, is_array: t.is_array }
}

} // verus!
