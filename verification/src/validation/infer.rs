//! Type inference: fills the type annotations a program leaves out, in
//! the TypeScript way.
//!
//! - `let x = 5;` gets `number`; `let o = { a: 1 };` gets `{ a: number }`;
//! - `for (let x of xs)` gets the element type of `xs`;
//! - a function whose return type was left out (parsed as `void`) gets the
//!   type of its first typed `return`;
//! - an arrow function without a return type gets its body's type.
//!
//! Explicit annotations always win: only missing slots are filled. The pass
//! is best effort; what it cannot deduce stays as it was.
//!
//! Names live in one flat scope per function (shadowing is expected to be
//! renamed away before). A function's missing return type is worked out on
//! demand from its body; a function met again while its own return type is
//! being worked out (recursion) counts as `void`.

use crate::syntax::ast::{
    clone_function, clone_type, ArrayElement, ArrowBody, BinOp, ExportDefault, Expr, Function,
    ObjectField, Param, Program, Stmt, SwitchCase, Type, TypeV, UnaryOp, is_primitive,
};
use crate::syntax::parser::types::object_type_name;
use crate::syntax::view::{
    elements_v, exprs_v, fields_v, function_v, opt_stmts_v, stmt_v, stmts_v, BodyV, CaseV, DefaultV, ElementV,
    ExprV, FieldV, FunctionV, StmtV,
};
use crate::text::{owned, str_eq};
use vstd::prelude::*;

verus! {

broadcast use vstd::std_specs::vec::group_vec_axioms;

/// A flat scope: names bound to types; a later binding of a name hides an
/// earlier one.
pub type Scope = Vec<(String, Type)>;

/// The type bound to `name` in `scope`: the latest binding.
pub open spec fn lookup(scope: Seq<(String, Type)>, name: Seq<char>) -> Option<TypeV>
    decreases scope.len(),
{
    if scope.len() == 0 {
        None
    } else if scope.last().0@ == name {
        Some(scope.last().1@)
    } else {
        lookup(scope.drop_last(), name)
    }
}

/// Value of an optional type.
pub open spec fn opt_view(t: Option<Type>) -> Option<TypeV> {
    match t {
        Some(x) => Some(x@),
        None => None,
    }
}

/// The latest binding of `name` in `scope`, copied.
pub fn lookup_type(scope: &Vec<(String, Type)>, name: &str) -> (r: Option<Type>)
    ensures
        opt_view(r) == lookup(scope@, name@),
        opt_view(r) == lookupv(scope_view(scope@), name@),
{
    proof {
        lemma_lookup_view(scope@, name@);
    }
    latest_binding(scope, name)
}

fn latest_binding(scope: &Vec<(String, Type)>, name: &str) -> (r: Option<Type>)
    ensures
        opt_view(r) == lookup(scope@, name@),
{
    let mut i = scope.len();
    assert(scope@.take(i as int) =~= scope@);
    while i > 0
        invariant
            i <= scope@.len(),
            lookup(scope@, name@) == lookup(scope@.take(i as int), name@),
        decreases i,
    {
        proof {
            assert(scope@.take(i as int).drop_last() =~= scope@.take(i - 1));
        }
        if str_eq(scope[i - 1].0.as_str(), name) {
            return Some(clone_type(&scope[i - 1].1));
        }
        i -= 1;
    }
    None
}

/// A copy of a scope with the same bindings.
pub fn clone_scope(scope: &Vec<(String, Type)>) -> (r: Vec<(String, Type)>)
    ensures
        r@.len() == scope@.len(),
        forall|i: int|
            0 <= i < scope@.len() ==> (#[trigger] r@[i]).0@ == scope@[i].0@ && r@[i].1@ == scope@[i].1@,
        scope_view(r@) == scope_view(scope@),
{
    let mut out: Vec<(String, Type)> = Vec::new();
    let mut i: usize = 0;
    while i < scope.len()
        invariant
            i <= scope@.len(),
            out@.len() == i,
            forall|j: int|
                0 <= j < i ==> (#[trigger] out@[j]).0@ == scope@[j].0@ && out@[j].1@ == scope@[j].1@,
        decreases scope@.len() - i,
    {
        out.push((scope[i].0.clone(), clone_type(&scope[i].1)));
        i += 1;
    }
    assert(scope_view(out@) =~= scope_view(scope@));
    out
}

/// Typing facts shared by every module of a program: function
/// declarations (their bodies too, to work out a missing return type),
/// top-level constant types, enum names, and the types of JSON files that
/// `json("<path>")` calls read (supplied by the caller, which reads them).
pub struct TypeEnv {
    pub functions: Vec<Function>,
    pub consts: Vec<(String, Type)>,
    pub enums: Vec<String>,
    pub json_shapes: Vec<(String, Type)>,
}

impl Default for TypeEnv {
    fn default() -> (r: Self)
        ensures
            r.functions@.len() == 0,
            r.consts@.len() == 0,
            r.enums@.len() == 0,
            r.json_shapes@.len() == 0,
    {
        TypeEnv { functions: Vec::new(), consts: Vec::new(), enums: Vec::new(), json_shapes: Vec::new() }
    }
}

/// `void`.
pub open spec fn spec_is_void(t: Type) -> bool {
    is_primitive(t, "void"@)
}

pub fn is_void(t: &Type) -> (r: bool)
    ensures
        r == spec_is_void(*t),
{
    match t {
        Type::Primitive(p) => str_eq(p.as_str(), "void"),
        _ => false,
    }
}

/// `any`.
pub open spec fn spec_is_any(t: Type) -> bool {
    is_primitive(t, "any"@)
}

pub fn is_any(t: &Type) -> (r: bool)
    ensures
        r == spec_is_any(*t),
{
    match t {
        Type::Primitive(p) => str_eq(p.as_str(), "any"),
        _ => false,
    }
}

/// `string`.
pub open spec fn spec_is_string(t: Type) -> bool {
    is_primitive(t, "string"@)
}

fn is_string(t: &Option<Type>) -> (r: bool)
    ensures
        r == (*t matches Some(x) && spec_is_string(x)),
{
    match t {
        Some(Type::Primitive(p)) => str_eq(p.as_str(), "string"),
        _ => false,
    }
}

/// The type of a literal expression.
pub open spec fn spec_literal_type(e: Expr) -> Option<TypeV> {
    match e {
        Expr::Number(_) => Some(TypeV::Primitive("number"@)),
        Expr::String(_) => Some(TypeV::Primitive("string"@)),
        Expr::Bool(_) => Some(TypeV::Primitive("boolean"@)),
        _ => None,
    }
}

pub fn literal_type(e: &Expr) -> (r: Option<Type>)
    ensures
        opt_view(r) == spec_literal_type(*e),
{
    match e {
        Expr::Number(_) => Some(Type::number()),
        Expr::String(_) => Some(Type::string()),
        Expr::Bool(_) => Some(Type::boolean()),
        _ => None,
    }
}

/// `name` is among `v`.
fn contains_name(v: &Vec<String>, name: &str) -> (r: bool)
    ensures
        r == exists|i: int| 0 <= i < v@.len() && (#[trigger] v@[i])@ == name@,
        r == crate::text::strings_view(v@).contains(name@),
{
    let r = has_name(v, name);
    proof {
        if exists|i: int| 0 <= i < v@.len() && (#[trigger] v@[i])@ == name@ {
            let i = choose|i: int| 0 <= i < v@.len() && (#[trigger] v@[i])@ == name@;
            assert(crate::text::strings_view(v@)[i] == name@);
        }
        if crate::text::strings_view(v@).contains(name@) {
            let i = choose|i: int|
                0 <= i < crate::text::strings_view(v@).len() && crate::text::strings_view(v@)[i] == name@;
            assert(v@[i]@ == name@);
        }
    }
    r
}

fn has_name(v: &Vec<String>, name: &str) -> (r: bool)
    ensures
        r == exists|i: int| 0 <= i < v@.len() && (#[trigger] v@[i])@ == name@,
{
    let mut i: usize = 0;
    while i < v.len()
        invariant
            i <= v@.len(),
            forall|j: int| 0 <= j < i ==> (#[trigger] v@[j])@ != name@,
        decreases v@.len() - i,
    {
        if str_eq(v[i].as_str(), name) {
            return true;
        }
        i += 1;
    }
    false
}

/// The fields of an inline object type.
pub fn object_fields(t: &Type) -> (r: Option<&Vec<(String, Box<Type>, bool)>>)
    ensures
        match *t {
            Type::Object { fields, .. } => r == Some(&fields),
            _ => r is None,
        },
{
    match t {
        Type::Object { fields, .. } => Some(fields),
        _ => None,
    }
}

/// The element type of an array type, copied.
fn array_elem(t: &Option<Type>) -> (r: Option<Type>)
    ensures
        match *t {
            Some(Type::Array(inner)) => r matches Some(x) && x@ == (*inner)@,
            _ => r is None,
        },
{
    match t {
        Some(Type::Array(inner)) => Some(clone_type(inner)),
        _ => None,
    }
}

/// Result of the typing rules that need no recursion: literals, unary and
/// non-`+` binary operators, `typeof`, `as T`, names, paths. `None` for the
/// other expression forms.
pub open spec fn direct_type(e: Expr, scope: Seq<(String, Type)>, consts: Seq<(String, Type)>) -> Option<
    Option<TypeV>,
> {
    match e {
        Expr::Number(_) => Some(Some(TypeV::Primitive("number"@))),
        Expr::String(_) => Some(Some(TypeV::Primitive("string"@))),
        Expr::Bool(_) => Some(Some(TypeV::Primitive("boolean"@))),
        Expr::Null => Some(None),
        Expr::Undefined => Some(None),
        Expr::Ident(name) => Some(
            match lookup(scope, name@) {
                Some(t) => Some(t),
                None => lookup(consts, name@),
            },
        ),
        Expr::Unary { op, .. } => Some(
            match op {
                UnaryOp::Not => Some(TypeV::Primitive("boolean"@)),
                UnaryOp::Neg => Some(TypeV::Primitive("number"@)),
            },
        ),
        Expr::Binary { op, .. } => match op {
            BinOp::Sub | BinOp::Mul | BinOp::Div | BinOp::Mod => Some(Some(TypeV::Primitive("number"@))),
            BinOp::EqEq | BinOp::NotEq | BinOp::Lt | BinOp::Gt | BinOp::LtEq | BinOp::GtEq | BinOp::And
            | BinOp::Or => Some(Some(TypeV::Primitive("boolean"@))),
            _ => None,
        },
        Expr::TypeOf(_) => Some(Some(TypeV::Primitive("string"@))),
        Expr::AsAssertion { ty, .. } => Some(Some(ty@)),
        Expr::Path { .. } => Some(None),
        _ => None,
    }
}

/// The functions, constants and enums an environment holds, as values.
pub open spec fn env_parts(env: TypeEnv) -> (Seq<FunctionV>, Seq<(Seq<char>, TypeV)>, Seq<Seq<char>>) {
    (
        env.functions@.map_values(|f: Function| function_v(f)),
        scope_view(env.consts@),
        crate::text::strings_view(env.enums@),
    )
}

/// A top-level `let` / `const` as a constant: with its annotation, or the
/// type of a literal initializer; otherwise nothing is added.
pub open spec fn const_entry(
    name: String,
    ty: Option<Type>,
    value: Expr,
    e: (Seq<FunctionV>, Seq<(Seq<char>, TypeV)>, Seq<Seq<char>>),
) -> (Seq<FunctionV>, Seq<(Seq<char>, TypeV)>, Seq<Seq<char>>) {
    match ty {
        Some(t) => (e.0, e.1.push((name@, t@)), e.2),
        None => match spec_literal_type(value) {
            Some(t) => (e.0, e.1.push((name@, t)), e.2),
            None => e,
        },
    }
}

/// What one top-level statement adds to the environment: a function, an
/// enum's name or a constant (inside `export` too), and the function of
/// an `export default function`.
pub open spec fn declared_in(s: Stmt, e: (Seq<FunctionV>, Seq<(Seq<char>, TypeV)>, Seq<Seq<char>>)) -> (
    Seq<FunctionV>,
    Seq<(Seq<char>, TypeV)>,
    Seq<Seq<char>>,
) {
    let inner = match s {
        Stmt::ExportDecl(i) => *i,
        other => other,
    };
    let a = match inner {
        Stmt::Function(f) => (e.0.push(function_v(f)), e.1, e.2),
        Stmt::Enum { name, .. } => (e.0, e.1, e.2.push(name@)),
        Stmt::Let { name, ty, value, .. } => const_entry(name, ty, value, e),
        Stmt::Const { name, ty, value, .. } => const_entry(name, ty, value, e),
        _ => e,
    };
    match s {
        Stmt::ExportDefault(ExportDefault::Function(f)) => (a.0.push(function_v(f)), a.1, a.2),
        _ => a,
    }
}

/// What the top-level statements `ss` add, in order.
pub open spec fn declared_all(ss: Seq<Stmt>, e: (Seq<FunctionV>, Seq<(Seq<char>, TypeV)>, Seq<Seq<char>>)) -> (
    Seq<FunctionV>,
    Seq<(Seq<char>, TypeV)>,
    Seq<Seq<char>>,
)
    decreases ss.len(),
{
    if ss.len() == 0 {
        e
    } else {
        declared_in(ss.last(), declared_all(ss.drop_last(), e))
    }
}

impl TypeEnv {
    /// Records every top-level function, enum and `let` / `const` (with
    /// its annotation, or the type of a literal initializer) of `program`,
    /// `export`ed ones included, in order.
    pub fn add_program(&mut self, program: &Program)
        ensures
            env_parts(*final(self)) == declared_all(program.stmts@, env_parts(*old(self))),
            final(self).json_shapes@ == old(self).json_shapes@,
    {
        let ghost e0 = env_parts(*self);
        let mut i: usize = 0;
        proof {
            assert(program.stmts@.subrange(0, 0) =~= Seq::<Stmt>::empty());
        }
        while i < program.stmts.len()
            invariant
                i <= program.stmts@.len(),
                self.json_shapes@ == old(self).json_shapes@,
                e0 == env_parts(*old(self)),
                env_parts(*self) == declared_all(program.stmts@.subrange(0, i as int), e0),
            decreases program.stmts@.len() - i,
        {
            let ghost before = env_parts(*self);
            let ghost fs0 = self.functions@;
            let ghost cs0 = self.consts@;
            let ghost es0 = self.enums@;
            let stmt = &program.stmts[i];
            let inner = match stmt {
                Stmt::ExportDecl(inner) => &**inner,
                other => other,
            };
            match inner {
                Stmt::Function(f) => {
                    self.add_function(f);
                    proof {
                        assert(env_parts(*self).0 =~= before.0.push(function_v(*f)));
                    }
                },
                Stmt::Enum { name, .. } => {
                    self.enums.push(name.clone());
                    proof {
                        assert(env_parts(*self).2 =~= before.2.push(name@));
                    }
                },
                Stmt::Let { name, ty, value, .. } | Stmt::Const { name, ty, value, .. } => {
                    match ty {
                        Some(t) => {
                            self.consts.push((name.clone(), clone_type(t)));
                            proof {
                                assert(env_parts(*self).1 =~= before.1.push((name@, t@)));
                            }
                        },
                        None => {
                            if let Some(t) = literal_type(value) {
                                self.consts.push((name.clone(), t));
                                proof {
                                    assert(env_parts(*self).1 =~= before.1.push((name@, t@)));
                                }
                            }
                        },
                    }
                },
                _ => {},
            }
            let ghost mid = env_parts(*self);
            proof {
                assert(mid == (match *inner {
                    Stmt::Function(f) => (before.0.push(function_v(f)), before.1, before.2),
                    Stmt::Enum { name, .. } => (before.0, before.1, before.2.push(name@)),
                    Stmt::Let { name, ty, value, .. } => const_entry(name, ty, value, before),
                    Stmt::Const { name, ty, value, .. } => const_entry(name, ty, value, before),
                    _ => before,
                }));
            }
            if let Stmt::ExportDefault(ExportDefault::Function(f)) = stmt {
                self.add_function(f);
                proof {
                    assert(env_parts(*self).0 =~= mid.0.push(function_v(*f)));
                }
            }
            proof {
                let p = program.stmts@.subrange(0, i + 1);
                assert(p.drop_last() =~= program.stmts@.subrange(0, i as int));
                assert(p.last() == program.stmts@[i as int]);
                assert(env_parts(*self) == declared_in(program.stmts@[i as int], before));
            }
            i += 1;
        }
        proof {
            assert(program.stmts@.subrange(0, program.stmts@.len() as int) =~= program.stmts@);
        }
    }

    fn add_function(&mut self, f: &Function)
        ensures
            final(self).functions@.len() == old(self).functions@.len() + 1,
            final(self).functions@.drop_last() == old(self).functions@,
            function_v(final(self).functions@.last()) == function_v(*f),
            final(self).consts@ == old(self).consts@,
            final(self).enums@ == old(self).enums@,
            final(self).json_shapes@ == old(self).json_shapes@,
    {
        let g = clone_function(f);
        self.functions.push(g);
        proof {
            assert(self.functions@.drop_last() =~= old(self).functions@);
        }
    }

    /// Records the type read from the JSON file at `path`, for
    /// `json("<path>")` calls.
    pub fn add_json_shape(&mut self, path: String, ty: Type)
        ensures
            final(self).json_shapes@ == old(self).json_shapes@.push((path, ty)),
            final(self).functions@ == old(self).functions@,
            final(self).consts@ == old(self).consts@,
    {
        self.json_shapes.push((path, ty));
    }

    /// The latest declaration of the function `name`.
    fn find_function(&self, name: &str) -> (r: Option<&Function>)
        ensures
            r matches Some(f) ==> f.name@ == name@ && exists|i: int|
                0 <= i < self.functions@.len() && self.functions@[i] == *f,
            r is None ==> forall|i: int|
                0 <= i < self.functions@.len() ==> (#[trigger] self.functions@[i]).name@ != name@,
            match r {
                Some(f) => latest_function(self.functions@, name@) == Some(*f),
                None => latest_function(self.functions@, name@) is None,
            },
    {
        let mut i = self.functions.len();
        assert(self.functions@.take(i as int) =~= self.functions@);
        while i > 0
            invariant
                i <= self.functions@.len(),
                forall|j: int|
                    i <= j < self.functions@.len() ==> (#[trigger] self.functions@[j]).name@ != name@,
                latest_function(self.functions@, name@) == latest_function(self.functions@.take(i as int), name@),
            decreases i,
        {
            proof {
                assert(self.functions@.take(i as int).drop_last() =~= self.functions@.take(i - 1));
            }
            if str_eq(self.functions[i - 1].name.as_str(), name) {
                return Some(&self.functions[i - 1]);
            }
            i -= 1;
        }
        None
    }

    /// Declared parameter types of the function `name` (its latest
    /// declaration), in order.
    pub fn function_param_types(&self, name: &str) -> (r: Option<Vec<Type>>)
        ensures
            r matches Some(v) ==> exists|i: int|
                0 <= i < self.functions@.len() && self.functions@[i].name@ == name@
                    && v@.len() == self.functions@[i].params@.len() && forall|k: int|
                    0 <= k < v@.len() ==> (#[trigger] v@[k])@ == self.functions@[i].params@[k].ty@,
            match r {
                Some(v) => latest_function(self.functions@, name@) matches Some(f)
                    && crate::syntax::ast::types_view(v@) == f.params@.map_values(|p: Param| p.ty@),
                None => latest_function(self.functions@, name@) is None,
            },
    {
        let f = self.find_function(name)?;
        let mut out: Vec<Type> = Vec::new();
        let mut k: usize = 0;
        while k < f.params.len()
            invariant
                k <= f.params@.len(),
                out@.len() == k,
                forall|j: int| 0 <= j < k ==> (#[trigger] out@[j])@ == f.params@[j].ty@,
            decreases f.params@.len() - k,
        {
            out.push(clone_type(&f.params[k].ty));
            k += 1;
        }
        proof {
            crate::syntax::ast::lemma_types_view(out@);
            assert(crate::syntax::ast::types_view(out@) =~= f.params@.map_values(|p: Param| p.ty@));
        }
        Some(out)
    }

    /// The return type of the function `name`: its annotation, or (when
    /// it returns `void`) the type worked out from its body.
    pub fn resolved_return_type(&self, name: &str) -> (r: Option<Type>)
        ensures
            r is Some <==> exists|i: int|
                0 <= i < self.functions@.len() && (#[trigger] self.functions@[i]).name@ == name@,
            opt_view(r) == return_ty(*self, name@, Seq::empty(), self.functions@.len() as nat),
    {
        let resolving: Vec<String> = Vec::new();
        assert(crate::text::strings_view(resolving@) =~= Seq::<Seq<char>>::empty());
        self.return_type_of(name, &resolving, self.functions.len())
    }

    /// The return type of `name`. `resolving` holds the functions whose
    /// return type is being worked out; meeting one again gives `void`.
    /// `fuel` bounds the nesting (at most one level per declared function).
    fn return_type_of(&self, name: &str, resolving: &Vec<String>, fuel: usize) -> (r: Option<Type>)
        ensures
            r is Some <==> exists|i: int|
                0 <= i < self.functions@.len() && (#[trigger] self.functions@[i]).name@ == name@,
            opt_view(r) == return_ty(*self, name@, crate::text::strings_view(resolving@), fuel as nat),
        decreases fuel, 0int, self.functions, 0int,
    {
        let f = match self.find_function(name) {
            Some(f) => f,
            None => {
                proof {
                    self.lemma_no_function(name@);
                }
                return None;
            },
        };
        if !is_void(&f.return_type) {
            return Some(clone_type(&f.return_type));
        }
        if fuel == 0 || contains_name(resolving, name) {
            return Some(Type::void());
        }
        let mut scope: Scope = Vec::new();
        let mut k: usize = 0;
        assert(scope_view(scope@) =~= params_scope(Seq::empty(), f.params@.take(0)));
        while k < f.params.len()
            invariant
                k <= f.params@.len(),
                scope_view(scope@) == params_scope(Seq::empty(), f.params@.take(k as int)),
            decreases f.params@.len() - k,
        {
            let ghost before = scope@;
            scope.push((f.params[k].name.clone(), clone_type(&f.params[k].ty)));
            proof {
                assert(scope_view(scope@) =~= scope_view(before).push((f.params@[k as int].name@, f.params@[k as int].ty@)));
                assert(params_scope(Seq::empty(), f.params@.take(k + 1)) =~= params_scope(
                    Seq::empty(),
                    f.params@.take(k as int),
                ).push((f.params@[k as int].name@, f.params@[k as int].ty@)));
            }
            k += 1;
        }
        assert(f.params@.take(f.params@.len() as int) =~= f.params@);
        let mut nested: Vec<String> = crate::syntax::ast::clone_strings(resolving);
        nested.push(owned(name));
        assert(crate::text::strings_view(nested@) =~= crate::text::strings_view(resolving@).push(name@));
        let t = match infer_body_return(&f.body, &mut scope, self, &nested, fuel - 1) {
            Some(t) => t,
            None => Type::void(),
        };
        Some(t)
    }

    proof fn lemma_no_function(&self, name: Seq<char>)
        requires
            forall|i: int| 0 <= i < self.functions@.len() ==> (#[trigger] self.functions@[i]).name@ != name,
        ensures
            !exists|i: int| 0 <= i < self.functions@.len() && (#[trigger] self.functions@[i]).name@ == name,
    {
    }
}

/// The type of the first `return <value>;` in `body` (walked in order,
/// `let` bindings entering the scope) that can be typed.
fn infer_body_return(
    body: &Vec<Stmt>,
    scope: &mut Scope,
    env: &TypeEnv,
    resolving: &Vec<String>,
    fuel: usize,
) -> (r: Option<Type>)
    ensures
        opt_view(r) == body_ret(body@, scope_view(old(scope)@), *env, crate::text::strings_view(resolving@), fuel as nat),
        scope_view(final(scope)@) == walk_ret(
            body@,
            scope_view(old(scope)@),
            None,
            *env,
            crate::text::strings_view(resolving@),
            fuel as nat,
        ).0,
    decreases fuel, 1int, body, 2int,
{
    let mut found: Option<Type> = None;
    walk_for_return(body, scope, env, &mut found, resolving, fuel);
    found
}

#[verifier::loop_isolation(false)]
#[verifier::spinoff_prover]
fn walk_for_return(
    body: &Vec<Stmt>,
    scope: &mut Scope,
    env: &TypeEnv,
    found: &mut Option<Type>,
    resolving: &Vec<String>,
    fuel: usize,
)
    ensures
        (scope_view(final(scope)@), opt_view(*final(found))) == walk_ret(
            body@,
            scope_view(old(scope)@),
            opt_view(*old(found)),
            *env,
            crate::text::strings_view(resolving@),
            fuel as nat,
        ),
    decreases fuel, 1int, body, 1int,
{
    let ghost rv = crate::text::strings_view(resolving@);
    let ghost goal = walk_ret(body@, scope_view(scope@), opt_view(*found), *env, rv, fuel as nat);
    let mut i: usize = 0;
    assert(body@.skip(0) =~= body@);
    while i < body.len()
        invariant
            i <= body@.len(),
            goal == walk_ret(body@.skip(i as int), scope_view(scope@), opt_view(*found), *env, rv, fuel as nat),
        decreases body@.len() - i,
    {
        if found.is_some() {
            return;
        }
        proof {
            assert(decreases_to!(*body => body[i as int]));
            assert(body@.skip(i as int)[0] == body@[i as int]);
            assert(body@.skip(i as int).drop_first() =~= body@.skip(i + 1));
        }
        let ghost sv = scope_view(scope@);
        let ghost fv = opt_view(*found);
        match &body[i] {
            Stmt::Let { name, ty, value, .. } | Stmt::Const { name, ty, value, .. } => {
                let t = match ty {
                    Some(t) => Some(clone_type(t)),
                    None => expr_type_in(value, scope, env, resolving, fuel),
                };
                if let Some(t) = t {
                    let ghost before = scope@;
                    scope.push((name.clone(), t));
                    assert(scope_view(scope@) =~= scope_view(before).push((name@, t@)));
                }
            },
            Stmt::Return(Some(e)) => {
                *found = expr_type_in(e, scope, env, resolving, fuel);
                return;
            },
            Stmt::If { then_branch, else_branch, .. } => {
                walk_for_return(then_branch, scope, env, found, resolving, fuel);
                if let Some(eb) = else_branch {
                    walk_for_return(eb, scope, env, found, resolving, fuel);
                }
            },
            Stmt::While { body: b, .. } => {
                walk_for_return(b, scope, env, found, resolving, fuel);
            },
            Stmt::For { body: b, .. } => {
                walk_for_return(b, scope, env, found, resolving, fuel);
            },
            Stmt::ForOf { name, ty, iterable, body: b } => {
                let elem = match ty {
                    Some(t) => Some(clone_type(t)),
                    None => {
                        let it = expr_type_in(iterable, scope, env, resolving, fuel);
                        array_elem(&it)
                    },
                };
                if let Some(t) = elem {
                    let ghost before = scope@;
                    scope.push((name.clone(), t));
                    assert(scope_view(scope@) =~= scope_view(before).push((name@, t@)));
                }
                walk_for_return(b, scope, env, found, resolving, fuel);
            },
            Stmt::Switch { cases, .. } => {
                let mut k: usize = 0;
                assert(cases@.skip(0) =~= cases@);
                while k < cases.len()
                    invariant
                        k <= cases@.len(),
                        walk_cases(cases@, sv, fv, *env, rv, fuel as nat) == walk_cases(
                            cases@.skip(k as int),
                            scope_view(scope@),
                            opt_view(*found),
                            *env,
                            rv,
                            fuel as nat,
                        ),
                    decreases cases@.len() - k,
                {
                    proof {
                        assert(decreases_to!(*cases => cases[k as int]));
                        assert(cases@.skip(k as int)[0] == cases@[k as int]);
                        assert(cases@.skip(k as int).drop_first() =~= cases@.skip(k + 1));
                    }
                    walk_for_return(&cases[k].body, scope, env, found, resolving, fuel);
                    k += 1;
                }
                assert(cases@.skip(k as int) =~= Seq::<SwitchCase>::empty());
            },
            Stmt::Try { body: b, catch_body, .. } => {
                walk_for_return(b, scope, env, found, resolving, fuel);
                walk_for_return(catch_body, scope, env, found, resolving, fuel);
            },
            _ => {},
        }
        i += 1;
    }
    assert(body@.skip(i as int) =~= Seq::<Stmt>::empty());
}

/// `Some(string)`.
pub open spec fn opt_is_string(t: Option<TypeV>) -> bool {
    t == Some(TypeV::Primitive("string"@))
}

/// The element type of an array type.
pub open spec fn elem_of(t: Option<TypeV>) -> Option<TypeV> {
    match t {
        Some(TypeV::Array(inner)) => Some(*inner),
        _ => None,
    }
}

/// `T` for `T?`; any other type unchanged.
pub open spec fn unwrap_optv(t: TypeV) -> TypeV {
    match t {
        TypeV::Optional(inner) => *inner,
        _ => t,
    }
}

/// The typing rules that need neither the program's functions nor the
/// builtin table: those of [`direct_type`], and `a + b` (a `string` when
/// either side is one, else a `number`), `a ?? b` (the type of `b`, else
/// that of `a` without its `?`), `a[i]` (the element type of `a`), `x!`
/// and `x as const` (the type of `x`). `None` where the result depends on
/// more (calls, members, literals of arrays and objects, arrows).
pub open spec fn known_type(e: Expr, scope: Seq<(String, Type)>, consts: Seq<(String, Type)>) -> Option<
    Option<TypeV>,
>
    decreases e,
{
    match e {
        Expr::Binary { op, left, right } => match op {
            BinOp::NullishCoalesce => match known_type(*right, scope, consts) {
                Some(Some(t)) => Some(Some(t)),
                Some(None) => match known_type(*left, scope, consts) {
                    Some(Some(t)) => Some(Some(unwrap_optv(t))),
                    Some(None) => Some(None),
                    None => None,
                },
                None => None,
            },
            BinOp::Add => match (known_type(*left, scope, consts), known_type(*right, scope, consts)) {
                (Some(l), Some(r)) => Some(
                    Some(
                        if opt_is_string(l) || opt_is_string(r) {
                            TypeV::Primitive("string"@)
                        } else {
                            TypeV::Primitive("number"@)
                        },
                    ),
                ),
                _ => None,
            },
            _ => direct_type(e, scope, consts),
        },
        Expr::Index { object, .. } => match known_type(*object, scope, consts) {
            Some(t) => Some(elem_of(t)),
            None => None,
        },
        Expr::AsConst(inner) => known_type(*inner, scope, consts),
        Expr::NonNullAssertion(inner) => known_type(*inner, scope, consts),
        _ => direct_type(e, scope, consts),
    }
}

// ── The typing rules, over the values of scopes and types ────────────────

/// A scope's bindings as values.
pub open spec fn scope_view(s: Seq<(String, Type)>) -> Seq<(Seq<char>, TypeV)> {
    s.map_values(|p: (String, Type)| (p.0@, p.1@))
}

/// The latest binding of `name`.
pub open spec fn lookupv(s: Seq<(Seq<char>, TypeV)>, name: Seq<char>) -> Option<TypeV>
    decreases s.len(),
{
    if s.len() == 0 {
        None
    } else if s.last().0 == name {
        Some(s.last().1)
    } else {
        lookupv(s.drop_last(), name)
    }
}

pub proof fn lemma_lookup_view(s: Seq<(String, Type)>, name: Seq<char>)
    ensures
        lookup(s, name) == lookupv(scope_view(s), name),
    decreases s.len(),
{
    if s.len() > 0 {
        assert(scope_view(s).drop_last() =~= scope_view(s.drop_last()));
        lemma_lookup_view(s.drop_last(), name);
    }
}

/// A scope with function parameters bound after its own names.
pub open spec fn params_scope(sv: Seq<(Seq<char>, TypeV)>, ps: Seq<Param>) -> Seq<(Seq<char>, TypeV)> {
    sv + ps.map_values(|p: Param| (p.name@, p.ty@))
}

pub open spec fn prim(name: Seq<char>) -> TypeV {
    TypeV::Primitive(name)
}

/// `fs` without the fields called `name`.
pub open spec fn drop_named(fs: Seq<(Seq<char>, TypeV, bool)>, name: Seq<char>) -> Seq<(Seq<char>, TypeV, bool)>
    decreases fs.len(),
{
    if fs.len() == 0 {
        fs
    } else {
        (if fs[0].0 == name {
            Seq::empty()
        } else {
            seq![fs[0]]
        }) + drop_named(fs.drop_first(), name)
    }
}

/// The fields of `acc` with those of a spread source laid over them, in
/// order: each source field replaces a field of the same name and goes
/// last.
pub open spec fn merge_fields(acc: Seq<(Seq<char>, TypeV, bool)>, src: Seq<(Seq<char>, TypeV, bool)>) -> Seq<
    (Seq<char>, TypeV, bool),
>
    decreases src.len(),
{
    if src.len() == 0 {
        acc
    } else {
        merge_fields(drop_named(acc, src[0].0).push(src[0]), src.drop_first())
    }
}

/// The first field called `name`.
pub open spec fn field_named(fs: Seq<(Seq<char>, TypeV, bool)>, name: Seq<char>) -> Option<TypeV>
    decreases fs.len(),
{
    if fs.len() == 0 {
        None
    } else if fs[0].0 == name {
        Some(fs[0].1)
    } else {
        field_named(fs.drop_first(), name)
    }
}

/// The latest declared function called `name`.
pub open spec fn latest_function(fs: Seq<Function>, name: Seq<char>) -> Option<Function>
    decreases fs.len(),
{
    if fs.len() == 0 {
        None
    } else if fs.last().name@ == name {
        Some(fs.last())
    } else {
        latest_function(fs.drop_last(), name)
    }
}

pub open spec fn is_voidv(t: TypeV) -> bool {
    t == prim("void"@)
}

/// The type of an expression in the scope `sv`. `rv` holds the functions
/// whose return type is being worked out and `fuel` bounds how deep that
/// goes (one level per declared function).
pub open spec fn ty_of(e: Expr, sv: Seq<(Seq<char>, TypeV)>, env: TypeEnv, rv: Seq<Seq<char>>, fuel: nat) -> Option<
    TypeV,
>
    decreases fuel, 1int, e, 2int,
{
    match e {
        Expr::Number(_) => Some(prim("number"@)),
        Expr::String(_) => Some(prim("string"@)),
        Expr::Bool(_) => Some(prim("boolean"@)),
        Expr::Null => None,
        Expr::Undefined => None,
        Expr::Ident(name) => match lookupv(sv, name@) {
            Some(t) => Some(t),
            None => lookup(env.consts@, name@),
        },
        Expr::Unary { op, .. } => match op {
            UnaryOp::Not => Some(prim("boolean"@)),
            UnaryOp::Neg => Some(prim("number"@)),
        },
        Expr::Binary { op, left, right } => match op {
            BinOp::NullishCoalesce => match ty_of(*right, sv, env, rv, fuel) {
                Some(t) => Some(t),
                None => match ty_of(*left, sv, env, rv, fuel) {
                    Some(t) => Some(unwrap_optv(t)),
                    None => None,
                },
            },
            BinOp::Add => if opt_is_string(ty_of(*left, sv, env, rv, fuel)) || opt_is_string(
                ty_of(*right, sv, env, rv, fuel),
            ) {
                Some(prim("string"@))
            } else {
                Some(prim("number"@))
            },
            BinOp::Sub | BinOp::Mul | BinOp::Div | BinOp::Mod => Some(prim("number"@)),
            _ => Some(prim("boolean"@)),
        },
        Expr::Call { .. } => call_ty(e, sv, env, rv, fuel),
        Expr::Member { object, property } => member_ty(*object, property@, sv, env, rv, fuel),
        Expr::Index { object, .. } => elem_of(ty_of(*object, sv, env, rv, fuel)),
        Expr::ArrayLiteral { elements } => array_lit_ty(elements@, sv, env, rv, fuel),
        Expr::ObjectLiteral { fields } => match object_fields_ty(fields@, Seq::empty(), sv, env, rv, fuel) {
            Some(fs) => Some(TypeV::Object { name: crate::syntax::parser::types::spec_object_type_name(fs), fields: fs }),
            None => None,
        },
        Expr::TypeOf(_) => Some(prim("string"@)),
        Expr::AsAssertion { ty, .. } => Some(ty@),
        Expr::AsConst(inner) => ty_of(*inner, sv, env, rv, fuel),
        Expr::NonNullAssertion(inner) => ty_of(*inner, sv, env, rv, fuel),
        Expr::Arrow { params, return_type, body } => {
            let ret = match return_type {
                Some(t) => Some(t@),
                None => match body {
                    ArrowBody::Expr(x) => ty_of(*x, params_scope(sv, params@), env, rv, fuel),
                    ArrowBody::Block(ss) => body_ret(ss@, params_scope(sv, params@), env, rv, fuel),
                },
            };
            match ret {
                Some(r) => Some(
                    TypeV::Function {
                        params: params@.map_values(|p: Param| p.ty@),
                        return_type: Box::new(r),
                    },
                ),
                None => None,
            }
        },
        Expr::Path { .. } => None,
    }
}

/// An array literal: an array of the first item's type, or the first
/// spread source of array type; the first element that can be typed
/// decides.
pub open spec fn array_lit_ty(
    els: Seq<ArrayElement>,
    sv: Seq<(Seq<char>, TypeV)>,
    env: TypeEnv,
    rv: Seq<Seq<char>>,
    fuel: nat,
) -> Option<TypeV>
    decreases fuel, 1int, els, 0int,
{
    if els.len() == 0 {
        None
    } else {
        match els[0] {
            ArrayElement::Item(it) => match ty_of(it, sv, env, rv, fuel) {
                Some(t) => Some(TypeV::Array(Box::new(t))),
                None => array_lit_ty(els.drop_first(), sv, env, rv, fuel),
            },
            ArrayElement::Spread(src) => match ty_of(src, sv, env, rv, fuel) {
                Some(t) => if t is Array {
                    Some(t)
                } else {
                    array_lit_ty(els.drop_first(), sv, env, rv, fuel)
                },
                None => array_lit_ty(els.drop_first(), sv, env, rv, fuel),
            },
        }
    }
}

/// The field types of an object literal, after `acc`: each `key: value`
/// adds a field; a spread source of object type lays its fields over the
/// ones so far. `None` when a value or source cannot be typed (or a source
/// is not an object).
pub open spec fn object_fields_ty(
    fs: Seq<ObjectField>,
    acc: Seq<(Seq<char>, TypeV, bool)>,
    sv: Seq<(Seq<char>, TypeV)>,
    env: TypeEnv,
    rv: Seq<Seq<char>>,
    fuel: nat,
) -> Option<Seq<(Seq<char>, TypeV, bool)>>
    decreases fuel, 1int, fs, 0int,
{
    if fs.len() == 0 {
        Some(acc)
    } else {
        match fs[0] {
            ObjectField::KV(k, v) => match ty_of(v, sv, env, rv, fuel) {
                Some(t) => object_fields_ty(fs.drop_first(), acc.push((k@, t, false)), sv, env, rv, fuel),
                None => None,
            },
            ObjectField::Spread(src) => match ty_of(src, sv, env, rv, fuel) {
                Some(TypeV::Object { fields, .. }) => object_fields_ty(
                    fs.drop_first(),
                    merge_fields(acc, fields),
                    sv,
                    env,
                    rv,
                    fuel,
                ),
                _ => None,
            },
        }
    }
}

/// The type of a call (see [`expr_type`]).
pub open spec fn call_ty(e: Expr, sv: Seq<(Seq<char>, TypeV)>, env: TypeEnv, rv: Seq<Seq<char>>, fuel: nat) -> Option<
    TypeV,
>
    decreases fuel, 1int, e, 1int,
{
    match e {
        Expr::Call { callee, args } => match *callee {
            Expr::Ident(name) => {
                let n = name@;
                if n == "print"@ {
                    Some(prim("void"@))
                } else if n == "input"@ || n == "str"@ {
                    Some(prim("string"@))
                } else if n == "parseFloat"@ || n == "parseInt"@ || n == "Number"@ {
                    Some(prim("number"@))
                } else if n == "isNaN"@ {
                    Some(prim("boolean"@))
                } else if n == "json"@ {
                    if args@.len() > 0 && args@[0] is String {
                        lookup(env.json_shapes@, args@[0]->String_0@)
                    } else {
                        None
                    }
                } else {
                    match lookupv(sv, n) {
                        Some(TypeV::Function { return_type, .. }) => Some(*return_type),
                        _ => return_ty(env, n, rv, fuel),
                    }
                }
            },
            Expr::Member { object, property } => {
                let recv = ty_of(*object, sv, env, rv, fuel);
                let p = property@;
                let a = args@;
                if p == "map"@ {
                    if a.len() > 0 {
                        match cb_ret(a[0], sv, env, rv, fuel) {
                            Some(t) => Some(TypeV::Array(Box::new(t))),
                            None => None,
                        }
                    } else {
                        None
                    }
                } else if p == "filter"@ {
                    match recv {
                        Some(t) => if t is Array {
                            Some(t)
                        } else {
                            None
                        },
                        None => None,
                    }
                } else if p == "find"@ || p == "pop"@ {
                    elem_of(recv)
                } else if p == "reduce"@ {
                    match (if a.len() > 1 {
                        ty_of(a[1], sv, env, rv, fuel)
                    } else {
                        None
                    }) {
                        Some(t) => Some(t),
                        None => if a.len() > 0 {
                            cb_ret(a[0], sv, env, rv, fuel)
                        } else {
                            None
                        },
                    }
                } else if p == "push"@ || p == "unshift"@ || p == "indexOf"@ {
                    Some(prim("number"@))
                } else if p == "toUpperCase"@ || p == "toLowerCase"@ || p == "trim"@ || p == "substring"@ || p
                    == "charAt"@ {
                    Some(prim("string"@))
                } else if p == "includes"@ {
                    Some(prim("boolean"@))
                } else {
                    None
                }
            },
            _ => None,
        },
        _ => None,
    }
}

/// The return type of a `.map` / `.reduce` callback: a named function's
/// (unless `void`), or an arrow function's.
pub open spec fn cb_ret(cb: Expr, sv: Seq<(Seq<char>, TypeV)>, env: TypeEnv, rv: Seq<Seq<char>>, fuel: nat) -> Option<
    TypeV,
>
    decreases fuel, 1int, cb, 1int,
{
    match cb {
        Expr::Ident(fname) => match return_ty(env, fname@, rv, fuel) {
            Some(t) => if is_voidv(t) {
                None
            } else {
                Some(t)
            },
            None => None,
        },
        Expr::Arrow { params, return_type, body } => match return_type {
            Some(rt) => Some(rt@),
            None => match body {
                ArrowBody::Expr(x) => ty_of(*x, params_scope(sv, params@), env, rv, fuel),
                ArrowBody::Block(ss) => body_ret(ss@, params_scope(sv, params@), env, rv, fuel),
            },
        },
        _ => None,
    }
}

/// The value of `object` is a process result (`ArcisProcess`), or untyped
/// and a direct `sys.process(...)` call.
pub open spec fn process_like(
    object: Expr,
    sv: Seq<(Seq<char>, TypeV)>,
    env: TypeEnv,
    rv: Seq<Seq<char>>,
    fuel: nat,
) -> bool
    decreases fuel, 1int, object, 3int,
{
    match ty_of(object, sv, env, rv, fuel) {
        Some(TypeV::Object { name, .. }) => name == "ArcisProcess"@,
        Some(TypeV::Named(name)) => name == "ArcisProcess"@,
        None => match object {
            Expr::Call { callee, .. } => match *callee {
                Expr::Member { object: o, property } => property@ == "process"@ && is_named_ident(*o, "sys"@),
                _ => false,
            },
            _ => false,
        },
        _ => false,
    }
}

pub open spec fn is_named_ident(e: Expr, n: Seq<char>) -> bool {
    e matches Expr::Ident(m) && m@ == n
}

/// The type of `object.property`.
pub open spec fn member_ty(
    object: Expr,
    property: Seq<char>,
    sv: Seq<(Seq<char>, TypeV)>,
    env: TypeEnv,
    rv: Seq<Seq<char>>,
    fuel: nat,
) -> Option<TypeV>
    decreases fuel, 1int, object, 4int,
{
    if property == "length"@ {
        Some(prim("number"@))
    } else if object is Ident && strings_view_has(env.enums@, object->Ident_0@) {
        Some(prim("number"@))
    } else if (property == "stdout"@ || property == "stderr"@) && process_like(object, sv, env, rv, fuel) {
        Some(prim("string"@))
    } else if property == "exitCode"@ && process_like(object, sv, env, rv, fuel) {
        Some(prim("number"@))
    } else {
        match ty_of(object, sv, env, rv, fuel) {
            Some(TypeV::Object { fields, .. }) => field_named(fields, property),
            _ => None,
        }
    }
}

pub open spec fn strings_view_has(v: Seq<String>, n: Seq<char>) -> bool {
    exists|i: int| 0 <= i < v.len() && (#[trigger] v[i])@ == n
}

/// The return type of the function `name`: its annotation, or (for a
/// `void` one) the type of its first typed `return`, `void` when it has
/// none, when the function is met again while working it out, or when
/// the fuel is spent. `None` for an unknown name.
pub open spec fn return_ty(env: TypeEnv, name: Seq<char>, rv: Seq<Seq<char>>, fuel: nat) -> Option<TypeV>
    decreases fuel, 0int, env, 0int,
{
    match latest_function(env.functions@, name) {
        None => None,
        Some(f) => if !spec_is_void(f.return_type) {
            Some(f.return_type@)
        } else if fuel == 0 || rv.contains(name) {
            Some(prim("void"@))
        } else {
            match body_ret(f.body@, params_scope(Seq::empty(), f.params@), env, rv.push(name), (fuel - 1) as nat) {
                Some(t) => Some(t),
                None => Some(prim("void"@)),
            }
        },
    }
}

/// The type of the first `return <value>;` of a body, walked in order
/// with `let` bindings entering the scope.
pub open spec fn body_ret(ss: Seq<Stmt>, sv: Seq<(Seq<char>, TypeV)>, env: TypeEnv, rv: Seq<Seq<char>>, fuel: nat) -> Option<
    TypeV,
>
    decreases fuel, 1int, ss, 2int,
{
    walk_ret(ss, sv, None, env, rv, fuel).1
}

/// The walk for the first `return`: the scope and the type found so far
/// after the statements `ss`. A `return <value>;` ends the walk of its
/// block with the value's type (which may be none); once a type is found
/// nothing changes.
pub open spec fn walk_ret(
    ss: Seq<Stmt>,
    sv: Seq<(Seq<char>, TypeV)>,
    found: Option<TypeV>,
    env: TypeEnv,
    rv: Seq<Seq<char>>,
    fuel: nat,
) -> (Seq<(Seq<char>, TypeV)>, Option<TypeV>)
    decreases fuel, 1int, ss, 1int,
{
    if ss.len() == 0 || found is Some {
        (sv, found)
    } else {
        let rest = ss.drop_first();
        match ss[0] {
            Stmt::Let { name, ty, value, .. } => {
                let t = match ty {
                    Some(t) => Some(t@),
                    None => ty_of(value, sv, env, rv, fuel),
                };
                walk_ret(
                    rest,
                    match t {
                        Some(t) => sv.push((name@, t)),
                        None => sv,
                    },
                    found,
                    env,
                    rv,
                    fuel,
                )
            },
            Stmt::Const { name, ty, value, .. } => {
                let t = match ty {
                    Some(t) => Some(t@),
                    None => ty_of(value, sv, env, rv, fuel),
                };
                walk_ret(
                    rest,
                    match t {
                        Some(t) => sv.push((name@, t)),
                        None => sv,
                    },
                    found,
                    env,
                    rv,
                    fuel,
                )
            },
            Stmt::Return(Some(e)) => (sv, ty_of(e, sv, env, rv, fuel)),
            Stmt::If { then_branch, else_branch, .. } => {
                let a = walk_ret(then_branch@, sv, found, env, rv, fuel);
                let b = match else_branch {
                    Some(eb) => walk_ret(eb@, a.0, a.1, env, rv, fuel),
                    None => a,
                };
                walk_ret(rest, b.0, b.1, env, rv, fuel)
            },
            Stmt::While { body, .. } => {
                let a = walk_ret(body@, sv, found, env, rv, fuel);
                walk_ret(rest, a.0, a.1, env, rv, fuel)
            },
            Stmt::For { body, .. } => {
                let a = walk_ret(body@, sv, found, env, rv, fuel);
                walk_ret(rest, a.0, a.1, env, rv, fuel)
            },
            Stmt::ForOf { name, ty, iterable, body } => {
                let elem = match ty {
                    Some(t) => Some(t@),
                    None => elem_of(ty_of(*iterable, sv, env, rv, fuel)),
                };
                let s1 = match elem {
                    Some(t) => sv.push((name@, t)),
                    None => sv,
                };
                let a = walk_ret(body@, s1, found, env, rv, fuel);
                walk_ret(rest, a.0, a.1, env, rv, fuel)
            },
            Stmt::Switch { cases, .. } => {
                let a = walk_cases(cases@, sv, found, env, rv, fuel);
                walk_ret(rest, a.0, a.1, env, rv, fuel)
            },
            Stmt::Try { body, catch_body, .. } => {
                let a = walk_ret(body@, sv, found, env, rv, fuel);
                let b = walk_ret(catch_body@, a.0, a.1, env, rv, fuel);
                walk_ret(rest, b.0, b.1, env, rv, fuel)
            },
            _ => walk_ret(rest, sv, found, env, rv, fuel),
        }
    }
}

/// The walk through the bodies of a `switch`'s cases, in order.
pub open spec fn walk_cases(
    cs: Seq<SwitchCase>,
    sv: Seq<(Seq<char>, TypeV)>,
    found: Option<TypeV>,
    env: TypeEnv,
    rv: Seq<Seq<char>>,
    fuel: nat,
) -> (Seq<(Seq<char>, TypeV)>, Option<TypeV>)
    decreases fuel, 1int, cs, 0int,
{
    if cs.len() == 0 {
        (sv, found)
    } else {
        let a = walk_ret(cs[0].body@, sv, found, env, rv, fuel);
        walk_cases(cs.drop_first(), a.0, a.1, env, rv, fuel)
    }
}

/// Best-effort type of an expression, in `scope` (names not bound there
/// are looked up among the top-level constants).
pub fn expr_type(e: &Expr, scope: &Vec<(String, Type)>, env: &TypeEnv) -> (r: Option<Type>)
    ensures
        known_type(*e, scope@, env.consts@) matches Some(v) ==> opt_view(r) == v,
        opt_view(r) == spec_expr_type(*e, scope_view(scope@), *env),
{
    let resolving: Vec<String> = Vec::new();
    assert(crate::text::strings_view(resolving@) =~= Seq::<Seq<char>>::empty());
    expr_type_in(e, scope, env, &resolving, env.functions.len())
}

/// The types of the built-in methods do not depend on the receiver:
/// `push`, `unshift` and `indexOf` give a `number`; `toUpperCase`,
/// `toLowerCase`, `trim`, `substring` and `charAt` a `string`.
pub proof fn law_method_result_types(e: Expr, sv: Seq<(Seq<char>, TypeV)>, env: TypeEnv)
    requires
        e matches Expr::Call { callee, .. } && *callee is Member,
    ensures
        ({
            let p = e->Call_callee->Member_property@;
            &&& (p == "push"@ || p == "unshift"@ || p == "indexOf"@) ==> spec_expr_type(e, sv, env) == Some(
                TypeV::Primitive("number"@),
            )
            &&& (p == "toUpperCase"@ || p == "toLowerCase"@ || p == "trim"@ || p == "substring"@ || p
                == "charAt"@) ==> spec_expr_type(e, sv, env) == Some(TypeV::Primitive("string"@))
        }),
{
    reveal_strlit("map");
    reveal_strlit("filter");
    reveal_strlit("find");
    reveal_strlit("pop");
    reveal_strlit("reduce");
    reveal_strlit("push");
    reveal_strlit("unshift");
    reveal_strlit("indexOf");
    reveal_strlit("toUpperCase");
    reveal_strlit("toLowerCase");
    reveal_strlit("trim");
    reveal_strlit("substring");
    reveal_strlit("charAt");
    let fuel = env.functions@.len() as nat;
    assert(spec_expr_type(e, sv, env) == ty_of(e, sv, env, Seq::empty(), fuel));
    assert(ty_of(e, sv, env, Seq::empty(), fuel) == call_ty(e, sv, env, Seq::empty(), fuel));
    let p = e->Call_callee->Member_property@;
    if p == "push"@ || p == "unshift"@ || p == "indexOf"@ {
        assert(p != "map"@ && p != "filter"@ && p != "find"@ && p != "pop"@ && p != "reduce"@) by {
            assert(p[0] == 'p' || p[0] == 'u' || p[0] == 'i');
            if p.len() == 4 {
                assert(p[1] == 'u');
            }
        }
    }
    if p == "toUpperCase"@ || p == "toLowerCase"@ || p == "trim"@ || p == "substring"@ || p == "charAt"@ {
        assert(p != "map"@ && p != "filter"@ && p != "find"@ && p != "pop"@ && p != "reduce"@ && p != "push"@
            && p != "unshift"@ && p != "indexOf"@) by {
            assert(p[0] == 't' || p[0] == 's' || p[0] == 'c');
        }
    }
}

/// Operators have fixed result types: `-`, `*`, `/`, `%` and unary `-`
/// give a `number`; comparisons, `&&`, `||` and `!` a `boolean`.
pub proof fn law_operator_result_types(op: BinOp, l: Expr, r: Expr, u: UnaryOp, x: Expr, sv: Seq<(Seq<char>, TypeV)>, env: TypeEnv)
    ensures
        (op == BinOp::Sub || op == BinOp::Mul || op == BinOp::Div || op == BinOp::Mod) ==> spec_expr_type(
            Expr::Binary { op, left: Box::new(l), right: Box::new(r) },
            sv,
            env,
        ) == Some(TypeV::Primitive("number"@)),
        (op == BinOp::EqEq || op == BinOp::NotEq || op == BinOp::Lt || op == BinOp::Gt || op == BinOp::LtEq || op
            == BinOp::GtEq || op == BinOp::And || op == BinOp::Or) ==> spec_expr_type(
            Expr::Binary { op, left: Box::new(l), right: Box::new(r) },
            sv,
            env,
        ) == Some(TypeV::Primitive("boolean"@)),
        spec_expr_type(Expr::Unary { op: u, operand: Box::new(x) }, sv, env) == Some(
            TypeV::Primitive(if u == UnaryOp::Not { "boolean"@ } else { "number"@ }),
        ),
{
}

/// `x.includes(...)` is a membership test: its type is `boolean`, whatever
/// the receiver and the arguments, in any scope.
pub proof fn law_includes_is_boolean(e: Expr, sv: Seq<(Seq<char>, TypeV)>, env: TypeEnv)
    requires
        e matches Expr::Call { callee, .. } && *callee matches Expr::Member { property, .. } && property@
            == "includes"@,
    ensures
        spec_expr_type(e, sv, env) == Some(TypeV::Primitive("boolean"@)),
{
    reveal_strlit("includes");
    reveal_strlit("map");
    reveal_strlit("filter");
    reveal_strlit("find");
    reveal_strlit("pop");
    reveal_strlit("reduce");
    reveal_strlit("push");
    reveal_strlit("unshift");
    reveal_strlit("indexOf");
    reveal_strlit("toUpperCase");
    reveal_strlit("toLowerCase");
    reveal_strlit("trim");
    reveal_strlit("substring");
    reveal_strlit("charAt");
    let fuel = env.functions@.len() as nat;
    assert(spec_expr_type(e, sv, env) == ty_of(e, sv, env, Seq::empty(), fuel));
    assert(ty_of(e, sv, env, Seq::empty(), fuel) == call_ty(e, sv, env, Seq::empty(), fuel));
    if let Expr::Call { callee, args } = e {
        if let Expr::Member { object, property } = *callee {
            let p = property@;
            assert(p.len() == 8);
            assert(p != "map"@ && p != "filter"@ && p != "find"@ && p != "pop"@ && p != "reduce"@);
            assert(p != "push"@ && p != "unshift"@ && p != "indexOf"@);
            assert(p != "toUpperCase"@ && p != "toLowerCase"@ && p != "trim"@ && p != "substring"@ && p != "charAt"@);
        }
    }
}

/// The type of an expression in the scope `sv`: [`ty_of`] with no
/// function's return type being worked out yet, and one level of nesting
/// per declared function.
pub open spec fn spec_expr_type(e: Expr, sv: Seq<(Seq<char>, TypeV)>, env: TypeEnv) -> Option<TypeV> {
    ty_of(e, sv, env, Seq::empty(), env.functions@.len() as nat)
}

/// A scope extended with the parameters of an arrow function.
fn with_params(scope: &Vec<(String, Type)>, params: &Vec<crate::syntax::ast::Param>) -> (r: Scope)
    ensures
        scope_view(r@) == params_scope(scope_view(scope@), params@),
{
    let mut s = clone_scope(scope);
    let mut k: usize = 0;
    assert(params_scope(scope_view(scope@), params@.take(0)) =~= scope_view(scope@));
    while k < params.len()
        invariant
            k <= params@.len(),
            scope_view(s@) == params_scope(scope_view(scope@), params@.take(k as int)),
        decreases params@.len() - k,
    {
        let ghost before = s@;
        s.push((params[k].name.clone(), clone_type(&params[k].ty)));
        proof {
            assert(scope_view(s@) =~= scope_view(before).push((params@[k as int].name@, params@[k as int].ty@)));
            assert(params_scope(scope_view(scope@), params@.take(k + 1)) =~= params_scope(
                scope_view(scope@),
                params@.take(k as int),
            ).push((params@[k as int].name@, params@[k as int].ty@)));
        }
        k += 1;
    }
    assert(params@.take(params@.len() as int) =~= params@);
    s
}

#[verifier::loop_isolation(false)]
fn expr_type_in(
    e: &Expr,
    scope: &Vec<(String, Type)>,
    env: &TypeEnv,
    resolving: &Vec<String>,
    fuel: usize,
) -> (r: Option<Type>)
    ensures
        known_type(*e, scope@, env.consts@) matches Some(v) ==> opt_view(r) == v,
        opt_view(r) == ty_of(*e, scope_view(scope@), *env, crate::text::strings_view(resolving@), fuel as nat),
    decreases fuel, 1int, e, 2int,
{
    let ghost sv = scope_view(scope@);
    let ghost rv = crate::text::strings_view(resolving@);
    match e {
        Expr::Number(_) => Some(Type::number()),
        Expr::String(_) => Some(Type::string()),
        Expr::Bool(_) => Some(Type::boolean()),
        Expr::Null | Expr::Undefined => None,
        Expr::Ident(name) => match lookup_type(scope, name.as_str()) {
            Some(t) => Some(t),
            None => lookup_type(&env.consts, name.as_str()),
        },
        Expr::Unary { op, .. } => match op {
            UnaryOp::Not => Some(Type::boolean()),
            UnaryOp::Neg => Some(Type::number()),
        },
        Expr::Binary { op, left, right } => match op {
            BinOp::NullishCoalesce => match expr_type_in(right, scope, env, resolving, fuel) {
                Some(t) => Some(t),
                None => match expr_type_in(left, scope, env, resolving, fuel) {
                    Some(t) => Some(clone_type(t.unwrap_optional())),
                    None => None,
                },
            },
            BinOp::Add => {
                let lt = expr_type_in(left, scope, env, resolving, fuel);
                let rt = expr_type_in(right, scope, env, resolving, fuel);
                if is_string(&lt) || is_string(&rt) {
                    Some(Type::string())
                } else {
                    Some(Type::number())
                }
            },
            BinOp::Sub | BinOp::Mul | BinOp::Div | BinOp::Mod => Some(Type::number()),
            _ => Some(Type::boolean()),
        },
        Expr::Call { .. } => call_type(e, scope, env, resolving, fuel),
        Expr::Member { object, property } => member_type(object, property.as_str(), scope, env, resolving, fuel),
        Expr::Index { object, .. } => {
            let t = expr_type_in(object, scope, env, resolving, fuel);
            array_elem(&t)
        },
        Expr::ArrayLiteral { elements } => {
            let mut i: usize = 0;
            assert(elements@.skip(0) =~= elements@);
            while i < elements.len()
                invariant
                    i <= elements@.len(),
                    array_lit_ty(elements@, sv, *env, rv, fuel as nat) == array_lit_ty(
                        elements@.skip(i as int),
                        sv,
                        *env,
                        rv,
                        fuel as nat,
                    ),
                decreases elements@.len() - i,
            {
                proof {
                    assert(decreases_to!(*elements => elements[i as int]));
                    assert(elements@.skip(i as int)[0] == elements@[i as int]);
                    assert(elements@.skip(i as int).drop_first() =~= elements@.skip(i + 1));
                }
                match &elements[i] {
                    ArrayElement::Item(item) => {
                        if let Some(t) = expr_type_in(item, scope, env, resolving, fuel) {
                            return Some(Type::array(t));
                        }
                    },
                    ArrayElement::Spread(src) => {
                        if let Some(t) = expr_type_in(src, scope, env, resolving, fuel) {
                            if t.is_array() {
                                return Some(t);
                            }
                        }
                    },
                }
                i += 1;
            }
            assert(elements@.skip(i as int) =~= Seq::<ArrayElement>::empty());
            None
        },
        Expr::ObjectLiteral { fields } => {
            let mut typed: Vec<(String, Box<Type>, bool)> = Vec::new();
            let mut i: usize = 0;
            assert(fields@.skip(0) =~= fields@);
            assert(crate::syntax::ast::fields_view(typed@) =~= Seq::<(Seq<char>, TypeV, bool)>::empty());
            while i < fields.len()
                invariant
                    i <= fields@.len(),
                    object_fields_ty(fields@, Seq::empty(), sv, *env, rv, fuel as nat) == object_fields_ty(
                        fields@.skip(i as int),
                        crate::syntax::ast::fields_view(typed@),
                        sv,
                        *env,
                        rv,
                        fuel as nat,
                    ),
                decreases fields@.len() - i,
            {
                proof {
                    assert(decreases_to!(*fields => fields[i as int]));
                    assert(fields@.skip(i as int)[0] == fields@[i as int]);
                    assert(fields@.skip(i as int).drop_first() =~= fields@.skip(i + 1));
                }
                match &fields[i] {
                    ObjectField::KV(k, v) => {
                        let t = expr_type_in(v, scope, env, resolving, fuel)?;
                        let ghost before = typed@;
                        typed.push((k.clone(), Box::new(t), false));
                        proof {
                            crate::syntax::ast::lemma_fields_view(before);
                            crate::syntax::ast::lemma_fields_view(typed@);
                            assert(crate::syntax::ast::fields_view(typed@) =~= crate::syntax::ast::fields_view(
                                before,
                            ).push((k@, t@, false)));
                        }
                    },
                    ObjectField::Spread(src) => {
                        let t = expr_type_in(src, scope, env, resolving, fuel)?;
                        let src_fields = object_fields(&t)?;
                        let ghost sf = crate::syntax::ast::fields_view(src_fields@);
                        let ghost acc0 = crate::syntax::ast::fields_view(typed@);
                        proof {
                            crate::syntax::ast::lemma_fields_view(src_fields@);
                        }
                        let mut j: usize = 0;
                        assert(sf.skip(0) =~= sf);
                        while j < src_fields.len()
                            invariant
                                j <= src_fields@.len(),
                                sf == crate::syntax::ast::fields_view(src_fields@),
                                sf.len() == src_fields@.len(),
                                forall|q: int|
                                    0 <= q < src_fields@.len() ==> #[trigger] sf[q] == (
                                        src_fields@[q].0@,
                                        (*src_fields@[q].1)@,
                                        src_fields@[q].2,
                                    ),
                                merge_fields(acc0, sf) == merge_fields(
                                    crate::syntax::ast::fields_view(typed@),
                                    sf.skip(j as int),
                                ),
                            decreases src_fields@.len() - j,
                        {
                            let f = &src_fields[j];
                            let ghost cur = crate::syntax::ast::fields_view(typed@);
                            proof {
                                assert(sf.skip(j as int)[0] == sf[j as int]);
                                assert(sf.skip(j as int).drop_first() =~= sf.skip(j + 1));
                            }
                            typed = without_field(typed, f.0.as_str());
                            let ghost mid = typed@;
                            typed.push((f.0.clone(), Box::new(clone_type(&f.1)), f.2));
                            proof {
                                crate::syntax::ast::lemma_fields_view(mid);
                                crate::syntax::ast::lemma_fields_view(typed@);
                                assert(crate::syntax::ast::fields_view(typed@) =~= drop_named(cur, f.0@).push(sf[j as int]));
                            }
                            j += 1;
                        }
                        assert(sf.skip(j as int) =~= Seq::<(Seq<char>, TypeV, bool)>::empty());
                    },
                }
                i += 1;
            }
            assert(fields@.skip(i as int) =~= Seq::<ObjectField>::empty());
            let name = object_type_name(&typed);
            Some(Type::Object { name, fields: typed })
        },
        Expr::TypeOf(_) => Some(Type::string()),
        Expr::AsAssertion { ty, .. } => Some(clone_type(ty)),
        Expr::AsConst(inner) => expr_type_in(inner, scope, env, resolving, fuel),
        Expr::NonNullAssertion(inner) => expr_type_in(inner, scope, env, resolving, fuel),
        Expr::Arrow { params, return_type, body } => {
            let ret = match return_type {
                Some(t) => clone_type(t),
                None => {
                    let mut s = with_params(scope, params);
                    let r = match body {
                        ArrowBody::Expr(x) => expr_type_in(x, &s, env, resolving, fuel),
                        ArrowBody::Block(stmts) => infer_body_return(stmts, &mut s, env, resolving, fuel),
                    };
                    r?
                },
            };
            let mut ps: Vec<Type> = Vec::new();
            let mut k: usize = 0;
            while k < params.len()
                invariant
                    k <= params@.len(),
                    ps@.len() == k,
                    forall|q: int| 0 <= q < k ==> (#[trigger] ps@[q])@ == params@[q].ty@,
                decreases params@.len() - k,
            {
                ps.push(clone_type(&params[k].ty));
                k += 1;
            }
            proof {
                crate::syntax::ast::lemma_types_view(ps@);
                assert(crate::syntax::ast::types_view(ps@) =~= params@.map_values(|p: Param| p.ty@));
            }
            Some(Type::Function { params: ps, return_type: Box::new(ret) })
        },
        Expr::Path { .. } => None,
    }
}

/// `fields` without the field called `name`.
fn without_field(fields: Vec<(String, Box<Type>, bool)>, name: &str) -> (r: Vec<(String, Box<Type>, bool)>)
    ensures
        forall|i: int| 0 <= i < r@.len() ==> (#[trigger] r@[i]).0@ != name@,
        crate::syntax::ast::fields_view(r@) == drop_named(crate::syntax::ast::fields_view(fields@), name@),
{
    let ghost orig = crate::syntax::ast::fields_view(fields@);
    let mut out: Vec<(String, Box<Type>, bool)> = Vec::new();
    let mut rest = fields;
    assert(crate::syntax::ast::fields_view(out@) =~= Seq::<(Seq<char>, TypeV, bool)>::empty());
    while rest.len() > 0
        invariant
            forall|i: int| 0 <= i < out@.len() ==> (#[trigger] out@[i]).0@ != name@,
            drop_named(orig, name@) == crate::syntax::ast::fields_view(out@) + drop_named(
                crate::syntax::ast::fields_view(rest@),
                name@,
            ),
        decreases rest@.len(),
    {
        let ghost before_rest = rest@;
        let ghost before_out = out@;
        let f = rest.remove(0);
        proof {
            crate::syntax::ast::lemma_fields_view(before_rest);
            crate::syntax::ast::lemma_fields_view(rest@);
            assert(rest@ =~= before_rest.drop_first());
            assert(crate::syntax::ast::fields_view(before_rest).drop_first() =~= crate::syntax::ast::fields_view(
                rest@,
            ));
            assert(crate::syntax::ast::fields_view(before_rest)[0] == (f.0@, (*f.1)@, f.2));
        }
        if !str_eq(f.0.as_str(), name) {
            out.push(f);
            proof {
                crate::syntax::ast::lemma_fields_view(out@);
                crate::syntax::ast::lemma_fields_view(before_out);
                assert(crate::syntax::ast::fields_view(out@) =~= crate::syntax::ast::fields_view(before_out).push(
                    (f.0@, (*f.1)@, f.2),
                ));
            }
        }
        proof {
            assert(crate::syntax::ast::fields_view(out@) + drop_named(crate::syntax::ast::fields_view(rest@), name@)
                =~= crate::syntax::ast::fields_view(before_out) + drop_named(
                crate::syntax::ast::fields_view(before_rest),
                name@,
            ));
        }
    }
    assert(crate::syntax::ast::fields_view(rest@) =~= Seq::<(Seq<char>, TypeV, bool)>::empty());
    assert(crate::syntax::ast::fields_view(out@) + Seq::<(Seq<char>, TypeV, bool)>::empty() =~= crate::syntax::ast::fields_view(out@));
    out
}

/// The type of a call: builtins (`print`, `input`, `str`, `parseFloat`,
/// `parseInt`, `Number`, `isNaN`, `json`), a function-typed local, a
/// declared function, or an array / string method.
fn call_type(e: &Expr, scope: &Vec<(String, Type)>, env: &TypeEnv, resolving: &Vec<String>, fuel: usize) -> (r:
    Option<Type>)
    ensures
        opt_view(r) == call_ty(*e, scope_view(scope@), *env, crate::text::strings_view(resolving@), fuel as nat),
    decreases fuel, 1int, e, 1int,
{
    let (callee, args) = match e {
        Expr::Call { callee, args } => (callee, args),
        _ => {
            return None;
        },
    };
    proof {
        assert(decreases_to!(*e => **callee));
        assert(decreases_to!(*e => *args));
    }
    match &**callee {
        Expr::Ident(name) => {
            let n = name.as_str();
            if str_eq(n, "print") {
                Some(Type::void())
            } else if str_eq(n, "input") || str_eq(n, "str") {
                Some(Type::string())
            } else if str_eq(n, "parseFloat") || str_eq(n, "parseInt") || str_eq(n, "Number") {
                Some(Type::number())
            } else if str_eq(n, "isNaN") {
                Some(Type::boolean())
            } else if str_eq(n, "json") {
                if args.len() > 0 {
                    if let Expr::String(path) = &args[0] {
                        return lookup_type(&env.json_shapes, path.as_str());
                    }
                }
                None
            } else {
                if let Some(Type::Function { return_type, .. }) = lookup_type(scope, n) {
                    return Some(*return_type);
                }
                env.return_type_of(n, resolving, fuel)
            }
        },
        Expr::Member { object, property } => {
            proof {
                assert(decreases_to!(**callee => **object));
            }
            let recv = expr_type_in(object, scope, env, resolving, fuel);
            let p = property.as_str();
            if str_eq(p, "map") {
                if args.len() > 0 {
                    proof {
                        assert(decreases_to!(*args => args[0]));
                    }
                    match callback_return(&args[0], scope, env, resolving, fuel) {
                        Some(t) => Some(Type::array(t)),
                        None => None,
                    }
                } else {
                    None
                }
            } else if str_eq(p, "filter") {
                match recv {
                    Some(t) => if t.is_array() {
                        Some(t)
                    } else {
                        None
                    },
                    None => None,
                }
            } else if str_eq(p, "find") || str_eq(p, "pop") {
                array_elem(&recv)
            } else if str_eq(p, "reduce") {
                let init = if args.len() > 1 {
                    proof {
                        assert(decreases_to!(*args => args[1]));
                    }
                    expr_type_in(&args[1], scope, env, resolving, fuel)
                } else {
                    None
                };
                match init {
                    Some(t) => Some(t),
                    None => if args.len() > 0 {
                        proof {
                            assert(decreases_to!(*args => args[0]));
                        }
                        callback_return(&args[0], scope, env, resolving, fuel)
                    } else {
                        None
                    },
                }
            } else if str_eq(p, "push") || str_eq(p, "unshift") || str_eq(p, "indexOf") {
                Some(Type::number())
            } else if str_eq(p, "toUpperCase") || str_eq(p, "toLowerCase") || str_eq(p, "trim") || str_eq(
                p,
                "substring",
            ) || str_eq(p, "charAt") {
                Some(Type::string())
            } else if str_eq(p, "includes") {
                Some(Type::boolean())
            } else {
                None
            }
        },
        _ => None,
    }
}

/// The return type of a `.map` / `.reduce` callback: a named function's
/// (unless `void`), or an arrow function's.
fn callback_return(
    cb: &Expr,
    scope: &Vec<(String, Type)>,
    env: &TypeEnv,
    resolving: &Vec<String>,
    fuel: usize,
) -> (r: Option<Type>)
    ensures
        opt_view(r) == cb_ret(*cb, scope_view(scope@), *env, crate::text::strings_view(resolving@), fuel as nat),
    decreases fuel, 1int, cb, 1int,
{
    match cb {
        Expr::Ident(fname) => match env.return_type_of(fname.as_str(), resolving, fuel) {
            Some(t) => if is_void(&t) {
                None
            } else {
                Some(t)
            },
            None => None,
        },
        Expr::Arrow { params, return_type, body } => {
            if let Some(rt) = return_type {
                return Some(clone_type(rt));
            }
            let mut s = with_params(scope, params);
            match body {
                ArrowBody::Expr(x) => expr_type_in(x, &s, env, resolving, fuel),
                ArrowBody::Block(stmts) => infer_body_return(stmts, &mut s, env, resolving, fuel),
            }
        },
        _ => None,
    }
}

/// The type of `object.property`: `length` is a number, an enum variant
/// is a number, `stdout` / `stderr` / `exitCode` of a process result are a
/// string / string / number, and a field of an object type has its
/// declared type.
#[verifier::loop_isolation(false)]
pub(crate) fn member_type(
    object: &Expr,
    property: &str,
    scope: &Vec<(String, Type)>,
    env: &TypeEnv,
    resolving: &Vec<String>,
    fuel: usize,
) -> (r: Option<Type>)
    ensures
        opt_view(r) == member_ty(
            *object,
            property@,
            scope_view(scope@),
            *env,
            crate::text::strings_view(resolving@),
            fuel as nat,
        ),
    decreases fuel, 1int, object, 4int,
{
    if str_eq(property, "length") {
        return Some(Type::number());
    }
    if let Expr::Ident(name) = object {
        if contains_name(&env.enums, name.as_str()) {
            return Some(Type::number());
        }
    }
    if str_eq(property, "stdout") || str_eq(property, "stderr") {
        if object_is_process_like(object, scope, env, resolving, fuel) {
            return Some(Type::string());
        }
    } else if str_eq(property, "exitCode") {
        if object_is_process_like(object, scope, env, resolving, fuel) {
            return Some(Type::number());
        }
    }
    let obj_ty = expr_type_in(object, scope, env, resolving, fuel)?;
    let fields = object_fields(&obj_ty)?;
    let ghost fv = crate::syntax::ast::fields_view(fields@);
    proof {
        crate::syntax::ast::lemma_fields_view(fields@);
        let sv = scope_view(scope@);
        let rv = crate::text::strings_view(resolving@);
        assert(obj_ty@ matches TypeV::Object { fields: ff, .. } && ff == fv);
        assert(member_ty(*object, property@, sv, *env, rv, fuel as nat) == field_named(fv, property@));
    }
    let mut i: usize = 0;
    assert(fv.skip(0) =~= fv);
    while i < fields.len()
        invariant
            i <= fields@.len(),
            fv.len() == fields@.len(),
            forall|q: int| 0 <= q < fields@.len() ==> #[trigger] fv[q] == (fields@[q].0@, (*fields@[q].1)@, fields@[q].2),
            field_named(fv, property@) == field_named(fv.skip(i as int), property@),
        decreases fields@.len() - i,
    {
        proof {
            assert(fv.skip(i as int)[0] == fv[i as int]);
            assert(fv.skip(i as int).drop_first() =~= fv.skip(i + 1));
        }
        if str_eq(fields[i].0.as_str(), property) {
            assert(fv.skip(i as int).len() > 0);
            assert(fv.skip(i as int)[0].0 == property@);
            assert(field_named(fv.skip(i as int), property@) == Some(fv[i as int].1));
            let r = clone_type(&fields[i].1);
            assert(r@ == fv[i as int].1);
            return Some(r);
        }
        i += 1;
    }
    assert(fv.skip(i as int) =~= Seq::<(Seq<char>, TypeV, bool)>::empty());
    None
}

/// The value of `object` is a process result (`ArcisProcess`), or untyped
/// and a direct `sys.process(...)` call.
fn object_is_process_like(
    object: &Expr,
    scope: &Vec<(String, Type)>,
    env: &TypeEnv,
    resolving: &Vec<String>,
    fuel: usize,
) -> (r: bool)
    ensures
        r == process_like(*object, scope_view(scope@), *env, crate::text::strings_view(resolving@), fuel as nat),
    decreases fuel, 1int, object, 3int,
{
    match expr_type_in(object, scope, env, resolving, fuel) {
        Some(Type::Object { name, .. }) => str_eq(name.as_str(), "ArcisProcess"),
        Some(Type::Named(name)) => str_eq(name.as_str(), "ArcisProcess"),
        None => match object {
            Expr::Call { callee, .. } => match &**callee {
                Expr::Member { object: o, property: p } => str_eq(p.as_str(), "process") && match &**o {
                    Expr::Ident(s) => str_eq(s.as_str(), "sys"),
                    _ => false,
                },
                _ => false,
            },
            _ => false,
        },
        _ => false,
    }
}


// ── Trees without their annotations ──────────────────────────────────────

/// An expression with every arrow function's return annotation removed:
/// what inference leaves unchanged.
pub open spec fn bare_expr(e: ExprV) -> ExprV
    decreases e,
{
    match e {
        ExprV::Call { callee, args } => ExprV::Call { callee: Box::new(bare_expr(*callee)), args: bare_exprs(args) },
        ExprV::Unary { op, operand } => ExprV::Unary { op, operand: Box::new(bare_expr(*operand)) },
        ExprV::Binary { op, left, right } => ExprV::Binary {
            op,
            left: Box::new(bare_expr(*left)),
            right: Box::new(bare_expr(*right)),
        },
        ExprV::Member { object, property } => ExprV::Member { object: Box::new(bare_expr(*object)), property },
        ExprV::Index { object, index } => ExprV::Index {
            object: Box::new(bare_expr(*object)),
            index: Box::new(bare_expr(*index)),
        },
        ExprV::ArrayLiteral { elements } => ExprV::ArrayLiteral { elements: bare_elements(elements) },
        ExprV::ObjectLiteral { fields } => ExprV::ObjectLiteral { fields: bare_fields(fields) },
        ExprV::Arrow { params, return_type, body } => ExprV::Arrow {
            params,
            return_type: None,
            body: match body {
                BodyV::Expr(x) => BodyV::Expr(Box::new(bare_expr(*x))),
                BodyV::Block(ss) => BodyV::Block(bare_stmts(ss)),
            },
        },
        ExprV::TypeOf(x) => ExprV::TypeOf(Box::new(bare_expr(*x))),
        ExprV::AsConst(x) => ExprV::AsConst(Box::new(bare_expr(*x))),
        ExprV::NonNullAssertion(x) => ExprV::NonNullAssertion(Box::new(bare_expr(*x))),
        ExprV::AsAssertion { expr, ty } => ExprV::AsAssertion { expr: Box::new(bare_expr(*expr)), ty },
        _ => e,
    }
}

pub open spec fn bare_exprs(es: Seq<ExprV>) -> Seq<ExprV>
    decreases es,
{
    if es.len() == 0 {
        es
    } else {
        bare_exprs(es.drop_last()).push(bare_expr(es.last()))
    }
}

pub open spec fn bare_elements(es: Seq<ElementV>) -> Seq<ElementV>
    decreases es,
{
    if es.len() == 0 {
        es
    } else {
        bare_elements(es.drop_last()).push(
            match es.last() {
                ElementV::Item(x) => ElementV::Item(bare_expr(x)),
                ElementV::Spread(x) => ElementV::Spread(bare_expr(x)),
            },
        )
    }
}

pub open spec fn bare_fields(fs: Seq<FieldV>) -> Seq<FieldV>
    decreases fs,
{
    if fs.len() == 0 {
        fs
    } else {
        bare_fields(fs.drop_last()).push(
            match fs.last() {
                FieldV::KV(k, x) => FieldV::KV(k, bare_expr(x)),
                FieldV::Spread(x) => FieldV::Spread(bare_expr(x)),
            },
        )
    }
}

pub open spec fn bare_stmts(ss: Seq<StmtV>) -> Seq<StmtV>
    decreases ss,
{
    if ss.len() == 0 {
        ss
    } else {
        bare_stmts(ss.drop_last()).push(bare_stmt(ss.last()))
    }
}

pub open spec fn bare_cases(cs: Seq<CaseV>) -> Seq<CaseV>
    decreases cs,
{
    if cs.len() == 0 {
        cs
    } else {
        bare_cases(cs.drop_last()).push(
            CaseV { values: bare_exprs(cs.last().values), body: bare_stmts(cs.last().body), is_default: cs.last().is_default },
        )
    }
}

/// A function without its return annotation (and without the annotations
/// inside its body).
pub open spec fn bare_function(f: FunctionV) -> FunctionV
    decreases f,
{
    FunctionV { name: f.name, params: f.params, return_type: TypeV::Null, body: bare_stmts(f.body), line: f.line, col: f.col }
}

/// A statement without the annotations inference may fill in: those of
/// `let`, `const` and `for-of` bindings, of functions' return types and
/// of arrow functions' return types, at any depth.
pub open spec fn bare_stmt(s: StmtV) -> StmtV
    decreases s,
{
    match s {
        StmtV::Let { name, ty, value, line, col } => StmtV::Let { name, ty: None, value: bare_expr(value), line, col },
        StmtV::Const { name, ty, value, line, col } => StmtV::Const { name, ty: None, value: bare_expr(value), line, col },
        StmtV::Assign { name, value, line, col } => StmtV::Assign { name, value: bare_expr(value), line, col },
        StmtV::AssignIndex { object, index, value, line, col } => StmtV::AssignIndex {
            object,
            index: bare_expr(index),
            value: bare_expr(value),
            line,
            col,
        },
        StmtV::AssignMember { object, property, value, line, col } => StmtV::AssignMember {
            object: Box::new(bare_expr(*object)),
            property,
            value: bare_expr(value),
            line,
            col,
        },
        StmtV::Function(f) => StmtV::Function(bare_function(f)),
        StmtV::Return(e) => StmtV::Return(
            match e {
                Some(x) => Some(bare_expr(x)),
                None => None,
            },
        ),
        StmtV::If { condition, then_branch, else_branch } => StmtV::If {
            condition: bare_expr(condition),
            then_branch: bare_stmts(then_branch),
            else_branch: match else_branch {
                Some(b) => Some(bare_stmts(b)),
                None => None,
            },
        },
        StmtV::While { condition, body } => StmtV::While { condition: bare_expr(condition), body: bare_stmts(body) },
        StmtV::For { init, condition, update, body } => StmtV::For {
            init: match init {
                Some(x) => Some(Box::new(bare_stmt(*x))),
                None => None,
            },
            condition: match condition {
                Some(x) => Some(bare_expr(x)),
                None => None,
            },
            update: match update {
                Some(x) => Some(Box::new(bare_stmt(*x))),
                None => None,
            },
            body: bare_stmts(body),
        },
        StmtV::ForOf { name, ty, iterable, body } => StmtV::ForOf {
            name,
            ty: None,
            iterable: Box::new(bare_expr(*iterable)),
            body: bare_stmts(body),
        },
        StmtV::Expr(e) => StmtV::Expr(bare_expr(e)),
        StmtV::ExportDecl(inner) => StmtV::ExportDecl(Box::new(bare_stmt(*inner))),
        StmtV::ExportDefault(DefaultV::Function(f)) => StmtV::ExportDefault(DefaultV::Function(bare_function(f))),
        StmtV::ExportDefault(DefaultV::Expr(e)) => StmtV::ExportDefault(DefaultV::Expr(bare_expr(e))),
        StmtV::Switch { discriminant, cases } => StmtV::Switch {
            discriminant: bare_expr(discriminant),
            cases: bare_cases(cases),
        },
        StmtV::Try { body, catch_name, catch_body } => StmtV::Try {
            body: bare_stmts(body),
            catch_name,
            catch_body: bare_stmts(catch_body),
        },
        StmtV::Throw(e) => StmtV::Throw(bare_expr(e)),
        _ => s,
    }
}

/// The return annotation inference gives an arrow function without one:
/// the type of its body (an expression's type, or the type of the first
/// typed `return` of a block) in the scope extended with its parameters,
/// unless that is `void` or unknown.
pub open spec fn arrow_return(params: Seq<Param>, body: ArrowBody, sv: Seq<(Seq<char>, TypeV)>, env: TypeEnv) -> Option<
    TypeV,
> {
    let s2 = params_scope(sv, params);
    let ret = match body {
        ArrowBody::Expr(inner) => spec_expr_type(*inner, s2, env),
        ArrowBody::Block(ss) => body_ret(ss@, s2, env, Seq::empty(), env.functions@.len() as nat),
    };
    match ret {
        Some(t) => if is_voidv(t) {
            None
        } else {
            Some(t)
        },
        None => None,
    }
}

/// An arrow function without a return annotation gets the one
/// `arrow_return` says of its (inferred) body.
pub open spec fn infers_arrow(a: Expr, b: Expr, sv: Seq<(Seq<char>, TypeV)>, env: TypeEnv) -> bool {
    a matches Expr::Arrow { return_type: None, .. } ==> b matches Expr::Arrow { params, return_type: rt, body }
        && opt_view(rt) == arrow_return(params@, body, sv, env)
}

/// An arrow function's explicit return annotation is kept.
pub open spec fn keeps_arrow_annotation(a: ExprV, b: ExprV) -> bool {
    a matches ExprV::Arrow { return_type: Some(t), .. } ==> b matches ExprV::Arrow { return_type: Some(u), .. }
        && u == t
}

/// A statement keeps its kind and name, and an explicit annotation of a
/// `let` / `const` other than `any` is kept as written (an `any` one stays
/// an annotation).
pub open spec fn keeps_annotation(a: Stmt, b: Stmt) -> bool {
    match a {
        Stmt::Let { name, ty, .. } => b matches Stmt::Let { name: n2, ty: t2, .. } && n2@ == name@ && (
        ty matches Some(t) ==> (!spec_is_any(t) ==> (t2 matches Some(u) && u@ == t@))) && (ty is Some
            ==> t2 is Some),
        Stmt::Const { name, ty, .. } => b matches Stmt::Const { name: n2, ty: t2, .. } && n2@ == name@ && (
        ty matches Some(t) ==> (!spec_is_any(t) ==> (t2 matches Some(u) && u@ == t@))) && (ty is Some
            ==> t2 is Some),
        Stmt::Function(f) => b matches Stmt::Function(g) && g.name@ == f.name@ && g.params == f.params && (
        !spec_is_void(f.return_type) ==> g.return_type == f.return_type),
        _ => true,
    }
}

/// Fills the missing annotations of `program`: function return types
/// first (so that top-level `let x = f();` sees them), then every
/// statement in order, starting from the top-level constants of `env`.
/// Only annotations change: the program without its annotations stays
/// the same. Each statement, at every depth, is inferred as `inferred_in`
/// says, in the scope the statements before it left (a missing `let` /
/// `const` annotation becomes its value's type unless that is `void` or
/// unknown). Explicit annotations of top-level `let` / `const` are kept
/// (an `any` annotation takes the concrete type of the value); a function
/// keeps its parameters, and its return type unless that is the `void`
/// default.
#[verifier::spinoff_prover]
#[verifier::rlimit(60)]
pub fn infer_program(program: &mut Program, env: &TypeEnv)
    ensures
        bare_stmts(final(program)@) == bare_stmts(old(program)@),
        final(program).stmts@.len() == old(program).stmts@.len(),
        forall|i: int|
            0 <= i < old(program).stmts@.len() ==> keeps_annotation(
                #[trigger] old(program).stmts@[i],
                final(program).stmts@[i],
            ),
        forall|i: int|
            0 <= i < old(program).stmts@.len() ==> infers_return(
                #[trigger] old(program).stmts@[i],
                final(program).stmts@[i],
                *env,
            ),
        forall|i: int|
            0 <= i < old(program).stmts@.len() ==> inferred_in(
                #[trigger] old(program).stmts@[i],
                final(program).stmts@[i],
                block_effect(final(program).stmts@.subrange(0, i), scope_view(env.consts@)),
                *env,
            ),
{
    let mut stmts: Vec<Stmt> = Vec::new();
    std::mem::swap(&mut stmts, &mut program.stmts);
    let ghost orig = stmts@;
    let mut first: Vec<Stmt> = Vec::new();
    proof {
        assert(orig.subrange(0, 0) =~= Seq::<Stmt>::empty());
    }
    while stmts.len() > 0
        invariant
            first@.len() + stmts@.len() == orig.len(),
            stmts@ == orig.subrange(first@.len() as int, orig.len() as int),
            forall|i: int| 0 <= i < first@.len() ==> keeps_annotation(orig[i], #[trigger] first@[i]),
            forall|i: int| 0 <= i < first@.len() ==> infers_return(orig[i], #[trigger] first@[i], *env),
            forall|i: int| 0 <= i < first@.len() ==> same_for_inference(orig[i], #[trigger] first@[i]),
            bare_stmts(stmts_v(first@)) == bare_stmts(stmts_v(orig.subrange(0, first@.len() as int))),
        decreases stmts@.len(),
    {
        let ghost k = first@.len() as int;
        let s = stmts.remove(0);
        assert(s == orig[k]);
        let s2 = infer_function_returns(s, env);
        proof {
            lemma_bare_prefix_step(first@, orig, k, s2);
        }
        first.push(s2);
    }
    proof {
        assert(orig.subrange(0, orig.len() as int) =~= orig);
    }
    let mut scope = clone_scope(&env.consts);
    let ghost cv = scope_view(env.consts@);
    let mut out: Vec<Stmt> = Vec::new();
    let ghost mid = first@;
    proof {
        assert(mid.subrange(0, 0) =~= Seq::<Stmt>::empty());
    }
    while first.len() > 0
        invariant
            mid.len() == orig.len(),
            out@.len() + first@.len() == orig.len(),
            first@ == mid.subrange(out@.len() as int, mid.len() as int),
            forall|i: int| 0 <= i < mid.len() ==> keeps_annotation(orig[i], #[trigger] mid[i]),
            forall|i: int| 0 <= i < out@.len() ==> keeps_annotation(orig[i], #[trigger] out@[i]),
            forall|i: int| 0 <= i < mid.len() ==> infers_return(orig[i], #[trigger] mid[i], *env),
            forall|i: int| 0 <= i < out@.len() ==> infers_return(orig[i], #[trigger] out@[i], *env),
            forall|i: int| 0 <= i < mid.len() ==> same_for_inference(orig[i], #[trigger] mid[i]),
            cv == scope_view(env.consts@),
            scope_view(scope@) == block_effect(out@, cv),
            forall|i: int|
                0 <= i < out@.len() ==> inferred_in(
                    orig[i],
                    #[trigger] out@[i],
                    block_effect(out@.subrange(0, i), cv),
                    *env,
                ),
            bare_stmts(stmts_v(out@)) == bare_stmts(stmts_v(mid.subrange(0, out@.len() as int))),
        decreases first@.len(),
    {
        let s = first.remove(0);
        let ghost k = out@.len() as int;
        assert(s == mid[k]);
        let ghost sc = scope_view(scope@);
        let s2 = infer_stmt(s, &mut scope, env);
        proof {
            lemma_keeps_annotation_trans(orig[k], mid[k], s2);
            lemma_bare_prefix_step(out@, mid, k, s2);
            let o2 = out@.push(s2);
            assert(o2.drop_last() =~= out@);
            assert(o2.subrange(0, k) =~= out@);
            assert forall|i: int| 0 <= i < k implies #[trigger] o2.subrange(0, i) == out@.subrange(0, i) by {
                assert(o2.subrange(0, i) =~= out@.subrange(0, i));
            }
            lemma_same_for_inference(orig[k], mid[k], s2, sc, *env);
        }
        out.push(s2);
    }
    proof {
        assert(mid.subrange(0, mid.len() as int) =~= mid);
    }
    program.stmts = out;
}

/// One more statement on both sides of a prefix that agrees without its
/// annotations.
proof fn lemma_bare_prefix_step(out: Seq<Stmt>, orig: Seq<Stmt>, k: int, x: Stmt)
    requires
        0 <= k < orig.len(),
        bare_stmts(stmts_v(out)) == bare_stmts(stmts_v(orig.subrange(0, k))),
        bare_stmt(stmt_v(x)) == bare_stmt(stmt_v(orig[k])),
    ensures
        bare_stmts(stmts_v(out.push(x))) == bare_stmts(stmts_v(orig.subrange(0, k + 1))),
{
    let p = orig.subrange(0, k + 1);
    assert(p.drop_last() =~= orig.subrange(0, k));
    assert(out.push(x).drop_last() =~= out);
    assert(stmts_v(p).drop_last() =~= stmts_v(orig.subrange(0, k)));
    assert(stmts_v(out.push(x)).drop_last() =~= stmts_v(out));
}

proof fn lemma_keeps_annotation_trans(a: Stmt, b: Stmt, c: Stmt)
    requires
        keeps_annotation(a, b),
        keeps_annotation(b, c),
    ensures
        keeps_annotation(a, c),
{
}

/// `b` differs from `a` at most in a function's return type: what the
/// statement walk of inference reads of them is the same.
pub open spec fn same_for_inference(a: Stmt, b: Stmt) -> bool {
    match a {
        Stmt::Function(f) => b matches Stmt::Function(g) && g.body == f.body && g.params == f.params,
        Stmt::ExportDecl(x) => b matches Stmt::ExportDecl(y) && match *x {
            Stmt::Function(f) => *y matches Stmt::Function(g) && g.body == f.body && g.params == f.params,
            _ => *y == *x,
        },
        Stmt::ExportDefault(ExportDefault::Function(f)) => b matches Stmt::ExportDefault(ExportDefault::Function(g))
            && g.body == f.body && g.params == f.params,
        _ => b == a,
    }
}

proof fn lemma_same_for_inference(a: Stmt, m: Stmt, b: Stmt, sv: Seq<(Seq<char>, TypeV)>, env: TypeEnv)
    requires
        same_for_inference(a, m),
        inferred_in(m, b, sv, env),
    ensures
        inferred_in(a, b, sv, env),
{
    match a {
        Stmt::ExportDecl(x) => {
            match (m, b) {
                (Stmt::ExportDecl(y), Stmt::ExportDecl(z)) => {
                    assert(inferred_in(*y, *z, sv, env));
                    match *x {
                        Stmt::Function(f) => {
                            assert(inferred_in(*x, *z, sv, env));
                        },
                        _ => {},
                    }
                },
                _ => {},
            }
        },
        _ => {},
    }
}

/// A function whose return type is `void` gets the type of its first
/// typed `return`, if any (`function` declarations, exported or default).
fn infer_function_returns(stmt: Stmt, env: &TypeEnv) -> (r: Stmt)
    ensures
        keeps_annotation(stmt, r),
        keeps_annotation(r, r),
        bare_stmt(r@) == bare_stmt(stmt@),
        infers_return(stmt, r, *env),
        !(stmt is Function) && !(stmt is ExportDecl) && !(stmt is ExportDefault) ==> r == stmt,
        same_for_inference(stmt, r),
{
    let ghost sv = stmt@;
    match stmt {
        Stmt::Function(f) => {
            let ghost fv = function_v(f);
            let g = infer_return(f, env);
            proof {
                assert(sv == StmtV::Function(fv));
                assert(stmt_v(Stmt::Function(g)) == StmtV::Function(function_v(g)));
                assert(bare_stmt(StmtV::Function(function_v(g))) == StmtV::Function(bare_function(function_v(g))));
                assert(bare_stmt(StmtV::Function(fv)) == StmtV::Function(bare_function(fv)));
            }
            Stmt::Function(g)
        },
        Stmt::ExportDecl(inner) => {
            let ghost iv = stmt_v(*inner);
            proof {
                assert(sv == StmtV::ExportDecl(Box::new(iv)));
            }
            match *inner {
                Stmt::Function(f) => {
                    let ghost fv = function_v(f);
                    proof {
                        assert(iv == StmtV::Function(fv));
                    }
                    let g = Stmt::Function(infer_return(f, env));
                    let r = Stmt::ExportDecl(Box::new(g));
                    proof {
                        assert(sv == StmtV::ExportDecl(Box::new(StmtV::Function(fv))));
                        assert(bare_stmt(g@) == bare_stmt(StmtV::Function(fv)));
                        assert(r@ == StmtV::ExportDecl(Box::new(g@)));
                        assert(bare_stmt(StmtV::ExportDecl(Box::new(g@))) == StmtV::ExportDecl(Box::new(bare_stmt(g@))));
                        assert(bare_stmt(StmtV::ExportDecl(Box::new(StmtV::Function(fv)))) == StmtV::ExportDecl(
                            Box::new(bare_stmt(StmtV::Function(fv))),
                        ));
                    }
                    r
                },
                other => Stmt::ExportDecl(Box::new(other)),
            }
        },
        Stmt::ExportDefault(ExportDefault::Function(f)) => {
            let ghost fv = function_v(f);
            let g = infer_return(f, env);
            let r = Stmt::ExportDefault(ExportDefault::Function(g));
            proof {
                assert(sv == StmtV::ExportDefault(DefaultV::Function(fv)));
                assert(stmt_v(r) == StmtV::ExportDefault(DefaultV::Function(function_v(g))));
                assert(bare_stmt(stmt_v(r)) == StmtV::ExportDefault(DefaultV::Function(bare_function(function_v(g)))));
                assert(bare_stmt(StmtV::ExportDefault(DefaultV::Function(fv))) == StmtV::ExportDefault(
                    DefaultV::Function(bare_function(fv)),
                ));
            }
            r
        },
        other => other,
    }
}

/// The return type inference gives a function declared `void`: the type
/// of the first typed `return` of its body, in the top-level constants
/// extended with its parameters; `void` when there is none.
pub open spec fn fn_return(f: Function, env: TypeEnv) -> TypeV {
    match body_ret(f.body@, params_scope(scope_view(env.consts@), f.params@), env, Seq::empty(), env.functions@.len() as nat) {
        Some(t) => t,
        None => f.return_type@,
    }
}

/// A top-level function declared `void` gets the return type `fn_return`
/// says.
pub open spec fn infers_return(a: Stmt, b: Stmt, env: TypeEnv) -> bool {
    match a {
        Stmt::Function(f) => spec_is_void(f.return_type) ==> (b matches Stmt::Function(g) && g.return_type@
            == fn_return(f, env)),
        _ => true,
    }
}

fn infer_return(f: Function, env: &TypeEnv) -> (r: Function)
    ensures
        r.name@ == f.name@,
        r.params == f.params,
        !spec_is_void(f.return_type) ==> r.return_type == f.return_type,
        spec_is_void(f.return_type) ==> r.return_type@ == fn_return(f, *env),
        bare_function(function_v(r)) == bare_function(function_v(f)),
        r.body == f.body,
{
    let ghost f0 = f;
    let mut f = f;
    if is_void(&f.return_type) {
        let mut scope = clone_scope(&env.consts);
        let ghost ps = params_scope(scope_view(env.consts@), f.params@);
        let mut k: usize = 0;
        proof {
            assert(scope_view(scope@) =~= ps.subrange(0, env.consts@.len() as int));
        }
        while k < f.params.len()
            invariant
                k <= f.params@.len(),
                ps == params_scope(scope_view(env.consts@), f.params@),
                scope_view(scope@) == ps.subrange(0, env.consts@.len() + k),
            decreases f.params@.len() - k,
        {
            let ghost before = scope@;
            let entry = (f.params[k].name.clone(), clone_type(&f.params[k].ty));
            scope.push(entry);
            proof {
                assert(scope@ == before.push(entry));
                assert(scope_view(scope@) =~= scope_view(before).push(
                    (f.params@[k as int].name@, f.params@[k as int].ty@),
                ));
                assert(ps.len() == env.consts@.len() + f.params@.len());
                assert(ps[env.consts@.len() + k] == (f.params@[k as int].name@, f.params@[k as int].ty@));
                assert(scope_view(scope@) =~= ps.subrange(0, env.consts@.len() + k + 1));
            }
            k += 1;
        }
        proof {
            assert(ps.subrange(0, ps.len() as int) =~= ps);
        }
        let resolving: Vec<String> = Vec::new();
        proof {
            assert(crate::text::strings_view(resolving@) =~= Seq::<Seq<char>>::empty());
        }
        if let Some(t) = infer_body_return(&f.body, &mut scope, env, &resolving, env.functions.len()) {
            f.return_type = t;
        }
    }
    proof {
        assert(f.body == f0.body && f.params == f0.params && f.name == f0.name);
    }
    f
}

/// One more element on both sides of a prefix that agrees without its
/// annotations.
proof fn lemma_bare_elements_step(out: Seq<ArrayElement>, orig: Seq<ArrayElement>, k: int, x: ArrayElement)
    requires
        0 <= k < orig.len(),
        bare_elements(elements_v(out)) == bare_elements(elements_v(orig.subrange(0, k))),
        match (x, orig[k]) {
            (ArrayElement::Item(a), ArrayElement::Item(b)) => bare_expr(a@) == bare_expr(b@),
            (ArrayElement::Spread(a), ArrayElement::Spread(b)) => bare_expr(a@) == bare_expr(b@),
            _ => false,
        },
    ensures
        bare_elements(elements_v(out.push(x))) == bare_elements(elements_v(orig.subrange(0, k + 1))),
{
    let p = orig.subrange(0, k + 1);
    assert(p.drop_last() =~= orig.subrange(0, k));
    assert(out.push(x).drop_last() =~= out);
    assert(elements_v(p).drop_last() =~= elements_v(orig.subrange(0, k)));
    assert(elements_v(out.push(x)).drop_last() =~= elements_v(out));
}

proof fn lemma_bare_fields_step(out: Seq<ObjectField>, orig: Seq<ObjectField>, k: int, x: ObjectField)
    requires
        0 <= k < orig.len(),
        bare_fields(fields_v(out)) == bare_fields(fields_v(orig.subrange(0, k))),
        match (x, orig[k]) {
            (ObjectField::KV(n, a), ObjectField::KV(m, b)) => n@ == m@ && bare_expr(a@) == bare_expr(b@),
            (ObjectField::Spread(a), ObjectField::Spread(b)) => bare_expr(a@) == bare_expr(b@),
            _ => false,
        },
    ensures
        bare_fields(fields_v(out.push(x))) == bare_fields(fields_v(orig.subrange(0, k + 1))),
{
    let p = orig.subrange(0, k + 1);
    assert(p.drop_last() =~= orig.subrange(0, k));
    assert(out.push(x).drop_last() =~= out);
    assert(fields_v(p).drop_last() =~= fields_v(orig.subrange(0, k)));
    assert(fields_v(out.push(x)).drop_last() =~= fields_v(out));
}

proof fn lemma_bare_exprs_step(out: Seq<Expr>, orig: Seq<Expr>, k: int, x: Expr)
    requires
        0 <= k < orig.len(),
        bare_exprs(exprs_v(out)) == bare_exprs(exprs_v(orig.subrange(0, k))),
        bare_expr(x@) == bare_expr(orig[k]@),
    ensures
        bare_exprs(exprs_v(out.push(x))) == bare_exprs(exprs_v(orig.subrange(0, k + 1))),
{
    let p = orig.subrange(0, k + 1);
    assert(p.drop_last() =~= orig.subrange(0, k));
    assert(out.push(x).drop_last() =~= out);
    assert(exprs_v(p).drop_last() =~= exprs_v(orig.subrange(0, k)));
    assert(exprs_v(out.push(x)).drop_last() =~= exprs_v(out));
}

proof fn lemma_bare_cases_step(out: Seq<SwitchCase>, orig: Seq<SwitchCase>, k: int, x: SwitchCase)
    requires
        0 <= k < orig.len(),
        bare_cases(crate::syntax::view::cases_v(out)) == bare_cases(crate::syntax::view::cases_v(orig.subrange(0, k))),
        x.values == orig[k].values,
        x.is_default == orig[k].is_default,
        bare_stmts(stmts_v(x.body@)) == bare_stmts(stmts_v(orig[k].body@)),
    ensures
        bare_cases(crate::syntax::view::cases_v(out.push(x))) == bare_cases(
            crate::syntax::view::cases_v(orig.subrange(0, k + 1)),
        ),
{
    let p = orig.subrange(0, k + 1);
    assert(p.drop_last() =~= orig.subrange(0, k));
    assert(out.push(x).drop_last() =~= out);
    assert(crate::syntax::view::cases_v(p).drop_last() =~= crate::syntax::view::cases_v(orig.subrange(0, k)));
    assert(crate::syntax::view::cases_v(out.push(x)).drop_last() =~= crate::syntax::view::cases_v(out));
}

/// Annotations inside an expression: an arrow function's missing return
/// type (unless `void`), arrow bodies' own statements. Only annotations
/// change, and an arrow function's explicit return annotation is kept.
#[verifier::loop_isolation(false)]
#[verifier::spinoff_prover]
#[verifier::rlimit(40)]
fn infer_expr_annotations(e: Expr, scope: &Vec<(String, Type)>, env: &TypeEnv) -> (r: Expr)
    ensures
        bare_expr(r@) == bare_expr(e@),
        keeps_arrow_annotation(e@, r@),
        infers_arrow(e, r, scope_view(scope@), *env),
    decreases e, 0int,
{
    match e {
        Expr::Arrow { params, return_type, body } => {
            let ghost rt0 = return_type;
            let body = match body {
                ArrowBody::Expr(inner) => ArrowBody::Expr(Box::new(infer_expr_annotations(*inner, scope, env))),
                ArrowBody::Block(stmts) => {
                    let ghost orig = stmts;
                    let ghost n = stmts@.len();
                    let mut rest = stmts;
                    let mut out: Vec<Stmt> = Vec::new();
                    let ghost mut k: int = 0;
                    proof {
                        assert(orig@.subrange(0, 0) =~= Seq::<Stmt>::empty());
                    }
                    while rest.len() > 0
                        invariant
                            0 <= k <= n,
                            n == orig@.len(),
                            out@.len() == k,
                            rest@ == orig@.subrange(k, n as int),
                            decreases_to!(e => orig),
                            bare_stmts(stmts_v(out@)) == bare_stmts(stmts_v(orig@.subrange(0, k))),
                        decreases rest@.len(),
                    {
                        let s = rest.remove(0);
                        proof {
                            assert(s == orig@[k]);
                            assert(decreases_to!(orig => orig@[k]));
                        }
                        let mut fresh = clone_scope(scope);
                        let x = infer_stmt(s, &mut fresh, env);
                        proof {
                            lemma_bare_prefix_step(out@, orig@, k, x);
                        }
                        out.push(x);
                        proof {
                            k = k + 1;
                        }
                    }
                    proof {
                        assert(orig@.subrange(0, n as int) =~= orig@);
                    }
                    ArrowBody::Block(out)
                },
            };
            let return_type = match return_type {
                Some(t) => Some(t),
                None => {
                    let mut s = with_params(scope, &params);
                    let resolving: Vec<String> = Vec::new();
                    proof {
                        assert(crate::text::strings_view(resolving@) =~= Seq::<Seq<char>>::empty());
                    }
                    let ret = match &body {
                        ArrowBody::Expr(inner) => expr_type_in(inner, &s, env, &resolving, env.functions.len()),
                        ArrowBody::Block(stmts) => infer_body_return(stmts, &mut s, env, &resolving, env.functions.len()),
                    };
                    match ret {
                        Some(t) => {
                            proof {
                                lemma_void_view(t);
                            }
                            if is_void(&t) {
                                None
                            } else {
                                Some(t)
                            }
                        },
                        None => None,
                    }
                },
            };
            proof {
                assert(rt0 is Some ==> return_type == rt0);
            }
            Expr::Arrow { params, return_type, body }
        },
        Expr::Call { callee, args } => {
            let callee = infer_expr_annotations(*callee, scope, env);
            let args = infer_exprs(args, scope, env);
            Expr::Call { callee: Box::new(callee), args }
        },
        Expr::Binary { op, left, right } => {
            let l = infer_expr_annotations(*left, scope, env);
            let r = infer_expr_annotations(*right, scope, env);
            Expr::Binary { op, left: Box::new(l), right: Box::new(r) }
        },
        Expr::Unary { op, operand } => Expr::Unary {
            op,
            operand: Box::new(infer_expr_annotations(*operand, scope, env)),
        },
        Expr::Member { object, property } => Expr::Member {
            object: Box::new(infer_expr_annotations(*object, scope, env)),
            property,
        },
        Expr::Index { object, index } => {
            let o = infer_expr_annotations(*object, scope, env);
            let i = infer_expr_annotations(*index, scope, env);
            Expr::Index { object: Box::new(o), index: Box::new(i) }
        },
        Expr::ArrayLiteral { elements } => {
            let ghost orig = elements;
            let ghost n = elements@.len();
            let mut rest = elements;
            let mut out: Vec<ArrayElement> = Vec::new();
            let ghost mut k: int = 0;
            proof {
                assert(orig@.subrange(0, 0) =~= Seq::<ArrayElement>::empty());
            }
            while rest.len() > 0
                invariant
                    0 <= k <= n,
                    n == orig@.len(),
                    out@.len() == k,
                    rest@ == orig@.subrange(k, n as int),
                    decreases_to!(e => orig),
                    bare_elements(elements_v(out@)) == bare_elements(elements_v(orig@.subrange(0, k))),
                decreases rest@.len(),
            {
                let el = rest.remove(0);
                proof {
                    assert(el == orig@[k]);
                    assert(decreases_to!(orig => orig@[k]));
                }
                let el2 = match el {
                    ArrayElement::Item(x) => ArrayElement::Item(infer_expr_annotations(x, scope, env)),
                    ArrayElement::Spread(x) => ArrayElement::Spread(infer_expr_annotations(x, scope, env)),
                };
                proof {
                    lemma_bare_elements_step(out@, orig@, k, el2);
                }
                out.push(el2);
                proof {
                    k = k + 1;
                }
            }
            proof {
                assert(orig@.subrange(0, n as int) =~= orig@);
            }
            Expr::ArrayLiteral { elements: out }
        },
        Expr::ObjectLiteral { fields } => {
            let ghost orig = fields;
            let ghost n = fields@.len();
            let mut rest = fields;
            let mut out: Vec<ObjectField> = Vec::new();
            let ghost mut k: int = 0;
            proof {
                assert(orig@.subrange(0, 0) =~= Seq::<ObjectField>::empty());
            }
            while rest.len() > 0
                invariant
                    0 <= k <= n,
                    n == orig@.len(),
                    out@.len() == k,
                    rest@ == orig@.subrange(k, n as int),
                    decreases_to!(e => orig),
                    bare_fields(fields_v(out@)) == bare_fields(fields_v(orig@.subrange(0, k))),
                decreases rest@.len(),
            {
                let f = rest.remove(0);
                proof {
                    assert(f == orig@[k]);
                    assert(decreases_to!(orig => orig@[k]));
                }
                let f2 = match f {
                    ObjectField::KV(name, x) => ObjectField::KV(name, infer_expr_annotations(x, scope, env)),
                    ObjectField::Spread(x) => ObjectField::Spread(infer_expr_annotations(x, scope, env)),
                };
                proof {
                    lemma_bare_fields_step(out@, orig@, k, f2);
                }
                out.push(f2);
                proof {
                    k = k + 1;
                }
            }
            proof {
                assert(orig@.subrange(0, n as int) =~= orig@);
            }
            Expr::ObjectLiteral { fields: out }
        },
        Expr::AsAssertion { expr, ty } => Expr::AsAssertion {
            expr: Box::new(infer_expr_annotations(*expr, scope, env)),
            ty,
        },
        Expr::AsConst(inner) => Expr::AsConst(Box::new(infer_expr_annotations(*inner, scope, env))),
        Expr::NonNullAssertion(inner) => Expr::NonNullAssertion(
            Box::new(infer_expr_annotations(*inner, scope, env)),
        ),
        Expr::TypeOf(inner) => Expr::TypeOf(Box::new(infer_expr_annotations(*inner, scope, env))),
        other => other,
    }
}

/// [`infer_expr_annotations`] on each expression: only annotations change.
#[verifier::loop_isolation(false)]
fn infer_exprs(v: Vec<Expr>, scope: &Vec<(String, Type)>, env: &TypeEnv) -> (r: Vec<Expr>)
    ensures
        bare_exprs(exprs_v(r@)) == bare_exprs(exprs_v(v@)),
        r@.len() == v@.len(),
    decreases v, 1int,
{
    let ghost orig = v;
    let ghost n = v@.len();
    let mut rest = v;
    let mut out: Vec<Expr> = Vec::new();
    let ghost mut k: int = 0;
    proof {
        assert(orig@.subrange(0, 0) =~= Seq::<Expr>::empty());
    }
    while rest.len() > 0
        invariant
            0 <= k <= n,
            n == orig@.len(),
            out@.len() == k,
            rest@ == orig@.subrange(k, n as int),
            bare_exprs(exprs_v(out@)) == bare_exprs(exprs_v(orig@.subrange(0, k))),
        decreases rest@.len(),
    {
        let x = rest.remove(0);
        proof {
            assert(x == orig@[k]);
            assert(decreases_to!(orig => orig@[k]));
        }
        let y = infer_expr_annotations(x, scope, env);
        proof {
            lemma_bare_exprs_step(out@, orig@, k, y);
        }
        out.push(y);
        proof {
            k = k + 1;
        }
    }
    proof {
        assert(orig@.subrange(0, n as int) =~= orig@);
    }
    out
}

/// Infers inside each statement of a block, in order, in one scope: only
/// annotations change.
#[verifier::loop_isolation(false)]
fn infer_block(v: Vec<Stmt>, scope: &mut Scope, env: &TypeEnv) -> (r: Vec<Stmt>)
    ensures
        bare_stmts(stmts_v(r@)) == bare_stmts(stmts_v(v@)),
        r@.len() == v@.len(),
        scope_view(final(scope)@) == block_effect(r@, scope_view(old(scope)@)),
        inferred_block(v@, r@, scope_view(old(scope)@), *env),
    decreases v, 1int,
{
    let ghost sv0 = scope_view(scope@);
    let ghost orig = v;
    let ghost n = v@.len();
    let mut rest = v;
    let mut out: Vec<Stmt> = Vec::new();
    let ghost mut k: int = 0;
    proof {
        assert(orig@.subrange(0, 0) =~= Seq::<Stmt>::empty());
    }
    while rest.len() > 0
        invariant
            0 <= k <= n,
            n == orig@.len(),
            out@.len() == k,
            rest@ == orig@.subrange(k, n as int),
            bare_stmts(stmts_v(out@)) == bare_stmts(stmts_v(orig@.subrange(0, k))),
            scope_view(scope@) == block_effect(out@, sv0),
            inferred_block(orig@.subrange(0, k), out@, sv0, *env),
        decreases rest@.len(),
    {
        let s = rest.remove(0);
        proof {
            assert(s == orig@[k]);
            assert(decreases_to!(orig => orig@[k]));
        }
        let x = infer_stmt(s, scope, env);
        proof {
            lemma_bare_prefix_step(out@, orig@, k, x);
            assert(out@.push(x).drop_last() =~= out@);
            let p = orig@.subrange(0, k + 1);
            assert(p.drop_last() =~= orig@.subrange(0, k));
        }
        out.push(x);
        proof {
            k = k + 1;
        }
    }
    proof {
        assert(orig@.subrange(0, n as int) =~= orig@);
    }
    out
}

/// [`infer_expr_annotations`] on an optional expression.
fn infer_opt_expr(e: Option<Expr>, scope: &Vec<(String, Type)>, env: &TypeEnv) -> (r: Option<Expr>)
    ensures
        match (e, r) {
            (Some(a), Some(b)) => bare_expr(b@) == bare_expr(a@),
            (None, None) => true,
            _ => false,
        },
    decreases e, 0int,
{
    match e {
        Some(x) => Some(infer_expr_annotations(x, scope, env)),
        None => None,
    }
}

/// Infers inside one statement: first the annotations inside its
/// expressions, then a missing `let` / `const` type (from the value, unless
/// `void`) or `for-of` element type; bound names enter `scope` (a caught
/// error as a `string`); nested blocks and function bodies follow.
#[verifier::loop_isolation(false)]
#[verifier::spinoff_prover]
#[verifier::rlimit(60)]
fn infer_stmt(stmt: Stmt, scope: &mut Scope, env: &TypeEnv) -> (r: Stmt)
    ensures
        keeps_annotation(stmt, r),
        keeps_annotation(r, r),
        bare_stmt(r@) == bare_stmt(stmt@),
        infers_binding(stmt, r, scope_view(old(scope)@), *env),
        stmt matches Stmt::Function(f) ==> (r matches Stmt::Function(g) && g.return_type == f.return_type),
        scope_view(final(scope)@) == scope_effect(r, scope_view(old(scope)@)),
        inferred_in(stmt, r, scope_view(old(scope)@), *env),
    decreases stmt, 0int,
{
    let ghost st = stmt;
    let ghost sv0 = scope_view(scope@);
    match stmt {
        Stmt::Let { name, ty, value, line, col } => {
            let value = infer_expr_annotations(value, scope, env);
            let ty = bind_decl(&name, ty, &value, scope, env);
            Stmt::Let { name, ty, value, line, col }
        },
        Stmt::Const { name, ty, value, line, col } => {
            let value = infer_expr_annotations(value, scope, env);
            let ty = bind_decl(&name, ty, &value, scope, env);
            Stmt::Const { name, ty, value, line, col }
        },
        Stmt::Assign { name, value, line, col } => Stmt::Assign {
            name,
            value: infer_expr_annotations(value, scope, env),
            line,
            col,
        },
        Stmt::AssignIndex { object, index, value, line, col } => {
            let i = infer_expr_annotations(index, scope, env);
            let v = infer_expr_annotations(value, scope, env);
            Stmt::AssignIndex { object, index: i, value: v, line, col }
        },
        Stmt::AssignMember { object, property, value, line, col } => Stmt::AssignMember {
            object,
            property,
            value: infer_expr_annotations(value, scope, env),
            line,
            col,
        },
        Stmt::Return(e) => match e {
            Some(x) => Stmt::Return(Some(infer_expr_annotations(x, scope, env))),
            None => Stmt::Return(None),
        },
        Stmt::Throw(e) => Stmt::Throw(infer_expr_annotations(e, scope, env)),
        Stmt::Expr(e) => Stmt::Expr(infer_expr_annotations(e, scope, env)),
        Stmt::ForOf { name, ty, iterable, body } => {
            let iterable = infer_expr_annotations(*iterable, scope, env);
            let ty = match ty {
                Some(t) => Some(t),
                None => {
                    let resolving: Vec<String> = Vec::new();
                    proof {
                        assert(crate::text::strings_view(resolving@) =~= Seq::<Seq<char>>::empty());
                    }
                    let it = expr_type_in(&iterable, scope, env, &resolving, env.functions.len());
                    let e = array_elem(&it);
                    proof {
                        assert(opt_view(e) == elem_of(opt_view(it)));
                    }
                    e
                },
            };
            if let Some(t) = &ty {
                let ghost before = scope@;
                scope.push((name.clone(), clone_type(t)));
                proof {
                    assert(scope_view(scope@) =~= scope_view(before).push((name@, t@)));
                }
            }
            let body = infer_block(body, scope, env);
            let r = Stmt::ForOf { name, ty, iterable: Box::new(iterable), body };
            proof {
                assert(inferred_in(st, r, sv0, *env));
            }
            r
        },
        Stmt::Function(f) => Stmt::Function(infer_function_body(f, scope, env)),
        Stmt::ExportDecl(inner) => Stmt::ExportDecl(Box::new(infer_stmt(*inner, scope, env))),
        Stmt::ExportDefault(ExportDefault::Function(f)) => Stmt::ExportDefault(
            ExportDefault::Function(infer_function_body(f, scope, env)),
        ),
        Stmt::If { condition, then_branch, else_branch } => {
            let ghost ev = opt_stmts_v(else_branch);
            let condition = infer_expr_annotations(condition, scope, env);
            let then_branch = infer_block(then_branch, scope, env);
            let else_branch = match else_branch {
                Some(b) => {
                    let ghost bv = stmts_v(b@);
                    let x = infer_block(b, scope, env);
                    proof {
                        assert(opt_stmts_v(Some(x)) == Some(stmts_v(x@)));
                        assert(ev == Some(bv));
                    }
                    Some(x)
                },
                None => None,
            };
            let r = Stmt::If { condition, then_branch, else_branch };
            proof {
                assert(stmt_v(r) == StmtV::If {
                    condition: condition@,
                    then_branch: stmts_v(then_branch@),
                    else_branch: opt_stmts_v(else_branch),
                });
                assert(inferred_in(st, r, sv0, *env));
            }
            r
        },
        Stmt::While { condition, body } => {
            let condition = infer_expr_annotations(condition, scope, env);
            let body = infer_block(body, scope, env);
            Stmt::While { condition, body }
        },
        Stmt::For { init, condition, update, body } => {
            let init = match init {
                Some(i) => Some(Box::new(infer_stmt(*i, scope, env))),
                None => None,
            };
            let update = match update {
                Some(u) => Some(Box::new(infer_stmt(*u, scope, env))),
                None => None,
            };
            let body = infer_block(body, scope, env);
            let r = Stmt::For { init, condition, update, body };
            proof {
                assert(inferred_in(st, r, sv0, *env));
            }
            r
        },
        Stmt::Switch { discriminant, cases } => {
            let discriminant = infer_expr_annotations(discriminant, scope, env);
            let ghost sv_sw = scope_view(scope@);
            let ghost orig = cases;
            let mut rest = cases;
            let mut out: Vec<crate::syntax::ast::SwitchCase> = Vec::new();
            let ghost mut k: int = 0;
            proof {
                assert(orig@.subrange(0, 0) =~= Seq::<SwitchCase>::empty());
            }
            while rest.len() > 0
                invariant
                    0 <= k <= orig@.len(),
                    out@.len() == k,
                    rest@ == orig@.subrange(k, orig@.len() as int),
                    decreases_to!(stmt => orig),
                    bare_cases(crate::syntax::view::cases_v(out@)) == bare_cases(
                        crate::syntax::view::cases_v(orig@.subrange(0, k)),
                    ),
                    scope_view(scope@) == cases_effect(out@, sv_sw),
                    inferred_cases(orig@.subrange(0, k), out@, sv_sw, *env),
                decreases rest@.len(),
            {
                let c = rest.remove(0);
                proof {
                    assert(c == orig@[k]);
                    assert(decreases_to!(orig => orig@[k]));
                }
                let crate::syntax::ast::SwitchCase { values, body, is_default } = c;
                let body = infer_block(body, scope, env);
                let x = crate::syntax::ast::SwitchCase { values, body, is_default };
                proof {
                    lemma_bare_cases_step(out@, orig@, k, x);
                    assert(out@.push(x).drop_last() =~= out@);
                    let p = orig@.subrange(0, k + 1);
                    assert(p.drop_last() =~= orig@.subrange(0, k));
                }
                out.push(x);
                proof {
                    k = k + 1;
                }
            }
            proof {
                assert(orig@.subrange(0, orig@.len() as int) =~= orig@);
            }
            let r = Stmt::Switch { discriminant, cases: out };
            proof {
                assert(inferred_in(st, r, sv0, *env));
            }
            r
        },
        Stmt::Try { body, catch_name, catch_body } => {
            let body = infer_block(body, scope, env);
            if let Some(n) = &catch_name {
                let ghost before = scope@;
                let t = Type::string();
                scope.push((n.clone(), t));
                proof {
                    assert(t@ == TypeV::Primitive("string"@));
                    assert(scope_view(scope@) =~= scope_view(before).push((n@, TypeV::Primitive("string"@))));
                }
            }
            let catch_body = infer_block(catch_body, scope, env);
            let r = Stmt::Try { body, catch_name, catch_body };
            proof {
                assert(inferred_in(st, r, sv0, *env));
            }
            r
        },
        other => other,
    }
}

/// The bindings an (inferred) statement adds to the scope it is inferred
/// in, in order: an annotated `let` / `const` or `for-of` variable, a
/// caught error (as a `string`), and those of its nested blocks, which
/// share the scope; a function's body has a scope of its own.
pub open spec fn scope_effect(s: Stmt, sv: Seq<(Seq<char>, TypeV)>) -> Seq<(Seq<char>, TypeV)>
    decreases s,
{
    match s {
        Stmt::Let { name, ty, .. } => match ty {
            Some(t) => sv.push((name@, t@)),
            None => sv,
        },
        Stmt::Const { name, ty, .. } => match ty {
            Some(t) => sv.push((name@, t@)),
            None => sv,
        },
        Stmt::ForOf { name, ty, body, .. } => block_effect(
            body@,
            match ty {
                Some(t) => sv.push((name@, t@)),
                None => sv,
            },
        ),
        Stmt::If { then_branch, else_branch, .. } => {
            let a = block_effect(then_branch@, sv);
            match else_branch {
                Some(b) => block_effect(b@, a),
                None => a,
            }
        },
        Stmt::While { body, .. } => block_effect(body@, sv),
        Stmt::For { init, update, body, .. } => {
            let a = match init {
                Some(i) => scope_effect(*i, sv),
                None => sv,
            };
            let b = match update {
                Some(u) => scope_effect(*u, a),
                None => a,
            };
            block_effect(body@, b)
        },
        Stmt::Switch { cases, .. } => cases_effect(cases@, sv),
        Stmt::Try { body, catch_name, catch_body } => {
            let a = block_effect(body@, sv);
            let b = match catch_name {
                Some(n) => a.push((n@, TypeV::Primitive("string"@))),
                None => a,
            };
            block_effect(catch_body@, b)
        },
        Stmt::ExportDecl(inner) => scope_effect(*inner, sv),
        _ => sv,
    }
}

/// The bindings the statements `ss` add, in order.
pub open spec fn block_effect(ss: Seq<Stmt>, sv: Seq<(Seq<char>, TypeV)>) -> Seq<(Seq<char>, TypeV)>
    decreases ss,
{
    if ss.len() == 0 {
        sv
    } else {
        scope_effect(ss.last(), block_effect(ss.drop_last(), sv))
    }
}

pub open spec fn cases_effect(cs: Seq<SwitchCase>, sv: Seq<(Seq<char>, TypeV)>) -> Seq<(Seq<char>, TypeV)>
    decreases cs,
{
    if cs.len() == 0 {
        sv
    } else {
        block_effect(cs.last().body@, cases_effect(cs.drop_last(), sv))
    }
}

/// The annotation a binding statement gets from inference, in the scope
/// `sv` it starts from: a `let` / `const` as `decl_type` says of its
/// (inferred) value; a `for-of` variable its explicit type, else the
/// element type of its (inferred) iterable.
pub open spec fn infers_binding(a: Stmt, b: Stmt, sv: Seq<(Seq<char>, TypeV)>, env: TypeEnv) -> bool {
    match a {
        Stmt::Let { ty, .. } => b matches Stmt::Let { ty: t2, value: v2, .. } && opt_view(t2) == decl_type(ty, v2, sv, env),
        Stmt::Const { ty, .. } => b matches Stmt::Const { ty: t2, value: v2, .. } && opt_view(t2) == decl_type(
            ty,
            v2,
            sv,
            env,
        ),
        Stmt::ForOf { ty, .. } => b matches Stmt::ForOf { ty: t2, iterable: it, .. } && opt_view(t2) == match ty {
            Some(t) => Some(t@),
            None => elem_of(spec_expr_type(*it, sv, env)),
        },
        _ => true,
    }
}

/// Inference of `a` into `b` in the scope `sv`, at every depth: the
/// statement's own binding as `infers_binding` says, and each nested
/// block's statements in the scope the earlier ones (and the enclosing
/// blocks) left; a function's body in the outer scope extended with its
/// parameters.
pub open spec fn inferred_in(a: Stmt, b: Stmt, sv: Seq<(Seq<char>, TypeV)>, env: TypeEnv) -> bool
    decreases a,
{
    &&& infers_binding(a, b, sv, env)
    &&& match a {
        Stmt::If { then_branch: ta, else_branch: ea, .. } => match b {
            Stmt::If { then_branch: tb, else_branch: eb, .. } => inferred_block(ta@, tb@, sv, env) && match ea {
                Some(x) => match eb {
                    Some(y) => inferred_block(x@, y@, block_effect(tb@, sv), env),
                    None => false,
                },
                None => true,
            },
            _ => false,
        },
        Stmt::While { body: x, .. } => match b {
            Stmt::While { body: y, .. } => inferred_block(x@, y@, sv, env),
            _ => false,
        },
        Stmt::For { init: ia, update: ua, body: x, .. } => match b {
            Stmt::For { init: ib, update: ub, body: y, .. } => {
                let s1 = match ib {
                    Some(i) => scope_effect(*i, sv),
                    None => sv,
                };
                let s2 = match ub {
                    Some(u) => scope_effect(*u, s1),
                    None => s1,
                };
                &&& match ia {
                    Some(i) => ib matches Some(j) && inferred_in(*i, *j, sv, env),
                    None => true,
                }
                &&& match ua {
                    Some(u) => ub matches Some(w) && inferred_in(*u, *w, s1, env),
                    None => true,
                }
                &&& inferred_block(x@, y@, s2, env)
            },
            _ => false,
        },
        Stmt::ForOf { body: x, .. } => match b {
            Stmt::ForOf { name, ty, body: y, .. } => inferred_block(
                x@,
                y@,
                match ty {
                    Some(t) => sv.push((name@, t@)),
                    None => sv,
                },
                env,
            ),
            _ => false,
        },
        Stmt::Switch { cases: x, .. } => match b {
            Stmt::Switch { cases: y, .. } => inferred_cases(x@, y@, sv, env),
            _ => false,
        },
        Stmt::Try { body: x, catch_body: cx, .. } => match b {
            Stmt::Try { body: y, catch_name, catch_body: cy } => {
                let s1 = block_effect(y@, sv);
                inferred_block(x@, y@, sv, env) && inferred_block(
                    cx@,
                    cy@,
                    match catch_name {
                        Some(n) => s1.push((n@, TypeV::Primitive("string"@))),
                        None => s1,
                    },
                    env,
                )
            },
            _ => false,
        },
        Stmt::Function(f) => match b {
            Stmt::Function(g) => inferred_block(f.body@, g.body@, params_scope(sv, f.params@), env),
            _ => false,
        },
        Stmt::ExportDecl(x) => match b {
            Stmt::ExportDecl(y) => inferred_in(*x, *y, sv, env),
            _ => false,
        },
        Stmt::ExportDefault(ExportDefault::Function(f)) => match b {
            Stmt::ExportDefault(ExportDefault::Function(g)) => inferred_block(
                f.body@,
                g.body@,
                params_scope(sv, f.params@),
                env,
            ),
            _ => false,
        },
        _ => true,
    }
}

/// Inference of the statements `as_` into `bs`, one after another from
/// the scope `sv`.
pub open spec fn inferred_block(as_: Seq<Stmt>, bs: Seq<Stmt>, sv: Seq<(Seq<char>, TypeV)>, env: TypeEnv) -> bool
    decreases as_,
{
    &&& as_.len() == bs.len()
    &&& as_.len() > 0 ==> {
        &&& inferred_block(as_.drop_last(), bs.drop_last(), sv, env)
        &&& inferred_in(as_.last(), bs.last(), block_effect(bs.drop_last(), sv), env)
    }
}

/// Inference of the bodies of `switch` cases, one after another.
pub open spec fn inferred_cases(as_: Seq<SwitchCase>, bs: Seq<SwitchCase>, sv: Seq<(Seq<char>, TypeV)>, env: TypeEnv) -> bool
    decreases as_,
{
    &&& as_.len() == bs.len()
    &&& as_.len() > 0 ==> {
        &&& inferred_cases(as_.drop_last(), bs.drop_last(), sv, env)
        &&& inferred_block(as_.last().body@, bs.last().body@, cases_effect(bs.drop_last(), sv), env)
    }
}

/// The annotation of a `let` / `const` after inference: the value's type
/// (unless `void` or unknown) when the annotation is missing or `any` (an
/// `any` binding takes the concrete type of its value), else the explicit
/// one.
pub open spec fn decl_type(ty: Option<Type>, value: Expr, sv: Seq<(Seq<char>, TypeV)>, env: TypeEnv) -> Option<TypeV> {
    let open = match ty {
        Some(t) => spec_is_any(t),
        None => true,
    };
    if open {
        match spec_expr_type(value, sv, env) {
            Some(t) => if is_voidv(t) {
                opt_view(ty)
            } else {
                Some(t)
            },
            None => opt_view(ty),
        }
    } else {
        opt_view(ty)
    }
}

proof fn lemma_void_view(t: Type)
    ensures
        spec_is_void(t) == is_voidv(t@),
{
}

/// The annotation of a `let` / `const` after inference, as `decl_type`
/// says; the binding enters `scope` when there is one.
fn bind_decl(name: &String, ty: Option<Type>, value: &Expr, scope: &mut Scope, env: &TypeEnv) -> (r: Option<
    Type,
>)
    ensures
        ty matches Some(t) ==> (!spec_is_any(t) ==> (r matches Some(u) && u@ == t@)),
        ty is Some ==> r is Some,
        opt_view(r) == decl_type(ty, *value, scope_view(old(scope)@), *env),
        scope_view(final(scope)@) == match decl_type(ty, *value, scope_view(old(scope)@), *env) {
            Some(t) => scope_view(old(scope)@).push((name@, t)),
            None => scope_view(old(scope)@),
        },
{
    let ghost sv = scope_view(scope@);
    let ghost ty0 = ty;
    let is_open = match &ty {
        Some(t) => is_any(t),
        None => true,
    };
    let ty = if is_open {
        let resolving: Vec<String> = Vec::new();
        proof {
            assert(crate::text::strings_view(resolving@) =~= Seq::<Seq<char>>::empty());
        }
        match expr_type_in(value, scope, env, &resolving, env.functions.len()) {
            Some(t) => {
                proof {
                    lemma_void_view(t);
                }
                if is_void(&t) {
                    ty
                } else {
                    Some(t)
                }
            },
            None => ty,
        }
    } else {
        ty
    };
    proof {
        assert(opt_view(ty) == decl_type(ty0, *value, sv, *env));
    }
    if let Some(t) = &ty {
        let ghost before = scope@;
        scope.push((name.clone(), clone_type(t)));
        proof {
            assert(scope_view(scope@) =~= scope_view(before).push((name@, t@)));
        }
    }
    ty
}

/// Infers inside a function body, in a copy of the outer scope extended
/// with the parameters.
fn infer_function_body(f: Function, outer: &Vec<(String, Type)>, env: &TypeEnv) -> (r: Function)
    ensures
        r.name@ == f.name@,
        r.params == f.params,
        r.return_type == f.return_type,
        bare_function(function_v(r)) == bare_function(function_v(f)),
        inferred_block(f.body@, r.body@, params_scope(scope_view(outer@), f.params@), *env),
    decreases f, 0int,
{
    let mut scope = clone_scope(outer);
    let ghost ov = scope_view(outer@);
    let ghost ps = params_scope(ov, f.params@);
    let mut k: usize = 0;
    proof {
        assert(scope_view(scope@) =~= ps.subrange(0, ov.len() as int));
    }
    while k < f.params.len()
        invariant
            k <= f.params@.len(),
            ps == params_scope(ov, f.params@),
            ps.len() == ov.len() + f.params@.len(),
            scope_view(scope@) == ps.subrange(0, ov.len() + k),
        decreases f.params@.len() - k,
    {
        let ghost before = scope@;
        let entry = (f.params[k].name.clone(), clone_type(&f.params[k].ty));
        scope.push(entry);
        proof {
            assert(scope@ == before.push(entry));
            assert(scope_view(scope@) =~= scope_view(before).push(
                (f.params@[k as int].name@, f.params@[k as int].ty@),
            ));
            assert(ps[ov.len() + k] == (f.params@[k as int].name@, f.params@[k as int].ty@));
            assert(scope_view(scope@) =~= ps.subrange(0, ov.len() + k + 1));
        }
        k += 1;
    }
    proof {
        assert(ps.subrange(0, ps.len() as int) =~= ps);
    }
    let Function { name, params, return_type, body, line, col } = f;
    let body = infer_block(body, &mut scope, env);
    Function { name, params, return_type, body, line, col }
}

} // verus!
