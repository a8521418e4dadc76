//! Field shapes of the interfaces and object type aliases declared in one
//! document, so that member completion on `let p: Person` can offer
//! `Person`'s fields. `extends` lists are merged (a later field of the same
//! name replaces an earlier one) and `type X = Y` chains are followed;
//! cycles stop the walk.

use crate::syntax::ast::{clone_type, fields_view, Program, Stmt, Type, TypeV};
use crate::text::{str_eq, strings_view};
use vstd::prelude::*;

verus! {

broadcast use vstd::std_specs::vec::group_vec_axioms;

/// A field of a shape: name, type, whether it was declared optional.
pub type FieldV = (Seq<char>, TypeV, bool);

/// An interface as declared: name, `extends` list, own fields.
pub type InterfaceV = (Seq<char>, Seq<Seq<char>>, Seq<FieldV>);

/// The interfaces declared at the top level of a program (inside
/// `export` too), in source order.
pub open spec fn raw_interfaces(ss: Seq<Stmt>) -> Seq<InterfaceV>
    decreases ss.len(),
{
    if ss.len() == 0 {
        Seq::empty()
    } else {
        raw_interfaces(ss.drop_last()) + match top_decl(ss.last()) {
            Stmt::Interface { name, extends, fields, .. } => seq![
                (name@, strings_view(extends@), fields_view(fields@)),
            ],
            _ => Seq::empty(),
        }
    }
}

/// The type aliases declared at the top level of a program, in source order.
pub open spec fn raw_aliases(ss: Seq<Stmt>) -> Seq<(Seq<char>, TypeV)>
    decreases ss.len(),
{
    if ss.len() == 0 {
        Seq::empty()
    } else {
        raw_aliases(ss.drop_last()) + match top_decl(ss.last()) {
            Stmt::TypeAlias { name, ty, .. } => seq![(name@, ty@)],
            _ => Seq::empty(),
        }
    }
}

/// The declaration itself, with one `export` wrapper removed.
pub open spec fn top_decl(s: Stmt) -> Stmt {
    match s {
        Stmt::ExportDecl(inner) => *inner,
        _ => s,
    }
}

/// The last declaration of interface `n` (a later declaration replaces an
/// earlier one).
pub open spec fn iface_lookup(raw: Seq<InterfaceV>, n: Seq<char>) -> Option<(Seq<Seq<char>>, Seq<FieldV>)>
    decreases raw.len(),
{
    if raw.len() == 0 {
        None
    } else if raw.last().0 == n {
        Some((raw.last().1, raw.last().2))
    } else {
        iface_lookup(raw.drop_last(), n)
    }
}

/// The last declaration of alias `n`.
pub open spec fn alias_lookup(aliases: Seq<(Seq<char>, TypeV)>, n: Seq<char>) -> Option<TypeV>
    decreases aliases.len(),
{
    if aliases.len() == 0 {
        None
    } else if aliases.last().0 == n {
        Some(aliases.last().1)
    } else {
        alias_lookup(aliases.drop_last(), n)
    }
}

/// `m` without the fields called `n`.
pub open spec fn drop_named(m: Seq<FieldV>, n: Seq<char>) -> Seq<FieldV>
    decreases m.len(),
{
    if m.len() == 0 {
        Seq::empty()
    } else if m.last().0 == n {
        drop_named(m.drop_last(), n)
    } else {
        drop_named(m.drop_last(), n).push(m.last())
    }
}

/// Adds `fs` to `m` in order; a field replaces an earlier field of the same
/// name and moves to the end.
pub open spec fn merge_fields(m: Seq<FieldV>, fs: Seq<FieldV>) -> Seq<FieldV>
    decreases fs.len(),
{
    if fs.len() == 0 {
        m
    } else {
        merge_fields(drop_named(m, fs[0].0).push(fs[0]), fs.drop_first())
    }
}

/// The fields of interface `name` with its bases merged in, bases first.
/// A name already being resolved (an `extends` cycle) contributes only its
/// own fields.
pub open spec fn resolve_iface(raw: Seq<InterfaceV>, name: Seq<char>, visiting: Seq<Seq<char>>) -> Seq<FieldV>
    decreases raw.len() - visiting.len(), 0int, 0int,
{
    match iface_lookup(raw, name) {
        None => Seq::empty(),
        Some((ext, own)) => if visiting.contains(name) || visiting.len() >= raw.len() {
            own
        } else {
            merge_fields(resolve_bases(raw, ext, visiting.push(name)), own)
        },
    }
}

/// The merged fields of a list of base interfaces, in order.
pub open spec fn resolve_bases(raw: Seq<InterfaceV>, bases: Seq<Seq<char>>, visiting: Seq<Seq<char>>) -> Seq<FieldV>
    decreases raw.len() - visiting.len(), 1int, bases.len(),
{
    if bases.len() == 0 {
        Seq::empty()
    } else {
        merge_fields(resolve_bases(raw, bases.drop_last(), visiting), resolve_iface(raw, bases.last(), visiting))
    }
}

/// The fields an alias target stands for: an inline object type, an
/// interface, or another alias (followed until a cycle).
pub open spec fn resolve_alias(
    raw: Seq<InterfaceV>,
    aliases: Seq<(Seq<char>, TypeV)>,
    t: TypeV,
    visiting: Seq<Seq<char>>,
) -> Option<Seq<FieldV>>
    decreases aliases.len() - visiting.len(),
{
    match t {
        TypeV::Object { fields, .. } => Some(fields),
        TypeV::Named(n) => if iface_lookup(raw, n) is Some {
            Some(resolve_iface(raw, n, Seq::empty()))
        } else {
            match alias_lookup(aliases, n) {
                None => None,
                Some(target) => if visiting.contains(n) || visiting.len() >= aliases.len() {
                    None
                } else {
                    resolve_alias(raw, aliases, target, visiting.push(n))
                },
            }
        },
        _ => None,
    }
}

/// The field shape named `n` in a program: an interface (bases merged) or
/// a type alias of an object shape.
pub open spec fn named_shape(p: Program, n: Seq<char>) -> Option<Seq<FieldV>> {
    let raw = raw_interfaces(p.stmts@);
    let aliases = raw_aliases(p.stmts@);
    if iface_lookup(raw, n) is Some {
        Some(resolve_iface(raw, n, Seq::empty()))
    } else {
        match alias_lookup(aliases, n) {
            Some(t) => resolve_alias(raw, aliases, t, Seq::empty()),
            None => None,
        }
    }
}


/// The value of a list of fields.
pub open spec fn shape_view(s: Seq<(String, Type, bool)>) -> Seq<FieldV> {
    s.map_values(|f: (String, Type, bool)| (f.0@, f.1@, f.2))
}

pub open spec fn interfaces_view(s: Seq<(String, Vec<String>, Vec<(String, Type, bool)>)>) -> Seq<InterfaceV> {
    s.map_values(
        |e: (String, Vec<String>, Vec<(String, Type, bool)>)| (e.0@, strings_view(e.1@), shape_view(e.2@)),
    )
}

pub open spec fn aliases_view(s: Seq<(String, Type)>) -> Seq<(Seq<char>, TypeV)> {
    s.map_values(|e: (String, Type)| (e.0@, e.1@))
}

/// The interfaces and type aliases of one document, from which the field
/// shape of any declared name can be resolved.
pub struct NamedShapes {
    interfaces: Vec<(String, Vec<String>, Vec<(String, Type, bool)>)>,
    aliases: Vec<(String, Type)>,
}

impl NamedShapes {
    /// The field shape named `n`.
    pub closed spec fn spec_get(&self, n: Seq<char>) -> Option<Seq<FieldV>> {
        let raw = interfaces_view(self.interfaces@);
        let aliases = aliases_view(self.aliases@);
        if iface_lookup(raw, n) is Some {
            Some(resolve_iface(raw, n, Seq::empty()))
        } else {
            match alias_lookup(aliases, n) {
                Some(t) => resolve_alias(raw, aliases, t, Seq::empty()),
                None => None,
            }
        }
    }

    /// No shapes at all.
    pub fn empty() -> (r: NamedShapes)
        ensures
            forall|n: Seq<char>| r.spec_get(n) is None,
    {
        let r = NamedShapes { interfaces: Vec::new(), aliases: Vec::new() };
        assert forall|n: Seq<char>| r.spec_get(n) is None by {
            assert(interfaces_view(r.interfaces@) =~= Seq::<InterfaceV>::empty());
            assert(aliases_view(r.aliases@) =~= Seq::<(Seq<char>, TypeV)>::empty());
        }
        r
    }

    /// The fields of the shape named `n`, if `n` names an interface or an
    /// alias of an object shape.
    pub fn get(&self, n: &str) -> (r: Option<Vec<(String, Type, bool)>>)
        ensures
            match r {
                Some(fs) => self.spec_get(n@) == Some(shape_view(fs@)),
                None => self.spec_get(n@) is None,
            },
    {
        let empty: Vec<String> = Vec::new();
        assert(strings_view(empty@) =~= Seq::<Seq<char>>::empty());
        if iface_find(&self.interfaces, n).is_some() {
            Some(resolve_interface(&self.interfaces, n, &empty))
        } else {
            match alias_find(&self.aliases, n) {
                Some(k) => resolve_alias_shape(&self.interfaces, &self.aliases, &self.aliases[k].1, &empty),
                None => None,
            }
        }
    }
}

/// Index of the last interface called `n`.
fn iface_find(raw: &Vec<(String, Vec<String>, Vec<(String, Type, bool)>)>, n: &str) -> (r: Option<usize>)
    ensures
        match r {
            Some(k) => k < raw@.len() && iface_lookup(interfaces_view(raw@), n@) == Some(
                (strings_view(raw@[k as int].1@), shape_view(raw@[k as int].2@)),
            ),
            None => iface_lookup(interfaces_view(raw@), n@) is None,
        },
{
    let ghost rv = interfaces_view(raw@);
    let mut i: usize = raw.len();
    assert(rv.take(i as int) =~= rv);
    while i > 0
        invariant
            i <= raw@.len(),
            rv == interfaces_view(raw@),
            iface_lookup(rv, n@) == iface_lookup(rv.take(i as int), n@),
        decreases i,
    {
        assert(rv.take(i as int).drop_last() =~= rv.take(i - 1));
        if str_eq(raw[i - 1].0.as_str(), n) {
            return Some(i - 1);
        }
        i -= 1;
    }
    None
}

/// Index of the last alias called `n`.
fn alias_find(aliases: &Vec<(String, Type)>, n: &str) -> (r: Option<usize>)
    ensures
        match r {
            Some(k) => k < aliases@.len() && alias_lookup(aliases_view(aliases@), n@) == Some(
                aliases@[k as int].1@,
            ),
            None => alias_lookup(aliases_view(aliases@), n@) is None,
        },
{
    let ghost av = aliases_view(aliases@);
    let mut i: usize = aliases.len();
    assert(av.take(i as int) =~= av);
    while i > 0
        invariant
            i <= aliases@.len(),
            av == aliases_view(aliases@),
            alias_lookup(av, n@) == alias_lookup(av.take(i as int), n@),
        decreases i,
    {
        assert(av.take(i as int).drop_last() =~= av.take(i - 1));
        if str_eq(aliases[i - 1].0.as_str(), n) {
            return Some(i - 1);
        }
        i -= 1;
    }
    None
}

fn contains_str(v: &Vec<String>, s: &str) -> (r: bool)
    ensures
        r == strings_view(v@).contains(s@),
{
    let mut i: usize = 0;
    while i < v.len()
        invariant
            i <= v@.len(),
            forall|k: int| 0 <= k < i ==> v@[k]@ != s@,
        decreases v@.len() - i,
    {
        if str_eq(v[i].as_str(), s) {
            assert(strings_view(v@)[i as int] == s@);
            return true;
        }
        i += 1;
    }
    assert(!strings_view(v@).contains(s@)) by {
        if strings_view(v@).contains(s@) {
            let k = choose|k: int| 0 <= k < strings_view(v@).len() && strings_view(v@)[k] == s@;
            assert(v@[k]@ == s@);
        }
    }
    false
}

fn clone_shape(v: &Vec<(String, Type, bool)>) -> (r: Vec<(String, Type, bool)>)
    ensures
        shape_view(r@) == shape_view(v@),
{
    let mut out: Vec<(String, Type, bool)> = Vec::new();
    let mut i: usize = 0;
    while i < v.len()
        invariant
            i <= v@.len(),
            out@.len() == i,
            forall|k: int| 0 <= k < i ==> (#[trigger] out@[k]).0@ == v@[k].0@ && out@[k].1@ == v@[k].1@ && out@[k].2 == v@[k].2,
        decreases v@.len() - i,
    {
        out.push((v[i].0.clone(), clone_type(&v[i].1), v[i].2));
        i += 1;
    }
    assert(shape_view(out@) =~= shape_view(v@));
    out
}

/// `m` without the fields called `n`, in order.
fn drop_named_exec(m: Vec<(String, Type, bool)>, n: &str) -> (r: Vec<(String, Type, bool)>)
    ensures
        shape_view(r@) == drop_named(shape_view(m@), n@),
{
    let ghost mv = shape_view(m@);
    let mut out: Vec<(String, Type, bool)> = Vec::new();
    let mut i: usize = 0;
    assert(mv.take(0) =~= Seq::<FieldV>::empty());
    while i < m.len()
        invariant
            i <= m@.len(),
            mv == shape_view(m@),
            shape_view(out@) == drop_named(mv.take(i as int), n@),
        decreases m@.len() - i,
    {
        assert(mv.take(i + 1).drop_last() =~= mv.take(i as int));
        if !str_eq(m[i].0.as_str(), n) {
            out.push((m[i].0.clone(), clone_type(&m[i].1), m[i].2));
            assert(shape_view(out@) =~= drop_named(mv.take(i as int), n@).push(mv[i as int]));
        }
        i += 1;
    }
    assert(mv.take(m@.len() as int) =~= mv);
    out
}

proof fn lemma_merge_skip(m: Seq<FieldV>, fs: Seq<FieldV>, i: int)
    requires
        0 <= i < fs.len(),
    ensures
        merge_fields(m, fs.skip(i)) == merge_fields(drop_named(m, fs[i].0).push(fs[i]), fs.skip(i + 1)),
{
    assert(fs.skip(i).drop_first() =~= fs.skip(i + 1));
}

/// Adds `fs` to `m` in order, each replacing an earlier field of its name.
fn merge_exec(m: Vec<(String, Type, bool)>, fs: &Vec<(String, Type, bool)>) -> (r: Vec<(String, Type, bool)>)
    ensures
        shape_view(r@) == merge_fields(shape_view(m@), shape_view(fs@)),
{
    let ghost fv = shape_view(fs@);
    let ghost target = merge_fields(shape_view(m@), fv);
    let mut acc = m;
    let mut i: usize = 0;
    assert(fv.skip(0) =~= fv);
    while i < fs.len()
        invariant
            i <= fs@.len(),
            fv == shape_view(fs@),
            merge_fields(shape_view(acc@), fv.skip(i as int)) == target,
        decreases fs@.len() - i,
    {
        proof {
            lemma_merge_skip(shape_view(acc@), fv, i as int);
        }
        let ghost before = shape_view(acc@);
        let mut next = drop_named_exec(acc, fs[i].0.as_str());
        let ghost dropped = shape_view(next@);
        next.push((fs[i].0.clone(), clone_type(&fs[i].1), fs[i].2));
        assert(shape_view(next@) =~= dropped.push(fv[i as int]));
        acc = next;
        i += 1;
    }
    assert(fv.skip(fs@.len() as int) =~= Seq::<FieldV>::empty());
    acc
}



fn clone_strings(v: &Vec<String>) -> (r: Vec<String>)
    ensures
        strings_view(r@) == strings_view(v@),
{
    let mut out: Vec<String> = Vec::new();
    let mut i: usize = 0;
    while i < v.len()
        invariant
            i <= v@.len(),
            out@.len() == i,
            forall|k: int| 0 <= k < i ==> (#[trigger] out@[k])@ == v@[k]@,
        decreases v@.len() - i,
    {
        out.push(v[i].clone());
        i += 1;
    }
    assert(strings_view(out@) =~= strings_view(v@));
    out
}

fn pushed(v: &Vec<String>, s: &str) -> (r: Vec<String>)
    ensures
        strings_view(r@) == strings_view(v@).push(s@),
        r@.len() == v@.len() + 1,
{
    let mut r = clone_strings(v);
    r.push(crate::text::owned(s));
    assert(strings_view(r@) =~= strings_view(v@).push(s@));
    r
}

/// Fields of an inline object type as a shape.
fn object_shape(fields: &Vec<(String, Box<Type>, bool)>) -> (r: Vec<(String, Type, bool)>)
    ensures
        shape_view(r@) == fields_view(fields@),
{
    proof {
        crate::syntax::ast::lemma_fields_view(fields@);
    }
    let mut out: Vec<(String, Type, bool)> = Vec::new();
    let mut i: usize = 0;
    while i < fields.len()
        invariant
            i <= fields@.len(),
            out@.len() == i,
            forall|k: int|
                0 <= k < i ==> (#[trigger] out@[k]).0@ == fields@[k].0@ && out@[k].1@ == (*fields@[k].1)@
                    && out@[k].2 == fields@[k].2,
        decreases fields@.len() - i,
    {
        out.push((fields[i].0.clone(), clone_type(&fields[i].1), fields[i].2));
        i += 1;
    }
    assert(shape_view(out@) =~= fields_view(fields@));
    out
}

proof fn lemma_bases_take(raw: Seq<InterfaceV>, bs: Seq<Seq<char>>, vis: Seq<Seq<char>>, i: int)
    requires
        0 <= i < bs.len(),
    ensures
        resolve_bases(raw, bs.take(i + 1), vis) == merge_fields(
            resolve_bases(raw, bs.take(i), vis),
            resolve_iface(raw, bs[i], vis),
        ),
{
    assert(bs.take(i + 1).drop_last() =~= bs.take(i));
}

fn resolve_interface(
    raw: &Vec<(String, Vec<String>, Vec<(String, Type, bool)>)>,
    name: &str,
    visiting: &Vec<String>,
) -> (r: Vec<(String, Type, bool)>)
    ensures
        shape_view(r@) == resolve_iface(interfaces_view(raw@), name@, strings_view(visiting@)),
    decreases raw@.len() - visiting@.len(), 0int, 0int,
{
    match iface_find(raw, name) {
        None => Vec::new(),
        Some(k) => {
            if contains_str(visiting, name) || visiting.len() >= raw.len() {
                clone_shape(&raw[k].2)
            } else {
                let v2 = pushed(visiting, name);
                let bases = resolve_bases_exec(raw, &raw[k].1, &v2);
                merge_exec(bases, &raw[k].2)
            }
        },
    }
}

fn resolve_bases_exec(
    raw: &Vec<(String, Vec<String>, Vec<(String, Type, bool)>)>,
    bases: &Vec<String>,
    visiting: &Vec<String>,
) -> (r: Vec<(String, Type, bool)>)
    ensures
        shape_view(r@) == resolve_bases(interfaces_view(raw@), strings_view(bases@), strings_view(visiting@)),
    decreases raw@.len() - visiting@.len(), 1int, bases@.len(),
{
    let ghost iv = interfaces_view(raw@);
    let ghost bs = strings_view(bases@);
    let ghost vis = strings_view(visiting@);
    let mut acc: Vec<(String, Type, bool)> = Vec::new();
    let mut i: usize = 0;
    assert(bs.take(0) =~= Seq::<Seq<char>>::empty());
    assert(shape_view(acc@) =~= Seq::<FieldV>::empty());
    while i < bases.len()
        invariant
            i <= bases@.len(),
            iv == interfaces_view(raw@),
            bs == strings_view(bases@),
            vis == strings_view(visiting@),
            shape_view(acc@) == resolve_bases(iv, bs.take(i as int), vis),
        decreases bases@.len() - i,
    {
        proof {
            lemma_bases_take(iv, bs, vis, i as int);
        }
        let one = resolve_interface(raw, bases[i].as_str(), visiting);
        acc = merge_exec(acc, &one);
        i += 1;
    }
    assert(bs.take(bases@.len() as int) =~= bs);
    acc
}

fn resolve_alias_shape(
    raw: &Vec<(String, Vec<String>, Vec<(String, Type, bool)>)>,
    aliases: &Vec<(String, Type)>,
    t: &Type,
    visiting: &Vec<String>,
) -> (r: Option<Vec<(String, Type, bool)>>)
    ensures
        match r {
            Some(fs) => resolve_alias(interfaces_view(raw@), aliases_view(aliases@), t@, strings_view(visiting@))
                == Some(shape_view(fs@)),
            None => resolve_alias(interfaces_view(raw@), aliases_view(aliases@), t@, strings_view(visiting@)) is None,
        },
    decreases aliases@.len() - visiting@.len(),
{
    match t {
        Type::Object { fields, .. } => Some(object_shape(fields)),
        Type::Named(n) => {
            if iface_find(raw, n.as_str()).is_some() {
                let empty: Vec<String> = Vec::new();
                assert(strings_view(empty@) =~= Seq::<Seq<char>>::empty());
                Some(resolve_interface(raw, n.as_str(), &empty))
            } else {
                match alias_find(aliases, n.as_str()) {
                    None => None,
                    Some(k) => {
                        if contains_str(visiting, n.as_str()) || visiting.len() >= aliases.len() {
                            None
                        } else {
                            let v2 = pushed(visiting, n.as_str());
                            resolve_alias_shape(raw, aliases, &aliases[k].1, &v2)
                        }
                    },
                }
            }
        },
        _ => None,
    }
}

/// Collects the interfaces and type aliases declared at the top level of
/// `program` (inside `export` too), from which the field shape of each
/// declared name resolves.
pub fn collect_named_shapes(program: &Program) -> (r: NamedShapes)
    ensures
        forall|n: Seq<char>| #[trigger] r.spec_get(n) == named_shape(*program, n),
{
    let ghost ss = program.stmts@;
    let mut interfaces: Vec<(String, Vec<String>, Vec<(String, Type, bool)>)> = Vec::new();
    let mut aliases: Vec<(String, Type)> = Vec::new();
    let mut i: usize = 0;
    assert(ss.take(0) =~= Seq::<Stmt>::empty());
    assert(interfaces_view(interfaces@) =~= Seq::<InterfaceV>::empty());
    assert(aliases_view(aliases@) =~= Seq::<(Seq<char>, TypeV)>::empty());
    while i < program.stmts.len()
        invariant
            i <= ss.len(),
            ss == program.stmts@,
            interfaces_view(interfaces@) == raw_interfaces(ss.take(i as int)),
            aliases_view(aliases@) == raw_aliases(ss.take(i as int)),
        decreases ss.len() - i,
    {
        assert(ss.take(i + 1).drop_last() =~= ss.take(i as int));
        let stmt = &program.stmts[i];
        let inner: &Stmt = match stmt {
            Stmt::ExportDecl(b) => &**b,
            other => other,
        };
        assert(*inner == top_decl(ss[i as int]));
        match inner {
            Stmt::Interface { name, extends, fields, .. } => {
                let entry = (name.clone(), clone_strings(extends), object_shape(fields));
                interfaces.push(entry);
                assert(interfaces_view(interfaces@) =~= raw_interfaces(ss.take(i as int)).push(
                    (name@, strings_view(extends@), fields_view(fields@)),
                ));
                assert(aliases_view(aliases@) =~= raw_aliases(ss.take(i as int)) + Seq::empty());
            },
            Stmt::TypeAlias { name, ty, .. } => {
                aliases.push((name.clone(), clone_type(ty)));
                assert(aliases_view(aliases@) =~= raw_aliases(ss.take(i as int)).push((name@, ty@)));
                assert(interfaces_view(interfaces@) =~= raw_interfaces(ss.take(i as int)) + Seq::empty());
            },
            _ => {
                assert(interfaces_view(interfaces@) =~= raw_interfaces(ss.take(i as int)) + Seq::empty());
                assert(aliases_view(aliases@) =~= raw_aliases(ss.take(i as int)) + Seq::empty());
            },
        }
        i += 1;
    }
    assert(ss.take(ss.len() as int) =~= ss);
    NamedShapes { interfaces, aliases }
}

} // verus!
