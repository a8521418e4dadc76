//! The decisions of loading a program's modules, depth first from the
//! entry: which import to resolve next, whether a resolved module is
//! loaded, already loaded, or closes a cycle, and the order modules are
//! discovered in (the entry first). Reading, parsing and resolving paths
//! are done by the caller, which reports each result back.

use crate::compiler::modules::{module_id, path_stem, is_module_ident};
use crate::text::str_eq;
use vstd::prelude::*;

verus! {

broadcast use vstd::std_specs::vec::group_vec_axioms;

/// A module being loaded: its canonical path, its import specifiers, and
/// how many of them have been handed out.
pub struct Frame {
    pub path: String,
    pub specs: Vec<String>,
    pub next: usize,
}

/// The loader's state: the modules being loaded (outermost first), every
/// module in discovery order, and the modules whose imports are all
/// loaded.
pub struct Loader {
    pub stack: Vec<Frame>,
    pub order: Vec<String>,
    pub done: Vec<String>,
}

/// What the caller does next.
pub enum LoadAction {
    /// Resolve the import `spec` of the module at `importer`.
    Resolve { importer: String, spec: String },
    /// The module at this path has all its imports loaded.
    Finished(String),
    /// Every module is loaded.
    Done,
}

/// The value of a frame: path, specifiers, how many handed out.
pub open spec fn frame_v(f: Frame) -> (Seq<char>, Seq<Seq<char>>, nat) {
    (f.path@, f.specs@.map_values(|s: String| s@), f.next as nat)
}

pub open spec fn strs(v: Seq<String>) -> Seq<Seq<char>> {
    v.map_values(|s: String| s@)
}

/// The value of the loader's state.
pub open spec fn loader_v(l: Loader) -> (Seq<(Seq<char>, Seq<Seq<char>>, nat)>, Seq<Seq<char>>, Seq<Seq<char>>) {
    (l.stack@.map_values(|f: Frame| frame_v(f)), strs(l.order@), strs(l.done@))
}

/// The paths of the modules being loaded, outermost first.
pub open spec fn stack_paths(l: Loader) -> Seq<Seq<char>> {
    l.stack@.map_values(|f: Frame| f.path@)
}

/// The loader's state well formed: no frame has handed out more imports
/// than it has; no module is discovered twice; the discovered modules are
/// exactly those being loaded and those loaded.
pub open spec fn loader_wf(l: Loader) -> bool {
    &&& forall|i: int| 0 <= i < l.stack@.len() ==> (#[trigger] l.stack@[i]).next <= l.stack@[i].specs@.len()
    &&& strs(l.order@).no_duplicates()
    &&& forall|p: Seq<char>|
        #[trigger] strs(l.order@).contains(p) <==> (stack_paths(l).contains(p) || strs(l.done@).contains(p))
}

proof fn lemma_push_contains(s: Seq<Seq<char>>, x: Seq<char>)
    ensures
        forall|p: Seq<char>| #[trigger] s.push(x).contains(p) <==> (s.contains(p) || p == x),
        s.no_duplicates() && !s.contains(x) ==> s.push(x).no_duplicates(),
{
    assert forall|p: Seq<char>| #[trigger] s.push(x).contains(p) <==> (s.contains(p) || p == x) by {
        if s.contains(p) {
            let k = choose|k: int| 0 <= k < s.len() && s[k] == p;
            assert(s.push(x)[k] == p);
        }
        if p == x {
            assert(s.push(x)[s.len() as int] == x);
        }
        if s.push(x).contains(p) {
            let k = choose|k: int| 0 <= k < s.push(x).len() && s.push(x)[k] == p;
            if k < s.len() {
                assert(s[k] == p);
            }
        }
    }
    if s.no_duplicates() && !s.contains(x) {
        assert forall|i: int, j: int| 0 <= i < s.push(x).len() && 0 <= j < s.push(x).len() && i != j implies s.push(
            x,
        )[i] != s.push(x)[j] by {
            if i < s.len() && j < s.len() {
            } else if i < s.len() {
                assert(s.push(x)[i] == s[i]);
            } else if j < s.len() {
                assert(s.push(x)[j] == s[j]);
            }
        }
    }
}

proof fn lemma_drop_last_contains(s: Seq<Seq<char>>)
    requires
        s.len() > 0,
    ensures
        forall|p: Seq<char>| #[trigger] s.contains(p) <==> (s.drop_last().contains(p) || p == s.last()),
{
    assert(s =~= s.drop_last().push(s.last()));
    lemma_push_contains(s.drop_last(), s.last());
}

/// A loader for the program whose entry is at `entry` (already read).
pub fn start(entry: String, specs: Vec<String>) -> (r: Loader)
    ensures
        loader_wf(r),
        loader_v(r) == (seq![(entry@, strs(specs@), 0nat)], seq![entry@], Seq::<Seq<char>>::empty()),
{
    let order = vec![entry.clone()];
    let mut stack: Vec<Frame> = Vec::new();
    stack.push(Frame { path: entry, specs, next: 0 });
    let r = Loader { stack, order, done: Vec::new() };
    proof {
        assert(loader_v(r).0 =~= seq![(entry@, strs(specs@), 0nat)]);
        assert(loader_v(r).1 =~= seq![entry@]);
        assert(loader_v(r).2 =~= Seq::<Seq<char>>::empty());
        assert(strs(r.order@) =~= seq![entry@]);
        assert(stack_paths(r) =~= seq![entry@]);
        assert(strs(r.done@) =~= Seq::<Seq<char>>::empty());
        lemma_push_contains(Seq::<Seq<char>>::empty(), entry@);
        assert(Seq::<Seq<char>>::empty().push(entry@) =~= seq![entry@]);
        assert forall|p: Seq<char>| !(#[trigger] Seq::<Seq<char>>::empty().contains(p)) by {}
    }
    r
}

/// The next step: the innermost module's next import to resolve (handed
/// out, so the module moves past it); when it has none left, that module
/// is finished (it leaves the stack and counts as loaded); with no module
/// left, done.
pub fn next_action(l: &mut Loader) -> (r: LoadAction)
    requires
        loader_wf(*old(l)),
    ensures
        loader_wf(*final(l)),
        ({
            let (st, order, done) = loader_v(*old(l));
            if st.len() == 0 {
                r is Done && loader_v(*final(l)) == loader_v(*old(l))
            } else if st.last().2 < st.last().1.len() {
                &&& r matches LoadAction::Resolve { importer, spec } && importer@ == st.last().0 && spec@
                    == st.last().1[st.last().2 as int]
                &&& loader_v(*final(l)) == (
                    st.drop_last().push((st.last().0, st.last().1, st.last().2 + 1)),
                    order,
                    done,
                )
            } else {
                &&& r matches LoadAction::Finished(p) && p@ == st.last().0
                &&& loader_v(*final(l)) == (st.drop_last(), order, done.push(st.last().0))
            }
        }),
{
    let ghost before = *l;
    if l.stack.len() == 0 {
        return LoadAction::Done;
    }
    let top = l.stack.len() - 1;
    let mut f = l.stack.pop().unwrap();
    if f.next < f.specs.len() {
        let spec = f.specs[f.next].clone();
        let importer = f.path.clone();
        f.next = f.next + 1;
        l.stack.push(f);
        proof {
            assert(loader_v(*l).0 =~= loader_v(before).0.drop_last().push(
                (loader_v(before).0.last().0, loader_v(before).0.last().1, loader_v(before).0.last().2 + 1),
            ));
            assert forall|i: int| 0 <= i < l.stack@.len() implies (#[trigger] l.stack@[i]).next
                <= l.stack@[i].specs@.len() by {
                if i < top {
                    assert(l.stack@[i] == before.stack@[i]);
                }
            }
            assert(stack_paths(*l) =~= stack_paths(before));
        }
        LoadAction::Resolve { importer, spec }
    } else {
        let p = f.path.clone();
        l.done.push(f.path);
        proof {
            assert(loader_v(*l).0 =~= loader_v(before).0.drop_last());
            assert(loader_v(*l).2 =~= loader_v(before).2.push(loader_v(before).0.last().0));
            assert forall|i: int| 0 <= i < l.stack@.len() implies (#[trigger] l.stack@[i]).next
                <= l.stack@[i].specs@.len() by {
                assert(l.stack@[i] == before.stack@[i]);
            }
            assert(stack_paths(*l) =~= stack_paths(before).drop_last());
            assert(strs(l.done@) =~= strs(before.done@).push(stack_paths(before).last()));
            lemma_drop_last_contains(stack_paths(before));
            lemma_push_contains(strs(before.done@), stack_paths(before).last());
        }
        LoadAction::Finished(p)
    }
}

/// A module's id for a cycle report: its id, or `?` when it has none.
pub open spec fn id_or_unknown(p: Seq<char>) -> Seq<char> {
    match path_stem(p) {
        Some(stem) => if is_module_ident(stem) {
            stem
        } else {
            "?"@
        },
        None => "?"@,
    }
}

/// `s` with each element equal to the one before it dropped.
pub open spec fn dedup_adjacent(s: Seq<Seq<char>>) -> Seq<Seq<char>>
    decreases s.len(),
{
    if s.len() == 0 {
        s
    } else {
        let d = dedup_adjacent(s.drop_last());
        if d.len() > 0 && d.last() == s.last() {
            d
        } else {
            d.push(s.last())
        }
    }
}

/// The elements of `s` joined with ` -> `.
pub open spec fn arrow_joined(s: Seq<Seq<char>>) -> Seq<char>
    decreases s.len(),
{
    if s.len() == 0 {
        Seq::empty()
    } else if s.len() == 1 {
        s[0]
    } else {
        arrow_joined(s.drop_last()) + " -> "@ + s.last()
    }
}

/// The report of an import of `path` that closes a cycle: the ids of the
/// modules being loaded and of `path`, in order, repeats side by side
/// dropped.
pub open spec fn cycle_message(stack_paths: Seq<Seq<char>>, path: Seq<char>) -> Seq<char> {
    "dependencia cíclica entre módulos: "@ + arrow_joined(
        dedup_adjacent(stack_paths.push(path).map_values(|p: Seq<char>| id_or_unknown(p))),
    )
}

/// Whether `s` holds `x`.
pub open spec fn holds(s: Seq<Seq<char>>, x: Seq<char>) -> bool {
    s.contains(x)
}

fn contains_str(v: &Vec<String>, x: &String) -> (r: bool)
    ensures
        r == holds(strs(v@), x@),
{
    let mut i: usize = 0;
    while i < v.len()
        invariant
            i <= v@.len(),
            forall|j: int| 0 <= j < i ==> v@[j]@ != x@,
        decreases v@.len() - i,
    {
        if str_eq(v[i].as_str(), x.as_str()) {
            proof {
                assert(strs(v@)[i as int] == x@);
            }
            return true;
        }
        i += 1;
    }
    false
}

fn id_text(p: &String) -> (r: String)
    ensures
        r@ == id_or_unknown(p@),
{
    match module_id(p.as_str()) {
        Ok(id) => id,
        Err(_) => {
            let q = crate::text::owned("?");
            proof {
                reveal_strlit("?");
            }
            q
        },
    }
}

fn push_unless_last(chain: &mut Vec<String>, id: String)
    ensures
        strs(final(chain)@) == (if old(chain)@.len() > 0 && old(chain)@.last()@ == id@ {
            strs(old(chain)@)
        } else {
            strs(old(chain)@).push(id@)
        }),
{
    let ghost before = chain@;
    let repeat = chain.len() > 0 && str_eq(chain[chain.len() - 1].as_str(), id.as_str());
    if !repeat {
        chain.push(id);
        proof {
            assert(strs(chain@) =~= strs(before).push(id@));
        }
    }
}

/// What to do with a resolved import of the module at `path`: `Ok(false)`
/// when it is already loaded, an error when it is being loaded (a cycle),
/// else `Ok(true)`: load it.
pub fn on_target(l: &Loader, path: &String) -> (r: Result<bool, String>)
    ensures
        ({
            let (st, _, done) = loader_v(*l);
            let paths = st.map_values(|f: (Seq<char>, Seq<Seq<char>>, nat)| f.0);
            if holds(done, path@) {
                r == Ok::<bool, String>(false)
            } else if holds(paths, path@) {
                r matches Err(m) && m@ == cycle_message(paths, path@)
            } else {
                r == Ok::<bool, String>(true)
            }
        }),
{
    let ghost st = loader_v(*l).0;
    let ghost paths = st.map_values(|f: (Seq<char>, Seq<Seq<char>>, nat)| f.0);
    if contains_str(&l.done, path) {
        return Ok(false);
    }
    let mut stack_paths: Vec<String> = Vec::new();
    let mut i: usize = 0;
    while i < l.stack.len()
        invariant
            i <= l.stack@.len(),
            stack_paths@.len() == i,
            paths == loader_v(*l).0.map_values(|f: (Seq<char>, Seq<Seq<char>>, nat)| f.0),
            paths.len() == l.stack@.len(),
            forall|j: int| 0 <= j < i ==> (#[trigger] stack_paths@[j])@ == paths[j],
        decreases l.stack@.len() - i,
    {
        stack_paths.push(l.stack[i].path.clone());
        i += 1;
    }
    proof {
        assert(strs(stack_paths@) =~= paths);
    }
    if !contains_str(&stack_paths, path) {
        return Ok(true);
    }
    let mut chain: Vec<String> = Vec::new();
    let mut k: usize = 0;
    let ghost all = paths.push(path@);
    let ghost ids = all.map_values(|p: Seq<char>| id_or_unknown(p));
    proof {
        assert(ids.take(0) =~= Seq::<Seq<char>>::empty());
    }
    while k < stack_paths.len()
        invariant
            k <= stack_paths@.len(),
            stack_paths@.len() == paths.len(),
            all == paths.push(path@),
            ids == all.map_values(|p: Seq<char>| id_or_unknown(p)),
            forall|j: int| 0 <= j < stack_paths@.len() ==> (#[trigger] stack_paths@[j])@ == paths[j],
            strs(chain@) == dedup_adjacent(ids.take(k as int)),
        decreases stack_paths@.len() - k,
    {
        let id = id_text(&stack_paths[k]);
        proof {
            assert(ids[k as int] == id@);
            assert(ids.take(k + 1).drop_last() =~= ids.take(k as int));
            assert(ids.take(k + 1).last() == ids[k as int]);
        }
        push_unless_last(&mut chain, id);
        k += 1;
    }
    let id = id_text(path);
    proof {
        assert(ids[k as int] == id@);
        assert(ids.take(k + 1).drop_last() =~= ids.take(k as int));
        assert(ids.take(k + 1).last() == ids[k as int]);
    }
    push_unless_last(&mut chain, id);
    proof {
        assert(ids.take((k + 1) as int) =~= ids);
    }
    let mut m = crate::text::owned("dependencia cíclica entre módulos: ");
    let ghost prefix = m@;
    let mut j: usize = 0;
    proof {
        reveal_strlit("dependencia cíclica entre módulos: ");
        assert(strs(chain@).take(0) =~= Seq::<Seq<char>>::empty());
    }
    while j < chain.len()
        invariant
            j <= chain@.len(),
            prefix == "dependencia cíclica entre módulos: "@,
            m@ == prefix + arrow_joined(strs(chain@).take(j as int)),
        decreases chain@.len() - j,
    {
        if j > 0 {
            m.append(" -> ");
        }
        m.append(chain[j].as_str());
        proof {
            reveal_strlit(" -> ");
            let t = strs(chain@).take(j + 1);
            assert(t.drop_last() =~= strs(chain@).take(j as int));
            if j == 0 {
                assert(t =~= seq![chain@[0]@]);
            }
        }
        j += 1;
    }
    proof {
        assert(strs(chain@).take(chain@.len() as int) =~= strs(chain@));
    }
    Err(m)
}

/// Each module is discovered once: the discovery order never repeats a
/// path, and it holds exactly the modules being loaded and those loaded.
pub proof fn law_modules_discovered_once(l: Loader)
    requires
        loader_wf(l),
    ensures
        forall|i: int, j: int| 0 <= i < j < l.order@.len() ==> l.order@[i]@ != l.order@[j]@,
        forall|p: Seq<char>|
            #[trigger] strs(l.order@).contains(p) <==> (stack_paths(l).contains(p) || strs(l.done@).contains(p)),
{
    assert forall|i: int, j: int| 0 <= i < j < l.order@.len() implies l.order@[i]@ != l.order@[j]@ by {
        assert(strs(l.order@)[i] == l.order@[i]@);
        assert(strs(l.order@)[j] == l.order@[j]@);
    }
}

/// The module at `path` (not loaded yet) has been read: it is discovered
/// and its imports come next.
pub fn on_loaded(l: &mut Loader, path: String, specs: Vec<String>)
    requires
        loader_wf(*old(l)),
        !stack_paths(*old(l)).contains(path@),
        !strs(old(l).done@).contains(path@),
    ensures
        loader_wf(*final(l)),
        loader_v(*final(l)) == (
            loader_v(*old(l)).0.push((path@, strs(specs@), 0nat)),
            loader_v(*old(l)).1.push(path@),
            loader_v(*old(l)).2,
        ),
{
    let ghost before = *l;
    l.order.push(path.clone());
    l.stack.push(Frame { path, specs, next: 0 });
    proof {
        assert(loader_v(*l).0 =~= loader_v(before).0.push((path@, strs(specs@), 0nat)));
        assert(loader_v(*l).1 =~= loader_v(before).1.push(path@));
        assert(strs(l.order@) =~= strs(before.order@).push(path@));
        assert(stack_paths(*l) =~= stack_paths(before).push(path@));
        lemma_push_contains(strs(before.order@), path@);
        lemma_push_contains(stack_paths(before), path@);
        assert forall|i: int| 0 <= i < l.stack@.len() implies (#[trigger] l.stack@[i]).next
            <= l.stack@[i].specs@.len() by {
            if i < before.stack@.len() {
                assert(l.stack@[i] == before.stack@[i]);
            }
        }
    }
}

} // verus!
